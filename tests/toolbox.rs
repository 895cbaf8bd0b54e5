use dev_toolbox::{Direction, TemplateApp, ToolType};

#[test]
fn starts_on_url_encoding_with_empty_texts() {
    let app = TemplateApp::default();
    assert_eq!(app.tool(), ToolType::UrlEncoding);
    assert_eq!(app.direction(), Direction::Encode);
    assert_eq!(app.input(), "");
    assert_eq!(app.output(), "");
}

#[test]
fn selecting_any_tool_clears_both_texts() {
    let tools = [
        ToolType::UrlEncoding,
        ToolType::Base64,
        ToolType::UUID,
        ToolType::UnixTime,
        ToolType::JsonFormat,
        ToolType::SqlFormat,
    ];
    for from in tools {
        for to in tools {
            let mut app = TemplateApp::new();
            app.select_tool(from);
            app.set_input("a b".to_string());
            app.generate();
            app.select_tool(to);
            assert_eq!(app.tool(), to);
            assert_eq!(app.input(), "");
            assert_eq!(app.output(), "");
        }
    }
}

#[test]
fn selecting_direction_clears_both_texts() {
    for dir in [Direction::Encode, Direction::Decode] {
        let mut app = TemplateApp::new();
        app.select_tool(ToolType::Base64);
        app.set_input("hello".to_string());
        assert_ne!(app.output(), "");
        app.select_direction(dir);
        assert_eq!(app.direction(), dir);
        assert_eq!(app.input(), "");
        assert_eq!(app.output(), "");
    }
}

#[test]
fn switching_tools_shows_no_previous_output() {
    let mut app = TemplateApp::new();
    app.select_tool(ToolType::JsonFormat);
    app.set_input("{\"a\":1}".to_string());
    assert_eq!(app.output(), "{\n  \"a\": 1\n}");
    app.select_tool(ToolType::SqlFormat);
    assert_eq!(app.output(), "");
}

#[test]
fn input_drives_url_tool_both_ways() {
    let mut app = TemplateApp::new();
    app.set_input("a b".to_string());
    assert_eq!(app.output(), "a%20b");
    app.select_direction(Direction::Decode);
    app.set_input("a%20b".to_string());
    assert_eq!(app.output(), "a b");
    app.set_input("%FF".to_string());
    assert_eq!(app.output(), "Invalid");
}

#[test]
fn input_drives_base64_tool_both_ways() {
    let mut app = TemplateApp::new();
    app.select_tool(ToolType::Base64);
    app.set_input("hello".to_string());
    assert_eq!(app.output(), "aGVsbG8=");
    app.select_direction(Direction::Decode);
    app.set_input("aGVsbG8=".to_string());
    assert_eq!(app.output(), "hello");
    app.set_input("%%%".to_string());
    assert_eq!(app.output(), "");
}

#[test]
fn input_drives_json_and_sql_tools() {
    let mut app = TemplateApp::new();
    app.select_tool(ToolType::JsonFormat);
    app.set_input("{invalid".to_string());
    assert_eq!(app.output(), "Invalid");
    app.select_tool(ToolType::SqlFormat);
    app.set_input("select * from t where a=1".to_string());
    assert!(app.output().starts_with("SELECT\n    *\nFROM"));
}

#[test]
fn uuid_tool_ignores_input() {
    let mut app = TemplateApp::new();
    app.select_tool(ToolType::UUID);
    app.generate();
    let first = app.output().to_string();
    assert_eq!(first.len(), 36);
    app.set_input("anything".to_string());
    assert_eq!(app.output(), first);
    app.recompute();
    assert_eq!(app.output(), first);
}

#[test]
fn unix_time_tool_derives_times_from_input() {
    let mut app = TemplateApp::new();
    app.select_tool(ToolType::UnixTime);
    app.set_input("0".to_string());
    assert_eq!(app.output(), "");
    assert_eq!(app.unix_times().0, "1970-01-01 00:00:00");
    app.set_input("not-a-number".to_string());
    assert_eq!(
        app.unix_times(),
        ("N/A".to_string(), "N/A".to_string())
    );
}

#[test]
fn clear_empties_both_texts() {
    let mut app = TemplateApp::new();
    app.set_input("x y".to_string());
    app.clear();
    assert_eq!(app.input(), "");
    assert_eq!(app.output(), "");
    assert_eq!(app.tool(), ToolType::UrlEncoding);
}
