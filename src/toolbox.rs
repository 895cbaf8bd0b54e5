//! The tool-selection state machine: which tool is active, its direction, and
//! the current input and output texts.
use vstd::prelude::*;
use crate::outside::parsed_i64;
use crate::percent::{url_decode_output, url_decode_text, url_encode_output, url_encode_text};
use crate::transforms::{
    base64_decode_output, base64_decode_text, base64_encode_output, base64_encode_text,
    epoch_utc_output, generate_uuid, is_local_time_output, is_v4_uuid, json_format_text, json_output, missing_marker,
    sql_format_text, sql_output, unix_time_outputs,
};

verus! {

/// The tools on offer.
#[derive(Clone, Copy, Debug, PartialEq, Eq, Structural)]
pub enum ToolType {
    UrlEncoding,
    Base64,
    UUID,
    UnixTime,
    JsonFormat,
    SqlFormat,
}

/// Which way the two codec tools work; the other tools ignore it.
#[derive(Clone, Copy, Debug, PartialEq, Eq, Structural)]
pub enum Direction {
    Decode,
    Encode,
}

/// The state of the toolbox as the contracts see it.
pub struct ToolboxView {
    pub tool: ToolType,
    pub direction: Direction,
    pub input: Seq<char>,
    pub output: Seq<char>,
}

/// The output that an input gives under a tool and direction. The UUID and Unix
/// time tools keep the output they had: the first fills it only on request, the
/// second shows times derived from the input instead.
pub open spec fn transform_output(
    tool: ToolType,
    direction: Direction,
    input: Seq<char>,
    previous: Seq<char>,
) -> Seq<char> {
    match tool {
        ToolType::UrlEncoding => match direction {
            Direction::Encode => url_encode_output(input),
            Direction::Decode => url_decode_output(input),
        },
        ToolType::Base64 => match direction {
            Direction::Encode => base64_encode_output(input),
            Direction::Decode => base64_decode_output(input),
        },
        ToolType::JsonFormat => json_output(input),
        ToolType::SqlFormat => sql_output(input),
        ToolType::UUID => previous,
        ToolType::UnixTime => previous,
    }
}

/// The toolbox: the active tool, the codec direction, and the input and output texts.
pub struct TemplateApp {
    current_tool: ToolType,
    current_input: String,
    current_output: String,
    current_direction: Direction,
}

impl View for TemplateApp {
    type V = ToolboxView;

    closed spec fn view(&self) -> ToolboxView {
        ToolboxView {
            tool: self.current_tool,
            direction: self.current_direction,
            input: self.current_input@,
            output: self.current_output@,
        }
    }
}

impl TemplateApp {
    /// URL encoding selected, encoding, both texts empty.
    pub fn new() -> (r: TemplateApp)
        ensures
            r@.tool == ToolType::UrlEncoding,
            r@.direction == Direction::Encode,
            r@.input == Seq::<char>::empty(),
            r@.output == Seq::<char>::empty(),
    {
        TemplateApp {
            current_tool: ToolType::UrlEncoding,
            current_input: String::new(),
            current_output: String::new(),
            current_direction: Direction::Encode,
        }
    }

    pub fn tool(&self) -> (r: ToolType)
        ensures
            r == self@.tool,
    {
        self.current_tool
    }

    pub fn direction(&self) -> (r: Direction)
        ensures
            r == self@.direction,
    {
        self.current_direction
    }

    pub fn input(&self) -> (r: &str)
        ensures
            r@ == self@.input,
    {
        self.current_input.as_str()
    }

    pub fn output(&self) -> (r: &str)
        ensures
            r@ == self@.output,
    {
        self.current_output.as_str()
    }

    /// Empties both texts.
    pub fn clear(&mut self)
        ensures
            final(self)@.tool == old(self)@.tool,
            final(self)@.direction == old(self)@.direction,
            final(self)@.input == Seq::<char>::empty(),
            final(self)@.output == Seq::<char>::empty(),
    {
        self.current_input = String::new();
        self.current_output = String::new();
    }

    /// Makes `tool` the active tool; both texts are emptied, so nothing of the
    /// previous tool is shown.
    pub fn select_tool(&mut self, tool: ToolType)
        ensures
            final(self)@.tool == tool,
            final(self)@.direction == old(self)@.direction,
            final(self)@.input == Seq::<char>::empty(),
            final(self)@.output == Seq::<char>::empty(),
    {
        self.current_tool = tool;
        self.clear();
    }

    /// Sets the codec direction; both texts are emptied.
    pub fn select_direction(&mut self, direction: Direction)
        ensures
            final(self)@.tool == old(self)@.tool,
            final(self)@.direction == direction,
            final(self)@.input == Seq::<char>::empty(),
            final(self)@.output == Seq::<char>::empty(),
    {
        self.current_direction = direction;
        self.clear();
    }

    /// Recomputes the output from the input under the active tool and direction.
    pub fn recompute(&mut self)
        ensures
            final(self)@.tool == old(self)@.tool,
            final(self)@.direction == old(self)@.direction,
            final(self)@.input == old(self)@.input,
            final(self)@.output == transform_output(
                old(self)@.tool,
                old(self)@.direction,
                old(self)@.input,
                old(self)@.output,
            ),
    {
        let input = self.current_input.as_str();
        let out = match self.current_tool {
            ToolType::UrlEncoding => match self.current_direction {
                Direction::Encode => Some(url_encode_text(input)),
                Direction::Decode => Some(url_decode_text(input)),
            },
            ToolType::Base64 => match self.current_direction {
                Direction::Encode => Some(base64_encode_text(input)),
                Direction::Decode => Some(base64_decode_text(input)),
            },
            ToolType::JsonFormat => Some(json_format_text(input)),
            ToolType::SqlFormat => Some(sql_format_text(input)),
            ToolType::UUID => None,
            ToolType::UnixTime => None,
        };
        match out {
            Some(o) => {
                self.current_output = o;
            },
            None => {},
        }
    }

    /// Replaces the input, then recomputes the output.
    pub fn set_input(&mut self, text: String)
        ensures
            final(self)@.tool == old(self)@.tool,
            final(self)@.direction == old(self)@.direction,
            final(self)@.input == text@,
            final(self)@.output == transform_output(
                old(self)@.tool,
                old(self)@.direction,
                text@,
                old(self)@.output,
            ),
    {
        self.current_input = text;
        self.recompute();
    }

    /// Puts a new random UUID in the output.
    pub fn generate(&mut self)
        ensures
            final(self)@.tool == old(self)@.tool,
            final(self)@.direction == old(self)@.direction,
            final(self)@.input == old(self)@.input,
            is_v4_uuid(final(self)@.output),
    {
        self.current_output = generate_uuid();
    }

    /// The UTC and local times that the input shows as an epoch timestamp; both
    /// are `N/A` where the input is not an integer.
    pub fn unix_times(&self) -> (r: (String, String))
        ensures
            r.0@ == epoch_utc_output(self@.input),
            parsed_i64(self@.input) is None ==> r.1@ == missing_marker(),
            parsed_i64(self@.input) is Some ==> is_local_time_output(
                parsed_i64(self@.input)->Some_0,
                r.1@,
            ),
    {
        unix_time_outputs(self.current_input.as_str())
    }
}

impl Default for TemplateApp {
    fn default() -> (r: TemplateApp)
        ensures
            r@.tool == ToolType::UrlEncoding,
            r@.direction == Direction::Encode,
            r@.input == Seq::<char>::empty(),
            r@.output == Seq::<char>::empty(),
    {
        TemplateApp::new()
    }
}

} // verus!
