//! Developer conveniences (percent-encoding, Base64, UUIDs, Unix time, JSON and
//! SQL formatting) behind a small tool-selection state machine.

pub mod outside;
pub mod percent;
pub mod toolbox;
pub mod transforms;

pub use percent::{url_decode_text, url_encode_text};
pub use toolbox::{Direction, TemplateApp, ToolType, ToolboxView};
pub use transforms::{
    base64_decode_text, base64_encode_text, format_uuid, generate_uuid, json_format_text,
    local_time_text, now_utc_text, overflowing_placeholder, parse_epoch, sql_format_text, text_from_decoded, text_or,
    unix_time_outputs, utc_time_text, zoned_time_text,
};
