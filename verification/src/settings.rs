//! The persisted settings: the server URL and the remembered user name, as
//! one small JSON object. The I/O shell reads and writes the file; parsing
//! and spelling the object live here, over the library's own codec, and any
//! load failure falls back to the defaults.
use vstd::prelude::*;

use crate::json::{json_from_chars, json_view, parse_json, ser_json, write_json, JsonV, JsonValue};
use crate::protocol::req_str;
use crate::text::{chars_to_string, str_to_chars};

verus! {

/// What the client remembers across runs.
#[derive(Debug, Clone, PartialEq)]
pub struct AppSettings {
    pub server_url: String,
    pub username: String,
}

pub struct AppSettingsV {
    pub server_url: Seq<char>,
    pub username: Seq<char>,
}

impl View for AppSettings {
    type V = AppSettingsV;

    open spec fn view(&self) -> AppSettingsV {
        AppSettingsV { server_url: self.server_url@, username: self.username@ }
    }
}

impl Default for AppSettings {
    /// A local development server and no remembered name.
    fn default() -> (r: AppSettings)
        ensures
            r.server_url@ == "ws://127.0.0.1:3001"@,
            r.username@ == Seq::<char>::empty(),
    {
        let url = str_to_chars("ws://127.0.0.1:3001");
        AppSettings { server_url: chars_to_string(&url), username: String::new() }
    }
}

/// The settings a stored text holds, when it is a JSON object carrying both
/// fields as strings; anything else loads as nothing, and the caller falls
/// back to the defaults.
pub open spec fn settings_of(s: Seq<char>) -> Option<AppSettingsV> {
    match parse_json(s) {
        Option::Some(JsonV::Obj(ms)) => match (req_str(ms, "server_url"@), req_str(
            ms,
            "username"@,
        )) {
            (Option::Some(u), Option::Some(n)) => Option::Some(
                AppSettingsV { server_url: u, username: n },
            ),
            _ => Option::None,
        },
        _ => Option::None,
    }
}

/// Reads stored settings text.
pub fn parse_settings(text: &str) -> (r: Option<AppSettings>)
    ensures
        (match r {
            Option::None => settings_of(text@) is None,
            Option::Some(s) => settings_of(text@) == Option::Some(s@),
        }),
{
    let chars = str_to_chars(text);
    match json_from_chars(&chars) {
        Option::Some(JsonValue::Obj(ms)) => {
            let url = crate::protocol::get_str_field(&ms, "server_url");
            let name = crate::protocol::get_str_field(&ms, "username");
            match (url, name) {
                (Option::Some(u), Option::Some(n)) => Some(
                    AppSettings { server_url: u, username: n },
                ),
                _ => None,
            }
        },
        _ => None,
    }
}

/// The frame the settings are stored as.
pub open spec fn settings_json(s: AppSettingsV) -> JsonV {
    JsonV::Obj(
        seq![
            ("server_url"@, JsonV::Str(s.server_url)),
            ("username"@, JsonV::Str(s.username)),
        ],
    )
}

/// Spells the settings as their stored JSON object.
pub fn serialize_settings(s: &AppSettings) -> (r: String)
    ensures
        r@ == ser_json(settings_json(s@)),
{
    let mut ms: Vec<(Vec<char>, JsonValue)> = Vec::new();
    ms.push((str_to_chars("server_url"), JsonValue::Str(str_to_chars(s.server_url.as_str()))));
    ms.push((str_to_chars("username"), JsonValue::Str(str_to_chars(s.username.as_str()))));
    let jv = JsonValue::Obj(ms);
    proof {
        if let JsonV::Obj(want) = settings_json(s@) {
            assert(crate::json::membs_view(jv->Obj_0@) =~= want);
        }
    }
    let mut out: Vec<char> = Vec::new();
    write_json(&mut out, &jv);
    proof {
        assert(Seq::<char>::empty() + ser_json(json_view(jv)) =~= ser_json(json_view(jv)));
    }
    chars_to_string(&out)
}

} // verus!
