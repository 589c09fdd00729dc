use chat_client_core::settings::{parse_settings, serialize_settings, AppSettings};

#[test]
fn settings_defaults() {
    let s = AppSettings::default();
    assert_eq!(s.server_url, "ws://127.0.0.1:3001");
    assert_eq!(s.username, "");
}

#[test]
fn settings_round_trip() {
    let s = AppSettings { server_url: String::from("wss://chat.example:443"), username: String::from("Bas") };
    let text = serialize_settings(&s);
    assert_eq!(parse_settings(&text), Some(s));
}

#[test]
fn settings_bad_text_loads_as_nothing() {
    assert_eq!(parse_settings("not json"), None);
    assert_eq!(parse_settings("{\"server_url\":\"x\"}"), None);
    assert_eq!(parse_settings("[]"), None);
}

#[test]
fn settings_exact_spelling() {
    let s = AppSettings { server_url: String::from("ws://h"), username: String::from("n") };
    assert_eq!(serialize_settings(&s), "{\"server_url\":\"ws://h\",\"username\":\"n\"}");
}
