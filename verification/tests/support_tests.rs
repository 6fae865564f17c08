//! Tests of the string helpers, the outbound message channel, and the log
//! level data.

use plugin_host::bridge::{HostBridge, RecordingTransport};
use plugin_host::logging::{ColorCode, LogLevel};
use plugin_host::errors::{HostError, LoaderError};
use plugin_host::message::{
    legacy_payload, refresh_ui, send_message_to_frontend, send_message_to_frontend_legacy,
    FrontendEvent, MessageType,
};
use plugin_host::strutil::{parse_bool, parse_index, starts_with_str, str_eq, u64_string,
    underscore_spaces};

#[test]
fn decimal_rendering_is_exact() {
    assert_eq!(u64_string(0), "0");
    assert_eq!(u64_string(7), "7");
    assert_eq!(u64_string(1234), "1234");
    assert_eq!(u64_string(u64::MAX), "18446744073709551615");
}

#[test]
fn string_comparisons_work_on_characters() {
    assert!(str_eq("", ""));
    assert!(str_eq("héllo", "héllo"));
    assert!(!str_eq("a", "ab"));
    assert!(starts_with_str("button_3", "button_"));
    assert!(!starts_with_str("butt", "button_"));
    assert_eq!(underscore_spaces("a b  c"), "a_b__c");
    assert_eq!(underscore_spaces("none"), "none");
}

#[test]
fn index_parsing_accepts_digit_strings_only() {
    assert_eq!(parse_index("0"), Some(0));
    assert_eq!(parse_index("42"), Some(42));
    assert_eq!(parse_index(""), None);
    assert_eq!(parse_index("4a"), None);
    assert_eq!(parse_index("-1"), None);
    assert_eq!(parse_index("99999999999999999999999999"), None);
}

#[test]
fn bool_parsing_accepts_the_two_words() {
    assert_eq!(parse_bool("true"), Some(true));
    assert_eq!(parse_bool("false"), Some(false));
    assert_eq!(parse_bool("True"), None);
    assert_eq!(parse_bool(""), None);
}

#[test]
fn legacy_payload_embeds_plugin_and_response() {
    assert_eq!(
        legacy_payload("demo", "pong"),
        "{\"plugin\": \"demo\", \"response\": \"pong\"}"
    );
}

#[test]
fn plain_messages_reach_the_transport() {
    let mut bridge = HostBridge::new(RecordingTransport::new());
    assert!(send_message_to_frontend(
        &mut bridge,
        "demo",
        "hello",
        MessageType::Success
    ));
    assert!(send_message_to_frontend_legacy(&mut bridge, "demo", "pong"));
    assert_eq!(bridge.transport.events.len(), 2);
    match &bridge.transport.events[0] {
        FrontendEvent::Message { plugin_id, content, message_type, .. } => {
            assert_eq!(plugin_id, "demo");
            assert_eq!(content, "hello");
            assert_eq!(*message_type, MessageType::Success);
        }
        _ => panic!("expected a plain message"),
    }
    match &bridge.transport.events[1] {
        FrontendEvent::MessageResponse { payload } => {
            assert_eq!(payload, "{\"plugin\": \"demo\", \"response\": \"pong\"}");
        }
        _ => panic!("expected a legacy response"),
    }
}

#[test]
fn message_type_wire_names() {
    assert_eq!(MessageType::Normal.as_str(), "normal");
    assert_eq!(MessageType::Success.as_str(), "success");
    assert_eq!(MessageType::Warning.as_str(), "warning");
    assert_eq!(MessageType::Error.as_str(), "error");
    assert_eq!(MessageType::Info.as_str(), "info");
}

#[test]
fn log_levels_and_colours() {
    assert_eq!(LogLevel::Error.label(), "ERROR");
    assert_eq!(LogLevel::Trace.label(), "TRACE");
    assert_eq!(ColorCode::Black.code(), 30);
    assert_eq!(ColorCode::White.code(), 37);
    assert_eq!(ColorCode::BrightRed.code(), 91);
    assert_eq!(ColorCode::BrightWhite.code(), 97);
}

#[test]
fn loader_failures_map_to_their_host_errors() {
    assert_eq!(HostError::from_loader(LoaderError::Load), HostError::LoadError);
    assert_eq!(HostError::from_loader(LoaderError::Symbol), HostError::SymbolError);
    assert_eq!(
        HostError::from_loader(LoaderError::Creation),
        HostError::CreationError
    );
}

#[test]
fn refresh_requests_reach_the_transport() {
    let mut bridge = HostBridge::new(RecordingTransport::new());
    assert!(refresh_ui(&mut bridge, "demo"));
    match &bridge.transport.events[0] {
        FrontendEvent::UiRefreshed { plugin_id } => assert_eq!(plugin_id, "demo"),
        _ => panic!("expected a refresh event"),
    }
}
