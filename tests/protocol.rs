use overlay_core::channel::{Action, Channel, Event, ReadOutcome, dispatch};
use overlay_core::command::{
    Command, ConfigPayload, DecodeError, ShowPayload, command_from_json, decode_command,
    u64_from_text,
};
use overlay_core::json::{Json, find_member, parse_json, same_text};

fn line(s: &str) -> ReadOutcome {
    ReadOutcome::Line(s.to_string())
}

fn foo_payload() -> ShowPayload {
    ShowPayload {
        repo_name: "foo".to_string(),
        style: "bar".to_string(),
        color_scheme: "dark".to_string(),
        duration: 3000,
    }
}

const SHOW_FOO: &str =
    r#"{"type":"SHOW","payload":{"repoName":"foo","style":"bar","colorScheme":"dark","duration":3000}}"#;

#[test]
fn show_line_emits_show_event_with_same_payload() {
    let mut ch = Channel::new();
    let a = ch.step(line(SHOW_FOO));
    assert_eq!(a, Action::Emit(Event::ShowOverlay(foo_payload())));
    if let Action::Emit(e) = &a {
        assert_eq!(e.name(), "show-overlay");
    }
    assert!(ch.reads_on());
}

#[test]
fn hide_line_emits_hide_event() {
    let mut ch = Channel::new();
    let a = ch.step(line(r#"{"type":"HIDE"}"#));
    assert_eq!(a, Action::Emit(Event::HideOverlay));
    assert_eq!(Event::HideOverlay.name(), "hide-overlay");
}

#[test]
fn config_line_emits_config_event() {
    let mut ch = Channel::new();
    let a = ch.step(line(r#"{"type":"CONFIG","payload":{"opacity":0.5,"fontSize":"14px"}}"#));
    let expected = ConfigPayload { opacity: "0.5".to_string(), font_size: "14px".to_string() };
    assert_eq!(a, Action::Emit(Event::ConfigOverlay(expected.clone())));
    assert_eq!(Event::ConfigOverlay(expected).name(), "config-overlay");
}

#[test]
fn config_opacity_may_be_an_integer() {
    let c = decode_command(r#"{"type":"CONFIG","payload":{"opacity":1,"fontSize":"large"}}"#);
    assert_eq!(
        c,
        Ok(Command::Config {
            payload: ConfigPayload { opacity: "1".to_string(), font_size: "large".to_string() }
        })
    );
}

#[test]
fn not_json_is_rejected_and_reading_goes_on() {
    let mut ch = Channel::new();
    assert_eq!(ch.step(line("not-json")), Action::RejectLine(DecodeError::NotJson));
    assert!(ch.reads_on());
    assert_eq!(ch.step(line(r#"{"type":"HIDE"}"#)), Action::Emit(Event::HideOverlay));
}

#[test]
fn shutdown_exits_with_status_zero() {
    let mut ch = Channel::new();
    assert_eq!(ch.step(line(r#"{"type":"SHUTDOWN"}"#)), Action::Exit(0));
    assert!(!ch.reads_on());
    assert_eq!(ch.step(line(SHOW_FOO)), Action::Stop);
}

#[test]
fn malformed_then_wellformed_emits_one_event() {
    let mut ch = Channel::new();
    let mut events = Vec::new();
    for input in [line("{\"type\":"), line(SHOW_FOO)] {
        if let Action::Emit(e) = ch.step(input) {
            events.push(e);
        }
    }
    assert_eq!(events, vec![Event::ShowOverlay(foo_payload())]);
}

#[test]
fn events_follow_line_order() {
    let mut ch = Channel::new();
    let inputs = [
        line(r#"{"type":"HIDE"}"#),
        line(SHOW_FOO),
        line(r#"{"type":"CONFIG","payload":{"opacity":0.25,"fontSize":"12"}}"#),
        line(r#"{"type":"HIDE"}"#),
    ];
    let mut names = Vec::new();
    for input in inputs {
        if let Action::Emit(e) = ch.step(input) {
            names.push(e.name());
        }
    }
    assert_eq!(names, vec!["hide-overlay", "show-overlay", "config-overlay", "hide-overlay"]);
}

#[test]
fn read_failure_is_reported_and_reading_goes_on() {
    let mut ch = Channel::new();
    let a = ch.step(ReadOutcome::Failed("broken pipe".to_string()));
    assert_eq!(a, Action::ReportReadFailure("broken pipe".to_string()));
    assert!(ch.reads_on());
}

#[test]
fn end_of_input_stops_reading() {
    let mut ch = Channel::new();
    assert_eq!(ch.step(ReadOutcome::End), Action::Stop);
    assert!(!ch.reads_on());
    assert_eq!(ch.step(line(r#"{"type":"HIDE"}"#)), Action::Stop);
}

#[test]
fn each_decode_error_has_its_input() {
    assert_eq!(decode_command("[1,2]"), Err(DecodeError::NotAnObject));
    assert_eq!(decode_command(r#"{"payload":{}}"#), Err(DecodeError::MissingType));
    assert_eq!(decode_command(r#"{"type":7}"#), Err(DecodeError::MissingType));
    assert_eq!(decode_command(r#"{"type":"show"}"#), Err(DecodeError::UnknownType));
    assert_eq!(decode_command(r#"{"type":"SHOW"}"#), Err(DecodeError::BadPayload));
    assert_eq!(decode_command(r#"{"type":"CONFIG","payload":{"opacity":"x","fontSize":"1"}}"#), Err(DecodeError::BadPayload));
}

#[test]
fn show_duration_must_be_an_unsigned_integer() {
    let with = |d: &str| {
        decode_command(&format!(
            r#"{{"type":"SHOW","payload":{{"repoName":"r","style":"s","colorScheme":"c","duration":{}}}}}"#,
            d
        ))
    };
    assert_eq!(with("-1"), Err(DecodeError::BadPayload));
    assert_eq!(with("2.5"), Err(DecodeError::BadPayload));
    assert_eq!(with("1e3"), Err(DecodeError::BadPayload));
    assert_eq!(with("\"3000\""), Err(DecodeError::BadPayload));
    assert_eq!(with("18446744073709551616"), Err(DecodeError::BadPayload));
    match with("18446744073709551615") {
        Ok(Command::Show { payload }) => assert_eq!(payload.duration, u64::MAX),
        other => panic!("unexpected {:?}", other),
    }
}

#[test]
fn extra_members_are_ignored() {
    let c = decode_command(r#"{"extra":[1,{"a":null}],"type":"HIDE","payload":true}"#);
    assert_eq!(c, Ok(Command::Hide));
}

#[test]
fn number_text_reads_as_u64() {
    assert_eq!(u64_from_text("3000"), Some(3000));
    assert_eq!(u64_from_text("0"), Some(0));
    assert_eq!(u64_from_text(""), None);
    assert_eq!(u64_from_text("12a"), None);
    assert_eq!(u64_from_text("18446744073709551615"), Some(u64::MAX));
    assert_eq!(u64_from_text("18446744073709551616"), None);
}

#[test]
fn parsed_tree_has_members_and_number_text() {
    let j = parse_json(" {\"a\": 1, \"b\": [true, null], \"c\": \"x\"} ").unwrap();
    match &j {
        Json::Object(fs) => {
            assert_eq!(find_member(fs, "a"), Some(&Json::Number("1".to_string())));
            assert_eq!(
                find_member(fs, "b"),
                Some(&Json::Array(vec![Json::Bool(true), Json::Null]))
            );
            assert_eq!(find_member(fs, "c"), Some(&Json::Str("x".to_string())));
            assert_eq!(find_member(fs, "d"), None);
        }
        other => panic!("not an object: {:?}", other),
    }
    assert_eq!(parse_json("{"), None);
}

#[test]
fn command_from_tree() {
    let j = Json::Object(vec![("type".to_string(), Json::Str("SHUTDOWN".to_string()))]);
    assert_eq!(command_from_json(&j), Ok(Command::Shutdown));
    assert_eq!(command_from_json(&Json::Null), Err(DecodeError::NotAnObject));
}

#[test]
fn dispatch_maps_commands_to_actions() {
    assert_eq!(dispatch(Command::Shutdown), Action::Exit(0));
    assert_eq!(
        dispatch(Command::Show { payload: foo_payload() }),
        Action::Emit(Event::ShowOverlay(foo_payload()))
    );
}

#[test]
fn texts_compare_by_characters() {
    assert!(same_text("SHOW", "SHOW"));
    assert!(!same_text("SHOW", "SHOWN"));
    assert!(!same_text("SHOW", "show"));
    assert!(same_text("", ""));
}
