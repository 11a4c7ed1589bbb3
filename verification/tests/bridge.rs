//! End-to-end and component tests for the notification bridge.

use notify_bridge::config::build_config;
use notify_bridge::decode::decode_request;
use notify_bridge::encode::{
    decode_tagged, encode_status, encode_structured, encode_tagged, to_result_str,
};
use notify_bridge::icon::{classify_binding, resolve_icon, BindingOutcome};
use notify_bridge::request::{
    outcome_from_dispatch, outcome_from_parse_error, IconSpec, NotificationRequest, Outcome,
    Stage, TimeoutPolicy,
};
use notify_bridge::terminal_icon;

fn bytes(s: &str) -> Vec<u8> {
    s.as_bytes().to_vec()
}

fn decode(s: &str) -> Result<NotificationRequest, notify_bridge::request::ParseError> {
    decode_request(&bytes(s))
}

#[test]
fn title_only_decodes_with_defaults() {
    let req = decode(r#"{"title":"Hello"}"#).unwrap();
    assert_eq!(req.title, bytes("Hello"));
    assert!(req.subtitle.is_none());
    assert!(req.body.is_none());
    assert!(req.icon.is_none());
    assert!(req.sound.is_none());
    assert!(req.timeout.is_none());
    assert_eq!(resolve_icon(&req.icon, false), bytes("terminal"));
}

#[test]
fn whitespace_is_tolerated() {
    let req = decode(" \t\r\n{ \"title\" : \"a\" } \n").unwrap();
    assert_eq!(req.title, bytes("a"));
}

#[test]
fn missing_title_is_rejected() {
    assert!(decode(r#"{"body":"x"}"#).is_err());
    assert!(decode(r#"{}"#).is_err());
}

#[test]
fn empty_title_is_rejected() {
    assert!(decode(r#"{"title":""}"#).is_err());
}

#[test]
fn malformed_input_is_rejected_and_tagged() {
    let e = decode("this is not an object").unwrap_err();
    assert!(!e.message.is_empty());
    let o = outcome_from_parse_error(e);
    match &o {
        Outcome::Failure { stage, message } => {
            assert_eq!(*stage, Stage::ParsingInput);
            assert!(!message.is_empty());
        }
        Outcome::Success => panic!("parse failure must not be a success"),
    }
}

#[test]
fn string_escapes_are_decoded() {
    let req = decode(r#"{"title":"a\"b\\c\/d\ne\tf"}"#).unwrap();
    assert_eq!(req.title, bytes("a\"b\\c/d\ne\tf"));
}

#[test]
fn unknown_escape_is_rejected() {
    assert!(decode(r#"{"title":"a\qb"}"#).is_err());
}

#[test]
fn body_field_is_read() {
    let req = decode(r#"{"title":"t","body":"hello body"}"#).unwrap();
    assert_eq!(req.body, Some(bytes("hello body")));
}

#[test]
fn message_is_an_alias_of_body() {
    let req = decode(r#"{"title":"t","message":"aliased"}"#).unwrap();
    assert_eq!(req.body, Some(bytes("aliased")));
}

#[test]
fn body_and_message_together_are_rejected() {
    assert!(decode(r#"{"title":"t","body":"a","message":"b"}"#).is_err());
}

#[test]
fn duplicate_title_is_rejected() {
    assert!(decode(r#"{"title":"a","title":"b"}"#).is_err());
}

#[test]
fn unknown_fields_are_skipped() {
    let req = decode(
        r#"{"urgency":7,"title":"t","extra":{"x":[1,2,{"y":"z,}"}],"b":true},"sound":"ping"}"#,
    )
    .unwrap();
    assert_eq!(req.title, bytes("t"));
    assert_eq!(req.sound, Some(bytes("ping")));
}

#[test]
fn trailing_garbage_is_rejected() {
    assert!(decode(r#"{"title":"t"} extra"#).is_err());
    assert!(decode(r#"{"title":"t",}"#).is_err());
}

#[test]
fn plain_string_icon_is_a_theme_name() {
    let req = decode(r#"{"title":"t","icon":"dialog-information"}"#).unwrap();
    match &req.icon {
        Some(IconSpec::ThemeName(n)) => assert_eq!(*n, bytes("dialog-information")),
        _ => panic!("expected a theme-name icon"),
    }
}

#[test]
fn tagged_icon_variants_decode() {
    let req = decode(r#"{"title":"t","icon":{"type":"app","value":"Finder"}}"#).unwrap();
    match &req.icon {
        Some(IconSpec::AppIdentity(n)) => assert_eq!(*n, bytes("Finder")),
        _ => panic!("expected an app-identity icon"),
    }
    let req = decode(r#"{"title":"t","icon":{"value":"/tmp/a.png","type":"path"}}"#).unwrap();
    match &req.icon {
        Some(IconSpec::FilePath(p)) => assert_eq!(*p, bytes("/tmp/a.png")),
        _ => panic!("expected a file-path icon"),
    }
    let req = decode(r#"{"title":"t","icon":{"type":"name","value":"mail-unread"}}"#).unwrap();
    match &req.icon {
        Some(IconSpec::ThemeName(n)) => assert_eq!(*n, bytes("mail-unread")),
        _ => panic!("expected a theme-name icon"),
    }
}

#[test]
fn unknown_icon_discriminant_is_rejected() {
    assert!(decode(r#"{"title":"t","icon":{"type":"emoji","value":"x"}}"#).is_err());
    assert!(decode(r#"{"title":"t","icon":{"type":"app"}}"#).is_err());
}

#[test]
fn timeout_never_decodes() {
    let req = decode(r#"{"title":"t","timeout":{"type":"Never"}}"#).unwrap();
    assert_eq!(req.timeout, Some(TimeoutPolicy::Never));
}

#[test]
fn timeout_milliseconds_decodes() {
    let req = decode(r#"{"title":"t","timeout":{"type":"Milliseconds","value":1500}}"#).unwrap();
    assert_eq!(req.timeout, Some(TimeoutPolicy::ExpireAfter(1500)));
    let req = decode(r#"{"title":"t","timeout":{"value":4294967295,"type":"Milliseconds"}}"#)
        .unwrap();
    assert_eq!(req.timeout, Some(TimeoutPolicy::ExpireAfter(u32::MAX)));
}

#[test]
fn timeout_out_of_range_or_untagged_is_rejected() {
    assert!(decode(r#"{"title":"t","timeout":{"type":"Milliseconds","value":4294967296}}"#)
        .is_err());
    assert!(decode(r#"{"title":"t","timeout":{"type":"Soon"}}"#).is_err());
    assert!(decode(r#"{"title":"t","timeout":{"type":"Never","value":1}}"#).is_err());
    assert!(decode(r#"{"title":"t","timeout":1500}"#).is_err());
}

#[test]
fn absent_icon_resolves_to_terminal() {
    assert_eq!(resolve_icon(&None, false), bytes("terminal"));
    assert_eq!(resolve_icon(&None, true), bytes("terminal"));
    assert_eq!(terminal_icon(), bytes("terminal"));
}

#[test]
fn missing_file_path_falls_back_to_terminal() {
    let icon = Some(IconSpec::FilePath(bytes("/definitely/does/not/exist")));
    assert_eq!(resolve_icon(&icon, false), bytes("terminal"));
}

#[test]
fn existing_file_path_resolves_to_itself() {
    let icon = Some(IconSpec::FilePath(bytes("/tmp/exists.png")));
    assert_eq!(resolve_icon(&icon, true), bytes("/tmp/exists.png"));
}

#[test]
fn app_identity_resolves_to_the_name_itself() {
    let icon = Some(IconSpec::AppIdentity(bytes("Foo")));
    assert_eq!(resolve_icon(&icon, false), bytes("Foo"));
    assert_eq!(resolve_icon(&icon, true), bytes("Foo"));
}

#[test]
fn repeated_binding_is_suppressed() {
    // First binding succeeds, a repeat answers "already bound": neither
    // produces a diagnostic, let alone a propagated error.
    assert!(classify_binding(BindingOutcome::Bound).is_none());
    assert!(classify_binding(BindingOutcome::AlreadyBound).is_none());
    // Any other binding failure is only a non-fatal diagnostic.
    let d = classify_binding(BindingOutcome::BindingFailed(bytes("no permission")));
    assert_eq!(d, Some(bytes("no permission")));
}

#[test]
fn builder_merges_request_and_icon() {
    let req = decode(r#"{"title":"Build finished","body":"All tests passed"}"#).unwrap();
    let icon = resolve_icon(&req.icon, false);
    let cfg = build_config(req, icon);
    assert_eq!(cfg.summary, bytes("Build finished"));
    assert_eq!(cfg.body, Some(bytes("All tests passed")));
    assert_eq!(cfg.icon, bytes("terminal"));
    assert!(cfg.subtitle.is_none());
    assert!(cfg.sound.is_none());
    assert!(cfg.timeout.is_none());
}

#[test]
fn end_to_end_success_in_structured_mode() {
    let req = decode(r#"{"title":"Build finished","body":"All tests passed"}"#).unwrap();
    let icon = resolve_icon(&req.icon, false);
    let _cfg = build_config(req, icon);
    let outcome = outcome_from_dispatch(Ok(()));
    assert_eq!(encode_structured(&outcome), bytes(r#"{"err":null,"ok":{}}"#));
    assert_eq!(encode_status(&outcome), 0);
}

#[test]
fn end_to_end_icon_path_reaches_the_config() {
    let req = decode(r#"{"title":"t","icon":{"type":"path","value":"/tmp/exists.png"}}"#)
        .unwrap();
    // The file exists, so the reference is the path itself, byte for byte.
    let icon = resolve_icon(&req.icon, true);
    let cfg = build_config(req, icon);
    assert_eq!(cfg.icon, bytes("/tmp/exists.png"));
}

#[test]
fn parse_failure_is_reported_in_every_mode() {
    let e = decode("\x00\x01\x02").unwrap_err();
    let msg = e.message.clone();
    let o = outcome_from_parse_error(e);
    assert_eq!(encode_status(&o), 1);
    let structured = encode_structured(&o);
    let text = String::from_utf8(structured).unwrap();
    assert!(text.starts_with(r#"{"err":""#));
    assert!(text.ends_with(r#"","ok":null}"#));
    let tagged = encode_tagged(&o);
    let text = String::from_utf8(tagged[4..].to_vec()).unwrap();
    assert!(text.contains(r#""when":"parsing_input""#));
    assert!(text.contains(&String::from_utf8(msg).unwrap()));
}

#[test]
fn dispatch_failure_is_tagged_with_the_sending_stage() {
    let o = outcome_from_dispatch(Err(bytes("daemon unreachable")));
    let tagged = encode_tagged(&o);
    let text = String::from_utf8(tagged[4..].to_vec()).unwrap();
    assert_eq!(
        text,
        r#"{"type":"error","when":"sending_notification","message":"daemon unreachable"}"#
    );
}

#[test]
fn length_prefix_frames_the_payload() {
    let framed = to_result_str(bytes("abc"));
    assert_eq!(framed, vec![0, 0, 0, 3, b'a', b'b', b'c']);
}

#[test]
fn tagged_success_round_trips() {
    let buf = encode_tagged(&Outcome::Success);
    assert_eq!(&buf[0..4], &[0, 0, 0, 18]);
    assert_eq!(&buf[4..], bytes(r#"{"type":"success"}"#).as_slice());
    match decode_tagged(&buf) {
        Some(Outcome::Success) => {}
        _ => panic!("expected the success outcome back"),
    }
}

#[test]
fn tagged_failure_round_trips_with_escaping() {
    let o = Outcome::Failure {
        stage: Stage::SendingNotification,
        message: bytes(r#"quote " here"#),
    };
    let buf = encode_tagged(&o);
    let text = String::from_utf8(buf[4..].to_vec()).unwrap();
    assert!(text.contains(r#"quote \" here"#));
    match decode_tagged(&buf) {
        Some(Outcome::Failure { stage, message }) => {
            assert_eq!(stage, Stage::SendingNotification);
            assert_eq!(message, bytes(r#"quote " here"#));
        }
        _ => panic!("expected the failure outcome back"),
    }
}

#[test]
fn backslashes_round_trip_too() {
    let o = Outcome::Failure {
        stage: Stage::ParsingInput,
        message: bytes(r#"a\b"c\"#),
    };
    let buf = encode_tagged(&o);
    match decode_tagged(&buf) {
        Some(Outcome::Failure { stage, message }) => {
            assert_eq!(stage, Stage::ParsingInput);
            assert_eq!(message, bytes(r#"a\b"c\"#));
        }
        _ => panic!("expected the failure outcome back"),
    }
}

#[test]
fn corrupt_tagged_buffers_are_refused() {
    assert!(decode_tagged(&vec![0, 0, 0]).is_none());
    // Length prefix that disagrees with the payload length.
    let mut buf = encode_tagged(&Outcome::Success);
    buf[3] = 17;
    assert!(decode_tagged(&buf).is_none());
    // A payload that is neither the success text nor an error object.
    let framed = to_result_str(bytes(r#"{"type":"mystery"}"#));
    assert!(decode_tagged(&framed).is_none());
}
