//! Rejection tests: malformed wire text must fail with the
//! structured-decode error, never panic, never yield a partial value; and
//! the emitted wire text must be valid JSON of the expected shape.

use playground_model::BuildStage;
use playground_model::CargoDiagnostic;
use playground_model::CargoDiagnosticSpan;
use playground_model::CargoLevel;
use playground_model::SocketError;
use playground_model::SocketMessage;

fn assert_rejected(text: &str) {
    match SocketMessage::try_from(String::from(text)) {
        Err(SocketError::ParseJson) => {}
        Err(other) => panic!("wrong error for {:?}: {:?}", text, other),
        Ok(m) => panic!("{:?} decoded unexpectedly to {:?}", text, m),
    }
}

#[test]
fn rejects_text_that_is_not_structured_data() {
    assert_rejected("");
    assert_rejected("hello");
    assert_rejected("{");
    assert_rejected("{}");
    assert_rejected("[1,2,3]");
    assert_rejected("42");
}

#[test]
fn rejects_unknown_discriminants() {
    assert_rejected("{\"Frobnicate\":3}");
    assert_rejected("\"AlreadyDisconnected\"");
    assert_rejected("{\"BuildStage\":\"Linking\"}");
}

#[test]
fn rejects_missing_or_malformed_fields() {
    assert_rejected("{\"QueuePosition\":}");
    assert_rejected("{\"QueuePosition\":-1}");
    assert_rejected("{\"BuildRequest\":fn}");
    assert_rejected("{\"BuildRequest\":\"unterminated}");
    assert_rejected("{\"BuildFinished\":{\"Ok\":\"not-a-uuid\"}}");
    assert_rejected(
        "{\"BuildDiagnostic\":{\"target_crate\":\"a\",\"level\":\"Warning\",\"spans\":[]}}",
    );
    assert_rejected(
        "{\"BuildDiagnostic\":{\"target_crate\":\"a\",\"level\":\"Note\",\"message\":\"m\",\"spans\":[]}}",
    );
}

#[test]
fn rejects_trailing_remainder() {
    assert_rejected("\"AlreadyConnected\" ");
    assert_rejected("{\"QueuePosition\":3}x");
    assert_rejected("{\"QueuePosition\":3}{\"QueuePosition\":4}");
}

#[test]
fn rejects_numbers_that_overflow_the_word_size() {
    assert_rejected("{\"QueuePosition\":99999999999999999999999999999999999999}");
}

#[test]
fn rejects_invalid_string_escapes_and_raw_controls() {
    assert_rejected("{\"BuildRequest\":\"\\x41\"}");
    assert_rejected("{\"BuildRequest\":\"\u{1}\"}");
}

#[test]
fn emitted_text_is_valid_json_with_the_expected_shape() {
    let d = CargoDiagnostic {
        target_crate: String::from("playground"),
        level: CargoLevel::Error,
        message: String::from("mismatched types\n\texpected `u8`"),
        spans: vec![CargoDiagnosticSpan {
            is_primary: true,
            line_start: 1,
            line_end: 2,
            column_start: 3,
            column_end: 4,
            label: Some(String::from("here")),
        }],
    };
    let text = SocketMessage::BuildDiagnostic(d).as_json_string().unwrap();
    let v: serde_json::Value = serde_json::from_str(&text).expect("emitted text is valid JSON");
    let body = v.get("BuildDiagnostic").expect("tagged with the variant name");
    assert_eq!(body.get("target_crate").unwrap().as_str().unwrap(), "playground");
    assert_eq!(body.get("level").unwrap().as_str().unwrap(), "Error");
    assert_eq!(
        body.get("message").unwrap().as_str().unwrap(),
        "mismatched types\n\texpected `u8`"
    );
    let spans = body.get("spans").unwrap().as_array().unwrap();
    assert_eq!(spans.len(), 1);
    assert_eq!(spans[0].get("is_primary").unwrap().as_bool().unwrap(), true);
    assert_eq!(spans[0].get("line_start").unwrap().as_u64().unwrap(), 1);
    assert_eq!(spans[0].get("label").unwrap().as_str().unwrap(), "here");

    let stage = SocketMessage::BuildStage(BuildStage::Compiling {
        crates_compiled: 2,
        total_crates: 5,
        current_crate: String::from("serde"),
    })
    .as_json_string()
    .unwrap();
    let v: serde_json::Value = serde_json::from_str(&stage).unwrap();
    let c = v.get("BuildStage").unwrap().get("Compiling").unwrap();
    assert_eq!(c.get("crates_compiled").unwrap().as_u64().unwrap(), 2);
    assert_eq!(c.get("total_crates").unwrap().as_u64().unwrap(), 5);
    assert_eq!(c.get("current_crate").unwrap().as_str().unwrap(), "serde");
}

#[test]
fn decodes_whatever_serde_json_would_emit_for_a_unit_stage() {
    // A frame built by serde_json itself, field for field, decodes to the
    // same value our encoder would have produced it from.
    let text = String::from("{\"BuildStage\":\"RunningBindgen\"}");
    let m = SocketMessage::try_from(text).unwrap();
    assert_eq!(m, SocketMessage::BuildStage(BuildStage::RunningBindgen));
}
