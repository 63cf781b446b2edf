//! Round-trip and exact-format tests for the socket message codec.

use playground_model::BuildStage;
use playground_model::CargoDiagnostic;
use playground_model::CargoDiagnosticSpan;
use playground_model::CargoLevel;
use playground_model::JobId;
use playground_model::SocketError;
use playground_model::SocketMessage;

fn job_id_bytes() -> Vec<u8> {
    vec![
        0x55, 0x0e, 0x84, 0x00, 0xe2, 0x9b, 0x41, 0xd4, 0xa7, 0x16, 0x44, 0x66, 0x55, 0x44, 0x00,
        0x00,
    ]
}

fn round_trip(m: SocketMessage) -> SocketMessage {
    let text = m.as_json_string().expect("encoding is total");
    let back = SocketMessage::try_from(text).expect("canonical text must decode");
    assert_eq!(back, m);
    back
}

#[test]
fn round_trip_build_request() {
    round_trip(SocketMessage::BuildRequest(String::from("fn main() {}\n")));
}

#[test]
fn round_trip_build_request_needs_escapes() {
    round_trip(SocketMessage::BuildRequest(String::from(
        "let s = \"a\\nb\";\n\tprintln!(\"{s}\");\r\n",
    )));
}

#[test]
fn round_trip_build_request_control_and_unicode() {
    round_trip(SocketMessage::BuildRequest(String::from("\u{1}\u{1f}héllo ☃ \u{10348}")));
}

#[test]
fn round_trip_build_finished_ok() {
    let id = JobId::from_bytes(job_id_bytes()).expect("sixteen bytes");
    round_trip(SocketMessage::BuildFinished(Ok(id)));
}

#[test]
fn round_trip_build_finished_err() {
    round_trip(SocketMessage::BuildFinished(Err(String::from("sandbox burst into flames"))));
}

#[test]
fn round_trip_queue_position() {
    round_trip(SocketMessage::QueuePosition(0));
    round_trip(SocketMessage::QueuePosition(3));
    round_trip(SocketMessage::QueuePosition(usize::MAX));
}

#[test]
fn round_trip_already_connected() {
    round_trip(SocketMessage::AlreadyConnected);
}

#[test]
fn stage_other_and_bindgen_round_trip_with_no_payload() {
    round_trip(SocketMessage::BuildStage(BuildStage::Other));
    round_trip(SocketMessage::BuildStage(BuildStage::RunningBindgen));
    assert_eq!(
        SocketMessage::BuildStage(BuildStage::Other).as_json_string().unwrap(),
        "{\"BuildStage\":\"Other\"}"
    );
    assert_eq!(
        SocketMessage::BuildStage(BuildStage::RunningBindgen).as_json_string().unwrap(),
        "{\"BuildStage\":\"RunningBindgen\"}"
    );
}

#[test]
fn stage_compiling_round_trips_with_fields_intact() {
    let m = SocketMessage::BuildStage(BuildStage::Compiling {
        crates_compiled: 2,
        total_crates: 5,
        current_crate: String::from("serde"),
    });
    let back = round_trip(m);
    match back {
        SocketMessage::BuildStage(BuildStage::Compiling {
            crates_compiled,
            total_crates,
            current_crate,
        }) => {
            assert_eq!(crates_compiled, 2usize);
            assert_eq!(total_crates, 5usize);
            assert_eq!(current_crate, "serde");
        }
        other => panic!("wrong variant: {:?}", other),
    }
}

#[test]
fn diagnostic_round_trips_with_span_order_and_labels() {
    let d = CargoDiagnostic {
        target_crate: String::from("playground"),
        level: CargoLevel::Warning,
        message: String::from("unused variable: `x`"),
        spans: vec![
            CargoDiagnosticSpan {
                is_primary: true,
                line_start: 3,
                line_end: 3,
                column_start: 9,
                column_end: 10,
                label: Some(String::from("consider prefixing with an underscore")),
            },
            CargoDiagnosticSpan {
                is_primary: false,
                line_start: 7,
                line_end: 8,
                column_start: 1,
                column_end: 2,
                label: None,
            },
        ],
    };
    let back = round_trip(SocketMessage::BuildDiagnostic(d));
    match back {
        SocketMessage::BuildDiagnostic(d2) => {
            assert_eq!(d2.level, CargoLevel::Warning);
            assert_eq!(d2.spans.len(), 2);
            assert!(d2.spans[0].is_primary);
            assert!(d2.spans[0].label.is_some());
            assert!(!d2.spans[1].is_primary);
            assert!(d2.spans[1].label.is_none());
        }
        other => panic!("wrong variant: {:?}", other),
    }
}

#[test]
fn exact_wire_text_of_simple_frames() {
    assert_eq!(
        SocketMessage::QueuePosition(3).as_json_string().unwrap(),
        "{\"QueuePosition\":3}"
    );
    assert_eq!(
        SocketMessage::AlreadyConnected.as_json_string().unwrap(),
        "\"AlreadyConnected\""
    );
    assert_eq!(
        SocketMessage::BuildRequest(String::from("a\"b\\c\nd")).as_json_string().unwrap(),
        "{\"BuildRequest\":\"a\\\"b\\\\c\\nd\"}"
    );
    assert_eq!(
        SocketMessage::BuildRequest(String::from("\u{1}")).as_json_string().unwrap(),
        "{\"BuildRequest\":\"\\u0001\"}"
    );
}

#[test]
fn job_id_text_matches_uuid_crate() {
    let bytes = job_id_bytes();
    let mut arr = [0u8; 16];
    arr.copy_from_slice(&bytes);
    let expected = uuid::Uuid::from_bytes(arr).to_string();
    let id = JobId::from_bytes(bytes).unwrap();
    let text = SocketMessage::BuildFinished(Ok(id)).as_json_string().unwrap();
    assert_eq!(text, format!("{{\"BuildFinished\":{{\"Ok\":\"{}\"}}}}", expected));
}

#[test]
fn job_id_rejects_wrong_length() {
    assert!(JobId::from_bytes(vec![1, 2, 3]).is_none());
    assert!(JobId::from_bytes(vec![0; 17]).is_none());
    assert!(JobId::from_bytes(vec![0; 16]).is_some());
}

#[test]
fn end_to_end_server_emission_sequence() {
    let id = JobId::from_bytes(job_id_bytes()).unwrap();
    let diag = CargoDiagnostic {
        target_crate: String::from("core"),
        level: CargoLevel::Warning,
        message: String::from("something looks off"),
        spans: vec![],
    };
    let emitted = vec![
        SocketMessage::QueuePosition(3),
        SocketMessage::QueuePosition(0),
        SocketMessage::BuildStage(BuildStage::Compiling {
            crates_compiled: 0,
            total_crates: 4,
            current_crate: String::from("core"),
        }),
        SocketMessage::BuildStage(BuildStage::Compiling {
            crates_compiled: 4,
            total_crates: 4,
            current_crate: String::from("core"),
        }),
        SocketMessage::BuildDiagnostic(diag),
        SocketMessage::BuildFinished(Ok(id)),
    ];
    let wire: Vec<String> =
        emitted.iter().map(|m| m.as_json_string().expect("encoding is total")).collect();
    let mut decoded: Vec<SocketMessage> = Vec::new();
    for frame in wire {
        decoded.push(SocketMessage::try_from(frame).expect("server frames must decode"));
    }
    assert_eq!(decoded, emitted);
}

#[test]
fn utf8_boundary_is_a_distinct_error() {
    let err = SocketMessage::from_utf8_bytes(vec![0xff, 0xfe, 0x20]).unwrap_err();
    match err {
        SocketError::Utf8Decode { valid_up_to } => assert_eq!(valid_up_to, 0),
        other => panic!("expected a text-decoding error, got {:?}", other),
    }
    let err = SocketMessage::from_utf8_bytes(b"not json".to_vec()).unwrap_err();
    assert_eq!(err, SocketError::ParseJson);
    let ok = SocketMessage::from_utf8_bytes(b"\"AlreadyConnected\"".to_vec()).unwrap();
    assert_eq!(ok, SocketMessage::AlreadyConnected);
}
