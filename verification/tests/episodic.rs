//! Conversation segments and service receipts.

use tinymemory::cortex::receipt;
use tinymemory::episodic::{read_status, write_status, ConversationSegment, SegmentStatus};
use tinymemory::json::Json;
use tinymemory::provider::types::MemoryError;

fn segment(status: Option<SegmentStatus>) -> ConversationSegment {
    ConversationSegment {
        segment_id: "seg-1".to_string(),
        session_id: "sess-1".to_string(),
        namespace: "ns".to_string(),
        start_episodic_id: 1,
        end_episodic_id: Some(9),
        start_timestamp: 0.0f64.to_bits(),
        end_timestamp: Some(1.0f64.to_bits()),
        turn_count: 4,
        summary: None,
        embedding: None,
        open: false,
        status,
        start_seq: None,
        end_seq: None,
    }
}

/// The fields of a segment that these tests read.
fn wire(segment: &ConversationSegment) -> Json {
    let mut fields = vec![
        ("segment_id".to_string(), Json::Text(segment.segment_id.clone())),
        ("open".to_string(), Json::Bool(segment.open)),
    ];
    write_status(&mut fields, segment.status);
    Json::Object(fields)
}

fn value(json: &Json) -> serde_json::Value {
    match json {
        Json::Null => serde_json::Value::Null,
        Json::Bool(b) => serde_json::Value::Bool(*b),
        Json::Text(text) => serde_json::Value::String(text.clone()),
        Json::Object(fields) => serde_json::Value::Object(
            fields.iter().map(|(name, v)| (name.clone(), value(v))).collect(),
        ),
        other => panic!("unexpected {other:?}"),
    }
}

fn json(value: &serde_json::Value) -> Json {
    match value {
        serde_json::Value::Null => Json::Null,
        serde_json::Value::Bool(b) => Json::Bool(*b),
        serde_json::Value::Number(n) => match n.as_u64() {
            Some(n) => Json::Number(n),
            None => Json::Fraction(n.as_f64().unwrap().to_bits()),
        },
        serde_json::Value::String(text) => Json::Text(text.clone()),
        serde_json::Value::Array(items) => Json::Array(items.iter().map(json).collect()),
        serde_json::Value::Object(fields) => {
            Json::Object(fields.iter().map(|(name, v)| (name.clone(), json(v))).collect())
        }
    }
}

#[test]
fn every_status_round_trips_under_its_persisted_spelling() {
    for (status, spelling) in [
        (SegmentStatus::Open, "open"),
        (SegmentStatus::Closed, "closed"),
        (SegmentStatus::Summarised, "summarised"),
    ] {
        let text = value(&wire(&segment(Some(status)))).to_string();
        assert!(
            text.contains(&format!("\"status\":\"{spelling}\"")),
            "{status:?} did not serialise as {spelling}: {text}"
        );
        let back = json(&serde_json::from_str(&text).expect("deserialises"));
        assert_eq!(read_status(&back), Some(Some(status)));
        assert_eq!(SegmentStatus::parse(status.as_str()), Some(status));
    }
    assert_eq!(SegmentStatus::parse("summarized"), None);
}

#[test]
fn a_payload_without_the_field_decodes_as_unknown() {
    let text = r#"{
        "segment_id": "seg-1",
        "session_id": "sess-1",
        "namespace": "ns",
        "start_episodic_id": 1,
        "start_timestamp": 0.0,
        "turn_count": 4,
        "open": false
    }"#;
    let decoded = json(&serde_json::from_str(text).expect("deserialises"));
    assert_eq!(read_status(&decoded), Some(None));
    assert!(matches!(decoded.get("open"), Some(Json::Bool(false))));
}

#[test]
fn an_unknown_status_is_omitted_from_the_wire() {
    let text = value(&wire(&segment(None))).to_string();
    assert!(!text.contains("status"), "status was emitted: {text}");
}

#[test]
fn a_status_that_is_none_is_refused() {
    let of = |status: Json| Json::Object(vec![("status".to_string(), status)]);
    assert_eq!(read_status(&of(Json::Text("done".to_string()))), None);
    assert_eq!(read_status(&of(Json::Bool(true))), None);
    assert_eq!(read_status(&of(Json::Null)), Some(None));
}

#[test]
fn open_alone_cannot_separate_closed_from_summarised() {
    let closed = segment(Some(SegmentStatus::Closed));
    let summarised = segment(Some(SegmentStatus::Summarised));

    assert_eq!(closed.open, summarised.open);
    assert_ne!(closed.status, summarised.status);
}

fn answer(event_id: Option<Json>, replayed: Option<Json>) -> Json {
    let mut fields = Vec::new();
    if let Some(id) = event_id {
        fields.push(("event_id".to_string(), id));
    }
    if let Some(flag) = replayed {
        fields.push(("replayed_from_idempotency".to_string(), flag));
    }
    Json::Object(fields)
}

#[test]
fn receipt_requires_an_event_id_and_boolean_replay_flag() {
    let id = || Some(Json::Text("evt-1".to_string()));
    assert!(matches!(
        receipt(&answer(None, Some(Json::Bool(false)))),
        Err(MemoryError::Backend(_))
    ));
    assert!(matches!(receipt(&answer(id(), None)), Err(MemoryError::Backend(_))));
    assert!(matches!(
        receipt(&answer(id(), Some(Json::Text("false".to_string())))),
        Err(MemoryError::Backend(_))
    ));
    assert_eq!(
        receipt(&answer(id(), Some(Json::Bool(true)))).ok(),
        Some(("evt-1".to_string(), true))
    );
}
