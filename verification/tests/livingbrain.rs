//! Requests to a LivingBrain service.

use tinymemory::json::Json;
use tinymemory::livingbrain::session::Session;
use tinymemory::livingbrain::types::{Capture, CaptureKind, ChatSender, ChatTurn};
use tinymemory::livingbrain::{
    check_connection, may_resend, request_headers, validate_path_segment, Attempts, BrainRequest,
    HttpMethod, LivingBrain, SendFailure, LIVINGBRAIN_API_ENDPOINT, MAX_BATCH_SIZE,
};

fn client() -> LivingBrain {
    LivingBrain::new("http://127.0.0.1:8080", "test-key", "subject-1", "brain-1").expect("client")
}

fn note(text: &str, origin_ref: Option<&str>) -> Capture {
    Capture {
        kind: CaptureKind::Note,
        content: Some(text.to_string()),
        fetch_url: None,
        origin_ref: origin_ref.map(str::to_owned),
        source: None,
        label: None,
    }
}

fn text<'a>(request: &'a BrainRequest, name: &str) -> Option<&'a str> {
    request.body.as_ref().and_then(|body| body.get(name)).and_then(Json::as_str)
}

#[test]
fn connection_fields_and_capture_shape_are_checked_without_a_request() {
    let error = LivingBrain::cloud("", "subject", "brain").expect_err("blank key");
    assert!(format!("{error}").contains("API key"));
    let client = LivingBrain::cloud("test-key", "subject", "brain").expect("client");
    let rendered = format!("{client:?}");
    assert!(!rendered.contains("test-key"), "credential leaked: {rendered}");
    let invalid = Capture {
        kind: CaptureKind::Note,
        content: Some("text".into()),
        fetch_url: Some("https://example.test".into()),
        origin_ref: None,
        source: None,
        label: None,
    };
    assert!(invalid.validate().is_err());
}

#[test]
fn every_connection_field_is_checked() {
    let connect = |endpoint: &str, key: &str, subject: &str, brain: &str| {
        LivingBrain::new(endpoint, key, subject, brain).map(|_| ()).map_err(|e| e)
    };
    let url = "https://example.test";
    assert_eq!(connect(url, "k", "s", "b"), Ok(()));
    assert_eq!(connect("HTTP://example.test", "k", "s", "b"), Ok(()));
    for (endpoint, key, subject, brain, error) in [
        (url, " ", "s", "b", "LivingBrain API key must not be empty"),
        (url, "k", "\t", "b", "LivingBrain subject id must not be empty"),
        (url, "k", "s", "", "LivingBrain brain id must not be empty"),
        (url, "k", "s", "..", "LivingBrain brain id must not be a dot path segment"),
        (url, "k", "s", "a/b", "LivingBrain brain id must be a URL-safe identifier"),
        ("ftp://example.test", "k", "s", "b", "LivingBrain endpoint must be an HTTP(S) URL"),
        ("example", "k", "s", "b", "LivingBrain endpoint must be an HTTP(S) URL"),
        (url, "k", "s\n", "b", "LivingBrain subject id must be encodable as an HTTP header"),
        (url, "k", "s\u{7f}", "b", "LivingBrain subject id must be encodable as an HTTP header"),
    ] {
        assert_eq!(connect(endpoint, key, subject, brain), Err(error.to_string()));
    }
    assert_eq!(connect(url, "k", "a\tb\u{e9}", "b"), Ok(()));
    assert_eq!(check_connection(Some("http".to_string()), "k", "s", "b"), Ok(()));
    assert_eq!(
        check_connection(None, "k", "s", "b"),
        Err("LivingBrain endpoint must be an HTTP(S) URL".to_string())
    );
    let cloud = LivingBrain::cloud("k", "s", "b").unwrap();
    assert_eq!(cloud.endpoint(), LIVINGBRAIN_API_ENDPOINT);
    assert_eq!(cloud.request_timeout_millis(), None);
    assert_eq!(cloud.with_request_timeout(1_500).request_timeout_millis(), Some(1_500));
}

#[test]
fn segments_keep_the_shape_of_a_path() {
    for safe in ["customer-preferences", "a.b_c", "...", "A9"] {
        assert_eq!(validate_path_segment(safe, "slug"), Ok(()));
    }
    assert_eq!(validate_path_segment(" ", "slug"), Err("slug must not be empty".to_string()));
    assert_eq!(
        validate_path_segment(".", "slug"),
        Err("slug must not be a dot path segment".to_string())
    );
    for unsafe_segment in ["a/b", "a?b", "a#b", "a b", "\u{e9}", "a%2fb"] {
        assert_eq!(
            validate_path_segment(unsafe_segment, "slug"),
            Err("slug must be a URL-safe identifier".to_string())
        );
    }
}

#[test]
fn captures_carry_their_native_payload() {
    let client = client();
    let capture = Capture {
        kind: CaptureKind::Note,
        content: Some("Weekly updates should be concise".into()),
        fetch_url: None,
        origin_ref: Some("event:123".into()),
        source: Some("crm".into()),
        label: Some("Call notes".into()),
    };
    let request = client.capture(&capture).expect("capture");
    assert_eq!(request.method, HttpMethod::Post);
    assert_eq!(request.path, "v1/brains/brain-1/captures");
    assert_eq!(request.attempts, Attempts::RetryTransient);
    assert_eq!(text(&request, "kind"), Some("note"));
    assert_eq!(text(&request, "content"), Some("Weekly updates should be concise"));
    assert!(matches!(request.body.as_ref().unwrap().get("fetchUrl"), Some(Json::Null)));
    assert_eq!(text(&request, "originRef"), Some("event:123"));
    assert_eq!(text(&request, "source"), Some("crm"));
    assert_eq!(text(&request, "label"), Some("Call notes"));
    assert_eq!(client.capture(&note("x", None)).unwrap().attempts, Attempts::Once);
    let kinds: Vec<&str> = [
        CaptureKind::Note,
        CaptureKind::Text,
        CaptureKind::File,
        CaptureKind::Url,
        CaptureKind::Transcript,
        CaptureKind::ChatTurn,
        CaptureKind::Integration,
    ]
    .into_iter()
    .map(CaptureKind::as_str)
    .collect();
    assert_eq!(
        kinds,
        vec!["note", "text", "file", "url", "transcript", "chat_turn", "integration"]
    );
}

#[test]
fn malformed_captures_are_refused() {
    let mut neither = note("  ", None);
    assert_eq!(
        neither.validate(),
        Err("LivingBrain capture needs exactly one of content or fetch_url".to_string())
    );
    neither.fetch_url = Some("https://example.test".to_string());
    assert_eq!(neither.validate(), Ok(()));
    assert_eq!(
        note("x", Some(" ")).validate(),
        Err("LivingBrain origin_ref must not be empty".to_string())
    );
    let mut blank_source = note("x", Some("r"));
    blank_source.source = Some("".to_string());
    assert_eq!(
        client().capture(&blank_source).unwrap_err(),
        "LivingBrain source must not be empty"
    );
}

#[test]
fn batches_are_bounded_and_repeatable() {
    let client = client();
    assert_eq!(
        client.capture_batch(&vec![]).unwrap_err(),
        "LivingBrain capture batch must not be empty"
    );
    let many = |n: usize| (0..n).map(|i| note("x", Some(&format!("r{i}")))).collect::<Vec<_>>();
    assert_eq!(
        client.capture_batch(&many(MAX_BATCH_SIZE + 1)).unwrap_err(),
        "LivingBrain capture batch must contain at most 100 captures"
    );
    let request = client.capture_batch(&many(MAX_BATCH_SIZE)).unwrap();
    assert_eq!(request.path, "v1/brains/brain-1/captures/batch");
    assert_eq!(request.attempts, Attempts::RetryTransient);
    let items = request.body.as_ref().unwrap().get("captures").and_then(Json::as_array).unwrap();
    assert_eq!(items.len(), 100);
    assert_eq!(items[99].get("originRef").and_then(Json::as_str), Some("r99"));
    assert_eq!(
        client.capture_batch(&vec![note("x", Some("r")), note("y", None)]).unwrap_err(),
        "LivingBrain batch captures require an origin_ref"
    );
    assert_eq!(
        client.capture_batch(&vec![note("", Some("r"))]).unwrap_err(),
        "LivingBrain capture needs exactly one of content or fetch_url"
    );
}

#[test]
fn a_chat_turn_is_sent_once() {
    let turn = ChatTurn {
        text: "I prefer concise weekly updates.".into(),
        sender: ChatSender::User,
        origin_ref: Some("chat:123".into()),
        agent_name: None,
    };
    let request = client().capture_chat_turn(&turn).unwrap();
    assert_eq!(request.path, "v1/brains/brain-1/captures/chat-turn");
    assert_eq!(request.attempts, Attempts::Once);
    assert_eq!(text(&request, "text"), Some("I prefer concise weekly updates."));
    assert_eq!(text(&request, "sender"), Some("user"));
    assert_eq!(text(&request, "originRef"), Some("chat:123"));
    assert!(matches!(request.body.as_ref().unwrap().get("agentName"), Some(Json::Null)));
    assert_eq!(ChatSender::Agent.as_str(), "agent");
    let mut blank = turn;
    blank.origin_ref = Some(" ".into());
    assert_eq!(
        client().capture_chat_turn(&blank).unwrap_err(),
        "LivingBrain chat turn origin_ref must not be empty"
    );
    blank.text = "".into();
    assert_eq!(
        client().capture_chat_turn(&blank).unwrap_err(),
        "LivingBrain chat turn text must not be empty"
    );
}

#[test]
fn a_search_is_checked_before_it_is_sent() {
    let client = client();
    let request = client.search("customer preferences", 3, Some(0.5f64.to_bits())).unwrap();
    assert_eq!(request.method, HttpMethod::Post);
    assert_eq!(request.path, "v1/brains/brain-1/search");
    assert_eq!(text(&request, "query"), Some("customer preferences"));
    let body = request.body.as_ref().unwrap();
    assert!(matches!(body.get("topK"), Some(Json::Number(3))));
    assert!(matches!(
        body.get("minSimilarity"),
        Some(Json::Fraction(bits)) if f64::from_bits(*bits) == 0.5
    ));
    assert_eq!(
        client.search(" ", 3, None).unwrap_err(),
        "LivingBrain search query must not be empty"
    );
    assert_eq!(
        client.search("q", 0, None).unwrap_err(),
        "LivingBrain search top_k must be positive"
    );
    for inside in [0.0, -0.0, 1.0, f64::MIN_POSITIVE] {
        assert!(client.search("q", 1, Some(f64::to_bits(inside))).is_ok());
    }
    for outside in [-0.1, 1.1, f64::NAN, f64::INFINITY, f64::NEG_INFINITY, 1.0 + f64::EPSILON] {
        assert_eq!(
            client.search("q", 1, Some(f64::to_bits(outside))).unwrap_err(),
            "LivingBrain minimum similarity must be between zero and one"
        );
    }
    let open = client.search("q", 1, None).unwrap();
    assert!(matches!(open.body.as_ref().unwrap().get("minSimilarity"), Some(Json::Null)));
}

#[test]
fn reads_are_repeatable_and_a_removal_is_not() {
    let client = client();
    for (request, path) in [
        (client.page("customer-preferences").unwrap(), "v1/brains/brain-1/pages/customer-preferences"),
        (client.pages(), "v1/brains/brain-1/pages"),
        (client.graph(), "v1/brains/brain-1/graph"),
        (client.sources(), "v1/brains/brain-1/sources"),
        (client.export_markdown(), "v1/brains/brain-1/export/markdown"),
    ] {
        assert_eq!(request.method, HttpMethod::Get);
        assert_eq!(request.path, path);
        assert_eq!(request.attempts, Attempts::RetryTransient);
        assert!(request.body.is_none());
    }
    let removal = client.remove_source("source-1").unwrap();
    assert_eq!(removal.method, HttpMethod::Delete);
    assert_eq!(removal.path, "v1/brains/brain-1/sources/source-1");
    assert_eq!(removal.attempts, Attempts::Once);
    assert_eq!(
        client.remove_source("a/b").unwrap_err(),
        "LivingBrain source id must be a URL-safe identifier"
    );
    assert_eq!(
        client.page("").unwrap_err(),
        "LivingBrain page slug must not be empty"
    );
}

#[test]
fn refusals_are_final() {
    for status in [400, 401, 403, 404, 500] {
        assert!(!may_resend(Attempts::RetryTransient, SendFailure::Status(status)));
    }
    for status in [429, 502, 503, 504] {
        assert!(may_resend(Attempts::RetryTransient, SendFailure::Status(status)));
        assert!(!may_resend(Attempts::Once, SendFailure::Status(status)));
    }
    assert!(may_resend(Attempts::RetryTransient, SendFailure::Timeout));
    assert!(!may_resend(Attempts::RetryTransient, SendFailure::Other));
}

#[test]
fn every_request_carries_the_credential_and_the_subject() {
    let expected = vec![
        ("authorization".to_string(), "Bearer test-key".to_string()),
        ("x-subject-id".to_string(), "subject-1".to_string()),
    ];
    assert_eq!(request_headers("test-key", "subject-1"), expected);
    let session = Session::open("http://127.0.0.1:8080", "test-key", "subject-1", "brain-1")
        .expect("session")
        .with_request_timeout(1500);
    assert_eq!(session.brain().request_timeout_millis(), Some(1500));
    for request in [
        session.brain().pages(),
        session.brain().search("query", 3, None).expect("search"),
        session.brain().remove_source("source-1").expect("removal"),
    ] {
        let path = request.path.clone();
        let outgoing = session.outgoing(request);
        assert_eq!(outgoing.request.path, path);
        assert_eq!(outgoing.headers, expected);
    }
    assert_eq!(
        Session::open("http://127.0.0.1:8080", " ", "subject-1", "brain-1").err(),
        LivingBrain::new("http://127.0.0.1:8080", " ", "subject-1", "brain-1").err()
    );
}
