//! Summaries: the fold without a provider, and the retry policy around one.

use tinymemory::summarise::{
    fallback_summary, finish_summary, render_failure, retryable, summarise, FoldedSummary,
    PreparedPrompt, ProviderFailure, ProviderUsage, SummariseAction, SummariseEvent, SummaryInput,
    SummaryOutput, TransportFailure,
};

fn input(id: &str, content: &str, entities: &[&str], topics: &[&str], score: f32) -> SummaryInput {
    SummaryInput {
        id: id.to_string(),
        content: content.to_string(),
        token_count: 0,
        entities: entities.iter().map(|e| (*e).to_string()).collect(),
        topics: topics.iter().map(|t| (*t).to_string()).collect(),
        score: score.to_bits(),
    }
}

#[test]
fn a_blank_input_is_dropped_and_the_budget_is_honoured() {
    let inputs = vec![
        input("blank", "   ", &["ignored"], &[], 0.1),
        input(
            "long",
            &"alpha beta gamma delta epsilon zeta eta theta".repeat(20),
            &[],
            &["planning"],
            0.9,
        ),
    ];

    let out = fallback_summary(&inputs, 8);

    assert!(
        out.content.starts_with("— alpha"),
        "the blank input was not dropped: {:?}",
        out.content
    );
    assert!(out.token_count <= 9, "a budget of 8 produced {} tokens", out.token_count);
    assert!(
        out.entities.is_empty(),
        "a dropped input's entities were carried into the summary: {:?}",
        out.entities
    );
    assert!(
        out.topics.is_empty(),
        "topics were carried into a summary whose text does not mention them: {:?}",
        out.topics
    );
    assert_eq!(out.token_count, 8);
    assert_eq!(out.content, "— alpha beta gamma delta epsilon");
}

#[test]
fn no_inputs_produce_no_summary() {
    let out = fallback_summary(&vec![], 64);
    assert!(out.content.is_empty(), "got {:?}", out.content);
    assert_eq!(out.token_count, 0);
}

#[test]
fn the_fold_puts_the_highest_scores_first() {
    let inputs = vec![
        input("a", " low ", &[], &[], -0.5),
        input("b", "first", &[], &[], 0.7),
        input("c", "\n\t", &[], &[], 0.9),
        input("d", "second", &[], &[], 0.7),
    ];
    let out = fallback_summary(&inputs, 100);
    assert_eq!(out.content, "— first\n\n— second\n\n— low");
    assert_eq!(out.token_count, 6);
    assert_eq!((out.input_tokens, out.output_tokens, out.charged_amount_usd), (0, 0, None));
    assert_eq!(fallback_summary(&inputs, 0).content, "");
    let edges = vec![
        input("a", "minus", &[], &[], f32::NEG_INFINITY),
        input("b", "zero", &[], &[], -0.0),
        input("c", "tiny", &[], &[], f32::from_bits(1)),
        input("d", "nought", &[], &[], 0.0),
        input("e", "plus", &[], &[], f32::INFINITY),
        input("f", "below", &[], &[], -1.5),
    ];
    assert_eq!(
        fallback_summary(&edges, 100).content,
        "— plus\n\n— tiny\n\n— zero\n\n— nought\n\n— below\n\n— minus"
    );
}

#[test]
fn many_distinct_scores_keep_their_order() {
    let inputs: Vec<SummaryInput> =
        (0..70_000).map(|i| input("i", &format!("{i}"), &[], &[], i as f32 / 70_000.0)).collect();
    let out = fallback_summary(&inputs, 5);
    assert_eq!(out.content, "— 69999\n\n— 69998\n\n— ");
}

/// A provider that fails its first `fail_times` calls with `error`, then answers
/// `response`.
struct FlakyChatProvider {
    fail_times: usize,
    error: &'static str,
    response: &'static str,
    calls: usize,
    slept: Vec<u64>,
}

fn flaky(fail_times: usize, error: &'static str, response: &'static str) -> FlakyChatProvider {
    FlakyChatProvider { fail_times, error, response, calls: 0, slept: Vec::new() }
}

impl FlakyChatProvider {
    fn run(&mut self, prepared: Option<PreparedPrompt>) -> Result<SummaryOutput, String> {
        let (mut run, mut action) = summarise("test:flaky", prepared);
        loop {
            let event = match action {
                SummariseAction::Call(prompt) => {
                    assert_eq!((prompt.system.as_str(), prompt.user.as_str()), ("system", "user"));
                    assert_eq!(f64::from_bits(prompt.temperature), 0.0);
                    assert_eq!(prompt.kind, "memory_tree::summarise");
                    assert_eq!(prompt.max_tokens, None);
                    self.calls += 1;
                    assert_eq!(run.attempts() as usize, self.calls);
                    if self.calls <= self.fail_times {
                        SummariseEvent::Failed { failure: prose(self.error), elapsed_millis: 1 }
                    } else {
                        SummariseEvent::Answered { text: self.response.to_string(), usage: None }
                    }
                }
                SummariseAction::Sleep { millis } => {
                    self.slept.push(millis);
                    SummariseEvent::Slept
                }
                SummariseAction::Finish { text, usage, budget } => {
                    assert_eq!(budget, 200);
                    let folded = FoldedSummary {
                        content: text,
                        token_count: 4,
                        entities: vec![],
                        topics: vec![],
                    };
                    return Ok(finish_summary(folded, usage));
                }
                SummariseAction::Done(output) => return Ok(output),
                SummariseAction::Fail { context, cause } => {
                    return Err(render_failure(&context, &cause));
                }
                SummariseAction::Ignored => panic!("nothing was asked"),
            };
            action = run.advance(event);
        }
    }
}

fn prose(message: &str) -> ProviderFailure {
    ProviderFailure { transport: None, message: message.to_string() }
}

fn corpus() -> Option<PreparedPrompt> {
    Some(PreparedPrompt {
        system: "system".to_string(),
        user: "user".to_string(),
        effective_budget: 200,
    })
}

#[test]
fn a_transport_failure_is_retried_and_a_later_attempt_wins() {
    let mut provider = flaky(2, "error sending request", "the real recap");
    let out = provider.run(corpus()).expect("the third attempt answers");
    assert_eq!(
        provider.calls, 3,
        "a transport failure must be retried, not surfaced on the first attempt"
    );
    assert!(
        out.content.contains("the real recap"),
        "the model's answer was not the one returned: {:?}",
        out.content
    );
    assert_eq!(provider.slept, vec![250, 500]);
}

#[test]
fn a_terminal_failure_is_not_retried() {
    let mut provider = flaky(usize::MAX, "401 Unauthorized: invalid api key", "unreachable");
    let error = provider.run(corpus()).expect_err("an auth failure is still a failure");
    assert_eq!(provider.calls, 1, "a terminal failure was retried: {error}");
    assert!(
        error.contains("after 1 attempt(s)"),
        "the attempt count is missing from the error: {error}"
    );
    assert_eq!(
        error,
        "memory_tree::summarise: provider=test:flaky after 1 attempt(s): \
         401 Unauthorized: invalid api key"
    );
}

#[test]
fn a_persistent_transport_failure_stops_at_the_attempt_budget() {
    let mut provider = flaky(usize::MAX, "error sending request", "unreachable");
    let error = provider.run(corpus()).expect_err("a provider that never answers must still fail");
    assert_eq!(provider.calls, 3, "the attempt budget was not honoured: {error}");
    assert!(
        error.contains("after 3 attempt(s)"),
        "the attempt count is missing from the error: {error}"
    );
}

#[test]
fn an_empty_corpus_never_reaches_the_provider() {
    let mut provider = flaky(usize::MAX, "error sending request", "unreachable");
    let out = provider.run(None).expect("nothing to fold is not an error");
    assert_eq!(provider.calls, 0, "an empty fold called the provider");
    assert!(out.content.is_empty(), "content: {:?}", out.content);
}

#[test]
fn retryable_only_accepts_transport_shaped_failures() {
    for text in [
        "error sending request",
        "tcp connect error: Connection refused",
        "DNS error: failed to lookup address",
        "connection reset by peer",
    ] {
        assert!(retryable(&prose(text)), "should retry: {text}");
    }
    for text in [
        "401 Unauthorized",
        "429 quota exhausted for this month",
        "unknown model 'summarization-v1'",
        "operation timed out",
        "context window exceeded",
    ] {
        assert!(!retryable(&prose(text)), "should not retry: {text}");
    }
}

#[test]
fn a_transport_error_decides_before_the_message() {
    let typed = |connect: bool, request: bool, status: Option<u16>, message: &str| ProviderFailure {
        transport: Some(TransportFailure { connect, request, timeout: false, status }),
        message: message.to_string(),
    };
    assert!(retryable(&typed(true, false, None, "memory_tree::summarise: provider=test")));
    assert!(retryable(&typed(false, true, None, "")));
    for status in [429, 502, 503, 504] {
        assert!(retryable(&typed(false, false, Some(status), "")));
    }
    assert!(!retryable(&typed(false, false, Some(500), "connection refused")));
    assert!(!retryable(&typed(false, false, None, "error sending request")));
    let mut late = typed(false, true, None, "error sending request");
    if let Some(transport) = &mut late.transport {
        transport.timeout = true;
    }
    assert!(!retryable(&late), "a timeout may have been served");
}

#[test]
fn no_wait_ends_past_the_deadline() {
    let refused = || prose("connection refused");
    let (mut run, _) = summarise("p", corpus());
    let action =
        run.advance(SummariseEvent::Failed { failure: refused(), elapsed_millis: 19_749 });
    assert!(matches!(action, SummariseAction::Sleep { millis: 250 }));
    let (mut run, _) = summarise("p", corpus());
    let action =
        run.advance(SummariseEvent::Failed { failure: refused(), elapsed_millis: 19_750 });
    assert!(matches!(action, SummariseAction::Fail { .. }));
    assert!(matches!(run.advance(SummariseEvent::Slept), SummariseAction::Ignored));
}

#[test]
fn usage_is_attached_and_a_charge_has_to_be_positive() {
    let folded = || FoldedSummary {
        content: "recap".to_string(),
        token_count: 2,
        entities: vec!["e".to_string()],
        topics: vec!["t".to_string()],
    };
    let usage = |charge: f64| {
        Some(ProviderUsage {
            input_tokens: 10,
            output_tokens: 20,
            charged_amount_usd: charge.to_bits(),
        })
    };
    let out = finish_summary(folded(), usage(0.25));
    assert_eq!((out.input_tokens, out.output_tokens), (10, 20));
    assert_eq!(out.charged_amount_usd.map(f64::from_bits), Some(0.25));
    assert_eq!((out.entities.len(), out.topics.len()), (1, 1));
    for charge in [0.0, -0.0, -1.0, f64::NAN] {
        assert_eq!(finish_summary(folded(), usage(charge)).charged_amount_usd, None);
    }
    assert_eq!(
        finish_summary(folded(), usage(f64::INFINITY)).charged_amount_usd.map(f64::from_bits),
        Some(f64::INFINITY)
    );
    assert_eq!(finish_summary(folded(), None).output_tokens, 0);
}
