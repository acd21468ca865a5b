//! Summarising tree inputs through a chat provider, with a bounded retry, and the
//! fold that answers when no provider does.
//!
//! A run is a state machine: [`summarise`] and [`SummariseRun::advance`]
//! say what has to be done next, the caller does it and hands the outcome back.

use vstd::prelude::*;

pub mod laws;

use crate::outside::fold_inputs;
use crate::text::{contains_text, decimal_text, joined3, to_ascii_lower};

verus! {

/// Provider calls that one run makes before it gives up.
pub const MAX_ATTEMPTS: u32 = 3;

/// Milliseconds before the first retry; every later wait is twice the one before.
pub const RETRY_BASE_BACKOFF_MILLIS: u64 = 250;

/// Ceiling on the milliseconds one run spends, provider calls and waits together.
/// It is looked at before a retry, never during a call.
pub const MAX_TOTAL_ELAPSED_MILLIS: u64 = 20000;

/// A transport error of a provider call.
#[derive(Clone, Copy, Debug, PartialEq, Eq, Structural)]
pub struct TransportFailure {
    /// No connection came about.
    pub connect: bool,
    /// The request failed on its way.
    pub request: bool,
    /// The time for the call ran out.
    pub timeout: bool,
    /// The status that was answered.
    pub status: Option<u16>,
}

/// A failed provider call.
#[derive(Debug)]
pub struct ProviderFailure {
    /// The transport error in the chain of causes, where there is one.
    pub transport: Option<TransportFailure>,
    /// The rendered chain of causes.
    pub message: String,
}

/// A failed provider call, as texts.
pub ghost struct FailureView {
    pub transport: Option<TransportFailure>,
    pub message: Seq<char>,
}

impl View for ProviderFailure {
    type V = FailureView;

    open spec fn view(&self) -> FailureView {
        FailureView { transport: self.transport, message: self.message@ }
    }
}

/// Statuses by which a provider says that it cannot serve right now.
pub open spec fn is_busy(status: Option<u16>) -> bool {
    status == Some(429u16) || status == Some(502u16) || status == Some(503u16) || status == Some(
        504u16,
    )
}

/// Whether a message can only describe a connection that was never established.
pub open spec fn is_transport_text(message: Seq<char>) -> bool {
    let text = crate::text::ascii_lower(message);
    ||| crate::text::has_infix(text, "error sending request"@)
    ||| crate::text::has_infix(text, "connection refused"@)
    ||| crate::text::has_infix(text, "connection reset"@)
    ||| crate::text::has_infix(text, "connection closed before message completed"@)
    ||| crate::text::has_infix(text, "tcp connect error"@)
    ||| crate::text::has_infix(text, "dns error"@)
}

/// Whether a failed call is worth another attempt: the request never reached the
/// model, or the model answered that it cannot serve right now. A timeout is not, unless
/// no connection came about: the model may have run.
/// A transport error in the chain decides; only without one does the message.
pub open spec fn may_retry(failure: FailureView) -> bool {
    match failure.transport {
        Some(transport) => transport.connect || (transport.request && !transport.timeout) || is_busy(
            transport.status,
        ),
        None => is_transport_text(failure.message),
    }
}

/// Whether a failed provider call is worth another attempt.
pub fn retryable(failure: &ProviderFailure) -> (r: bool)
    ensures
        r == may_retry(failure@),
{
    match failure.transport {
        Some(transport) => {
            transport.connect || (transport.request && !transport.timeout) || match transport.status {
                Some(status) => status == 429 || status == 502 || status == 503 || status == 504,
                None => false,
            }
        },
        None => {
            let message = to_ascii_lower(failure.message.as_str());
            let text = message.as_str();
            contains_text(text, "error sending request") || contains_text(
                text,
                "connection refused",
            ) || contains_text(text, "connection reset") || contains_text(
                text,
                "connection closed before message completed",
            ) || contains_text(text, "tcp connect error") || contains_text(text, "dns error")
        },
    }
}

/// A prompt that was prepared from tree inputs.
#[derive(Debug)]
pub struct PreparedPrompt {
    pub system: String,
    pub user: String,
    pub effective_budget: u32,
}

/// The workload that provider calls are tagged with.
pub const SUMMARY_KIND: &'static str = "memory_tree::summarise";

/// A provider call.
#[derive(Debug)]
pub struct ChatPrompt {
    pub system: String,
    pub user: String,
    /// The sampling temperature, a double-precision number by its bit pattern.
    pub temperature: u64,
    pub kind: String,
    /// A cap on the tokens of the answer.
    pub max_tokens: Option<u32>,
}

/// A provider call, as texts.
pub ghost struct PromptView {
    pub system: Seq<char>,
    pub user: Seq<char>,
    pub temperature: u64,
    pub kind: Seq<char>,
    pub max_tokens: Option<u32>,
}

impl View for ChatPrompt {
    type V = PromptView;

    open spec fn view(&self) -> PromptView {
        PromptView {
            system: self.system@,
            user: self.user@,
            temperature: self.temperature,
            kind: self.kind@,
            max_tokens: self.max_tokens,
        }
    }
}

/// The call that a prompt is sent with: at temperature zero, tagged as a summary, and
/// without a cap on the answer.
pub open spec fn prompt_of(system: Seq<char>, user: Seq<char>) -> PromptView {
    PromptView { system, user, temperature: 0, kind: SUMMARY_KIND@, max_tokens: None }
}

/// The call that a prompt is sent with.
pub fn chat_prompt(system: String, user: String) -> (r: ChatPrompt)
    ensures
        r@ == prompt_of(system@, user@),
        r.system@ == system@,
        r.user@ == user@,
        r.temperature == 0,
        r.kind@ == "memory_tree::summarise"@,
        r.max_tokens is None,
{
    ChatPrompt { system, user, temperature: 0, kind: SUMMARY_KIND.to_owned(), max_tokens: None }
}

/// A finished summary, before usage is attached.
#[derive(Debug)]
pub struct FoldedSummary {
    pub content: String,
    pub token_count: u32,
    pub entities: Vec<String>,
    pub topics: Vec<String>,
}

/// What a provider call used.
#[derive(Clone, Copy, Debug, PartialEq, Eq, Structural)]
pub struct ProviderUsage {
    pub input_tokens: u64,
    pub output_tokens: u64,
    /// The charge in dollars, a double-precision number by its bit pattern.
    pub charged_amount_usd: u64,
}

/// A summary and what it cost.
#[derive(Clone, Debug)]
pub struct SummaryOutput {
    pub content: String,
    pub token_count: u32,
    pub entities: Vec<String>,
    pub topics: Vec<String>,
    pub input_tokens: u64,
    pub output_tokens: u64,
    /// The charge in dollars by its bit pattern, where there was one.
    pub charged_amount_usd: Option<u64>,
}

/// A summary, as texts.
pub ghost struct OutputView {
    pub content: Seq<char>,
    pub token_count: u32,
    pub entities: Seq<Seq<char>>,
    pub topics: Seq<Seq<char>>,
    pub input_tokens: u64,
    pub output_tokens: u64,
    pub charged_amount_usd: Option<u64>,
}

impl View for SummaryOutput {
    type V = OutputView;

    open spec fn view(&self) -> OutputView {
        OutputView {
            content: self.content@,
            token_count: self.token_count,
            entities: crate::text::texts(self.entities@),
            topics: crate::text::texts(self.topics@),
            input_tokens: self.input_tokens,
            output_tokens: self.output_tokens,
            charged_amount_usd: self.charged_amount_usd,
        }
    }
}

impl OutputView {
    /// The summary of nothing.
    pub open spec fn empty() -> OutputView {
        OutputView {
            content: Seq::empty(),
            token_count: 0,
            entities: Seq::empty(),
            topics: Seq::empty(),
            input_tokens: 0,
            output_tokens: 0,
            charged_amount_usd: None,
        }
    }
}

impl Default for SummaryOutput {
    fn default() -> (r: Self)
        ensures
            r@ == OutputView::empty(),
    {
        let r = SummaryOutput {
            content: String::new(),
            token_count: 0,
            entities: Vec::new(),
            topics: Vec::new(),
            input_tokens: 0,
            output_tokens: 0,
            charged_amount_usd: None,
        };
        assert(r@.content =~= Seq::empty());
        assert(r@.entities =~= Seq::empty());
        assert(r@.topics =~= Seq::empty());
        r
    }
}

/// One contribution to a summary: a leaf, or a summary of the level below.
#[derive(Clone, Debug)]
pub struct SummaryInput {
    pub id: String,
    pub content: String,
    pub token_count: u32,
    pub entities: Vec<String>,
    pub topics: Vec<String>,
    /// How important it is, a single-precision number by its bit pattern.
    pub score: u32,
}

/// The fold of some inputs, before it is cut to a budget.
pub open spec fn fold_of(inputs: Seq<SummaryInput>) -> Seq<char> {
    crate::outside::folded_text(crate::outside::scored_contents(inputs))
}

/// The summary of the fold that needs no provider: it charges nothing, and carries over
/// neither entities nor topics.
pub open spec fn fallback_of(inputs: Seq<SummaryInput>, budget: u32) -> OutputView {
    let content = crate::outside::clamped(fold_of(inputs), budget);
    OutputView {
        content,
        token_count: crate::outside::tokens_of(content) as u32,
        ..OutputView::empty()
    }
}

/// Folds inputs without a provider, within a token budget. Scores that are not numbers
/// have no order, and are left out.
pub fn fallback_summary(inputs: &Vec<SummaryInput>, budget: u32) -> (r: SummaryOutput)
    requires
        forall|i: int|
            0 <= i < inputs@.len() ==> !crate::outside::is_nan((#[trigger] inputs@[i]).score),
    ensures
        fold_of(inputs@).len() <= u32::MAX - 3 ==> r@ == fallback_of(inputs@, budget),
        r.token_count <= budget,
        r@ == (OutputView {
            content: r@.content,
            token_count: r@.token_count,
            ..OutputView::empty()
        }),
{
    let folded = fold_inputs(inputs, budget);
    let r = finish_summary(folded, None);
    assert(r@.entities =~= Seq::empty());
    assert(r@.topics =~= Seq::empty());
    r
}

/// A blank input adds nothing to the fold, and the fold of no inputs, or of a blank one
/// alone, is empty.
pub proof fn law_blank_inputs_are_dropped(inputs: Seq<SummaryInput>, at: int, budget: u32)
    requires
        0 <= at < inputs.len(),
        crate::text::is_blank(inputs[at].content@),
    ensures
        fallback_of(inputs.remove(at), budget) == fallback_of(inputs, budget),
        fallback_of(Seq::empty(), budget) == OutputView::empty(),
        inputs.len() == 1 ==> fallback_of(inputs, budget) == OutputView::empty(),
{
    let scored = crate::outside::scored_contents(inputs);
    let keep = |i: (Seq<char>, u32)| !crate::text::is_blank(i.0);
    let head = scored.take(at);
    let tail = scored.skip(at + 1);
    assert(scored =~= head + seq![scored[at]] + tail);
    assert(crate::outside::scored_contents(inputs.remove(at)) =~= head + tail);
    Seq::filter_distributes_over_add(head, tail, keep);
    Seq::filter_distributes_over_add(head + seq![scored[at]], tail, keep);
    Seq::filter_distributes_over_add(head, seq![scored[at]], keep);
    assert(seq![scored[at]].filter(keep) =~= Seq::empty()) by {
        reveal(Seq::filter);
        let one = seq![scored[at]];
        assert(!keep(one.last()));
        assert(one.drop_last().filter(keep) =~= Seq::empty());
    }
    assert(head.filter(keep) + Seq::empty() + tail.filter(keep) =~= head.filter(keep)
        + tail.filter(keep));
    let none = crate::outside::scored_contents(Seq::empty());
    assert(none.filter(keep) =~= Seq::empty()) by {
        reveal(Seq::filter);
    }
    assert(crate::outside::folded_text(none) =~= Seq::empty());
    assert(inputs.len() == 1 ==> inputs.remove(at) =~= Seq::empty());
}

/// A fold that is within the budget is not cut, and one that is not is cut to as many
/// tokens as the budget has.
pub proof fn law_the_budget_is_honoured(inputs: Seq<SummaryInput>, budget: u32)
    requires
        fold_of(inputs).len() <= u32::MAX - 3,
    ensures
        fallback_of(inputs, budget).token_count <= budget,
        crate::outside::tokens_of(fold_of(inputs)) <= budget ==> fallback_of(
            inputs,
            budget,
        ).content == fold_of(inputs),
        crate::outside::tokens_of(fold_of(inputs)) > budget ==> fallback_of(
            inputs,
            budget,
        ).token_count == budget,
{
}

/// Whether the double-precision number with a bit pattern is greater than zero:
/// neither zero, nor negative, nor not a number.
pub open spec fn is_positive(bits: u64) -> bool {
    0 < bits <= 0x7ff0_0000_0000_0000
}

/// The summary of a folded answer and its usage. A charge that is not positive is no
/// charge.
pub open spec fn output_of(folded: FoldedSummary, usage: Option<ProviderUsage>) -> OutputView {
    OutputView {
        content: folded.content@,
        token_count: folded.token_count,
        entities: crate::text::texts(folded.entities@),
        topics: crate::text::texts(folded.topics@),
        input_tokens: match usage {
            Some(usage) => usage.input_tokens,
            None => 0,
        },
        output_tokens: match usage {
            Some(usage) => usage.output_tokens,
            None => 0,
        },
        charged_amount_usd: match usage {
            Some(usage) if is_positive(usage.charged_amount_usd) => Some(usage.charged_amount_usd),
            _ => None,
        },
    }
}

/// Attaches usage to a finished summary.
pub fn finish_summary(folded: FoldedSummary, usage: Option<ProviderUsage>) -> (r: SummaryOutput)
    ensures
        r@ == output_of(folded, usage),
        r.content@ == folded.content@,
        r.token_count == folded.token_count,
        crate::text::texts(r.entities@) == crate::text::texts(folded.entities@),
        crate::text::texts(r.topics@) == crate::text::texts(folded.topics@),
{
    let (input_tokens, output_tokens): (u64, u64) = match usage {
        Some(usage) => (usage.input_tokens, usage.output_tokens),
        None => (0, 0),
    };
    let charged_amount_usd: Option<u64> = match usage {
        Some(usage) => if 0 < usage.charged_amount_usd && usage.charged_amount_usd
            <= 0x7ff0_0000_0000_0000 {
            Some(usage.charged_amount_usd)
        } else {
            None
        },
        None => None,
    };
    SummaryOutput {
        content: folded.content,
        token_count: folded.token_count,
        entities: folded.entities,
        topics: folded.topics,
        input_tokens,
        output_tokens,
        charged_amount_usd,
    }
}

/// What a run waits for.
#[derive(Clone, Copy, Debug, PartialEq, Eq, Structural)]
pub enum SummarisePhase {
    /// The outcome of a provider call.
    Calling,
    /// The end of a wait.
    Waiting,
    /// Nothing: it is over.
    Over,
}

/// What has to be done next.
#[derive(Debug)]
pub enum SummariseAction {
    /// Call the provider with a prompt.
    Call(ChatPrompt),
    /// Wait.
    Sleep { millis: u64 },
    /// Finish the provider's answer within a token budget and attach its usage.
    Finish { text: String, usage: Option<ProviderUsage>, budget: u32 },
    /// Nothing: this is the summary.
    Done(SummaryOutput),
    /// Nothing: the run failed, with this context around its cause.
    Fail { context: String, cause: ProviderFailure },
    /// The event answered nothing that was asked for.
    Ignored,
}

/// The outcome of an action.
#[derive(Debug)]
pub enum SummariseEvent {
    /// The provider answered.
    Answered { text: String, usage: Option<ProviderUsage> },
    /// The provider call failed, so many milliseconds after the run began.
    Failed { failure: ProviderFailure, elapsed_millis: u64 },
    /// The wait is over.
    Slept,
}

/// An action, as texts.
pub ghost enum ActionView {
    Call(PromptView),
    Sleep { millis: u64 },
    Finish { text: Seq<char>, usage: Option<ProviderUsage>, budget: u32 },
    Done(OutputView),
    Fail { context: Seq<char>, cause: FailureView },
    Ignored,
}

/// An event, as texts.
pub ghost enum EventView {
    Answered { text: Seq<char>, usage: Option<ProviderUsage> },
    Failed { failure: FailureView, elapsed_millis: u64 },
    Slept,
}

impl View for SummariseAction {
    type V = ActionView;

    open spec fn view(&self) -> ActionView {
        match *self {
            SummariseAction::Call(prompt) => ActionView::Call(prompt@),
            SummariseAction::Sleep { millis } => ActionView::Sleep { millis },
            SummariseAction::Finish { text, usage, budget } => ActionView::Finish {
                text: text@,
                usage,
                budget,
            },
            SummariseAction::Done(output) => ActionView::Done(output@),
            SummariseAction::Fail { context, cause } => ActionView::Fail {
                context: context@,
                cause: cause@,
            },
            SummariseAction::Ignored => ActionView::Ignored,
        }
    }
}

impl View for SummariseEvent {
    type V = EventView;

    open spec fn view(&self) -> EventView {
        match *self {
            SummariseEvent::Answered { text, usage } => EventView::Answered { text: text@, usage },
            SummariseEvent::Failed { failure, elapsed_millis } => EventView::Failed {
                failure: failure@,
                elapsed_millis,
            },
            SummariseEvent::Slept => EventView::Slept,
        }
    }
}

/// A run over a prepared prompt.
#[derive(Debug)]
pub struct SummariseRun {
    provider: String,
    system: String,
    user: String,
    budget: u32,
    attempt: u32,
    phase: SummarisePhase,
}

/// A run: the provider's name, the prompt, and how many calls it has begun.
pub ghost struct RunView {
    pub provider: Seq<char>,
    pub system: Seq<char>,
    pub user: Seq<char>,
    pub budget: u32,
    pub attempt: u32,
    pub phase: SummarisePhase,
}

impl View for SummariseRun {
    type V = RunView;

    closed spec fn view(&self) -> RunView {
        RunView {
            provider: self.provider@,
            system: self.system@,
            user: self.user@,
            budget: self.budget,
            attempt: self.attempt,
            phase: self.phase,
        }
    }
}

/// The wait after the given attempt: 250 ms, then 500 ms, and so on.
pub open spec fn backoff(attempt: u32) -> u64
    decreases attempt,
{
    if attempt <= 1 {
        RETRY_BASE_BACKOFF_MILLIS
    } else {
        (2 * backoff((attempt - 1) as u32)) as u64
    }
}

impl RunView {
    /// What a run keeps: it makes no more calls than it may, and it waits only while
    /// another call is left.
    pub open spec fn wf(self) -> bool {
        &&& self.attempt <= MAX_ATTEMPTS
        &&& self.phase is Calling ==> 1 <= self.attempt
        &&& self.phase is Waiting ==> 1 <= self.attempt < MAX_ATTEMPTS
    }

    /// Whether a failed call is followed by another one: calls are left, the wait
    /// before it ends in time, and the failure is worth it.
    pub open spec fn retries(self, failure: FailureView, elapsed_millis: u64) -> bool {
        &&& self.attempt < MAX_ATTEMPTS
        &&& elapsed_millis + backoff(self.attempt) < MAX_TOTAL_ELAPSED_MILLIS
        &&& may_retry(failure)
    }

    /// What is put around the cause of a failed run.
    pub open spec fn context(self) -> Seq<char> {
        "memory_tree::summarise: provider="@ + self.provider + " after "@ + crate::text::decimal(
            self.attempt as nat,
        ) + " attempt(s)"@
    }

    /// The run after an event, and what has to be done next.
    pub open spec fn after(self, event: EventView) -> (RunView, ActionView) {
        match (self.phase, event) {
            (SummarisePhase::Calling, EventView::Answered { text, usage }) => (
                RunView { phase: SummarisePhase::Over, ..self },
                ActionView::Finish { text, usage, budget: self.budget },
            ),
            (SummarisePhase::Calling, EventView::Failed { failure, elapsed_millis }) => {
                if self.retries(failure, elapsed_millis) {
                    (
                        RunView { phase: SummarisePhase::Waiting, ..self },
                        ActionView::Sleep { millis: backoff(self.attempt) },
                    )
                } else {
                    (
                        RunView { phase: SummarisePhase::Over, ..self },
                        ActionView::Fail { context: self.context(), cause: failure },
                    )
                }
            },
            (SummarisePhase::Waiting, EventView::Slept) => (
                RunView {
                    phase: SummarisePhase::Calling,
                    attempt: (self.attempt + 1) as u32,
                    ..self
                },
                ActionView::Call(prompt_of(self.system, self.user)),
            ),
            _ => (self, ActionView::Ignored),
        }
    }
}

impl RunView {
    /// A run over a prepared prompt, with its first call out.
    pub open spec fn begun(provider: Seq<char>, prepared: PreparedPrompt) -> RunView {
        RunView {
            provider,
            system: prepared.system@,
            user: prepared.user@,
            budget: prepared.effective_budget,
            attempt: 1,
            phase: SummarisePhase::Calling,
        }
    }
}

fn wait_after(attempt: u32) -> (r: u64)
    requires
        1 <= attempt <= MAX_ATTEMPTS,
    ensures
        r == backoff(attempt),
        r <= 1000,
{
    proof {
        reveal_with_fuel(backoff, 4);
    }
    if attempt == 1 {
        RETRY_BASE_BACKOFF_MILLIS
    } else if attempt == 2 {
        2 * RETRY_BASE_BACKOFF_MILLIS
    } else {
        4 * RETRY_BASE_BACKOFF_MILLIS
    }
}

/// Begins to summarise a prepared prompt. Where nothing was prepared there is nothing
/// to fold, and the provider is never called.
pub fn summarise(provider: &str, prepared: Option<PreparedPrompt>) -> (r: (
    SummariseRun,
    SummariseAction,
))
    ensures
        r.0@.wf(),
        r.0@.provider == provider@,
        match prepared {
            Some(prompt) => r.0@.phase is Calling && r.0@.attempt == 1 && r.0@.system
                == prompt.system@ && r.0@.user == prompt.user@ && r.0@.budget
                == prompt.effective_budget && r.1@ == ActionView::Call(
                prompt_of(prompt.system@, prompt.user@),
            ),
            None => r.0@.phase is Over && r.0@.attempt == 0 && r.1@ == ActionView::Done(
                OutputView::empty(),
            ),
        },
        prepared is Some ==> r.0@ == RunView::begun(provider@, prepared->0),
{
    match prepared {
        Some(prompt) => {
            let run = SummariseRun {
                provider: provider.to_owned(),
                system: prompt.system.clone(),
                user: prompt.user.clone(),
                budget: prompt.effective_budget,
                attempt: 1,
                phase: SummarisePhase::Calling,
            };
            (run, SummariseAction::Call(chat_prompt(prompt.system, prompt.user)))
        },
        None => {
            let run = SummariseRun {
                provider: provider.to_owned(),
                system: String::new(),
                user: String::new(),
                budget: 0,
                attempt: 0,
                phase: SummarisePhase::Over,
            };
            (run, SummariseAction::Done(SummaryOutput::default()))
        },
    }
}

impl SummariseRun {
    /// How many provider calls the run has begun.
    pub fn attempts(&self) -> (r: u32)
        ensures
            r == self@.attempt,
    {
        self.attempt
    }

    fn failure_context(&self) -> (r: String)
        ensures
            r@ == self@.context(),
    {
        let attempt = decimal_text(self.attempt as u64);
        let head = joined3(
            "memory_tree::summarise: provider=",
            self.provider.as_str(),
            " after ",
        );
        joined3(head.as_str(), attempt.as_str(), " attempt(s)")
    }

    /// Takes the outcome of what had to be done, and says what has to be done next.
    pub fn advance(&mut self, event: SummariseEvent) -> (r: SummariseAction)
        requires
            old(self)@.wf(),
        ensures
            final(self)@.wf(),
            (final(self)@, r@) == old(self)@.after(event@),
    {
        match (self.phase, event) {
            (SummarisePhase::Calling, SummariseEvent::Answered { text, usage }) => {
                self.phase = SummarisePhase::Over;
                SummariseAction::Finish { text, usage, budget: self.budget }
            },
            (SummarisePhase::Calling, SummariseEvent::Failed { failure, elapsed_millis }) => {
                let millis: u64 = wait_after(self.attempt);
                let exhausted = self.attempt >= MAX_ATTEMPTS;
                let out_of_time = elapsed_millis >= MAX_TOTAL_ELAPSED_MILLIS - millis;
                if exhausted || out_of_time || !retryable(&failure) {
                    let context = self.failure_context();
                    self.phase = SummarisePhase::Over;
                    return SummariseAction::Fail { context, cause: failure };
                }
                self.phase = SummarisePhase::Waiting;
                SummariseAction::Sleep { millis }
            },
            (SummarisePhase::Waiting, SummariseEvent::Slept) => {
                self.attempt = self.attempt + 1;
                self.phase = SummarisePhase::Calling;
                SummariseAction::Call(chat_prompt(self.system.clone(), self.user.clone()))
            },
            _ => SummariseAction::Ignored,
        }
    }
}

/// The context and the cause of a failed run, as one message.
pub fn render_failure(context: &str, cause: &ProviderFailure) -> (r: String)
    ensures
        r@ == context@ + ": "@ + cause.message@,
{
    joined3(context, ": ", cause.message.as_str())
}

impl RunView {
    /// The run after some events.
    pub open spec fn after_all(self, events: Seq<EventView>) -> RunView
        decreases events.len(),
    {
        if events.len() == 0 {
            self
        } else {
            self.after_all(events.drop_last()).after(events.last()).0
        }
    }
}

/// Whatever happens, a run makes no more than [`MAX_ATTEMPTS`] calls, and a run that
/// is over stays over.
pub proof fn law_calls_are_bounded(run: RunView, events: Seq<EventView>)
    requires
        run.wf(),
    ensures
        run.after_all(events).wf(),
        run.after_all(events).attempt <= MAX_ATTEMPTS,
        run.phase is Over ==> run.after_all(events) == run,
    decreases events.len(),
{
    if events.len() > 0 {
        law_calls_are_bounded(run, events.drop_last());
    }
}

/// Every call of a run carries the prompt that the run began with, at temperature zero,
/// and the first answer ends the run and is the one that is used.
pub proof fn law_calls_carry_the_prompt(run: RunView, events: Seq<EventView>, event: EventView)
    ensures
        ({
            let now = run.after_all(events);
            let (next, action) = now.after(event);
            &&& now.system == run.system && now.user == run.user && now.budget == run.budget
            &&& action is Call ==> action == ActionView::Call(prompt_of(run.system, run.user))
                && action->Call_0.system == run.system && action->Call_0.user == run.user
                && action->Call_0.temperature == 0 && action->Call_0.max_tokens is None
            &&& now.phase is Calling && event is Answered ==> next.phase is Over && action == (
            ActionView::Finish {
                text: event->text,
                usage: event->usage,
                budget: run.budget,
            })
        }),
    decreases events.len(),
{
    if events.len() > 0 {
        law_calls_carry_the_prompt(run, events.drop_last(), events.last());
    }
}

/// A failure that is not worth another attempt ends the run at once, and the failure
/// says how many attempts were made.
pub proof fn law_terminal_failure_ends_the_run(
    run: RunView,
    failure: FailureView,
    elapsed_millis: u64,
)
    requires
        run.wf(),
        run.phase is Calling,
        !may_retry(failure),
    ensures
        run.after(EventView::Failed { failure, elapsed_millis }) == (
            (RunView { phase: SummarisePhase::Over, ..run }),
            (ActionView::Fail { context: run.context(), cause: failure }),
        ),
{
}

/// A failure that is worth it leads to another call with the same prompt, as long as
/// a call is left and the wait ends within the time; the call after it is the last
/// one allowed or an earlier one.
pub proof fn law_transport_failure_is_retried(
    run: RunView,
    failure: FailureView,
    elapsed_millis: u64,
)
    requires
        run.wf(),
        run.phase is Calling,
        may_retry(failure),
    ensures
        ({
            let (waiting, action) = run.after(EventView::Failed { failure, elapsed_millis });
            let (calling, call) = waiting.after(EventView::Slept);
            if run.attempt < MAX_ATTEMPTS && elapsed_millis + backoff(run.attempt)
                < MAX_TOTAL_ELAPSED_MILLIS {
                &&& action == (ActionView::Sleep { millis: backoff(run.attempt) })
                &&& calling == (RunView { attempt: (run.attempt + 1) as u32, ..run })
                &&& call == ActionView::Call(prompt_of(run.system, run.user))
            } else {
                action == (ActionView::Fail { context: run.context(), cause: failure })
            }
        }),
{
}

/// A run never commits to a wait that would end past its time.
pub proof fn law_no_wait_past_the_deadline(run: RunView, event: EventView)
    requires
        run.wf(),
        run.after(event).1 is Sleep,
    ensures
        event is Failed,
        event->elapsed_millis + run.after(event).1->millis < MAX_TOTAL_ELAPSED_MILLIS,
        run.after(event).1->millis == if run.attempt == 1 {
            250int
        } else {
            500int
        },
{
    reveal_with_fuel(backoff, 4);
}

} // verus!
