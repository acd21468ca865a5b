//! What summaries, prompts and failures carry.

use vstd::prelude::*;

use crate::summarise::{
    ChatPrompt, FoldedSummary, PreparedPrompt, ProviderFailure, ProviderUsage, SummariseAction,
    SummariseEvent, SummaryOutput, TransportFailure,
};

verus! {

/// Whatever usage is reported, a finished summary has the content, the token count, the
/// entities and the topics of the folded answer. Usage changes the counts of tokens and the
/// charge, and nothing else: they are those reported, and zero and none where nothing is.
pub proof fn law_usage_changes_only_the_cost(
    folded: FoldedSummary,
    u: Option<ProviderUsage>,
    v: Option<ProviderUsage>,
    a: SummaryOutput,
    b: SummaryOutput,
)
    requires
        a@ == crate::summarise::output_of(folded, u),
        b@ == crate::summarise::output_of(folded, v),
    ensures
        a.content@ == folded.content@,
        a.token_count == folded.token_count,
        crate::text::texts(a.entities@) == crate::text::texts(folded.entities@),
        crate::text::texts(a.topics@) == crate::text::texts(folded.topics@),
        b.content@ == a.content@,
        b.token_count == a.token_count,
        crate::text::texts(b.entities@) == crate::text::texts(a.entities@),
        crate::text::texts(b.topics@) == crate::text::texts(a.topics@),
        u is Some ==> a.input_tokens == u->0.input_tokens && a.output_tokens
            == u->0.output_tokens,
        u is None ==> a.input_tokens == 0 && a.output_tokens == 0 && a.charged_amount_usd is None,
        a.charged_amount_usd is Some ==> u is Some && a.charged_amount_usd->0
            == u->0.charged_amount_usd && crate::summarise::is_positive(u->0.charged_amount_usd),
        u is Some && crate::summarise::is_positive(u->0.charged_amount_usd)
            ==> a.charged_amount_usd is Some,
{
}

/// Two folded answers that finish as the same summary were the same.
pub proof fn law_summaries_keep_answers_apart(
    a: FoldedSummary,
    b: FoldedSummary,
    usage: Option<ProviderUsage>,
)
    requires
        crate::summarise::output_of(a, usage) == crate::summarise::output_of(b, usage),
    ensures
        a.content@ == b.content@,
        a.token_count == b.token_count,
        crate::text::texts(a.entities@) == crate::text::texts(b.entities@),
        crate::text::texts(a.topics@) == crate::text::texts(b.topics@),
{
}

/// A charge counts exactly where, as a double-precision number, its sign is plus, it is not
/// zero, and it is a number.
pub proof fn law_charges_are_positive_numbers(bits: u64)
    ensures
        ({
            let negative = bits >> 63u64 == 1u64;
            let exponent = (bits & 0x7fff_ffff_ffff_ffffu64) >> 52u64;
            let fraction = bits & 0x000f_ffff_ffff_ffffu64;
            let zero = exponent == 0 && fraction == 0;
            let no_number = exponent == 2047 && fraction != 0;
            crate::summarise::is_positive(bits) <==> !negative && !zero && !no_number
        }),
{
    assert((0u64 < bits && bits <= 0x7ff0_0000_0000_0000u64) <==> (bits >> 63u64 != 1u64 && !(((
    bits & 0x7fff_ffff_ffff_ffffu64) >> 52u64) == 0u64 && (bits & 0x000f_ffff_ffff_ffffu64)
        == 0u64) && !(((bits & 0x7fff_ffff_ffff_ffffu64) >> 52u64) == 2047u64 && (bits
        & 0x000f_ffff_ffff_ffffu64) != 0u64))) by (bit_vector);
}

/// A provider is called with the prompt as it was prepared: the system text as the system
/// text, the user text as the user text, at temperature zero and without a cap.
pub proof fn law_prompts_are_sent_as_prepared(
    system: Seq<char>,
    user: Seq<char>,
    prompt: ChatPrompt,
)
    requires
        prompt@ == crate::summarise::prompt_of(system, user),
    ensures
        prompt.system@ == system,
        prompt.user@ == user,
        prompt.temperature == 0,
        prompt.kind@ == "memory_tree::summarise"@,
        prompt.max_tokens is None,
{
}

/// While a call is out, its answer is handed on as it came, with its usage and the budget
/// of the prompt; a failure that ends the run is handed on as its cause; and a wait is
/// followed by a call with the prompt that the run began with.
pub proof fn law_outcomes_are_handed_on(
    run: crate::summarise::RunView,
    event: SummariseEvent,
    action: SummariseAction,
)
    requires
        action@ == run.after(event@).1,
    ensures
        run.phase is Calling && event is Answered ==> {
            &&& action is Finish
            &&& action->Finish_text@ == event->Answered_text@
            &&& action->Finish_usage == event->Answered_usage
            &&& action->Finish_budget == run.budget
        },
        run.phase is Calling && event is Failed ==> {
            ||| action is Fail && action->cause.message@ == event->failure.message@
                && action->cause.transport == event->failure.transport
            ||| action is Sleep && run.attempt < crate::summarise::MAX_ATTEMPTS
                && crate::summarise::may_retry(event->failure@)
        },
        run.phase is Waiting && event is Slept ==> {
            &&& action is Call
            &&& action->Call_0.system@ == run.system
            &&& action->Call_0.user@ == run.user
            &&& action->Call_0.temperature == 0
            &&& action->Call_0.max_tokens is None
        },
        run.phase is Over ==> action is Ignored,
{
}

/// What is put around the cause of a failed run names the provider and says how many
/// attempts were made.
pub proof fn law_failures_name_provider_and_attempts(run: crate::summarise::RunView)
    ensures
        ({
            let head = "memory_tree::summarise: provider="@;
            let middle = " after "@;
            let tail = " attempt(s)"@;
            let context = run.context();
            let name = head.len() + run.provider.len();
            let digits = context.subrange(
                (name + middle.len()) as int,
                context.len() - tail.len(),
            );
            &&& context.take(head.len() as int) == head
            &&& context.subrange(head.len() as int, name as int) == run.provider
            &&& context.subrange(name as int, (name + middle.len()) as int) == middle
            &&& crate::text::number_of(digits) == run.attempt
            &&& context.skip(context.len() - tail.len()) == tail
        }),
{
    let head = "memory_tree::summarise: provider="@;
    let middle = " after "@;
    let tail = " attempt(s)"@;
    let context = run.context();
    let name = head.len() + run.provider.len();
    let digits = crate::text::decimal(run.attempt as nat);
    crate::text::lemma_decimal_reads_back(run.attempt as nat);
    assert(context.take(head.len() as int) =~= head);
    assert(context.subrange(head.len() as int, name as int) =~= run.provider);
    assert(context.subrange(name as int, (name + middle.len()) as int) =~= middle);
    assert(context.subrange((name + middle.len()) as int, context.len() - tail.len()) =~= digits);
    assert(context.skip(context.len() - tail.len()) =~= tail);
}

/// Which transport failures are worth another attempt: those where no connection came
/// about, those of a request that failed on its way without running out of time, and
/// answers that the provider cannot serve right now. The message plays no part in it.
pub proof fn law_transport_errors_decide(transport: TransportFailure, message: Seq<char>)
    ensures
        ({
            let failure = crate::summarise::FailureView { transport: Some(transport), message };
            &&& transport.connect ==> crate::summarise::may_retry(failure)
            &&& transport.request && !transport.timeout ==> crate::summarise::may_retry(failure)
            &&& !transport.connect && transport.timeout && transport.status is None
                ==> !crate::summarise::may_retry(failure)
            &&& transport.status is Some && (transport.status->0 == 429 || 502
                <= transport.status->0 <= 504) ==> crate::summarise::may_retry(failure)
            &&& !transport.connect && !transport.request && crate::summarise::may_retry(failure)
                ==> transport.status is Some && (transport.status->0 == 429 || 502
                <= transport.status->0 <= 504)
        }),
{
}

/// Without a transport error the message decides, whatever the case of its letters and
/// whatever stands around the words.
pub proof fn law_messages_decide_without_a_transport_error(
    before: Seq<char>,
    after: Seq<char>,
    phrase: Seq<char>,
    failure: ProviderFailure,
)
    requires
        failure.transport is None,
        failure.message@ == before + phrase + after,
        crate::text::ascii_lower(phrase) == "error sending request"@ || crate::text::ascii_lower(
            phrase,
        ) == "connection refused"@ || crate::text::ascii_lower(phrase) == "connection reset"@
            || crate::text::ascii_lower(phrase) == "connection closed before message completed"@
            || crate::text::ascii_lower(phrase) == "tcp connect error"@
            || crate::text::ascii_lower(phrase) == "dns error"@,
    ensures
        crate::summarise::may_retry(failure@),
{
    let text = crate::text::ascii_lower(failure.message@);
    let lowered = crate::text::ascii_lower(phrase);
    let from = before.len() as int;
    assert(text.subrange(from, from + lowered.len()) =~= lowered);
}

/// A message without any of these words is not worth another attempt.
pub proof fn law_other_messages_are_final(failure: ProviderFailure)
    requires
        failure.transport is None,
        crate::summarise::may_retry(failure@),
    ensures
        ({
            let text = crate::text::ascii_lower(failure.message@);
            crate::text::has_infix(text, "error sending request"@) || crate::text::has_infix(
                text,
                "connection refused"@,
            ) || crate::text::has_infix(text, "connection reset"@) || crate::text::has_infix(
                text,
                "connection closed before message completed"@,
            ) || crate::text::has_infix(text, "tcp connect error"@) || crate::text::has_infix(
                text,
                "dns error"@,
            )
        }),
{
}

/// A fold without a provider charges nothing, names neither entities nor topics, and keeps
/// the fold itself, from its start on, cut where the budget ends.
pub proof fn law_folds_are_free(
    inputs: Seq<crate::summarise::SummaryInput>,
    budget: u32,
    output: SummaryOutput,
)
    requires
        output@ == crate::summarise::fallback_of(inputs, budget),
    ensures
        output.input_tokens == 0,
        output.output_tokens == 0,
        output.charged_amount_usd is None,
        output.entities@.len() == 0,
        output.topics@.len() == 0,
        output.content@ == crate::outside::clamped(crate::summarise::fold_of(inputs), budget),
        output.content@.is_prefix_of(crate::summarise::fold_of(inputs)),
{
    assert(output@.entities.len() == 0);
    assert(output@.topics.len() == 0);
}

/// Every call of a run, from the first to the last, is made with the prepared prompt, and an
/// answer is finished within the prepared budget.
pub proof fn law_runs_keep_the_prepared_prompt(
    provider: Seq<char>,
    prepared: PreparedPrompt,
    events: Seq<crate::summarise::EventView>,
    event: crate::summarise::EventView,
)
    ensures
        ({
            let first = crate::summarise::RunView::begun(provider, prepared);
            let run = first.after_all(events);
            let (_, action) = run.after(event);
            &&& first.attempt == 1 && first.phase is Calling && first.wf()
            &&& run.system == prepared.system@
            &&& run.user == prepared.user@
            &&& run.budget == prepared.effective_budget
            &&& action is Call ==> action->Call_0.system == prepared.system@
                && action->Call_0.user == prepared.user@
            &&& action is Finish ==> action->Finish_budget == prepared.effective_budget
        }),
{
    let first = crate::summarise::RunView::begun(provider, prepared);
    crate::summarise::law_calls_carry_the_prompt(first, events, event);
}

} // verus!
