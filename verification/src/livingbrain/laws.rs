//! What the requests to a LivingBrain carry.

use vstd::prelude::*;

use crate::livingbrain::types::{Capture, CaptureKind, ChatSender, ChatTurn};
use crate::livingbrain::BrainRequest;

verus! {

/// Whether an object carries an optional text under a name: the text itself where it is
/// there, and null where it is not.
pub open spec fn carries(
    object: crate::json::JsonView,
    name: Seq<char>,
    text: Option<String>,
) -> bool {
    match text {
        Some(text) => object.get(name) == Some(crate::json::JsonView::Text(text@)),
        None => object.get(name) == Some(crate::json::JsonView::Null),
    }
}

/// Whether an object has a text under a name that is not blank.
pub open spec fn says(object: crate::json::JsonView, name: Seq<char>) -> bool {
    match object.get(name) {
        Some(crate::json::JsonView::Text(text)) => !crate::text::is_blank(text),
        _ => false,
    }
}

/// The kinds of captures, and who wrote a turn, are named on the wire by words of lower
/// case, a different one for each.
pub proof fn law_kinds_are_named_on_the_wire(a: CaptureKind, b: CaptureKind)
    ensures
        a.wire() == b.wire() ==> a == b,
        CaptureKind::Note.wire() == "note"@,
        CaptureKind::Text.wire() == "text"@,
        CaptureKind::File.wire() == "file"@,
        CaptureKind::Url.wire() == "url"@,
        CaptureKind::Transcript.wire() == "transcript"@,
        CaptureKind::ChatTurn.wire() == "chat_turn"@,
        CaptureKind::Integration.wire() == "integration"@,
        ChatSender::User.wire() == "user"@,
        ChatSender::Agent.wire() == "agent"@,
{
    reveal_strlit("note");
    reveal_strlit("text");
    reveal_strlit("file");
    reveal_strlit("url");
    reveal_strlit("transcript");
    reveal_strlit("chat_turn");
    reveal_strlit("integration");
    assert("note"@[0] == 'n');
    assert("text"@[0] == 't');
    assert("file"@[0] == 'f');
    if a.wire() == b.wire() {
        assert(a.wire().len() == b.wire().len());
        assert(a.wire()[0] == b.wire()[0]);
    }
}

proof fn lemma_capture_fields(capture: Capture)
    ensures
        ({
            let body = capture@.json();
            &&& body.get("kind"@) == Some(crate::json::JsonView::Text(capture.kind.wire()))
            &&& carries(body, "content"@, capture.content)
            &&& carries(body, "fetchUrl"@, capture.fetch_url)
            &&& carries(body, "originRef"@, capture.origin_ref)
            &&& carries(body, "source"@, capture.source)
            &&& carries(body, "label"@, capture.label)
        }),
{
    let fields = capture@.json()->Object_0;
    reveal_strlit("kind");
    reveal_strlit("content");
    reveal_strlit("fetchUrl");
    reveal_strlit("originRef");
    reveal_strlit("source");
    reveal_strlit("label");
    assert(fields.len() == 6);
    assert(fields[0].0 == "kind"@);
    assert(fields[1].0 == "content"@);
    assert(fields[2].0 == "fetchUrl"@);
    assert(fields[3].0 == "originRef"@);
    assert(fields[4].0 == "source"@);
    assert(fields[5].0 == "label"@);
    crate::json::lemma_field_at(fields, 0);
    crate::json::lemma_field_at(fields, 1);
    crate::json::lemma_field_at(fields, 2);
    crate::json::lemma_field_at(fields, 3);
    crate::json::lemma_field_at(fields, 4);
    crate::json::lemma_field_at(fields, 5);
}

/// The body of a capture request gives the capture back: every text of it stands under
/// its own name, and null stands for a text that is not there. Of an accepted capture
/// exactly one of the content and the URL that are sent is a text that is not blank, and
/// what the service deduplicates by is the reference of the capture.
pub proof fn law_capture_body_gives_the_capture_back(capture: Capture)
    ensures
        ({
            let body = capture@.json();
            &&& body.get("kind"@) == Some(crate::json::JsonView::Text(capture.kind.wire()))
            &&& carries(body, "content"@, capture.content)
            &&& carries(body, "fetchUrl"@, capture.fetch_url)
            &&& carries(body, "originRef"@, capture.origin_ref)
            &&& carries(body, "source"@, capture.source)
            &&& carries(body, "label"@, capture.label)
            &&& capture@.fault() is None ==> says(body, "content"@) != says(body, "fetchUrl"@)
            &&& capture@.fault() is None && capture.origin_ref is Some ==> says(
                body,
                "originRef"@,
            )
            &&& capture@.fault() is None && capture.source is Some ==> says(body, "source"@)
        }),
{
    lemma_capture_fields(capture);
}

/// Two captures with the same body on the wire are the same capture.
pub proof fn law_captures_are_told_apart_on_the_wire(a: Capture, b: Capture)
    requires
        a@.json() == b@.json(),
    ensures
        a.kind == b.kind,
        crate::text::opt_text(a.content) == crate::text::opt_text(b.content),
        crate::text::opt_text(a.fetch_url) == crate::text::opt_text(b.fetch_url),
        crate::text::opt_text(a.origin_ref) == crate::text::opt_text(b.origin_ref),
        crate::text::opt_text(a.source) == crate::text::opt_text(b.source),
        crate::text::opt_text(a.label) == crate::text::opt_text(b.label),
{
    lemma_capture_fields(a);
    lemma_capture_fields(b);
    law_kinds_are_named_on_the_wire(a.kind, b.kind);
}

/// A capture is refused exactly where it gives both of content and URL or neither, or
/// where its reference or its source is there and blank.
pub proof fn law_captures_need_one_body(capture: Capture)
    ensures
        ({
            let content = capture.content is Some && !crate::text::is_blank(capture.content->0@);
            let url = capture.fetch_url is Some && !crate::text::is_blank(capture.fetch_url->0@);
            &&& capture@.fault() is None <==> {
                &&& content != url
                &&& capture.origin_ref is Some ==> !crate::text::is_blank(capture.origin_ref->0@)
                &&& capture.source is Some ==> !crate::text::is_blank(capture.source->0@)
            }
            &&& content == url ==> capture@.fault() == Some(
                "LivingBrain capture needs exactly one of content or fetch_url"@,
            )
        }),
{
}

/// A request for a batch carries every capture of it, in the order given, each as it would
/// be sent alone, and nothing else.
pub proof fn law_batch_body_gives_the_captures_back(captures: Seq<Capture>)
    ensures
        ({
            let body = crate::livingbrain::batch_json(captures.map_values(|c: Capture| c@));
            let sent = body.get("captures"@);
            &&& sent is Some
            &&& sent->0.items() is Some
            &&& sent->0.items()->0.len() == captures.len()
            &&& forall|i: int|
                0 <= i < captures.len() ==> {
                    let item = #[trigger] sent->0.items()->0[i];
                    &&& item.get("kind"@) == Some(
                        crate::json::JsonView::Text(captures[i].kind.wire()),
                    )
                    &&& carries(item, "content"@, captures[i].content)
                    &&& carries(item, "fetchUrl"@, captures[i].fetch_url)
                    &&& carries(item, "originRef"@, captures[i].origin_ref)
                    &&& carries(item, "source"@, captures[i].source)
                    &&& carries(item, "label"@, captures[i].label)
                }
        }),
{
    let body = crate::livingbrain::batch_json(captures.map_values(|c: Capture| c@));
    crate::json::lemma_field_at(body->Object_0, 0);
    let items = body.get("captures"@)->0.items()->0;
    assert forall|i: int| 0 <= i < captures.len() implies {
        let item = #[trigger] items[i];
        &&& item.get("kind"@) == Some(crate::json::JsonView::Text(captures[i].kind.wire()))
        &&& carries(item, "content"@, captures[i].content)
        &&& carries(item, "fetchUrl"@, captures[i].fetch_url)
        &&& carries(item, "originRef"@, captures[i].origin_ref)
        &&& carries(item, "source"@, captures[i].source)
        &&& carries(item, "label"@, captures[i].label)
    } by {
        lemma_capture_fields(captures[i]);
        assert(items[i] == captures[i]@.json());
    }
}

/// The body of a request for a conversation turn gives the turn back, and the text of an
/// accepted one is not blank.
pub proof fn law_turn_body_gives_the_turn_back(turn: ChatTurn)
    ensures
        ({
            let body = turn@.json();
            &&& body.get("text"@) == Some(crate::json::JsonView::Text(turn.text@))
            &&& body.get("sender"@) == Some(crate::json::JsonView::Text(turn.sender.wire()))
            &&& carries(body, "originRef"@, turn.origin_ref)
            &&& carries(body, "agentName"@, turn.agent_name)
            &&& turn@.fault() is None <==> says(body, "text"@) && (turn.origin_ref is Some ==> says(
                body,
                "originRef"@,
            ))
        }),
{
    let fields = turn@.json()->Object_0;
    reveal_strlit("text");
    reveal_strlit("sender");
    reveal_strlit("originRef");
    reveal_strlit("agentName");
    assert("originRef"@[0] == 'o');
    assert("agentName"@[0] == 'a');
    assert(fields.len() == 4);
    assert(fields[0].0 == "text"@);
    assert(fields[1].0 == "sender"@);
    assert(fields[2].0 == "originRef"@);
    assert(fields[3].0 == "agentName"@);
    crate::json::lemma_field_at(fields, 0);
    crate::json::lemma_field_at(fields, 1);
    crate::json::lemma_field_at(fields, 2);
    crate::json::lemma_field_at(fields, 3);
}

/// The body of a search gives back what is searched for: the query as it was given, how
/// many results are wanted, and the least similarity where there is one. Every search
/// that is sent asks for something, and for at least one result.
pub proof fn law_search_body_gives_the_search_back(
    query: Seq<char>,
    top_k: usize,
    min_similarity: Option<u64>,
)
    ensures
        ({
            let body = crate::livingbrain::search_json(query, top_k, min_similarity);
            &&& body.get("query"@) == Some(crate::json::JsonView::Text(query))
            &&& body.get("topK"@) == Some(crate::json::JsonView::Number(top_k as u64))
            &&& body.get("minSimilarity"@) == match min_similarity {
                Some(bits) => Some(crate::json::JsonView::Fraction(bits)),
                None => Some(crate::json::JsonView::Null),
            }
            &&& crate::livingbrain::search_fault(query, top_k, min_similarity) is None <==> {
                &&& !crate::text::is_blank(query)
                &&& top_k >= 1
                &&& min_similarity is Some ==> crate::livingbrain::in_unit_interval(
                    min_similarity->0,
                )
            }
        }),
{
    let fields = crate::livingbrain::search_json(query, top_k, min_similarity)->Object_0;
    reveal_strlit("query");
    reveal_strlit("topK");
    reveal_strlit("minSimilarity");
    assert(fields.len() == 3);
    assert(fields[0].0 == "query"@);
    assert(fields[1].0 == "topK"@);
    assert(fields[2].0 == "minSimilarity"@);
    crate::json::lemma_field_at(fields, 0);
    crate::json::lemma_field_at(fields, 1);
    crate::json::lemma_field_at(fields, 2);
}

/// A least similarity is taken exactly where, as a double-precision number, it is a zero
/// of either sign, or a positive number whose exponent is below that of one, or one
/// itself. Negative numbers, infinities and what is not a number are refused.
pub proof fn law_similarities_lie_between_zero_and_one(bits: u64)
    ensures
        ({
            let magnitude = bits & 0x7fff_ffff_ffff_ffffu64;
            let negative = bits >> 63u64 == 1u64;
            let exponent = magnitude >> 52u64;
            let fraction = bits & 0x000f_ffff_ffff_ffffu64;
            crate::livingbrain::in_unit_interval(bits) <==> {
                ||| magnitude == 0
                ||| !negative && exponent < 1023
                ||| !negative && exponent == 1023 && fraction == 0
            }
        }),
{
    assert((bits <= 0x3ff0_0000_0000_0000u64 || bits == 0x8000_0000_0000_0000u64) <==> ((bits
        & 0x7fff_ffff_ffff_ffffu64) == 0u64 || (bits >> 63u64 != 1u64 && ((bits
        & 0x7fff_ffff_ffff_ffffu64) >> 52u64) < 1023u64) || (bits >> 63u64 != 1u64 && ((bits
        & 0x7fff_ffff_ffff_ffffu64) >> 52u64) == 1023u64 && (bits & 0x000f_ffff_ffff_ffffu64)
        == 0u64))) by (bit_vector);
}

/// The path of every request names the brain of the client right behind the version, and
/// ends in the operation. Clients of two brains never ask under the same path.
pub proof fn law_paths_name_the_brain(
    a: crate::livingbrain::BrainView,
    b: crate::livingbrain::BrainView,
    operation: Seq<char>,
)
    ensures
        "v1/brains/"@.is_prefix_of(a.path(operation)),
        a.path(operation).len() == 10 + a.brain_id.len() + operation.len(),
        a.path(operation).subrange(10, 10 + a.brain_id.len() as int) == a.brain_id,
        a.path(operation).skip(10 + a.brain_id.len() as int) == operation,
        a.path(operation) == b.path(operation) ==> a.brain_id == b.brain_id,
{
    reveal_strlit("v1/brains/");
    let whole = a.path(operation);
    assert(whole.subrange(0, 10) =~= "v1/brains/"@);
    assert(whole.subrange(10, 10 + a.brain_id.len() as int) =~= a.brain_id);
    assert(whole.skip(10 + a.brain_id.len() as int) =~= operation);
    if a.path(operation) == b.path(operation) {
        assert(a.brain_id.len() == b.brain_id.len());
        assert(b.path(operation).subrange(10, 10 + b.brain_id.len() as int) =~= b.brain_id);
    }
}

/// Connection fields are taken exactly where none of them is blank, the brain id is a safe
/// path segment, the endpoint is reached over HTTP, and the subject can be sent as a
/// header. A refusal names the field that it is about.
pub proof fn law_connections_are_complete(
    scheme: Option<Seq<char>>,
    api_key: Seq<char>,
    subject_id: Seq<char>,
    brain_id: Seq<char>,
)
    ensures
        ({
            let fault = crate::livingbrain::connection_fault(
                scheme,
                api_key,
                subject_id,
                brain_id,
            );
            &&& fault is None <==> {
                &&& !crate::text::is_blank(api_key)
                &&& !crate::text::is_blank(subject_id)
                &&& !crate::text::is_blank(brain_id)
                &&& crate::livingbrain::segment_fault(brain_id, "LivingBrain brain id"@) is None
                &&& scheme == Some("http"@) || scheme == Some("https"@)
                &&& forall|i: int|
                    0 <= i < subject_id.len() ==> crate::outside::header_char(
                        #[trigger] subject_id[i],
                    )
            }
            &&& crate::text::is_blank(api_key) ==> fault == Some(
                "LivingBrain API key must not be empty"@,
            )
            &&& !crate::text::is_blank(api_key) && crate::text::is_blank(subject_id) ==> fault
                == Some("LivingBrain subject id must not be empty"@)
            &&& !crate::text::is_blank(api_key) && !crate::text::is_blank(subject_id)
                && crate::text::is_blank(brain_id) ==> fault == Some(
                "LivingBrain brain id must not be empty"@,
            )
        }),
{
}

/// Every letter, digit, hyphen, underscore and dot may stand in a path segment, and nothing
/// else: a segment that is not blank, is no dot segment and is made of these is taken.
pub proof fn law_safe_segments_are_taken(value: Seq<char>, name: Seq<char>)
    ensures
        crate::livingbrain::segment_fault(value, name) is None <==> {
            &&& !crate::text::is_blank(value)
            &&& value != "."@
            &&& value != ".."@
            &&& forall|i: int|
                0 <= i < value.len() ==> {
                    let c = #[trigger] value[i];
                    ||| '0' <= c <= '9'
                    ||| 'A' <= c <= 'Z'
                    ||| 'a' <= c <= 'z'
                    ||| c == '-'
                    ||| c == '_'
                    ||| c == '.'
                }
        },
        crate::livingbrain::segment_fault(value, name) is Some ==> name.is_prefix_of(
            crate::livingbrain::segment_fault(value, name)->0,
        ),
{
    let fault = crate::livingbrain::segment_fault(value, name);
    if fault is None {
        assert forall|i: int| 0 <= i < value.len() implies {
            let c = #[trigger] value[i];
            ||| '0' <= c <= '9'
            ||| 'A' <= c <= 'Z'
            ||| 'a' <= c <= 'z'
            ||| c == '-'
            ||| c == '_'
            ||| c == '.'
        } by {
            assert(crate::livingbrain::is_url_safe(value[i]));
        }
    } else {
        assert(fault->0.subrange(0, name.len() as int) =~= name);
    }
}

/// A request as it is seen is the request as it is sent: its method, its path and whether
/// it may be sent again, and its body where it has one.
pub proof fn law_requests_are_seen_as_sent(request: BrainRequest)
    ensures
        request@.method == request.method,
        request@.path == request.path@,
        request@.attempts == request.attempts,
        request.body is Some ==> request@.body == Some(request.body->0@),
        request.body is None ==> request@.body is None,
{
}

/// Only a failure that may pass leads to sending again: the service answered that it
/// cannot serve right now, or did not answer in time. Every such failure does so, for a
/// request that may be repeated.
pub proof fn law_transient_failures_are_sent_again(status: u16)
    ensures
        crate::livingbrain::is_resent(
            crate::livingbrain::Attempts::RetryTransient,
            crate::livingbrain::SendFailure::Timeout,
        ),
        !crate::livingbrain::is_resent(
            crate::livingbrain::Attempts::RetryTransient,
            crate::livingbrain::SendFailure::Other,
        ),
        crate::livingbrain::is_resent(
            crate::livingbrain::Attempts::RetryTransient,
            crate::livingbrain::SendFailure::Status(status),
        ) <==> status == 429 || 502 <= status <= 504,
        !crate::livingbrain::is_resent(
            crate::livingbrain::Attempts::Once,
            crate::livingbrain::SendFailure::Status(status),
        ),
        !crate::livingbrain::is_resent(
            crate::livingbrain::Attempts::Once,
            crate::livingbrain::SendFailure::Timeout,
        ),
{
}

/// A capture may be sent again exactly where it carries a reference to be deduplicated by.
pub proof fn law_referenced_captures_may_be_repeated(capture: Capture)
    ensures
        crate::livingbrain::capture_attempts(capture@) is RetryTransient
            <==> capture.origin_ref is Some,
{
}

/// The credential and the subject are each carried by one header, whole.
pub proof fn law_headers_carry_credential_and_subject(
    api_key: Seq<char>,
    subject_id: Seq<char>,
)
    ensures
        ({
            let headers = crate::livingbrain::headers_of(api_key, subject_id);
            &&& headers.len() == 2
            &&& headers[0].0 == "authorization"@
            &&& "Bearer "@.is_prefix_of(headers[0].1)
            &&& headers[0].1.skip("Bearer "@.len() as int) == api_key
            &&& headers[1] == ("x-subject-id"@, subject_id)
        }),
{
    let value = crate::livingbrain::headers_of(api_key, subject_id)[0].1;
    assert(value.subrange(0, "Bearer "@.len() as int) =~= "Bearer "@);
    assert(value.skip("Bearer "@.len() as int) =~= api_key);
}

/// What is sent for each operation: captures, turns and searches are posted with the body
/// that stands for them, to the path of their operation; reads carry no body and may be
/// repeated; and a removal names its source and is sent once. A capture may be repeated
/// where it carries a reference, a batch and a search always, and a turn never.
pub proof fn law_operations_are_sent_as_asked(
    brain: crate::livingbrain::BrainView,
    capture: Capture,
    captures: Seq<Capture>,
    turn: ChatTurn,
    query: Seq<char>,
    top_k: usize,
    min_similarity: Option<u64>,
    name: Seq<char>,
)
    ensures
        ({
            let sent = brain.capture_request(capture@);
            &&& sent.method is Post
            &&& sent.path == "v1/brains/"@ + brain.brain_id + "/captures"@
            &&& sent.body == Some(capture@.json())
            &&& sent.attempts is RetryTransient <==> capture.origin_ref is Some
        }),
        ({
            let sent = brain.batch_request(captures.map_values(|c: Capture| c@));
            &&& sent.method is Post
            &&& sent.path == "v1/brains/"@ + brain.brain_id + "/captures/batch"@
            &&& sent.body == Some(
                crate::livingbrain::batch_json(captures.map_values(|c: Capture| c@)),
            )
            &&& sent.attempts is RetryTransient
        }),
        ({
            let sent = brain.turn_request(turn@);
            &&& sent.method is Post
            &&& sent.path == "v1/brains/"@ + brain.brain_id + "/captures/chat-turn"@
            &&& sent.body == Some(turn@.json())
            &&& sent.attempts is Once
        }),
        ({
            let sent = brain.search_request(query, top_k, min_similarity);
            &&& sent.method is Post
            &&& sent.path == "v1/brains/"@ + brain.brain_id + "/search"@
            &&& sent.body == Some(
                crate::livingbrain::search_json(query, top_k, min_similarity),
            )
            &&& sent.attempts is RetryTransient
        }),
        ({
            let sent = brain.removal_request(name);
            &&& sent.method is Delete
            &&& sent.path == "v1/brains/"@ + brain.brain_id + ("/sources/"@ + name)
            &&& sent.body is None
            &&& sent.attempts is Once
        }),
        ({
            let sent = brain.reading(name);
            &&& sent.method is Get
            &&& sent.path == "v1/brains/"@ + brain.brain_id + name
            &&& sent.body is None
            &&& sent.attempts is RetryTransient
        }),
{
}

} // verus!
