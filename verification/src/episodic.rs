//! Conversation segments and their lifecycle.

use vstd::prelude::*;

use crate::json::{add_text, Json};
use crate::text::same_text;

verus! {

/// How far a segment has come.
#[derive(Clone, Copy, Debug, PartialEq, Eq, Structural)]
pub enum SegmentStatus {
    /// Turns are still added.
    Open,
    /// No turn is added any more, and no summary is there.
    Closed,
    /// The summary is there.
    Summarised,
}

/// A segment of a conversation. Times are double-precision numbers by their bit patterns.
#[derive(Clone, Debug, PartialEq, Eq)]
pub struct ConversationSegment {
    pub segment_id: String,
    pub session_id: String,
    pub namespace: String,
    pub start_episodic_id: i64,
    pub end_episodic_id: Option<i64>,
    pub start_timestamp: u64,
    pub end_timestamp: Option<u64>,
    pub turn_count: u32,
    pub summary: Option<String>,
    /// The vector, by bit patterns.
    pub embedding: Option<Vec<u32>>,
    pub open: bool,
    /// The status, or `None` where it is not known: a closed segment may or may not have
    /// been summarised.
    pub status: Option<SegmentStatus>,
    pub start_seq: Option<u32>,
    pub end_seq: Option<u32>,
}

impl SegmentStatus {
    /// The spelling that is stored and sent.
    pub open spec fn wire(self) -> Seq<char> {
        match self {
            SegmentStatus::Open => "open"@,
            SegmentStatus::Closed => "closed"@,
            SegmentStatus::Summarised => "summarised"@,
        }
    }

    /// What a spelling stands for.
    pub open spec fn of_wire(text: Seq<char>) -> Option<SegmentStatus> {
        if text == "open"@ {
            Some(SegmentStatus::Open)
        } else if text == "closed"@ {
            Some(SegmentStatus::Closed)
        } else if text == "summarised"@ {
            Some(SegmentStatus::Summarised)
        } else {
            None
        }
    }

    /// The spelling that is stored and sent.
    pub fn as_str(self) -> (r: &'static str)
        ensures
            r@ == self.wire(),
    {
        match self {
            SegmentStatus::Open => "open",
            SegmentStatus::Closed => "closed",
            SegmentStatus::Summarised => "summarised",
        }
    }

    /// Reads a spelling.
    pub fn parse(text: &str) -> (r: Option<SegmentStatus>)
        ensures
            r == SegmentStatus::of_wire(text@),
    {
        if same_text(text, "open") {
            Some(SegmentStatus::Open)
        } else if same_text(text, "closed") {
            Some(SegmentStatus::Closed)
        } else if same_text(text, "summarised") {
            Some(SegmentStatus::Summarised)
        } else {
            None
        }
    }
}

/// What the `status` field of a segment's JSON says: a status, nothing known, or something
/// that is no status (`None`).
pub open spec fn status_in(segment: crate::json::JsonView) -> Option<Option<SegmentStatus>> {
    match segment.get("status"@) {
        None => Some(None),
        Some(crate::json::JsonView::Null) => Some(None),
        Some(crate::json::JsonView::Text(text)) => match SegmentStatus::of_wire(text) {
            Some(status) => Some(Some(status)),
            None => None,
        },
        Some(_) => None,
    }
}

/// The fields of a segment's JSON, with its status, where it is known.
pub open spec fn with_status(
    fields: Seq<(Seq<char>, crate::json::JsonView)>,
    status: Option<SegmentStatus>,
) -> Seq<(Seq<char>, crate::json::JsonView)> {
    match status {
        Some(status) => fields.push(("status"@, crate::json::JsonView::Text(status.wire()))),
        None => fields,
    }
}

/// Reads the status of a segment's JSON. A payload without the field is one whose status is
/// not known; a field that holds no status is refused.
pub fn read_status(segment: &Json) -> (r: Option<Option<SegmentStatus>>)
    ensures
        r == status_in(segment@),
{
    match segment.get("status") {
        None => Some(None),
        Some(Json::Null) => Some(None),
        Some(Json::Text(text)) => match SegmentStatus::parse(text.as_str()) {
            Some(status) => Some(Some(status)),
            None => None,
        },
        Some(_) => None,
    }
}

/// Adds the status to a segment's JSON. One that is not known is left out.
pub fn write_status(fields: &mut Vec<(String, Json)>, status: Option<SegmentStatus>)
    ensures
        crate::json::field_views(final(fields)@) == with_status(
            crate::json::field_views(old(fields)@),
            status,
        ),
{
    if let Some(status) = status {
        add_text(fields, "status", status.as_str());
    }
}

/// A field that is added to fields without its name is the one that is found.
proof fn lemma_field_push(
    fields: Seq<(Seq<char>, crate::json::JsonView)>,
    name: Seq<char>,
    value: crate::json::JsonView,
)
    requires
        crate::json::field(fields, name) is None,
    ensures
        crate::json::field(fields.push((name, value)), name) == Some(value),
    decreases fields.len(),
{
    let pushed = fields.push((name, value));
    if fields.len() == 0 {
        assert(pushed[0] == (name, value));
    } else {
        assert(pushed.drop_first() =~= fields.drop_first().push((name, value)));
        lemma_field_push(fields.drop_first(), name, value);
    }
}

/// What is known of a segment's status survives its JSON, and what is not known stays
/// unknown.
pub proof fn law_status_survives_the_wire(
    fields: Seq<(Seq<char>, crate::json::JsonView)>,
    status: Option<SegmentStatus>,
)
    requires
        crate::json::field(fields, "status"@) is None,
    ensures
        status_in(crate::json::JsonView::Object(with_status(fields, status))) == Some(status),
{
    if let Some(status) = status {
        lemma_field_push(fields, "status"@, crate::json::JsonView::Text(status.wire()));
        law_status_round_trips(status, status.wire());
    }
}

/// Every status reads back from its spelling, and no other text reads as one.
pub proof fn law_status_round_trips(status: SegmentStatus, text: Seq<char>)
    ensures
        SegmentStatus::of_wire(status.wire()) == Some(status),
        SegmentStatus::of_wire(text) is Some ==> SegmentStatus::of_wire(text)->0.wire() == text,
{
    reveal_strlit("open");
    reveal_strlit("closed");
    reveal_strlit("summarised");
    assert("open"@.len() != "closed"@.len());
    assert("open"@.len() != "summarised"@.len());
    assert("closed"@.len() != "summarised"@.len());
}

/// The spellings of the statuses, and what an answer says of one: a known spelling is that
/// status, a missing or null field is a status that is not known, and anything else is
/// refused.
pub proof fn law_statuses_are_spelled_out(segment: crate::json::JsonView, text: Seq<char>)
    ensures
        SegmentStatus::Open.wire() == "open"@,
        SegmentStatus::Closed.wire() == "closed"@,
        SegmentStatus::Summarised.wire() == "summarised"@,
        segment.get("status"@) is None ==> status_in(segment) == Some(None::<SegmentStatus>),
        segment.get("status"@) == Some(crate::json::JsonView::Null) ==> status_in(segment) == Some(
            None::<SegmentStatus>,
        ),
        segment.get("status"@) == Some(crate::json::JsonView::Text(text)) ==> match status_in(
            segment,
        ) {
            Some(status) => status is Some && status->0.wire() == text,
            None => text != "open"@ && text != "closed"@ && text != "summarised"@,
        },
        segment.get("status"@) is Some && !(segment.get("status"@)->0 is Null) && !(segment.get(
            "status"@,
        )->0 is Text) ==> status_in(segment) is None,
{
    law_status_round_trips(SegmentStatus::Open, text);
    law_status_round_trips(SegmentStatus::Closed, text);
    law_status_round_trips(SegmentStatus::Summarised, text);
}

/// Adding a status keeps every other field of a segment, and adds one field at most.
pub proof fn law_status_is_the_only_field_added(
    fields: Seq<(Seq<char>, crate::json::JsonView)>,
    status: Option<SegmentStatus>,
)
    ensures
        fields.is_prefix_of(with_status(fields, status)),
        status is None ==> with_status(fields, status) == fields,
        status is Some ==> with_status(fields, status).len() == fields.len() + 1,
{
}

} // verus!
