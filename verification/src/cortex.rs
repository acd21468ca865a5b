//! Answers of a CortexDB service.

use vstd::prelude::*;

use crate::json::Json;
use crate::provider::types::MemoryError;

verus! {

/// What an answer to a write says: the identifier of its event, and whether the service
/// replayed an earlier one. Both have to be there, with their own types.
pub open spec fn receipt_in(answer: crate::json::JsonView) -> Option<(Seq<char>, bool)> {
    match (answer.get("event_id"@), answer.get("replayed_from_idempotency"@)) {
        (
            Some(crate::json::JsonView::Text(id)),
            Some(crate::json::JsonView::Bool(replayed)),
        ) => Some((id, replayed)),
        _ => None,
    }
}

/// Reads the answer to a write.
pub fn receipt(answer: &Json) -> (r: Result<(String, bool), MemoryError>)
    ensures
        match r {
            Ok(receipt) => receipt_in(answer@) == Some((receipt.0@, receipt.1)),
            Err(error) => receipt_in(answer@) is None && error is Backend,
        },
{
    let event_id = match answer.get("event_id") {
        Some(Json::Text(id)) => id.clone(),
        _ => {
            return Err(MemoryError::Backend("receipt without an event_id".to_owned()));
        },
    };
    match answer.get("replayed_from_idempotency") {
        Some(Json::Bool(replayed)) => Ok((event_id, *replayed)),
        _ => Err(
            MemoryError::Backend("receipt without a boolean replayed_from_idempotency".to_owned()),
        ),
    }
}

/// An answer is a receipt exactly where it names its event by a text and says by a boolean
/// whether it was replayed, and the receipt gives these back.
pub proof fn law_receipts_give_the_answer_back(
    answer: crate::json::JsonView,
    event_id: Seq<char>,
    replayed: bool,
)
    ensures
        receipt_in(answer) == Some((event_id, replayed)) <==> {
            &&& answer.get("event_id"@) == Some(crate::json::JsonView::Text(event_id))
            &&& answer.get("replayed_from_idempotency"@) == Some(
                crate::json::JsonView::Bool(replayed),
            )
        },
{
}

} // verus!
