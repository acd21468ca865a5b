//! How a call's scope is logged.

use vstd::prelude::*;

use crate::provider::types::{Call, SourceScope};
use crate::rows::sort_rows;
use crate::text::{comes_no_later, copy_texts, join_texts};

verus! {

/// The order of texts, as a function.
pub open spec fn text_order() -> spec_fn(Seq<char>, Seq<char>) -> bool {
    |a: Seq<char>, b: Seq<char>| crate::text::text_le(a, b)
}

/// The sources that a scope allows, sorted and put behind one another with commas.
pub open spec fn rendered(scope: Option<&SourceScope>) -> Option<Seq<char>> {
    match scope {
        Some(scope) => Some(
            crate::text::join(
                crate::rows::sorted_by(crate::text::texts(scope.allow@), text_order()),
                ","@,
            ),
        ),
        None => None,
    }
}

/// A call that carries its scope.
pub open spec fn scope_call(
    method: Seq<char>,
    scope: Option<&SourceScope>,
) -> crate::provider::types::CallView {
    crate::provider::types::CallView {
        method,
        content: rendered(scope),
        taint: None,
        scoped: Some(scope is Some),
    }
}

/// The sources that a scope allows, sorted and put behind one another with commas.
pub fn rendered_scope(scope: Option<&SourceScope>) -> (r: Option<String>)
    ensures
        crate::text::opt_text(r) == rendered(scope),
{
    match scope {
        Some(scope) => {
            let allow = copy_texts(&scope.allow);
            let ghost views = crate::text::texts(allow@);
            assert(crate::rows::row_views(allow@) =~= views);
            let precedes = |a: &String, b: &String| -> (r: bool)
                ensures
                    r == crate::text::text_le(a@, b@),
            {
                comes_no_later(a.as_str(), b.as_str())
            };
            let sorted = sort_rows(allow, precedes, Ghost(text_order()));
            assert(crate::text::texts(sorted@) =~= crate::rows::row_views(sorted@));
            Some(join_texts(&sorted, ","))
        },
        None => None,
    }
}

/// A call that carries its scope.
pub(crate) fn scoped_call(method: &str, scope: Option<&SourceScope>) -> (r: Call)
    ensures
        r@ == scope_call(method@, scope),
{
    Call {
        method: method.to_owned(),
        content: rendered_scope(scope),
        taint: None,
        scoped: Some(scope.is_some()),
    }
}

} // verus!
