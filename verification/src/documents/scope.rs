//! Rows that belong to a namespace, and to a document of it.

use vstd::prelude::*;

use crate::documents::{ChunkRow, DocumentRow, GraphRow, KvRow};
use crate::text::same_text;

verus! {

/// A row that can be dropped with its namespace or with its document.
pub trait Scoped: View + Sized {
    /// Whether the row is of a namespace, and of a document where one is given.
    spec fn in_scope(row: Self::V, namespace: Seq<char>, document_id: Option<Seq<char>>) -> bool;

    /// Whether the row is of a namespace, and of a document where one is given.
    fn within(&self, namespace: &str, document_id: Option<&str>) -> (r: bool)
        ensures
            r == Self::in_scope(self@, namespace@, opt_str(document_id)),
    ;
}

/// The view of an optional string slice.
pub open spec fn opt_str(text: Option<&str>) -> Option<Seq<char>> {
    match text {
        Some(text) => Some(text@),
        None => None,
    }
}

impl Scoped for DocumentRow {
    open spec fn in_scope(
        row: crate::documents::RowView,
        namespace: Seq<char>,
        document_id: Option<Seq<char>>,
    ) -> bool {
        row.namespace == namespace && match document_id {
            Some(id) => row.document_id == id,
            None => true,
        }
    }

    fn within(&self, namespace: &str, document_id: Option<&str>) -> (r: bool) {
        same_text(self.namespace.as_str(), namespace) && match document_id {
            Some(id) => same_text(self.document_id.as_str(), id),
            None => true,
        }
    }
}

impl Scoped for ChunkRow {
    open spec fn in_scope(
        row: crate::documents::ChunkView,
        namespace: Seq<char>,
        document_id: Option<Seq<char>>,
    ) -> bool {
        row.namespace == namespace && match document_id {
            Some(id) => row.document_id == id,
            None => true,
        }
    }

    fn within(&self, namespace: &str, document_id: Option<&str>) -> (r: bool) {
        same_text(self.namespace.as_str(), namespace) && match document_id {
            Some(id) => same_text(self.document_id.as_str(), id),
            None => true,
        }
    }
}

impl Scoped for GraphRow {
    open spec fn in_scope(
        row: crate::documents::GraphView,
        namespace: Seq<char>,
        document_id: Option<Seq<char>>,
    ) -> bool {
        row.namespace == namespace && match document_id {
            Some(id) => row.document_id == id,
            None => true,
        }
    }

    fn within(&self, namespace: &str, document_id: Option<&str>) -> (r: bool) {
        same_text(self.namespace.as_str(), namespace) && match document_id {
            Some(id) => same_text(self.document_id.as_str(), id),
            None => true,
        }
    }
}

impl Scoped for KvRow {
    /// A key-value row is of its namespace alone.
    open spec fn in_scope(
        row: crate::documents::KvView,
        namespace: Seq<char>,
        document_id: Option<Seq<char>>,
    ) -> bool {
        row.namespace == namespace && document_id is None
    }

    fn within(&self, namespace: &str, document_id: Option<&str>) -> (r: bool) {
        same_text(self.namespace.as_str(), namespace) && document_id.is_none()
    }
}

/// Drops the rows of a namespace, or of one document of it, and says whether there
/// were any.
pub(crate) fn drop_scope<T: Scoped>(
    rows: &mut Vec<T>,
    namespace: &str,
    document_id: Option<&str>,
) -> (r: bool)
    ensures
        crate::rows::row_views(final(rows)@) == crate::rows::row_views(old(rows)@).filter(
            |v: T::V| !T::in_scope(v, namespace@, opt_str(document_id)),
        ),
        r == exists|i: int|
            0 <= i < old(rows)@.len() && T::in_scope(
                #[trigger] crate::rows::row_views(old(rows)@)[i],
                namespace@,
                opt_str(document_id),
            ),
{
    let ghost keep = |v: T::V| !T::in_scope(v, namespace@, opt_str(document_id));
    let ghost all = crate::rows::row_views(rows@);
    let mut dropped = false;
    let mut i: usize = 0;
    let ghost mut at: int = 0;
    assert(all.skip(0) =~= all);
    assert(crate::rows::row_views(rows@).take(0) =~= Seq::empty());
    assert(Seq::<T::V>::empty() + all.filter(keep) =~= all.filter(keep));
    while i < rows.len()
        invariant
            i <= rows.len(),
            0 <= at <= all.len(),
            all.len() - at == rows.len() - i,
            keep == (|v: T::V| !T::in_scope(v, namespace@, opt_str(document_id))),
            crate::rows::row_views(rows@).skip(i as int) == all.skip(at),
            all.filter(keep) == crate::rows::row_views(rows@).take(i as int) + all.skip(at).filter(keep),
            dropped == exists|j: int|
                0 <= j < at && T::in_scope(
                    #[trigger] all[j],
                    namespace@,
                    opt_str(document_id),
                ),
        decreases rows.len() - i,
    {
        let ghost before = crate::rows::row_views(rows@);
        let ghost rest = all.skip(at);
        proof {
            assert(rest[0] == before.skip(i as int)[0]);
            assert(rest[0] == before[i as int]);
            assert(rest[0] == all[at]);
            lemma_filter_first(rest, keep);
            assert(rest.drop_first() =~= all.skip(at + 1));
        }
        if rows[i].within(namespace, document_id) {
            rows.remove(i);
            dropped = true;
            proof {
                assert(T::in_scope(all[at], namespace@, opt_str(document_id)));
                assert(crate::rows::row_views(rows@).take(i as int) =~= before.take(i as int));
                assert(crate::rows::row_views(rows@).skip(i as int) =~= before.skip(i as int).drop_first());
            }
        } else {
            i = i + 1;
            proof {
                assert(crate::rows::row_views(rows@).take(i as int) =~= before.take(i as int - 1).push(rest[0]));
                assert(crate::rows::row_views(rows@).skip(i as int) =~= before.skip(i as int - 1).drop_first());
                assert(before.take(i as int - 1) + (seq![rest[0]] + all.skip(at + 1).filter(keep))
                    =~= before.take(i as int - 1).push(rest[0]) + all.skip(at + 1).filter(keep));
            }
        }
        proof {
            at = at + 1;
        }
    }
    proof {
        assert(all.skip(at) =~= Seq::empty());
        reveal(Seq::filter);
        assert(crate::rows::row_views(rows@).take(i as int) =~= crate::rows::row_views(rows@));
        assert(crate::rows::row_views(rows@) + Seq::<T::V>::empty() =~= crate::rows::row_views(rows@));
        assert forall|j: int| 0 <= j < old(rows)@.len() implies #[trigger] crate::rows::row_views(old(rows)@)[j]
            == all[j] by {}
    }
    dropped
}

/// Filtering a sequence filters its first element and then the rest.
pub proof fn lemma_filter_first<A>(items: Seq<A>, keep: spec_fn(A) -> bool)
    requires
        items.len() > 0,
    ensures
        items.filter(keep) == if keep(items[0]) {
            seq![items[0]] + items.drop_first().filter(keep)
        } else {
            items.drop_first().filter(keep)
        },
{
    let first = seq![items[0]];
    assert(items =~= first + items.drop_first());
    Seq::filter_distributes_over_add(first, items.drop_first(), keep);
    reveal_with_fuel(Seq::filter, 2);
    assert(first.drop_last() =~= Seq::empty());
    assert(first.filter(keep) =~= if keep(items[0]) {
        first
    } else {
        Seq::empty()
    });
    assert(Seq::<A>::empty() + items.drop_first().filter(keep) =~= items.drop_first().filter(
        keep,
    ));
}

} // verus!
