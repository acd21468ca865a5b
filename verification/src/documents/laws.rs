//! What holds of document writes, reads and deletions together.

use vstd::prelude::*;

verus! {

proof fn lemma_key_at(
    tables: crate::documents::Tables,
    namespace: Seq<char>,
    key: Seq<char>,
    at: int,
)
    requires
        tables.wf(),
        0 <= at < tables.docs.len(),
        tables.docs[at].has_key(namespace, key),
    ensures
        crate::documents::by_key(tables.docs, namespace, key) == at,
{
    let meets = |r: crate::documents::RowView| r.has_key(namespace, key);
    crate::rows::lemma_first_where(tables.docs, meets);
    let found = crate::rows::first_where(tables.docs, meets);
    if found > at {
        assert(!meets(tables.docs[at]));
    } else if found < at {
        assert(meets(tables.docs[found]));
        assert(tables.docs[found].has_key(tables.docs[at].namespace, tables.docs[at].key));
    }
}

proof fn lemma_owner_at(tables: crate::documents::Tables, document_id: Seq<char>, at: int)
    requires
        tables.wf(),
        0 <= at < tables.docs.len(),
        tables.docs[at].document_id == document_id,
    ensures
        crate::documents::owner_of(tables.docs, document_id) == at,
        crate::documents::by_id(tables.docs, tables.docs[at].namespace, document_id) == at,
{
    let meets = |r: crate::documents::RowView| r.document_id == document_id;
    crate::rows::lemma_first_where(tables.docs, meets);
    let found = crate::rows::first_where(tables.docs, meets);
    if found > at {
        assert(!meets(tables.docs[at]));
    } else if found < at {
        assert(meets(tables.docs[found]));
    }
    let within = |r: crate::documents::RowView| r.has_id(tables.docs[at].namespace, document_id);
    crate::rows::lemma_first_where(tables.docs, within);
    let inside = crate::rows::first_where(tables.docs, within);
    if inside > at {
        assert(!within(tables.docs[at]));
    } else if inside < at {
        assert(within(tables.docs[inside]));
    }
}

/// Looking a key up finds the row with it, or says that there is none.
proof fn lemma_lookup(docs: Seq<crate::documents::RowView>, namespace: Seq<char>, key: Seq<char>)
    ensures
        0 <= crate::documents::by_key(docs, namespace, key) <= docs.len(),
        crate::documents::by_key(docs, namespace, key) < docs.len() ==> docs[
        crate::documents::by_key(docs, namespace, key)].has_key(namespace, key),
        forall|i: int|
            0 <= i < crate::documents::by_key(docs, namespace, key) ==> !(
            #[trigger] docs[i]).has_key(namespace, key),
{
    crate::rows::lemma_first_where(
        docs,
        |r: crate::documents::RowView| r.has_key(namespace, key),
    );
}

/// Looking an id up finds the row with it, or says that there is none.
proof fn lemma_lookup_id(
    docs: Seq<crate::documents::RowView>,
    namespace: Seq<char>,
    document_id: Seq<char>,
)
    ensures
        0 <= crate::documents::by_id(docs, namespace, document_id) <= docs.len(),
        crate::documents::by_id(docs, namespace, document_id) < docs.len() ==> docs[
        crate::documents::by_id(docs, namespace, document_id)].has_id(namespace, document_id),
        forall|i: int|
            0 <= i < crate::documents::by_id(docs, namespace, document_id) ==> !(
            #[trigger] docs[i]).has_id(namespace, document_id),
        0 <= crate::documents::owner_of(docs, document_id) <= docs.len(),
        crate::documents::owner_of(docs, document_id) < docs.len() ==> docs[
        crate::documents::owner_of(docs, document_id)].document_id == document_id,
        forall|i: int|
            0 <= i < crate::documents::owner_of(docs, document_id) ==> (
            #[trigger] docs[i]).document_id != document_id,
{
    crate::rows::lemma_first_where(
        docs,
        |r: crate::documents::RowView| r.has_id(namespace, document_id),
    );
    crate::rows::lemma_first_where(
        docs,
        |r: crate::documents::RowView| r.document_id == document_id,
    );
}

/// Moving a row under another key keeps document ids and keys unique.
pub(crate) proof fn lemma_rekeyed_stays_valid(
    tables: crate::documents::Tables,
    namespace: Seq<char>,
    document_id: Seq<char>,
    key: Seq<char>,
)
    requires
        tables.wf(),
    ensures
        match crate::documents::write::rekeyed(tables.docs, namespace, document_id, key) {
            Ok(docs) => (crate::documents::Tables { docs, ..tables }).wf(),
            Err(_) => true,
        },
{
    let docs = tables.docs;
    let after = crate::documents::write::rekeyed(docs, namespace, document_id, key);
    lemma_lookup_id(docs, namespace, document_id);
    lemma_lookup(docs, namespace, key);
    let held = crate::documents::by_id(docs, namespace, document_id);
    if after is Ok && after->Ok_0 != docs {
        let middle = crate::documents::Tables { docs: after->Ok_0, ..tables };
        assert forall|i: int, j: int|
            #![trigger middle.docs[i], middle.docs[j]]
            0 <= i < j < middle.docs.len() implies !middle.docs[i].has_key(
            middle.docs[j].namespace,
            middle.docs[j].key,
        ) by {
            if i != held && j != held {
                assert(!docs[i].has_key(docs[j].namespace, docs[j].key));
            } else if i == held {
                assert(!docs[j].has_key(namespace, key));
            } else {
                assert(!docs[i].has_key(namespace, key));
            }
        }
        assert forall|i: int, j: int|
            #![trigger middle.docs[i], middle.docs[j]]
            0 <= i < j < middle.docs.len() implies middle.docs[i].document_id
            != middle.docs[j].document_id by {
            assert(docs[i].document_id != docs[j].document_id);
        }
    }
}

/// Keeping only some of the rows keeps document ids and keys unique.
pub(crate) proof fn lemma_filtered_stays_valid(
    tables: crate::documents::Tables,
    keep: spec_fn(crate::documents::RowView) -> bool,
)
    requires
        tables.wf(),
    ensures
        (crate::documents::Tables { docs: tables.docs.filter(keep), ..tables }).wf(),
{
    lemma_filtered_lookup(tables, keep, Seq::empty(), Seq::empty());
}

/// Putting a row in its place keeps document ids and keys unique, and touches one row
/// at most: the one that the write addresses. That row then has the written columns.
pub proof fn law_landing_touches_one_row(
    tables: crate::documents::Tables,
    row: crate::documents::RowView,
    minted: bool,
)
    requires
        tables.wf(),
        crate::documents::write::landed(tables.docs, row, minted) is Ok,
    ensures
        ({
            let docs = crate::documents::write::landed(tables.docs, row, minted)->Ok_0;
            let after = crate::documents::Tables { docs, ..tables };
            let at = crate::documents::by_key(docs, row.namespace, row.key);
            &&& after.wf()
            &&& 0 <= at < docs.len()
            &&& docs[at].has_key(row.namespace, row.key)
            &&& docs[at].body == row.body
            &&& tables.docs.len() <= docs.len() <= tables.docs.len() + 1
            &&& docs.len() == tables.docs.len() + 1 ==> at == tables.docs.len() && docs[at] == row
            &&& forall|i: int|
                0 <= i < tables.docs.len() && i != at ==> #[trigger] docs[i] == tables.docs[i]
            &&& at < tables.docs.len() ==> docs[at].document_id == tables.docs[at].document_id
                && docs[at].created_at == tables.docs[at].created_at && docs[at].namespace
                == tables.docs[at].namespace
            &&& at < tables.docs.len() ==> tables.docs[at].key == row.key
                || tables.docs[at].document_id == row.document_id
        }),
{
    let docs = tables.docs;
    lemma_lookup_id(docs, row.namespace, row.document_id);
    lemma_lookup(docs, row.namespace, row.key);
    let moved = if minted {
        docs
    } else {
        crate::documents::write::rekeyed(docs, row.namespace, row.document_id, row.key)->Ok_0
    };
    lemma_rekeyed_stays_valid(tables, row.namespace, row.document_id, row.key);
    let middle = crate::documents::Tables { docs: moved, ..tables };
    assert(middle.wf());
    lemma_lookup(moved, row.namespace, row.key);
    lemma_lookup_id(moved, row.namespace, row.document_id);
    let at = crate::documents::by_key(moved, row.namespace, row.key);
    let last = crate::documents::write::landed(docs, row, minted)->Ok_0;
    let after = crate::documents::Tables { docs: last, ..tables };
    assert(after.wf()) by {
        assert forall|i: int, j: int|
            #![trigger after.docs[i], after.docs[j]]
            0 <= i < j < after.docs.len() implies after.docs[i].document_id
            != after.docs[j].document_id && !after.docs[i].has_key(
            after.docs[j].namespace,
            after.docs[j].key,
        ) by {
            if j < moved.len() {
                assert(moved[i].document_id != moved[j].document_id);
                assert(!moved[i].has_key(moved[j].namespace, moved[j].key));
            } else {
                assert(moved[i].document_id != row.document_id);
                assert(!moved[i].has_key(row.namespace, row.key));
            }
        }
    }
    if at < moved.len() {
        lemma_key_at(after, row.namespace, row.key, at);
    } else {
        lemma_key_at(after, row.namespace, row.key, moved.len() as int);
    }
}

/// A write that is put into the tables it was resolved against succeeds. It lands on
/// the row it was resolved to: the document reads back under its key with the id
/// that the write hands back and with when it was first created.
///
/// The id minted for a new row has to be free, where one is minted.
pub proof fn law_resolved_write_lands(
    tables: crate::documents::Tables,
    input: crate::documents::write::InputView,
    now: i64,
    minted: Seq<char>,
    path: Seq<char>,
)
    requires
        tables.wf(),
        crate::documents::write::begun(tables.docs, input, now, minted) is Some,
        crate::documents::write::begun(tables.docs, input, now, minted)->0.minted
            ==> crate::documents::owner_of(tables.docs, minted) == tables.docs.len(),
    ensures
        ({
            let pending = crate::documents::write::begun(tables.docs, input, now, minted)->0;
            let row = crate::documents::write::row_of(pending, path);
            let result = crate::documents::write::landed(tables.docs, row, pending.minted);
            let docs = result->Ok_0;
            let at = crate::documents::by_key(docs, input.namespace, pending.key);
            &&& result is Ok
            &&& at < docs.len()
            &&& docs[at] == row
            &&& pending.key == crate::text::trimmed(input.key)
            &&& docs.len() == tables.docs.len() + if crate::documents::identity::identity(
                tables.docs,
                input.namespace,
                pending.key,
                input.document_id,
            ) is New {
                1int
            } else {
                0int
            }
        }),
{
    let docs = tables.docs;
    let key = crate::text::trimmed(input.key);
    let pending = crate::documents::write::begun(docs, input, now, minted)->0;
    let row = crate::documents::write::row_of(pending, path);
    lemma_lookup(docs, input.namespace, key);
    lemma_lookup_id(docs, input.namespace, pending.document_id);
    let held = crate::documents::by_key(docs, input.namespace, key);
    if held < docs.len() {
        lemma_owner_at(tables, pending.document_id, held);
    } else {
        let owner = crate::documents::owner_of(docs, pending.document_id);
        if owner < docs.len() {
            lemma_owner_at(tables, pending.document_id, owner);
            let moved = docs.update(
                owner,
                crate::documents::RowView { key, ..docs[owner] },
            );
            lemma_lookup(moved, input.namespace, key);
            assert(moved[owner].has_key(input.namespace, key));
        } else {
            let inside = crate::documents::by_id(docs, input.namespace, pending.document_id);
            if inside < docs.len() {
                assert(docs[inside].document_id == pending.document_id);
            }
        }
    }
    law_landing_touches_one_row(tables, row, pending.minted);
    let after = crate::documents::write::landed(docs, row, pending.minted)->Ok_0;
    let at = crate::documents::by_key(after, input.namespace, key);
    if at < docs.len() {
        if docs[at].key == key {
            lemma_key_at(tables, input.namespace, key, at);
        } else {
            lemma_owner_at(tables, pending.document_id, at);
        }
    }
}

/// A write that reached its row through a stale key updates that row in place: no row
/// is added, the row carries the new key, and the old key no longer resolves.
pub proof fn law_stale_key_is_replaced(
    tables: crate::documents::Tables,
    input: crate::documents::write::InputView,
    now: i64,
    minted: Seq<char>,
    path: Seq<char>,
    stale: Seq<char>,
)
    requires
        tables.wf(),
        crate::documents::write::begun(tables.docs, input, now, minted) is Some,
        crate::documents::identity::identity(
            tables.docs,
            input.namespace,
            crate::text::trimmed(input.key),
            input.document_id,
        ) is StaleKey,
        tables.holds(input.namespace, stale),
        tables.row(input.namespace, stale).document_id == crate::documents::write::begun(
            tables.docs,
            input,
            now,
            minted,
        )->0.document_id,
    ensures
        ({
            let pending = crate::documents::write::begun(tables.docs, input, now, minted)->0;
            let row = crate::documents::write::row_of(pending, path);
            let docs = crate::documents::write::landed(tables.docs, row, false)->Ok_0;
            let after = crate::documents::Tables { docs, ..tables };
            &&& crate::documents::write::landed(tables.docs, row, false) is Ok
            &&& docs.len() == tables.docs.len()
            &&& after.holds(input.namespace, pending.key)
            &&& after.row(input.namespace, pending.key) == row
            &&& row.created_at == tables.row(input.namespace, stale).created_at
            &&& !after.holds(input.namespace, stale)
        }),
{
    let docs = tables.docs;
    let key = crate::text::trimmed(input.key);
    let pending = crate::documents::write::begun(docs, input, now, minted)->0;
    let row = crate::documents::write::row_of(pending, path);
    lemma_lookup(docs, input.namespace, stale);
    lemma_lookup(docs, input.namespace, key);
    let at = crate::documents::by_key(docs, input.namespace, stale);
    lemma_owner_at(tables, pending.document_id, at);
    let moved = docs.update(at, crate::documents::RowView { key, ..docs[at] });
    lemma_lookup(moved, input.namespace, key);
    assert(moved[at].has_key(input.namespace, key));
    law_landing_touches_one_row(tables, row, false);
    let after = crate::documents::write::landed(docs, row, false)->Ok_0;
    let now_at = crate::documents::by_key(after, input.namespace, key);
    if docs[now_at].key == key {
        lemma_key_at(tables, input.namespace, key, now_at);
    } else {
        lemma_owner_at(tables, pending.document_id, now_at);
    }
    lemma_lookup(after, input.namespace, stale);
    let left = crate::documents::by_key(after, input.namespace, stale);
    if left < after.len() {
        if left != at {
            assert(after[left] == docs[left]);
            lemma_key_at(tables, input.namespace, stale, left);
        }
    }
}

/// The row that a namespace holds under a key decides the id of every write of that
/// key, whatever id is requested.
pub proof fn law_row_id_wins(
    tables: crate::documents::Tables,
    input: crate::documents::write::InputView,
    now: i64,
    minted: Seq<char>,
)
    requires
        crate::documents::write::begun(tables.docs, input, now, minted) is Some,
        tables.holds(input.namespace, crate::text::trimmed(input.key)),
    ensures
        crate::documents::write::begun(tables.docs, input, now, minted)->0.document_id
            == tables.row(input.namespace, crate::text::trimmed(input.key)).document_id,
        crate::documents::write::begun(tables.docs, input, now, minted)->0.created_at
            == tables.row(input.namespace, crate::text::trimmed(input.key)).created_at,
{
}

/// A requested id that another namespace's row holds does not name this document: the
/// write mints its own id.
pub proof fn law_foreign_id_is_not_taken(
    tables: crate::documents::Tables,
    input: crate::documents::write::InputView,
    now: i64,
    minted: Seq<char>,
    at: int,
)
    requires
        tables.wf(),
        crate::documents::write::begun(tables.docs, input, now, minted) is Some,
        !tables.holds(input.namespace, crate::text::trimmed(input.key)),
        0 <= at < tables.docs.len(),
        tables.docs[at].namespace != input.namespace,
        crate::documents::identity::wanted_id(input.document_id) == Some(
            tables.docs[at].document_id,
        ),
    ensures
        crate::documents::write::begun(tables.docs, input, now, minted)->0.document_id == minted,
{
    lemma_lookup(tables.docs, input.namespace, crate::text::trimmed(input.key));
    lemma_owner_at(tables, tables.docs[at].document_id, at);
}

/// A minted id names no row: where a row holds it already, under another key or in another
/// namespace, the write fails, and that row stays as it is.
pub proof fn law_minted_id_takes_no_row(
    tables: crate::documents::Tables,
    input: crate::documents::write::InputView,
    now: i64,
    minted: Seq<char>,
    path: Seq<char>,
    chunks: Seq<Seq<char>>,
    embeddings: Seq<Option<Seq<u32>>>,
    at: int,
)
    requires
        crate::documents::write::begun(tables.docs, input, now, minted) is Some,
        crate::documents::write::begun(tables.docs, input, now, minted)->0.minted,
        0 <= at < tables.docs.len(),
        tables.docs[at].document_id == minted,
    ensures
        ({
            let pending = crate::documents::write::begun(tables.docs, input, now, minted)->0;
            &&& crate::documents::write::committed(tables, pending, path, chunks, embeddings)
                == Err::<crate::documents::Tables, Seq<char>>(
                crate::documents::write::id_taken(),
            )
            &&& crate::documents::write::committed_metadata(tables, pending, path) == Err::<
                crate::documents::Tables,
                Seq<char>,
            >(crate::documents::write::id_taken())
        }),
{
    lemma_lookup(tables.docs, input.namespace, crate::text::trimmed(input.key));
    lemma_lookup_id(tables.docs, input.namespace, minted);
}

/// A row that another writer moved to some other key after a write was resolved is
/// still the row that the write lands on, as long as the written key is free.
pub proof fn law_moved_row_is_followed(
    tables: crate::documents::Tables,
    row: crate::documents::RowView,
)
    requires
        tables.wf(),
        crate::documents::by_id(tables.docs, row.namespace, row.document_id) < tables.docs.len(),
        !tables.holds(row.namespace, row.key),
    ensures
        ({
            let result = crate::documents::write::landed(tables.docs, row, false);
            let docs = result->Ok_0;
            let at = crate::documents::by_key(docs, row.namespace, row.key);
            &&& result is Ok
            &&& docs.len() == tables.docs.len()
            &&& at < docs.len()
            &&& docs[at].document_id == row.document_id
            &&& docs[at].body == row.body
        }),
{
    let docs = tables.docs;
    lemma_lookup(docs, row.namespace, row.key);
    lemma_lookup_id(docs, row.namespace, row.document_id);
    let at = crate::documents::by_id(docs, row.namespace, row.document_id);
    let moved = docs.update(at, crate::documents::RowView { key: row.key, ..docs[at] });
    lemma_lookup(moved, row.namespace, row.key);
    assert(moved[at].has_key(row.namespace, row.key));
    law_landing_touches_one_row(tables, row, false);
    let after = crate::documents::write::landed(docs, row, false)->Ok_0;
    let now_at = crate::documents::by_key(after, row.namespace, row.key);
    if docs[now_at].key == row.key {
        lemma_key_at(tables, row.namespace, row.key, now_at);
    }
}

/// A write leaves every document of another namespace, and every other document of
/// its own, as it was.
pub proof fn law_other_documents_are_untouched(
    tables: crate::documents::Tables,
    row: crate::documents::RowView,
    minted: bool,
    namespace: Seq<char>,
    key: Seq<char>,
)
    requires
        tables.wf(),
        crate::documents::write::landed(tables.docs, row, minted) is Ok,
        namespace != row.namespace || (key != row.key && (tables.holds(namespace, key)
            ==> tables.row(namespace, key).document_id != row.document_id)),
    ensures
        ({
            let docs = crate::documents::write::landed(tables.docs, row, minted)->Ok_0;
            let after = crate::documents::Tables { docs, ..tables };
            &&& after.holds(namespace, key) == tables.holds(namespace, key)
            &&& tables.holds(namespace, key) ==> after.row(namespace, key) == tables.row(
                namespace,
                key,
            )
        }),
{
    law_landing_touches_one_row(tables, row, minted);
    let docs = crate::documents::write::landed(tables.docs, row, minted)->Ok_0;
    let after = crate::documents::Tables { docs, ..tables };
    lemma_lookup(tables.docs, namespace, key);
    lemma_lookup(docs, namespace, key);
    let was = crate::documents::by_key(tables.docs, namespace, key);
    let is = crate::documents::by_key(docs, namespace, key);
    let touched = crate::documents::by_key(docs, row.namespace, row.key);
    if was < tables.docs.len() {
        assert(was != touched);
        assert(docs[was] == tables.docs[was]);
        lemma_key_at(after, namespace, key, was);
    } else if is < docs.len() {
        assert(is != touched);
        assert(docs[is] == tables.docs[is]);
    }
}

proof fn lemma_filter_all<A>(items: Seq<A>, keep: spec_fn(A) -> bool)
    requires
        forall|i: int| 0 <= i < items.len() ==> keep(#[trigger] items[i]),
    ensures
        items.filter(keep) == items,
    decreases items.len(),
{
    reveal(Seq::filter);
    if items.len() > 0 {
        let before = items.drop_last();
        assert forall|i: int| 0 <= i < before.len() implies keep(#[trigger] before[i]) by {
            assert(before[i] == items[i]);
        }
        lemma_filter_all(before, keep);
        assert(keep(items[items.len() - 1]));
        assert(items =~= before.push(items.last()));
    }
}

proof fn lemma_filter_none<A>(items: Seq<A>, keep: spec_fn(A) -> bool)
    requires
        forall|i: int| 0 <= i < items.len() ==> !keep(#[trigger] items[i]),
    ensures
        items.filter(keep) == Seq::<A>::empty(),
    decreases items.len(),
{
    reveal(Seq::filter);
    if items.len() > 0 {
        let before = items.drop_last();
        assert forall|i: int| 0 <= i < before.len() implies !keep(#[trigger] before[i]) by {
            assert(before[i] == items[i]);
        }
        lemma_filter_none(before, keep);
        assert(!keep(items[items.len() - 1]));
    }
}

/// A full write replaces the chunks of its document and no others: the chunks that
/// are found under its id are the written ones, in order, and those of every other
/// document stay.
pub proof fn law_chunks_are_replaced(
    tables: crate::documents::Tables,
    pending: crate::documents::write::PendingView,
    path: Seq<char>,
    chunks: Seq<Seq<char>>,
    embeddings: Seq<Option<Seq<u32>>>,
)
    requires
        crate::documents::write::committed(tables, pending, path, chunks, embeddings) is Ok,
    ensures
        ({
            let namespace = pending.input.namespace;
            let after = crate::documents::write::committed(
                tables,
                pending,
                path,
                chunks,
                embeddings,
            )->Ok_0;
            &&& after.chunks.filter(
                |c: crate::documents::ChunkView|
                    c.namespace == namespace && c.document_id == pending.document_id,
            ) == crate::documents::write::chunks_of(pending, chunks, embeddings, tables.signature)
            &&& crate::documents::write::chunks_elsewhere(
                after.chunks,
                namespace,
                pending.document_id,
            ) == crate::documents::write::chunks_elsewhere(
                tables.chunks,
                namespace,
                pending.document_id,
            )
        }),
{
    let namespace = pending.input.namespace;
    let document_id = pending.document_id;
    let own = |c: crate::documents::ChunkView|
        c.namespace == namespace && c.document_id == document_id;
    let elsewhere = |c: crate::documents::ChunkView|
        !(c.namespace == namespace && c.document_id == document_id);
    let old_rows = tables.chunks.filter(elsewhere);
    let new_rows = crate::documents::write::chunks_of(
        pending,
        chunks,
        embeddings,
        tables.signature,
    );
    broadcast use vstd::seq_lib::group_filter_ensures;

    Seq::filter_distributes_over_add(old_rows, new_rows, own);
    Seq::filter_distributes_over_add(old_rows, new_rows, elsewhere);
    assert forall|i: int| 0 <= i < old_rows.len() implies !own(#[trigger] old_rows[i]) by {
        assert(elsewhere(old_rows[i]));
    }
    lemma_filter_none(old_rows, own);
    lemma_filter_all(new_rows, own);
    lemma_filter_all(old_rows, elsewhere);
    lemma_filter_none(new_rows, elsewhere);
    assert(Seq::<crate::documents::ChunkView>::empty() + new_rows =~= new_rows);
    assert(old_rows + Seq::<crate::documents::ChunkView>::empty() =~= old_rows);
}

/// Two writers that both resolve a key before either has written it agree on its id, so
/// that neither leaves chunks behind that its row does not name: whoever writes last, there
/// is one row, it holds what was written last, and the chunks under its id are those of
/// that write alone.
///
/// The id that is minted for the key has to be free.
pub proof fn law_concurrent_first_writes_agree(
    tables: crate::documents::Tables,
    first: crate::documents::write::InputView,
    second: crate::documents::write::InputView,
    first_now: i64,
    second_now: i64,
    first_path: Seq<char>,
    second_path: Seq<char>,
    first_chunks: Seq<Seq<char>>,
    second_chunks: Seq<Seq<char>>,
    first_embeddings: Seq<Option<Seq<u32>>>,
    second_embeddings: Seq<Option<Seq<u32>>>,
)
    requires
        tables.wf(),
        first.namespace == second.namespace,
        crate::text::trimmed(first.key) == crate::text::trimmed(second.key),
        !crate::text::is_blank(first.key),
        crate::documents::identity::wanted_id(first.document_id) is None,
        crate::documents::identity::wanted_id(second.document_id) is None,
        !tables.holds(first.namespace, crate::text::trimmed(first.key)),
        crate::documents::owner_of(tables.docs, crate::documents::write::minted_for(first))
            == tables.docs.len(),
    ensures
        ({
            let key = crate::text::trimmed(first.key);
            let minted = crate::documents::write::minted_for(first);
            let one = crate::documents::write::begun(tables.docs, first, first_now, minted)->0;
            let two = crate::documents::write::begun(
                tables.docs,
                second,
                second_now,
                crate::documents::write::minted_for(second),
            )->0;
            let middle = crate::documents::write::committed(
                tables,
                one,
                first_path,
                first_chunks,
                first_embeddings,
            );
            let last = crate::documents::write::committed(
                middle->Ok_0,
                two,
                second_path,
                second_chunks,
                second_embeddings,
            );
            let after = last->Ok_0;
            &&& one.document_id == two.document_id
            &&& middle is Ok
            &&& last is Ok
            &&& after.docs.len() == tables.docs.len() + 1
            &&& after.holds(first.namespace, key)
            &&& after.row(first.namespace, key).document_id == two.document_id
            &&& after.row(first.namespace, key).created_at == first_now
            &&& after.row(first.namespace, key).body == crate::documents::write::row_of(
                two,
                second_path,
            ).body
            &&& after.chunks.filter(
                |c: crate::documents::ChunkView|
                    c.namespace == first.namespace && c.document_id == two.document_id,
            ) == crate::documents::write::chunks_of(
                two,
                second_chunks,
                second_embeddings,
                tables.signature,
            )
        }),
{
    let namespace = first.namespace;
    let key = crate::text::trimmed(first.key);
    let minted = crate::documents::write::minted_for(first);
    let one = crate::documents::write::begun(tables.docs, first, first_now, minted)->0;
    let two = crate::documents::write::begun(tables.docs, second, second_now, minted)->0;
    lemma_lookup(tables.docs, namespace, key);
    law_resolved_write_lands(tables, first, first_now, minted, first_path);
    let row = crate::documents::write::row_of(one, first_path);
    law_landing_touches_one_row(tables, row, true);
    let middle = crate::documents::write::committed(
        tables,
        one,
        first_path,
        first_chunks,
        first_embeddings,
    )->Ok_0;
    let at = crate::documents::by_key(middle.docs, namespace, key);
    assert(middle.wf());
    assert(middle.docs[at] == row);
    lemma_owner_at(middle, minted, at);
    let written = crate::documents::write::row_of(two, second_path);
    assert(crate::documents::write::landed(middle.docs, written, true) is Ok);
    law_landing_touches_one_row(middle, written, true);
    let docs = crate::documents::write::landed(middle.docs, written, true)->Ok_0;
    let now_at = crate::documents::by_key(docs, namespace, key);
    if now_at < middle.docs.len() && now_at != at {
        lemma_key_at(middle, namespace, key, now_at);
    }
    law_chunks_are_replaced(middle, two, second_path, second_chunks, second_embeddings);
}

/// Rows that are kept by a filter keep their lookups.
proof fn lemma_filtered_lookup(
    tables: crate::documents::Tables,
    keep: spec_fn(crate::documents::RowView) -> bool,
    namespace: Seq<char>,
    key: Seq<char>,
)
    requires
        tables.wf(),
    ensures
        ({
            let after = crate::documents::Tables { docs: tables.docs.filter(keep), ..tables };
            &&& after.wf()
            &&& after.holds(namespace, key) <==> tables.holds(namespace, key) && keep(
                tables.row(namespace, key),
            )
            &&& after.holds(namespace, key) ==> after.row(namespace, key) == tables.row(
                namespace,
                key,
            )
        }),
    decreases tables.docs.len(),
{
    reveal(Seq::filter);
    let docs = tables.docs;
    let after = crate::documents::Tables { docs: docs.filter(keep), ..tables };
    lemma_lookup(docs, namespace, key);
    lemma_lookup(after.docs, namespace, key);
    if docs.len() > 0 {
        let before = crate::documents::Tables { docs: docs.drop_last(), ..tables };
        assert forall|i: int, j: int|
            #![trigger before.docs[i], before.docs[j]]
            0 <= i < j < before.docs.len() implies before.docs[i].document_id
            != before.docs[j].document_id && !before.docs[i].has_key(
            before.docs[j].namespace,
            before.docs[j].key,
        ) by {
            assert(before.docs[i] == docs[i] && before.docs[j] == docs[j]);
        }
        assert(before.wf());
        lemma_filtered_lookup(before, keep, namespace, key);
        lemma_lookup(before.docs, namespace, key);
        let shorter = before.docs.filter(keep);
        lemma_lookup(shorter, namespace, key);
        broadcast use vstd::seq_lib::group_filter_ensures;

        let last = docs.last();
        // Every kept row was there before the last one.
        assert forall|i: int| 0 <= i < shorter.len() implies exists|j: int|
            0 <= j < before.docs.len() && before.docs[j] == #[trigger] shorter[i] by {
            lemma_filtered_row_was_there(before.docs, keep, i);
        }
        if keep(last) {
            assert(after.docs == shorter.push(last));
            assert(after.wf()) by {
                let middle = crate::documents::Tables { docs: shorter, ..tables };
                assert(middle.wf());
                assert forall|i: int, j: int|
                    #![trigger after.docs[i], after.docs[j]]
                    0 <= i < j < after.docs.len() implies after.docs[i].document_id
                    != after.docs[j].document_id && !after.docs[i].has_key(
                    after.docs[j].namespace,
                    after.docs[j].key,
                ) by {
                    if j < shorter.len() {
                        assert(after.docs[i] == middle.docs[i] && after.docs[j] == middle.docs[j]);
                    } else {
                        assert(after.docs[i] == shorter[i]);
                        let k = choose|k: int|
                            0 <= k < before.docs.len() && before.docs[k] == shorter[i];
                        assert(docs[k] == before.docs[k]);
                        assert(docs[docs.len() - 1] == last);
                    }
                }
            }
        }
        let was = crate::documents::by_key(docs, namespace, key);
        let short_was = crate::documents::by_key(before.docs, namespace, key);
        if short_was < before.docs.len() {
            assert(docs[short_was] == before.docs[short_was]);
            lemma_key_at(tables, namespace, key, short_was);
            if after.docs.len() > shorter.len() {
                let found = crate::documents::by_key(shorter, namespace, key);
                if found < shorter.len() {
                    assert(after.docs[found] == shorter[found]);
                    lemma_key_at(after, namespace, key, found);
                } else {
                    let is = crate::documents::by_key(after.docs, namespace, key);
                    if is < after.docs.len() {
                        assert(docs[docs.len() - 1] == last);
                        if is < shorter.len() {
                            assert(after.docs[is] == shorter[is]);
                        }
                    }
                }
            }
        } else if last.has_key(namespace, key) {
            assert(docs[docs.len() - 1] == last);
            lemma_key_at(tables, namespace, key, docs.len() - 1);
            if keep(last) {
                assert(after.docs[shorter.len() as int] == last);
                lemma_key_at(after, namespace, key, shorter.len() as int);
            }
        } else {
            let is = crate::documents::by_key(after.docs, namespace, key);
            if was < docs.len() {
                if was < before.docs.len() {
                    assert(before.docs[was] == docs[was]);
                }
            }
            if is < after.docs.len() {
                if is < shorter.len() {
                    assert(after.docs[is] == shorter[is]);
                }
            }
        }
    }
}

proof fn lemma_filtered_row_was_there(
    docs: Seq<crate::documents::RowView>,
    keep: spec_fn(crate::documents::RowView) -> bool,
    i: int,
)
    requires
        0 <= i < docs.filter(keep).len(),
    ensures
        exists|j: int| 0 <= j < docs.len() && docs[j] == docs.filter(keep)[i],
    decreases docs.len(),
{
    reveal(Seq::filter);
    if docs.len() > 0 {
        let before = docs.drop_last();
        let shorter = before.filter(keep);
        if i < shorter.len() {
            lemma_filtered_row_was_there(before, keep, i);
            let j = choose|j: int| 0 <= j < before.len() && before[j] == shorter[i];
            assert(docs[j] == before[j]);
        } else {
            assert(docs[docs.len() - 1] == docs.last());
        }
    }
}

/// Clearing a namespace leaves none of its documents, and leaves every document of
/// another namespace as it was.
pub proof fn law_clearing_is_scoped(
    tables: crate::documents::Tables,
    namespace: Seq<char>,
    other: Seq<char>,
    key: Seq<char>,
)
    requires
        tables.wf(),
    ensures
        ({
            let after = crate::documents::read::cleared(tables, namespace);
            &&& after.wf()
            &&& !after.holds(namespace, key)
            &&& other != namespace ==> after.holds(other, key) == tables.holds(other, key)
            &&& other != namespace && tables.holds(other, key) ==> after.row(other, key)
                == tables.row(other, key)
        }),
{
    let keep = |r: crate::documents::RowView| r.namespace != namespace;
    lemma_filtered_lookup(tables, keep, namespace, key);
    lemma_filtered_lookup(tables, keep, other, key);
    lemma_lookup(tables.docs, namespace, key);
    lemma_lookup(tables.docs, other, key);
}

/// A deleted document no longer resolves, deleting it again finds nothing, and every
/// document with another id is left as it was.
pub proof fn law_deleting_is_scoped(
    tables: crate::documents::Tables,
    namespace: Seq<char>,
    document_id: Seq<char>,
    other: Seq<char>,
    key: Seq<char>,
)
    requires
        tables.wf(),
    ensures
        ({
            let after = crate::documents::read::without_document(tables, namespace, document_id);
            let touched = tables.holds(other, key) && tables.row(other, key).has_id(
                namespace,
                document_id,
            );
            &&& after.wf()
            &&& touched ==> !after.holds(other, key)
            &&& !touched ==> after.holds(other, key) == tables.holds(other, key)
            &&& !touched && tables.holds(other, key) ==> after.row(other, key) == tables.row(
                other,
                key,
            )
            &&& crate::documents::by_id(after.docs, namespace, document_id) == after.docs.len()
        }),
{
    let keep = |r: crate::documents::RowView| !r.has_id(namespace, document_id);
    lemma_filtered_lookup(tables, keep, other, key);
    broadcast use vstd::seq_lib::group_filter_ensures;

    let after = crate::documents::read::without_document(tables, namespace, document_id);
    lemma_lookup_id(after.docs, namespace, document_id);
    let at = crate::documents::by_id(after.docs, namespace, document_id);
    if at < after.docs.len() {
        assert(keep(after.docs[at]));
    }
}

/// The listed namespaces are exactly those of the documents, blank ones aside, in
/// ascending order and each once.
pub proof fn law_namespaces_are_listed_once(docs: Seq<crate::documents::RowView>)
    ensures
        crate::text::ascending(crate::documents::read::namespaces_of(docs)),
        forall|n: Seq<char>|
            #[trigger] crate::documents::read::namespaces_of(docs).contains(n)
                <==> !crate::text::is_blank(n) && exists|i: int|
                0 <= i < docs.len() && (#[trigger] docs[i]).namespace == n,
    decreases docs.len(),
{
    if docs.len() > 0 {
        let before = docs.drop_last();
        let last = docs.last().namespace;
        law_namespaces_are_listed_once(before);
        let was = crate::documents::read::namespaces_of(before);
        let now = crate::documents::read::namespaces_of(docs);
        if !crate::text::is_blank(last) {
            crate::text::lemma_placed(was, last);
        }
        assert forall|n: Seq<char>| #[trigger]
            now.contains(n) <==> !crate::text::is_blank(n) && exists|i: int|
                0 <= i < docs.len() && (#[trigger] docs[i]).namespace == n by {
            assert(now.contains(n) <==> was.contains(n) || (n == last && !crate::text::is_blank(
                last,
            )));
            if was.contains(n) {
                let i = choose|i: int| 0 <= i < before.len() && (#[trigger] before[i]).namespace
                    == n;
                assert(docs[i].namespace == n);
            }
            if n == last {
                assert(docs[docs.len() - 1].namespace == n);
            }
            if exists|i: int| 0 <= i < docs.len() && (#[trigger] docs[i]).namespace == n {
                let i = choose|i: int| 0 <= i < docs.len() && (#[trigger] docs[i]).namespace == n;
                if i < before.len() {
                    assert(before[i].namespace == n);
                }
            }
        }
    }
}

} // verus!
