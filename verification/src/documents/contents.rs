//! What the rows of the store hold, and what is said of them when they are read, listed or
//! removed.

use vstd::prelude::*;

use crate::documents::read::{DeletedDocument, StoredMemoryDocument};
use crate::documents::write::PendingWrite;
use crate::documents::{ChunkRow, DocumentRow, GraphRow, KvRow, NamespaceDocumentInput};

verus! {

/// What a chunk is that was written at a position of a document: it has the text and the
/// vector given for that position, and names the model and the length of the vector exactly
/// where it has one. Its id is the document's, a colon and the position.
pub open spec fn chunk_is(
    chunk: crate::documents::ChunkView,
    pending: crate::documents::write::PendingView,
    chunks: Seq<Seq<char>>,
    embeddings: Seq<Option<Seq<u32>>>,
    signature: Seq<char>,
    position: int,
) -> bool {
    let owner = pending.document_id;
    &&& chunk.namespace == pending.input.namespace
    &&& chunk.document_id == owner
    &&& chunk.text == chunks[position]
    &&& position < embeddings.len() ==> chunk.embedding == embeddings[position]
    &&& position >= embeddings.len() ==> chunk.embedding is None
    &&& chunk.chunk_index == position
    &&& chunk.created_at == pending.now
    &&& chunk.updated_at == pending.now
    &&& chunk.embedding is Some ==> chunk.model_signature == Some(signature) && chunk.dim == Some(
        chunk.embedding->0.len() as u64,
    )
    &&& chunk.embedding is None ==> chunk.model_signature is None && chunk.dim is None
    &&& chunk.chunk_id.len() > owner.len() + 1
    &&& chunk.chunk_id.take(owner.len() as int) == owner
    &&& chunk.chunk_id[owner.len() as int] == ':'
    &&& crate::text::number_of(chunk.chunk_id.skip(owner.len() as int + 1)) == position
    &&& chunk.lancedb_table == "ns_"@ + pending.input.namespace
}

proof fn lemma_chunk_fields(
    pending: crate::documents::write::PendingView,
    chunks: Seq<Seq<char>>,
    embeddings: Seq<Option<Seq<u32>>>,
    signature: Seq<char>,
    position: int,
)
    requires
        0 <= position < chunks.len(),
    ensures
        chunk_is(
            crate::documents::write::chunks_of(pending, chunks, embeddings, signature)[position],
            pending,
            chunks,
            embeddings,
            signature,
            position,
        ),
{
    let row = crate::documents::write::chunk_of(pending, chunks, embeddings, signature, position);
    let owner = pending.document_id;
    let digits = crate::text::decimal(position as nat);
    reveal_strlit(":");
    crate::text::lemma_decimal_reads_back(position as nat);
    assert(row.chunk_id.take(owner.len() as int) =~= owner);
    assert(row.chunk_id.skip(owner.len() as int + 1) =~= digits);
}

proof fn lemma_chunk_rows(
    found: Seq<crate::documents::ChunkView>,
    pending: crate::documents::write::PendingView,
    chunks: Seq<Seq<char>>,
    embeddings: Seq<Option<Seq<u32>>>,
    signature: Seq<char>,
)
    requires
        found == crate::documents::write::chunks_of(pending, chunks, embeddings, signature),
    ensures
        found.len() == chunks.len(),
        forall|i: int|
            0 <= i < chunks.len() ==> chunk_is(
                #[trigger] found[i],
                pending,
                chunks,
                embeddings,
                signature,
                i,
            ),
{
    assert forall|i: int| 0 <= i < chunks.len() implies chunk_is(
        #[trigger] found[i],
        pending,
        chunks,
        embeddings,
        signature,
        i,
    ) by {
        lemma_chunk_fields(pending, chunks, embeddings, signature, i);
    }
}

/// The chunks that are found under the namespace and the id of a written document.
pub open spec fn own_chunks(
    tables: crate::documents::Tables,
    pending: crate::documents::write::PendingView,
) -> Seq<crate::documents::ChunkView> {
    let namespace = pending.input.namespace;
    tables.chunks.filter(
        |c: crate::documents::ChunkView|
            c.namespace == namespace && c.document_id == pending.document_id,
    )
}

/// The chunks of every other document.
pub open spec fn other_chunks(
    tables: crate::documents::Tables,
    pending: crate::documents::write::PendingView,
) -> Seq<crate::documents::ChunkView> {
    let namespace = pending.input.namespace;
    tables.chunks.filter(
        |c: crate::documents::ChunkView|
            !(c.namespace == namespace && c.document_id == pending.document_id),
    )
}

/// After a full write the chunks that are found under the document's namespace and id are
/// the given ones: as many, in their order, each with its own text and with the vector
/// given for its position, or none where none was given. A chunk names the model and the
/// length of its vector exactly where it has one. The chunks of every other document are
/// the ones that were there.
pub proof fn law_chunks_hold_what_was_given(
    tables: crate::documents::Tables,
    after: crate::documents::Tables,
    pending: crate::documents::write::PendingView,
    path: Seq<char>,
    chunks: Seq<Seq<char>>,
    embeddings: Seq<Option<Seq<u32>>>,
)
    requires
        crate::documents::write::committed(tables, pending, path, chunks, embeddings) == Ok::<
            crate::documents::Tables,
            Seq<char>,
        >(after),
    ensures
        own_chunks(after, pending).len() == chunks.len(),
        forall|i: int|
            0 <= i < chunks.len() ==> chunk_is(
                #[trigger] own_chunks(after, pending)[i],
                pending,
                chunks,
                embeddings,
                tables.signature,
                i,
            ),
        other_chunks(after, pending) == other_chunks(tables, pending),
        after.kv == tables.kv,
        after.graph == tables.graph,
        after.signature == tables.signature,
{
    assert(own_chunks(after, pending) == crate::documents::write::chunks_of(
        pending,
        chunks,
        embeddings,
        tables.signature,
    ) && other_chunks(after, pending) == other_chunks(tables, pending)) by {
        lemma_committed_chunks(tables, after, pending, path, chunks, embeddings);
    }
    assert(after.kv == tables.kv && after.graph == tables.graph && after.signature
        == tables.signature);
    lemma_chunk_rows(
        own_chunks(after, pending),
        pending,
        chunks,
        embeddings,
        tables.signature,
    );
}

proof fn lemma_committed_chunks(
    tables: crate::documents::Tables,
    after: crate::documents::Tables,
    pending: crate::documents::write::PendingView,
    path: Seq<char>,
    chunks: Seq<Seq<char>>,
    embeddings: Seq<Option<Seq<u32>>>,
)
    requires
        crate::documents::write::committed(tables, pending, path, chunks, embeddings) == Ok::<
            crate::documents::Tables,
            Seq<char>,
        >(after),
    ensures
        own_chunks(after, pending) == crate::documents::write::chunks_of(
            pending,
            chunks,
            embeddings,
            tables.signature,
        ),
        other_chunks(after, pending) == other_chunks(tables, pending),
{
    crate::documents::laws::law_chunks_are_replaced(tables, pending, path, chunks, embeddings);
}

/// No two chunks of a written document have the same id.
pub proof fn law_chunk_ids_differ(
    pending: crate::documents::write::PendingView,
    chunks: Seq<Seq<char>>,
    embeddings: Seq<Option<Seq<u32>>>,
    signature: Seq<char>,
    i: int,
    j: int,
)
    requires
        0 <= i < j < chunks.len(),
    ensures
        ({
            let rows = crate::documents::write::chunks_of(pending, chunks, embeddings, signature);
            rows[i].chunk_id != rows[j].chunk_id
        }),
{
    let rows = crate::documents::write::chunks_of(pending, chunks, embeddings, signature);
    let head = pending.document_id + ":"@;
    crate::text::lemma_decimal_reads_back(i as nat);
    crate::text::lemma_decimal_reads_back(j as nat);
    assert(rows[i].chunk_id.skip(head.len() as int) =~= crate::text::decimal(i as nat));
    assert(rows[j].chunk_id.skip(head.len() as int) =~= crate::text::decimal(j as nat));
}

/// A chunk row is seen as it is stored.
pub proof fn law_chunk_rows_are_seen_as_stored(row: ChunkRow)
    ensures
        row@.namespace == row.namespace@,
        row@.document_id == row.document_id@,
        row@.chunk_id == row.chunk_id@,
        row@.text == row.text@,
        row.embedding is Some ==> row@.embedding == Some(row.embedding->0@),
        row.embedding is None ==> row@.embedding is None,
        row@.lancedb_table == row.lancedb_table@,
        row@.chunk_index == row.chunk_index,
        row@.created_at == row.created_at,
        row@.updated_at == row.updated_at,
        row.model_signature is Some ==> row@.model_signature == Some(row.model_signature->0@),
        row.model_signature is None ==> row@.model_signature is None,
        row@.dim == row.dim,
{
}

/// The row of a write holds the document column by column: every text stands in the column
/// that has its name, the row was last written when the write was begun, and the sidecar is
/// the one that was written.
pub proof fn law_rows_hold_what_was_written(pending: PendingWrite, path: String, row: DocumentRow)
    requires
        row@ == crate::documents::write::row_of(pending@, path@),
    ensures
        row.document_id@ == pending.document_id@,
        row.namespace@ == pending.input.namespace@,
        row.key@ == pending.key@,
        row.created_at == pending.created_at,
        row.body.title@ == pending.input.title@,
        row.body.content@ == pending.input.content@,
        row.body.source_type@ == pending.input.source_type@,
        row.body.priority@ == pending.input.priority@,
        row.body.tags_json@ == crate::outside::string_array_json(
            crate::text::texts(pending.input.tags@),
        ),
        row.body.metadata_json@ == pending.input.metadata@,
        row.body.category@ == pending.input.category@,
        pending.input.session_id is Some ==> row.body.session_id is Some
            && row.body.session_id->0@ == pending.input.session_id->0@,
        pending.input.session_id is None ==> row.body.session_id is None,
        row.body.updated_at == pending.now,
        row.body.markdown_rel_path@ == path@,
        row.body.taint@ == pending.input.taint.db_text(),
        row.body.logical_namespace@ == pending.input.logical_namespace@,
{
}

/// A document is read column by column: every text comes from the column that has its name.
pub proof fn law_documents_read_as_their_rows(row: DocumentRow, document: StoredMemoryDocument)
    requires
        document@ == crate::documents::read::stored_of(row@),
    ensures
        document.document_id@ == row.document_id@,
        document.namespace@ == row.namespace@,
        document.key@ == row.key@,
        document.title@ == row.body.title@,
        document.content@ == row.body.content@,
        document.source_type@ == row.body.source_type@,
        document.priority@ == row.body.priority@,
        document.category@ == row.body.category@,
        row.body.session_id is Some ==> document.session_id is Some && document.session_id->0@
            == row.body.session_id->0@,
        row.body.session_id is None ==> document.session_id is None,
        document.created_at == row.created_at,
        document.updated_at == row.body.updated_at,
        document.markdown_rel_path@ == row.body.markdown_rel_path@,
        row.body.taint@ == "internal"@ ==> document.taint is Internal,
        row.body.taint@ != "internal"@ ==> document.taint is ExternalSync,
        crate::outside::is_json(row.body.metadata_json@) ==> document.metadata@
            == row.body.metadata_json@,
        !crate::outside::is_json(row.body.metadata_json@) ==> document.metadata@ == "{}"@,
        crate::outside::json_string_array(row.body.tags_json@) is Some ==> crate::text::texts(
            document.tags@,
        ) == crate::outside::json_string_array(row.body.tags_json@)->0,
        crate::outside::json_string_array(row.body.tags_json@) is None ==> document.tags@.len()
            == 0,
{
    if crate::outside::json_string_array(row.body.tags_json@) is None {
        assert(document@.tags.len() == 0);
    }
}

/// A write that is begun carries the whole document, unchanged, under its key without the
/// white space around it, and was begun at the given time. It addresses a row that is there
/// with when that row was created, and a new row with the time of the write.
pub proof fn law_writes_carry_their_document(
    docs: Seq<crate::documents::RowView>,
    input: NamespaceDocumentInput,
    now: i64,
    minted: Seq<char>,
    pending: PendingWrite,
)
    requires
        crate::documents::write::begun(docs, input@, now, minted) == Some(pending@),
    ensures
        pending.input.namespace@ == input.namespace@,
        pending.input.logical_namespace@ == input.logical_namespace@,
        pending.input.key@ == input.key@,
        pending.input.title@ == input.title@,
        pending.input.content@ == input.content@,
        pending.input.source_type@ == input.source_type@,
        pending.input.priority@ == input.priority@,
        crate::text::texts(pending.input.tags@) == crate::text::texts(input.tags@),
        pending.input.metadata@ == input.metadata@,
        pending.input.category@ == input.category@,
        crate::text::opt_text(pending.input.session_id) == crate::text::opt_text(input.session_id),
        crate::text::opt_text(pending.input.document_id) == crate::text::opt_text(
            input.document_id,
        ),
        pending.input.taint == input.taint,
        pending.now == now,
        pending.key@ == crate::text::trimmed(input.key@),
        pending.key@.len() > 0,
        pending.minted ==> pending.document_id@ == minted && pending.created_at == now,
        pending.created_at == now || exists|i: int|
            0 <= i < docs.len() && (#[trigger] docs[i]).created_at == pending.created_at
                && docs[i].document_id == pending.document_id@ && docs[i].namespace
                == input.namespace@,
{
    let view = pending@;
    assert(view.input == input@);
    let key = crate::text::trimmed(input@.key);
    let by_key = |r: crate::documents::RowView| r.has_key(input@.namespace, key);
    crate::rows::lemma_first_where(docs, by_key);
    let wanted = crate::documents::identity::wanted_id(input@.document_id);
    if wanted is Some {
        let by_id = |r: crate::documents::RowView| r.document_id == wanted->0;
        crate::rows::lemma_first_where(docs, by_id);
        let held = crate::documents::owner_of(docs, wanted->0);
        assert(held < docs.len() ==> by_id(docs[held]));
    }
    let at = crate::documents::by_key(docs, input@.namespace, key);
    assert(at < docs.len() ==> by_key(docs[at]));
}

/// A write is refused exactly where nothing is left of its key without the white space
/// around it.
pub proof fn law_only_blank_keys_are_refused(
    docs: Seq<crate::documents::RowView>,
    input: crate::documents::write::InputView,
    now: i64,
    minted: Seq<char>,
)
    ensures
        crate::documents::write::begun(docs, input, now, minted) is None
            <==> crate::text::is_blank(input.key),
{
}

/// The id of a metadata-only write is the time in whole seconds, an underscore, and the
/// first eight characters of a random identifier; a time before the epoch counts as zero.
pub proof fn law_stamped_ids_give_the_time(now: i64, random: Seq<char>)
    requires
        random.len() >= 8,
    ensures
        ({
            let seconds = crate::documents::write::whole_seconds(now);
            let id = crate::documents::write::stamped_id(seconds, random);
            let split = id.len() - 9;
            &&& split > 0
            &&& crate::text::number_of(id.take(split)) == seconds
            &&& id[split] == '_'
            &&& id.skip(split + 1) == random.take(8)
            &&& now >= 0 ==> seconds * 1000 <= now < seconds * 1000 + 1000
            &&& now < 0 ==> seconds == 0
        }),
{
    let seconds = crate::documents::write::whole_seconds(now);
    let id = crate::documents::write::stamped_id(seconds, random);
    let digits = crate::text::decimal(seconds);
    reveal_strlit("_");
    crate::text::lemma_decimal_reads_back(seconds);
    assert(id.len() == digits.len() + 9);
    assert(id.take(id.len() - 9) =~= digits);
    assert(id.skip(id.len() - 8) =~= random.take(8));
}

/// What a listing says of a document stands under the name of its column.
proof fn lemma_summary_fields(row: crate::documents::RowView)
    ensures
        ({
            let item = crate::documents::read::summary_json(row);
            &&& item.get("documentId"@) == Some(crate::json::JsonView::Text(row.document_id))
            &&& item.get("namespace"@) == Some(crate::json::JsonView::Text(row.namespace))
            &&& item.get("key"@) == Some(crate::json::JsonView::Text(row.key))
            &&& item.get("title"@) == Some(crate::json::JsonView::Text(row.body.title))
            &&& item.get("sourceType"@) == Some(crate::json::JsonView::Text(row.body.source_type))
            &&& item.get("priority"@) == Some(crate::json::JsonView::Text(row.body.priority))
            &&& item.get("createdAt"@) == Some(crate::json::JsonView::Millis(row.created_at))
            &&& item.get("updatedAt"@) == Some(crate::json::JsonView::Millis(row.body.updated_at))
            &&& item.get("taint"@) == Some(crate::json::JsonView::Text(row.body.taint))
        }),
{
    let fields = crate::documents::read::summary_json(row)->Object_0;
    reveal_strlit("documentId");
    reveal_strlit("namespace");
    reveal_strlit("key");
    reveal_strlit("title");
    reveal_strlit("sourceType");
    reveal_strlit("priority");
    reveal_strlit("createdAt");
    reveal_strlit("updatedAt");
    reveal_strlit("taint");
    assert("documentId"@[0] == 'd');
    assert("sourceType"@[0] == 's');
    assert("namespace"@[0] == 'n');
    assert("createdAt"@[0] == 'c');
    assert("updatedAt"@[0] == 'u');
    assert("title"@[1] == 'i');
    assert("taint"@[1] == 'a');
    assert(fields.len() == 9);
    assert(fields[0].0 == "documentId"@);
    assert(fields[1].0 == "namespace"@);
    assert(fields[2].0 == "key"@);
    assert(fields[3].0 == "title"@);
    assert(fields[4].0 == "sourceType"@);
    assert(fields[5].0 == "priority"@);
    assert(fields[6].0 == "createdAt"@);
    assert(fields[7].0 == "updatedAt"@);
    assert(fields[8].0 == "taint"@);
    crate::json::lemma_field_at(fields, 0);
    crate::json::lemma_field_at(fields, 1);
    crate::json::lemma_field_at(fields, 2);
    crate::json::lemma_field_at(fields, 3);
    crate::json::lemma_field_at(fields, 4);
    crate::json::lemma_field_at(fields, 5);
    crate::json::lemma_field_at(fields, 6);
    crate::json::lemma_field_at(fields, 7);
    crate::json::lemma_field_at(fields, 8);
}

/// The rows of a namespace are the rows in it, no more and no fewer.
pub proof fn law_scoped_rows_are_those_of_the_namespace(
    docs: Seq<crate::documents::RowView>,
    namespace: Seq<char>,
    row: crate::documents::RowView,
)
    ensures
        crate::documents::read::rows_in(docs, Some(namespace)).contains(row) <==> docs.contains(row)
            && row.namespace == namespace,
        crate::documents::read::rows_in(docs, None) == docs,
{
    broadcast use vstd::seq_lib::group_filter_ensures;

    let keep = |r: crate::documents::RowView| r.namespace == namespace;
    let kept = crate::documents::read::rows_in(docs, Some(namespace));
    if kept.contains(row) {
        docs.lemma_filter_contains_rev(keep, row);
        let i = choose|i: int| 0 <= i < kept.len() && kept[i] == row;
        assert(keep(kept[i]));
    }
    if docs.contains(row) && row.namespace == namespace {
        let i = choose|i: int| 0 <= i < docs.len() && docs[i] == row;
        assert(keep(docs[i]));
        assert(docs.filter(keep).contains(docs[i]));
    }
}

/// Every item of a listing names its document. The items are the rows of the namespace, or
/// all of them, the newest first, and the count is how many there are. What an item says
/// under the name of a column is what stands in that column, so that the document is found,
/// and deleted, by the namespace and the id that the item gives.
pub proof fn law_listings_name_their_documents(
    tables: crate::documents::Tables,
    namespace: Option<Seq<char>>,
    i: int,
)
    requires
        0 <= i < crate::documents::read::rows_in(tables.docs, namespace).len(),
    ensures
        ({
            let rows = crate::documents::read::rows_in(tables.docs, namespace);
            let listing = crate::documents::read::listing_json(rows);
            let items = listing.get("documents"@)->0.items()->0;
            let item = items[i];
            let row = crate::documents::read::newest_first(rows)[i];
            let listed_id = item.get("documentId"@)->0.text()->0;
            let listed_namespace = item.get("namespace"@)->0.text()->0;
            let at = crate::documents::by_id(tables.docs, listed_namespace, listed_id);
            &&& listing.get("documents"@) is Some
            &&& listing.get("documents"@)->0.items() is Some
            &&& items.len() == rows.len()
            &&& listing.get("count"@) == Some(crate::json::JsonView::Number(rows.len() as u64))
            &&& rows.contains(row)
            &&& tables.docs.contains(row)
            &&& namespace is Some ==> row.namespace == namespace->0
            &&& item.get("documentId"@) == Some(crate::json::JsonView::Text(row.document_id))
            &&& item.get("namespace"@) == Some(crate::json::JsonView::Text(row.namespace))
            &&& item.get("key"@) == Some(crate::json::JsonView::Text(row.key))
            &&& item.get("title"@) == Some(crate::json::JsonView::Text(row.body.title))
            &&& item.get("sourceType"@) == Some(crate::json::JsonView::Text(row.body.source_type))
            &&& item.get("priority"@) == Some(crate::json::JsonView::Text(row.body.priority))
            &&& item.get("createdAt"@) == Some(crate::json::JsonView::Millis(row.created_at))
            &&& item.get("updatedAt"@) == Some(crate::json::JsonView::Millis(row.body.updated_at))
            &&& item.get("taint"@) == Some(crate::json::JsonView::Text(row.body.taint))
            &&& 0 <= at < tables.docs.len()
            &&& tables.docs[at].document_id == row.document_id
            &&& tables.docs[at].namespace == row.namespace
            &&& tables.wf() ==> tables.docs[at] == row
        }),
{
    let docs = tables.docs;
    let rows = crate::documents::read::rows_in(docs, namespace);
    let sorted = crate::documents::read::newest_first(rows);
    let listing = crate::documents::read::listing_json(rows);
    let fields = listing->Object_0;
    let row = sorted[i];
    reveal_strlit("documents");
    reveal_strlit("count");
    assert(fields[0].0 == "documents"@);
    assert(fields[1].0 == "count"@);
    crate::json::lemma_field_at(fields, 0);
    crate::json::lemma_field_at(fields, 1);
    crate::documents::read::law_listing_is_newest_first(rows);
    lemma_summary_fields(row);
    assert(rows.contains(row)) by {
        assert(sorted.contains(row));
        broadcast use vstd::seq_lib::group_to_multiset_ensures;

        assert(sorted.to_multiset().count(row) > 0);
    }
    if namespace is Some {
        law_scoped_rows_are_those_of_the_namespace(docs, namespace->0, row);
    }
    let meets = |r: crate::documents::RowView| r.has_id(row.namespace, row.document_id);
    crate::rows::lemma_first_where(docs, meets);
    let k = choose|k: int| 0 <= k < docs.len() && docs[k] == row;
    assert(meets(docs[k]));
    let at = crate::documents::by_id(docs, row.namespace, row.document_id);
    assert(at <= k);
    assert(meets(docs[at]));
    if tables.wf() && at < k {
        assert(docs[at].document_id != docs[k].document_id);
    }
}

/// A document row is listed exactly where it is in the namespace asked for, as often as it
/// is stored.
pub proof fn law_listings_are_complete(
    docs: Seq<crate::documents::RowView>,
    namespace: Option<Seq<char>>,
    row: crate::documents::RowView,
)
    ensures
        ({
            let rows = crate::documents::read::rows_in(docs, namespace);
            crate::documents::read::newest_first(rows).contains(row) <==> docs.contains(row) && (
            namespace is Some ==> row.namespace == namespace->0)
        }),
{
    let rows = crate::documents::read::rows_in(docs, namespace);
    crate::documents::read::law_listing_is_newest_first(rows);
    broadcast use vstd::seq_lib::group_to_multiset_ensures;

    let sorted = crate::documents::read::newest_first(rows);
    assert(sorted.contains(row) <==> sorted.to_multiset().count(row) > 0);
    assert(rows.contains(row) <==> rows.to_multiset().count(row) > 0);
    if namespace is Some {
        law_scoped_rows_are_those_of_the_namespace(docs, namespace->0, row);
    }
}

/// Keeping fewer and then fewer still is keeping the fewest.
proof fn lemma_filter_within<A>(items: Seq<A>, outer: spec_fn(A) -> bool, inner: spec_fn(A) -> bool)
    requires
        forall|a: A| #[trigger] inner(a) ==> outer(a),
    ensures
        items.filter(outer).filter(inner) == items.filter(inner),
    decreases items.len(),
{
    reveal(Seq::filter);
    if items.len() > 0 {
        let before = items.drop_last();
        lemma_filter_within(before, outer, inner);
        let kept = before.filter(outer);
        if outer(items.last()) {
            assert(kept.push(items.last()).drop_last() =~= kept);
        }
    }
}

/// Keeping what is elsewhere leaves nothing of what is here.
proof fn lemma_filter_apart<A>(items: Seq<A>, kept: spec_fn(A) -> bool, sought: spec_fn(A) -> bool)
    requires
        forall|a: A| #[trigger] sought(a) ==> !kept(a),
    ensures
        items.filter(kept).filter(sought) == Seq::<A>::empty(),
    decreases items.len(),
{
    reveal(Seq::filter);
    if items.len() > 0 {
        let before = items.drop_last();
        lemma_filter_apart(before, kept, sought);
        let rest = before.filter(kept);
        if kept(items.last()) {
            assert(rest.push(items.last()).drop_last() =~= rest);
            assert(!sought(items.last()));
        }
    }
}

/// Clearing a namespace leaves nothing of it in any table, and leaves what every other
/// namespace has in any table, in its order.
pub proof fn law_clearing_empties_every_table(
    tables: crate::documents::Tables,
    namespace: Seq<char>,
    other: Seq<char>,
)
    requires
        other != namespace,
    ensures
        ({
            let after = crate::documents::read::cleared(tables, namespace);
            let docs = |n: Seq<char>| |r: crate::documents::RowView| r.namespace == n;
            let chunks = |n: Seq<char>| |r: crate::documents::ChunkView| r.namespace == n;
            let kv = |n: Seq<char>| |r: crate::documents::KvView| r.namespace == n;
            let graph = |n: Seq<char>| |r: crate::documents::GraphView| r.namespace == n;
            &&& after.docs.filter(docs(namespace)).len() == 0
            &&& after.chunks.filter(chunks(namespace)).len() == 0
            &&& after.kv.filter(kv(namespace)).len() == 0
            &&& after.graph.filter(graph(namespace)).len() == 0
            &&& after.docs.filter(docs(other)) == tables.docs.filter(docs(other))
            &&& after.chunks.filter(chunks(other)) == tables.chunks.filter(chunks(other))
            &&& after.kv.filter(kv(other)) == tables.kv.filter(kv(other))
            &&& after.graph.filter(graph(other)) == tables.graph.filter(graph(other))
            &&& after.signature == tables.signature
        }),
{
    let docs = |n: Seq<char>| |r: crate::documents::RowView| r.namespace == n;
    let chunks = |n: Seq<char>| |r: crate::documents::ChunkView| r.namespace == n;
    let kv = |n: Seq<char>| |r: crate::documents::KvView| r.namespace == n;
    let graph = |n: Seq<char>| |r: crate::documents::GraphView| r.namespace == n;
    let keep_docs = |r: crate::documents::RowView| r.namespace != namespace;
    let keep_chunks = |r: crate::documents::ChunkView| r.namespace != namespace;
    let keep_kv = |r: crate::documents::KvView| r.namespace != namespace;
    let keep_graph = |r: crate::documents::GraphView| r.namespace != namespace;
    lemma_filter_apart(tables.docs, keep_docs, docs(namespace));
    lemma_filter_apart(tables.chunks, keep_chunks, chunks(namespace));
    lemma_filter_apart(tables.kv, keep_kv, kv(namespace));
    lemma_filter_apart(tables.graph, keep_graph, graph(namespace));
    lemma_filter_within(tables.docs, keep_docs, docs(other));
    lemma_filter_within(tables.chunks, keep_chunks, chunks(other));
    lemma_filter_within(tables.kv, keep_kv, kv(other));
    lemma_filter_within(tables.graph, keep_graph, graph(other));
}

/// Deleting a document leaves neither its row nor its chunks nor the relations it was
/// evidence for, and leaves the rows, chunks and relations of every other document, and
/// every key-value row, in their order.
pub proof fn law_deleting_takes_all_of_one_document(
    tables: crate::documents::Tables,
    namespace: Seq<char>,
    document_id: Seq<char>,
    other_namespace: Seq<char>,
    other_id: Seq<char>,
)
    requires
        other_namespace != namespace || other_id != document_id,
    ensures
        ({
            let after = crate::documents::read::without_document(tables, namespace, document_id);
            let docs = |n: Seq<char>, d: Seq<char>|
                |r: crate::documents::RowView| r.namespace == n && r.document_id == d;
            let chunks = |n: Seq<char>, d: Seq<char>|
                |r: crate::documents::ChunkView| r.namespace == n && r.document_id == d;
            let graph = |n: Seq<char>, d: Seq<char>|
                |r: crate::documents::GraphView| r.namespace == n && r.document_id == d;
            &&& after.docs.filter(docs(namespace, document_id)).len() == 0
            &&& after.chunks.filter(chunks(namespace, document_id)).len() == 0
            &&& after.graph.filter(graph(namespace, document_id)).len() == 0
            &&& after.docs.filter(docs(other_namespace, other_id)) == tables.docs.filter(
                docs(other_namespace, other_id),
            )
            &&& after.chunks.filter(chunks(other_namespace, other_id)) == tables.chunks.filter(
                chunks(other_namespace, other_id),
            )
            &&& after.graph.filter(graph(other_namespace, other_id)) == tables.graph.filter(
                graph(other_namespace, other_id),
            )
            &&& after.kv == tables.kv
            &&& after.signature == tables.signature
        }),
{
    let docs = |n: Seq<char>, d: Seq<char>|
        |r: crate::documents::RowView| r.namespace == n && r.document_id == d;
    let chunks = |n: Seq<char>, d: Seq<char>|
        |r: crate::documents::ChunkView| r.namespace == n && r.document_id == d;
    let graph = |n: Seq<char>, d: Seq<char>|
        |r: crate::documents::GraphView| r.namespace == n && r.document_id == d;
    let keep_docs = |r: crate::documents::RowView| !r.has_id(namespace, document_id);
    let keep_chunks = |c: crate::documents::ChunkView|
        !(c.namespace == namespace && c.document_id == document_id);
    let keep_graph = |r: crate::documents::GraphView|
        !(r.namespace == namespace && r.document_id == document_id);
    lemma_filter_apart(tables.docs, keep_docs, docs(namespace, document_id));
    lemma_filter_apart(tables.chunks, keep_chunks, chunks(namespace, document_id));
    lemma_filter_apart(tables.graph, keep_graph, graph(namespace, document_id));
    lemma_filter_within(tables.docs, keep_docs, docs(other_namespace, other_id));
    lemma_filter_within(tables.chunks, keep_chunks, chunks(other_namespace, other_id));
    lemma_filter_within(tables.graph, keep_graph, graph(other_namespace, other_id));
}

/// The key-value and graph rows are seen as they are stored.
pub proof fn law_side_rows_are_seen_as_stored(kv: KvRow, graph: GraphRow)
    ensures
        kv@.namespace == kv.namespace@,
        kv@.key == kv.key@,
        kv@.value == kv.value@,
        graph@.namespace == graph.namespace@,
        graph@.document_id == graph.document_id@,
        graph@.relation == graph.relation@,
{
}

/// The answer to a deletion says whether there was such a document, and names it.
pub proof fn law_deletions_are_answered(gone: DeletedDocument)
    ensures
        ({
            let answer = gone.json();
            &&& answer.get("deleted"@) == Some(crate::json::JsonView::Bool(gone.deleted))
            &&& answer.get("namespace"@) == Some(crate::json::JsonView::Text(gone.namespace@))
            &&& answer.get("documentId"@) == Some(crate::json::JsonView::Text(gone.document_id@))
        }),
{
    let fields = gone.json()->Object_0;
    reveal_strlit("deleted");
    reveal_strlit("namespace");
    reveal_strlit("documentId");
    assert(fields.len() == 3);
    assert(fields[0].0 == "deleted"@);
    assert(fields[1].0 == "namespace"@);
    assert(fields[2].0 == "documentId"@);
    crate::json::lemma_field_at(fields, 0);
    crate::json::lemma_field_at(fields, 1);
    crate::json::lemma_field_at(fields, 2);
}

/// A row is held under another key exactly where the namespace has a row with the id whose
/// key is not the one asked for, the first such row counting.
pub proof fn law_moved_rows_are_noticed(
    tables: crate::documents::Tables,
    namespace: Seq<char>,
    document_id: Seq<char>,
    key: Seq<char>,
)
    requires
        tables.wf(),
    ensures
        crate::documents::write::held_elsewhere(tables.docs, namespace, document_id, key)
            <==> exists|i: int|
            0 <= i < tables.docs.len() && (#[trigger] tables.docs[i]).namespace == namespace
                && tables.docs[i].document_id == document_id && tables.docs[i].key != key,
{
    let docs = tables.docs;
    let meets = |r: crate::documents::RowView| r.has_id(namespace, document_id);
    crate::rows::lemma_first_where(docs, meets);
    let at = crate::documents::by_id(docs, namespace, document_id);
    if at < docs.len() {
        assert(meets(docs[at]));
    }
    if exists|i: int|
        0 <= i < docs.len() && (#[trigger] docs[i]).namespace == namespace && docs[i].document_id
            == document_id && docs[i].key != key {
        let i = choose|i: int|
            0 <= i < docs.len() && (#[trigger] docs[i]).namespace == namespace
                && docs[i].document_id == document_id && docs[i].key != key;
        assert(meets(docs[i]));
        assert(at <= i);
        if at < i {
            assert(docs[at].document_id != docs[i].document_id);
        }
    }
}

/// A document is held under a key exactly where a row of the namespace has it, and the row
/// that is then read is such a row.
pub proof fn law_reads_find_the_row(
    tables: crate::documents::Tables,
    namespace: Seq<char>,
    key: Seq<char>,
)
    ensures
        tables.holds(namespace, key) <==> exists|i: int|
            0 <= i < tables.docs.len() && (#[trigger] tables.docs[i]).namespace == namespace
                && tables.docs[i].key == key,
        tables.holds(namespace, key) ==> tables.row(namespace, key).namespace == namespace
            && tables.row(namespace, key).key == key && tables.docs.contains(
            tables.row(namespace, key),
        ),
{
    let docs = tables.docs;
    let meets = |r: crate::documents::RowView| r.has_key(namespace, key);
    crate::rows::lemma_first_where(docs, meets);
    let at = crate::documents::by_key(docs, namespace, key);
    if at < docs.len() {
        assert(meets(docs[at]));
    }
    if exists|i: int|
        0 <= i < docs.len() && (#[trigger] docs[i]).namespace == namespace && docs[i].key == key {
        let i = choose|i: int|
            0 <= i < docs.len() && (#[trigger] docs[i]).namespace == namespace && docs[i].key
                == key;
        assert(meets(docs[i]));
    }
}

/// Vectors are seen as they are given, slot by slot.
pub proof fn law_vectors_are_seen_as_given(vectors: Seq<Option<Vec<u32>>>, i: int)
    requires
        0 <= i < vectors.len(),
    ensures
        crate::documents::write::vector_views(vectors).len() == vectors.len(),
        vectors[i] is Some ==> crate::documents::write::vector_views(vectors)[i] == Some(
            vectors[i]->0@,
        ),
        vectors[i] is None ==> crate::documents::write::vector_views(vectors)[i] is None,
{
}

/// A write takes its row's id and when the row was created from the row that it addresses,
/// and a new row was created when the write was begun. The id is minted only where neither a
/// row nor the caller gives one.
pub proof fn law_writes_keep_the_identity_of_their_row(
    docs: Seq<crate::documents::RowView>,
    input: NamespaceDocumentInput,
    now: i64,
    minted: Seq<char>,
    pending: PendingWrite,
)
    requires
        crate::documents::write::begun(docs, input@, now, minted) == Some(pending@),
    ensures
        match crate::documents::identity::identity(
            docs,
            input.namespace@,
            crate::text::trimmed(input.key@),
            crate::text::opt_text(input.document_id),
        ) {
            crate::documents::identity::IdentityView::Existing { document_id, created_at } =>
                pending.document_id@ == document_id && pending.created_at == created_at
                && !pending.minted,
            crate::documents::identity::IdentityView::StaleKey { document_id, created_at } =>
                pending.document_id@ == document_id && pending.created_at == created_at
                && !pending.minted,
            crate::documents::identity::IdentityView::New { document_id: Some(id) } =>
                pending.document_id@ == id && pending.created_at == now && !pending.minted,
            crate::documents::identity::IdentityView::New { document_id: None } =>
                pending.document_id@ == minted && pending.created_at == now && pending.minted,
        },
{
}

/// Deleting says that there was a document exactly where the namespace has a row with the
/// id, and names the sidecar of that row, to be removed with it.
pub proof fn law_deletions_name_the_sidecar(
    tables: crate::documents::Tables,
    namespace: Seq<char>,
    document_id: Seq<char>,
    i: int,
)
    requires
        tables.wf(),
    ensures
        ({
            let (deleted, sidecar) = crate::documents::read::deletion_of(
                tables.docs,
                namespace,
                document_id,
            );
            &&& deleted <==> sidecar is Some
            &&& deleted <==> exists|k: int|
                0 <= k < tables.docs.len() && (#[trigger] tables.docs[k]).namespace == namespace
                    && tables.docs[k].document_id == document_id
            &&& 0 <= i < tables.docs.len() && tables.docs[i].namespace == namespace
                && tables.docs[i].document_id == document_id ==> sidecar == Some(
                tables.docs[i].body.markdown_rel_path,
            )
        }),
{
    let docs = tables.docs;
    let meets = |r: crate::documents::RowView| r.has_id(namespace, document_id);
    crate::rows::lemma_first_where(docs, meets);
    let at = crate::documents::by_id(docs, namespace, document_id);
    if at < docs.len() {
        assert(meets(docs[at]));
    }
    assert forall|k: int|
        0 <= k < docs.len() && (#[trigger] docs[k]).namespace == namespace && docs[k].document_id
            == document_id implies at < docs.len() && docs[at] == docs[k] by {
        assert(meets(docs[k]));
        if at < k {
            assert(docs[at].document_id != docs[k].document_id);
        }
    }
}

/// What is written is what is read: after a full write the document under its namespace and
/// key has the written title, content and other columns, was last updated when the write was
/// begun, and keeps its tags, as long as the stored form of the tags reads back.
pub proof fn law_writes_are_read_back(
    tables: crate::documents::Tables,
    after: crate::documents::Tables,
    pending: PendingWrite,
    path: Seq<char>,
    chunks: Seq<Seq<char>>,
    embeddings: Seq<Option<Seq<u32>>>,
    document: StoredMemoryDocument,
)
    requires
        tables.wf(),
        crate::documents::write::committed(tables, pending@, path, chunks, embeddings) == Ok::<
            crate::documents::Tables,
            Seq<char>,
        >(after),
        crate::documents::read::document_under(
            after,
            pending.input.namespace@,
            pending.key@,
        ) == Some(document@),
    ensures
        document.namespace@ == pending.input.namespace@,
        document.key@ == pending.key@,
        document.title@ == pending.input.title@,
        document.content@ == pending.input.content@,
        document.source_type@ == pending.input.source_type@,
        document.priority@ == pending.input.priority@,
        document.category@ == pending.input.category@,
        crate::text::opt_text(document.session_id) == crate::text::opt_text(
            pending.input.session_id,
        ),
        document.updated_at == pending.now,
        document.markdown_rel_path@ == path,
        document.taint == pending.input.taint,
        crate::outside::is_json(pending.input.metadata@) ==> document.metadata@
            == pending.input.metadata@,
        crate::outside::json_string_array(
            crate::outside::string_array_json(crate::text::texts(pending.input.tags@)),
        ) == Some(crate::text::texts(pending.input.tags@)) ==> crate::text::texts(document.tags@)
            == crate::text::texts(pending.input.tags@),
{
    let row = crate::documents::write::row_of(pending@, path);
    crate::documents::laws::law_landing_touches_one_row(tables, row, pending@.minted);
    crate::documents::law_taint_round_trips(pending.input.taint, Seq::empty());
}

/// A full write that succeeds leaves its document to be read, and keeps the tables valid.
pub proof fn law_writes_leave_a_document(
    tables: crate::documents::Tables,
    pending: PendingWrite,
    path: Seq<char>,
    chunks: Seq<Seq<char>>,
    embeddings: Seq<Option<Seq<u32>>>,
)
    requires
        tables.wf(),
    ensures
        match crate::documents::write::committed(tables, pending@, path, chunks, embeddings) {
            Ok(after) => crate::documents::read::document_under(
                after,
                pending.input.namespace@,
                pending.key@,
            ) is Some && after.wf(),
            Err(_) => true,
        },
{
    let row = crate::documents::write::row_of(pending@, path);
    if crate::documents::write::landed(tables.docs, row, pending@.minted) is Ok {
        crate::documents::laws::law_landing_touches_one_row(tables, row, pending@.minted);
    }
}

} // verus!
