//! What the provider keeps, lists, recalls and logs.

use vstd::prelude::*;

use crate::documents::read::StoredMemoryDocument;
use crate::documents::{MemoryTaint, NamespaceDocumentInput};
use crate::provider::types::{
    Call, GoalItem, GraphRelationRecord, ImportRecord, IngestItem, MemoryCategory, MemoryEntry,
    MemoryKvRecord, NamespaceMemoryHit, NamespaceSummary, RetrievalHit, SourceScope,
    ToolMemoryRule,
};

verus! {

/// A document is kept as it was put, field by field, under the id that was asked for or
/// under a fixed one, and was created and updated when it was put.
pub proof fn law_documents_are_kept_as_put(
    input: NamespaceDocumentInput,
    now: i64,
    document: StoredMemoryDocument,
)
    requires
        document@ == crate::provider::documents::kept_document(input@, now),
    ensures
        input.document_id is Some ==> document.document_id@ == input.document_id->0@,
        input.document_id is None ==> document.document_id@ == "doc"@,
        document.namespace@ == input.namespace@,
        document.key@ == input.key@,
        document.title@ == input.title@,
        document.content@ == input.content@,
        document.source_type@ == input.source_type@,
        document.priority@ == input.priority@,
        crate::text::texts(document.tags@) == crate::text::texts(input.tags@),
        document.metadata@ == input.metadata@,
        document.category@ == input.category@,
        crate::text::opt_text(document.session_id) == crate::text::opt_text(input.session_id),
        document.created_at == now,
        document.updated_at == now,
        document.taint == input.taint,
        document.markdown_rel_path@.len() == 0,
{
}

proof fn lemma_document_fields(d: crate::documents::read::StoredView)
    ensures
        ({
            let item = crate::provider::documents::document_json(d);
            &&& item.get("documentId"@) == Some(crate::json::JsonView::Text(d.document_id))
            &&& item.get("namespace"@) == Some(crate::json::JsonView::Text(d.namespace))
            &&& item.get("key"@) == Some(crate::json::JsonView::Text(d.key))
            &&& item.get("title"@) == Some(crate::json::JsonView::Text(d.title))
            &&& item.get("sourceType"@) == Some(crate::json::JsonView::Text(d.source_type))
            &&& item.get("priority"@) == Some(crate::json::JsonView::Text(d.priority))
            &&& item.get("createdAt"@) == Some(crate::json::JsonView::Millis(d.created_at))
            &&& item.get("updatedAt"@) == Some(crate::json::JsonView::Millis(d.updated_at))
            &&& item.get("taint"@) == Some(crate::json::JsonView::Text(d.taint.db_text()))
        }),
{
    let fields = crate::provider::documents::document_json(d)->Object_0;
    reveal_strlit("documentId");
    reveal_strlit("namespace");
    reveal_strlit("key");
    reveal_strlit("title");
    reveal_strlit("sourceType");
    reveal_strlit("priority");
    reveal_strlit("createdAt");
    reveal_strlit("updatedAt");
    reveal_strlit("taint");
    assert("documentId"@[0] == 'd');
    assert("sourceType"@[0] == 's');
    assert("namespace"@[0] == 'n');
    assert("createdAt"@[0] == 'c');
    assert("updatedAt"@[0] == 'u');
    assert("title"@[1] == 'i');
    assert("taint"@[1] == 'a');
    assert(fields.len() == 9);
    assert(fields[0].0 == "documentId"@);
    assert(fields[1].0 == "namespace"@);
    assert(fields[2].0 == "key"@);
    assert(fields[3].0 == "title"@);
    assert(fields[4].0 == "sourceType"@);
    assert(fields[5].0 == "priority"@);
    assert(fields[6].0 == "createdAt"@);
    assert(fields[7].0 == "updatedAt"@);
    assert(fields[8].0 == "taint"@);
    crate::json::lemma_field_at(fields, 0);
    crate::json::lemma_field_at(fields, 1);
    crate::json::lemma_field_at(fields, 2);
    crate::json::lemma_field_at(fields, 3);
    crate::json::lemma_field_at(fields, 4);
    crate::json::lemma_field_at(fields, 5);
    crate::json::lemma_field_at(fields, 6);
    crate::json::lemma_field_at(fields, 7);
    crate::json::lemma_field_at(fields, 8);
}

/// The documents of a namespace are the documents in it, no more and no fewer.
pub proof fn law_scoped_documents_are_those_of_the_namespace(
    documents: Seq<crate::documents::read::StoredView>,
    namespace: Option<Seq<char>>,
    document: crate::documents::read::StoredView,
)
    ensures
        crate::provider::documents::documents_in(documents, namespace).contains(document)
            <==> documents.contains(document) && (namespace is Some ==> document.namespace
            == namespace->0),
{
    broadcast use vstd::seq_lib::group_filter_ensures;

    let keep = |d: crate::documents::read::StoredView|
        namespace is Some ==> d.namespace == namespace->0;
    let kept = crate::provider::documents::documents_in(documents, namespace);
    if kept.contains(document) {
        documents.lemma_filter_contains_rev(keep, document);
        let i = choose|i: int| 0 <= i < kept.len() && kept[i] == document;
        assert(keep(kept[i]));
    }
    if documents.contains(document) && (namespace is Some ==> document.namespace
        == namespace->0) {
        let i = choose|i: int| 0 <= i < documents.len() && documents[i] == document;
        assert(keep(documents[i]));
        assert(documents.filter(keep).contains(documents[i]));
    }
}

/// Every item of a listing is one of the documents that are listed, and says under the name
/// of each column what the document has there; the count is how many there are.
pub proof fn law_listings_name_their_documents(
    documents: Seq<crate::documents::read::StoredView>,
    i: int,
)
    requires
        0 <= i < documents.len(),
    ensures
        ({
            let listing = crate::provider::documents::documents_json(documents);
            let items = listing.get("documents"@)->0.items()->0;
            let item = items[i];
            let d = crate::rows::sorted_by(
                documents,
                crate::provider::documents::listing_order(),
            )[i];
            &&& listing.get("count"@) == Some(crate::json::JsonView::Number(documents.len() as u64))
            &&& listing.get("documents"@) is Some
            &&& listing.get("documents"@)->0.items() is Some
            &&& items.len() == documents.len()
            &&& documents.contains(d)
            &&& item.get("documentId"@) == Some(crate::json::JsonView::Text(d.document_id))
            &&& item.get("namespace"@) == Some(crate::json::JsonView::Text(d.namespace))
            &&& item.get("key"@) == Some(crate::json::JsonView::Text(d.key))
            &&& item.get("title"@) == Some(crate::json::JsonView::Text(d.title))
            &&& item.get("sourceType"@) == Some(crate::json::JsonView::Text(d.source_type))
            &&& item.get("priority"@) == Some(crate::json::JsonView::Text(d.priority))
            &&& item.get("createdAt"@) == Some(crate::json::JsonView::Millis(d.created_at))
            &&& item.get("updatedAt"@) == Some(crate::json::JsonView::Millis(d.updated_at))
            &&& item.get("taint"@) == Some(crate::json::JsonView::Text(d.taint.db_text()))
        }),
{
    let order = crate::provider::documents::listing_order();
    let sorted = crate::rows::sorted_by(documents, order);
    let fields = crate::provider::documents::documents_json(documents)->Object_0;
    reveal_strlit("documents");
    reveal_strlit("count");
    assert(fields[0].0 == "count"@);
    assert(fields[1].0 == "documents"@);
    crate::json::lemma_field_at(fields, 0);
    crate::json::lemma_field_at(fields, 1);
    crate::rows::lemma_sorted_len(documents, order);
    crate::rows::lemma_sorted_from(documents, order, sorted[i]);
    lemma_document_fields(sorted[i]);
}

/// The answer to a deletion says whether there was such a document, and names it.
pub proof fn law_deletions_are_answered(
    deleted: bool,
    namespace: Seq<char>,
    document_id: Seq<char>,
)
    ensures
        ({
            let answer = crate::provider::documents::deletion_json(
                deleted,
                namespace,
                document_id,
            );
            &&& answer.get("deleted"@) == Some(crate::json::JsonView::Bool(deleted))
            &&& answer.get("namespace"@) == Some(crate::json::JsonView::Text(namespace))
            &&& answer.get("documentId"@) == Some(crate::json::JsonView::Text(document_id))
        }),
{
    let fields = crate::provider::documents::deletion_json(
        deleted,
        namespace,
        document_id,
    )->Object_0;
    reveal_strlit("deleted");
    reveal_strlit("namespace");
    reveal_strlit("documentId");
    assert(fields.len() == 3);
    assert(fields[0].0 == "deleted"@);
    assert(fields[1].0 == "namespace"@);
    assert(fields[2].0 == "documentId"@);
    crate::json::lemma_field_at(fields, 0);
    crate::json::lemma_field_at(fields, 1);
    crate::json::lemma_field_at(fields, 2);
}

/// A document that is looked up is the one under its namespace and key; by an id, the one
/// with that id in the namespace. Where there is none, none is found.
pub proof fn law_lookups_find_the_document(
    documents: Seq<crate::documents::read::StoredView>,
    namespace: Seq<char>,
    key: Seq<char>,
    document_id: Seq<char>,
)
    ensures
        ({
            let at = crate::provider::documents::document_at(documents, namespace, key);
            let by_id = crate::provider::documents::document_by_id(
                documents,
                namespace,
                document_id,
            );
            &&& 0 <= at <= documents.len()
            &&& at < documents.len() ==> documents[at].namespace == namespace && documents[at].key
                == key
            &&& at == documents.len() ==> forall|i: int|
                0 <= i < documents.len() ==> !((#[trigger] documents[i]).namespace == namespace
                    && documents[i].key == key)
            &&& 0 <= by_id <= documents.len()
            &&& by_id < documents.len() ==> documents[by_id].namespace == namespace
                && documents[by_id].document_id == document_id
            &&& by_id == documents.len() ==> forall|i: int|
                0 <= i < documents.len() ==> !((#[trigger] documents[i]).namespace == namespace
                    && documents[i].document_id == document_id)
        }),
{
    let by_key = |d: crate::documents::read::StoredView|
        crate::provider::documents::is_document(d, namespace, key);
    let with_id = |d: crate::documents::read::StoredView|
        d.namespace == namespace && d.document_id == document_id;
    crate::rows::lemma_first_where(documents, by_key);
    crate::rows::lemma_first_where(documents, with_id);
    let at = crate::provider::documents::document_at(documents, namespace, key);
    let by_id = crate::provider::documents::document_by_id(documents, namespace, document_id);
    if at < documents.len() {
        assert(by_key(documents[at]));
    } else {
        assert forall|i: int| 0 <= i < documents.len() implies !((
        #[trigger] documents[i]).namespace == namespace && documents[i].key == key) by {
            assert(!by_key(documents[i]));
        }
    }
    if by_id < documents.len() {
        assert(with_id(documents[by_id]));
    } else {
        assert forall|i: int| 0 <= i < documents.len() implies !((
        #[trigger] documents[i]).namespace == namespace && documents[i].document_id
            == document_id) by {
            assert(!with_id(documents[i]));
        }
    }
}

/// The namespaces of documents are listed in ascending order, each once, and they are
/// exactly those that a document is in.
pub proof fn law_document_namespaces_are_listed_once(
    documents: Seq<crate::documents::read::StoredView>,
)
    ensures
        crate::text::ascending(crate::provider::documents::document_namespaces(documents)),
        forall|n: Seq<char>|
            #[trigger] crate::provider::documents::document_namespaces(documents).contains(n)
                <==> exists|i: int|
                0 <= i < documents.len() && (#[trigger] documents[i]).namespace == n,
    decreases documents.len(),
{
    if documents.len() > 0 {
        let before = documents.drop_last();
        let last = documents.last().namespace;
        law_document_namespaces_are_listed_once(before);
        let was = crate::provider::documents::document_namespaces(before);
        let now = crate::provider::documents::document_namespaces(documents);
        crate::text::lemma_placed(was, last);
        assert forall|n: Seq<char>| #[trigger]
            now.contains(n) <==> exists|i: int|
                0 <= i < documents.len() && (#[trigger] documents[i]).namespace == n by {
            assert(now.contains(n) <==> was.contains(n) || n == last);
            if was.contains(n) {
                let i = choose|i: int|
                    0 <= i < before.len() && (#[trigger] before[i]).namespace == n;
                assert(documents[i].namespace == n);
            }
            if n == last {
                assert(documents[documents.len() - 1].namespace == n);
            }
            if exists|i: int|
                0 <= i < documents.len() && (#[trigger] documents[i]).namespace == n {
                let i = choose|i: int|
                    0 <= i < documents.len() && (#[trigger] documents[i]).namespace == n;
                if i < before.len() {
                    assert(before[i].namespace == n);
                }
            }
        }
    }
}

/// A document is recalled as itself: the hit has its id, its place, its title and its
/// content, with its provenance, and no score.
pub proof fn law_hits_are_their_documents(document: StoredMemoryDocument, hit: NamespaceMemoryHit)
    requires
        hit@ == crate::provider::documents::document_hit(document@),
    ensures
        hit.id@ == document.document_id@,
        hit.kind is Document,
        hit.namespace@ == document.namespace@,
        hit.key@ == document.key@,
        hit.title is Some && hit.title->0@ == document.title@,
        hit.content@ == document.content@,
        hit.category@ == document.category@,
        hit.source_type is Some && hit.source_type->0@ == document.source_type@,
        hit.updated_at == document.updated_at,
        hit.document_id is Some && hit.document_id->0@ == document.document_id@,
        hit.chunk_id is None,
        hit.taint == document.taint,
        hit.score == 0,
        hit.score_breakdown.final_score == 0,
        hit.supporting_relations@.len() == 0,
{
    assert(hit@.supporting_relations.len() == hit.supporting_relations@.len());
}

/// What is joined holds each of its parts.
proof fn lemma_join_holds(parts: Seq<Seq<char>>, separator: Seq<char>, i: int)
    requires
        0 <= i < parts.len(),
    ensures
        crate::text::has_infix(crate::text::join(parts, separator), parts[i]),
    decreases parts.len(),
{
    let whole = crate::text::join(parts, separator);
    let part = parts[i];
    if parts.len() == 1 {
        let from = 0int;
        assert(whole.subrange(from, from + part.len()) =~= part);
    } else {
        let fewer = parts.drop_last();
        let before = crate::text::join(fewer, separator);
        if i < fewer.len() {
            assert(fewer[i] == part);
            lemma_join_holds(fewer, separator, i);
            let from = choose|from: int|
                0 <= from <= before.len() - part.len() && #[trigger] before.subrange(
                    from,
                    from + part.len(),
                ) == part;
            assert(whole.subrange(from, from + part.len()) =~= before.subrange(
                from,
                from + part.len(),
            ));
        } else {
            let from = (before + separator).len() as int;
            assert(whole.subrange(from, from + part.len()) =~= part);
        }
    }
}

/// A recall of a namespace answers with the newest of its documents, as many as there are or
/// as the limit allows, each as its own hit, and with a text that holds the title and the
/// content of every one of them.
pub proof fn law_recalls_answer_with_the_documents(
    documents: Seq<crate::documents::read::StoredView>,
    namespace: Seq<char>,
    limit: usize,
    i: int,
)
    requires
        0 <= i < crate::provider::documents::recalled_documents(documents, namespace, limit).len(),
    ensures
        ({
            let picked = crate::provider::documents::recalled_documents(
                documents,
                namespace,
                limit,
            );
            let inside = crate::provider::documents::documents_in(documents, Some(namespace));
            let answer = crate::provider::documents::recall_context(documents, namespace, limit);
            &&& picked.len() == if limit < inside.len() {
                limit as nat
            } else {
                inside.len()
            }
            &&& documents.contains(picked[i])
            &&& picked[i].namespace == namespace
            &&& answer.namespace == namespace
            &&& answer.query is None
            &&& answer.hits.len() == picked.len()
            &&& answer.hits[i].id == picked[i].document_id
            &&& answer.hits[i].title == Some(picked[i].title)
            &&& answer.hits[i].content == picked[i].content
            &&& answer.hits[i].taint == picked[i].taint
            &&& crate::text::has_infix(
                answer.context_text,
                picked[i].title + "\n"@ + picked[i].content,
            )
        }),
{
    let inside = crate::provider::documents::documents_in(documents, Some(namespace));
    let order = crate::provider::documents::recall_order();
    let sorted = crate::rows::sorted_by(inside, order);
    let picked = crate::provider::documents::recalled_documents(documents, namespace, limit);
    crate::rows::lemma_sorted_len(inside, order);
    assert(sorted[i] == picked[i]);
    assert(sorted.contains(picked[i]));
    crate::rows::lemma_sorted_from(inside, order, picked[i]);
    law_scoped_documents_are_those_of_the_namespace(documents, Some(namespace), picked[i]);
    let parts = picked.map_values(
        |d: crate::documents::read::StoredView| d.title + "\n"@ + d.content,
    );
    lemma_join_holds(parts, "\n\n"@, i);
    assert(parts[i] == picked[i].title + "\n"@ + picked[i].content);
}

/// Where none of a namespace is held, a recall of it answers with nothing.
pub proof fn law_recalls_of_nothing_are_empty(
    documents: Seq<crate::documents::read::StoredView>,
    namespace: Seq<char>,
    limit: usize,
)
    requires
        crate::provider::documents::recalled_documents(documents, namespace, limit).len() == 0,
    ensures
        crate::provider::documents::recall_context(documents, namespace, limit).hits.len() == 0,
        crate::provider::documents::recall_context(
            documents,
            namespace,
            limit,
        ).context_text.len() == 0,
{
}

/// An entry is kept as it was stored: under its namespace and key, with its content, its
/// category, its session and its provenance, and with an id made of namespace and key.
pub proof fn law_entries_are_kept_as_stored(
    namespace: Seq<char>,
    key: Seq<char>,
    content: Seq<char>,
    category: MemoryCategory,
    session_id: Option<Seq<char>>,
    taint: MemoryTaint,
    entry: MemoryEntry,
)
    requires
        entry@ == crate::provider::entries::stored_entry(
            namespace,
            key,
            content,
            category@,
            session_id,
            taint,
        ),
    ensures
        entry.namespace is Some && entry.namespace->0@ == namespace,
        entry.key@ == key,
        entry.content@ == content,
        entry.category@ == category@,
        crate::text::opt_text(entry.session_id) == session_id,
        entry.taint == taint,
        entry.score is None,
        entry.id@.take(namespace.len() as int) == namespace,
        entry.id@.skip(namespace.len() as int + 2) == key,
        entry.id@.subrange(namespace.len() as int, namespace.len() as int + 2) == "::"@,
        entry.timestamp@ == "1970-01-01T00:00:00Z"@,
{
    reveal_strlit("::");
    assert(entry.id@.take(namespace.len() as int) =~= namespace);
    assert(entry.id@.skip(namespace.len() as int + 2) =~= key);
    assert(entry.id@.subrange(namespace.len() as int, namespace.len() as int + 2) =~= "::"@);
}

/// An entry that is imported is the decoded one, with the provenance of its record.
pub proof fn law_imported_entries_are_the_decoded_ones(record: ImportRecord, entry: MemoryEntry)
    requires
        record.decoded is Some,
        entry@ == crate::provider::entries::imported_entry(record),
    ensures
        entry.namespace is Some && entry.namespace->0@ == record.decoded->0.namespace@,
        entry.key@ == record.decoded->0.key@,
        entry.content@ == record.decoded->0.content@,
        entry.category@ == record.decoded->0.category@,
        crate::text::opt_text(entry.session_id) == crate::text::opt_text(
            record.decoded->0.session_id,
        ),
        entry.taint == record.record.taint,
{
}

/// Every record that does not decode is reported, in order, by its id, and no other is.
pub proof fn law_undecodable_records_are_reported(records: Seq<ImportRecord>)
    ensures
        ({
            let lost = records.filter(|r: ImportRecord| r.decoded is None);
            let errors = crate::provider::entries::import_errors(records);
            &&& errors.len() == lost.len()
            &&& forall|i: int|
                0 <= i < lost.len() ==> crate::text::has_infix(
                    #[trigger] errors[i],
                    lost[i].record.id@,
                )
        }),
    decreases records.len(),
{
    reveal(Seq::filter);
    let lost = records.filter(|r: ImportRecord| r.decoded is None);
    let errors = crate::provider::entries::import_errors(records);
    if records.len() > 0 {
        let fewer = records.drop_last();
        law_undecodable_records_are_reported(fewer);
        let before = fewer.filter(|r: ImportRecord| r.decoded is None);
        let said = crate::provider::entries::import_errors(fewer);
        let last = records.last();
        if last.decoded is None {
            let id = last.record.id@;
            let from = "record "@.len() as int;
            assert(errors.last().subrange(from, from + id.len()) =~= id);
            assert forall|i: int| 0 <= i < lost.len() implies crate::text::has_infix(
                #[trigger] errors[i],
                lost[i].record.id@,
            ) by {
                if i < before.len() {
                    assert(errors[i] == said[i]);
                    assert(lost[i] == before[i]);
                }
            }
        }
    }
}

/// The count of a namespace is how many entries are in it.
pub proof fn law_namespaces_are_counted(
    entries: Seq<crate::provider::types::EntryView>,
    namespace: Seq<char>,
)
    ensures
        crate::provider::entries::entry_count(entries, namespace) == entries.filter(
            |e: crate::provider::types::EntryView| e.namespace == Some(namespace),
        ).len(),
        crate::provider::entries::counted(entries, namespace).namespace == namespace,
        entries.len() <= usize::MAX ==> crate::provider::entries::counted(
            entries,
            namespace,
        ).count == crate::provider::entries::entry_count(entries, namespace),
        crate::provider::entries::entry_count(entries, namespace) <= entries.len(),
    decreases entries.len(),
{
    reveal(Seq::filter);
    if entries.len() > 0 {
        law_namespaces_are_counted(entries.drop_last(), namespace);
    }
}

/// A listing of entries holds an entry exactly where the entry is held and is in the
/// namespace, of the category and of the session that were asked for.
pub proof fn law_listed_entries_are_those_asked_for(
    entries: Seq<crate::provider::types::EntryView>,
    namespace: Option<Seq<char>>,
    category: Option<crate::provider::types::CategoryView>,
    session_id: Option<Seq<char>>,
    entry: crate::provider::types::EntryView,
)
    ensures
        ({
            let listed = crate::provider::entries::by_id(
                entries.filter(
                    |e: crate::provider::types::EntryView|
                        crate::provider::entries::is_listed(e, namespace, category, session_id),
                ),
            );
            listed.contains(entry) <==> entries.contains(entry) && (namespace is Some
                ==> entry.namespace == Some(namespace->0)) && (category is Some ==> entry.category
                == category->0) && (session_id is Some ==> entry.session_id == Some(
                session_id->0,
            ))
        }),
{
    broadcast use vstd::seq_lib::group_filter_ensures;

    let keep = |e: crate::provider::types::EntryView|
        crate::provider::entries::is_listed(e, namespace, category, session_id);
    let kept = entries.filter(keep);
    let order = crate::provider::entries::by_entry_id();
    let listed = crate::rows::sorted_by(kept, order);
    if listed.contains(entry) {
        crate::rows::lemma_sorted_from(kept, order, entry);
        entries.lemma_filter_contains_rev(keep, entry);
        let i = choose|i: int| 0 <= i < kept.len() && kept[i] == entry;
        assert(keep(kept[i]));
    }
    if entries.contains(entry) && keep(entry) {
        let i = choose|i: int| 0 <= i < entries.len() && entries[i] == entry;
        assert(keep(entries[i]));
        assert(kept.contains(entries[i]));
        crate::rows::lemma_sorted_contains(kept, order, entry);
    }
}

/// Only what matches is recalled: where no other answer is set, every recalled entry is
/// held, is one that the recall is not narrowed away from, and holds the query, whatever the
/// case of the letters; and no more are recalled than the limit allows. An answer that is
/// set is the answer.
pub proof fn law_only_matches_are_recalled(
    provider: crate::provider::ProviderView,
    query: Seq<char>,
    limit: usize,
    opts: crate::provider::entries::OptsView,
    scope: Option<SourceScope>,
)
    ensures
        ({
            let found = crate::provider::entries::recalled(
                provider,
                crate::provider::entries::lowered_contents(provider.entries),
                crate::outside::lowered(query),
                limit,
                opts,
                scope,
            );
            &&& provider.recall_result.len() > 0 ==> found == provider.recall_result
            &&& provider.recall_result.len() == 0 ==> found.len() <= limit
            &&& provider.recall_result.len() == 0 ==> forall|i: int|
                0 <= i < found.len() ==> {
                    let entry = #[trigger] found[i];
                    &&& provider.entries.contains(entry)
                    &&& opts.namespace is Some ==> entry.namespace == opts.namespace
                    &&& opts.category is Some ==> entry.category == opts.category->0
                    &&& opts.session_id is Some ==> entry.session_id == opts.session_id
                    &&& crate::text::has_infix(
                        crate::outside::lowered(entry.content),
                        crate::outside::lowered(query),
                    )
                    &&& scope is Some ==> scope->0.allow@.len() > 0
                }
        }),
{
    let contents = crate::provider::entries::lowered_contents(provider.entries);
    let needle = crate::outside::lowered(query);
    let found = crate::provider::entries::recalled(provider, contents, needle, limit, opts, scope);
    if provider.recall_result.len() == 0 {
        let order = crate::provider::entries::by_entry_id();
        let hits = crate::provider::entries::matches(provider.entries, contents, needle, opts);
        let sorted = crate::rows::sorted_by(hits, order);
        assert forall|i: int| 0 <= i < found.len() implies {
            let entry = #[trigger] found[i];
            &&& provider.entries.contains(entry)
            &&& opts.namespace is Some ==> entry.namespace == opts.namespace
            &&& opts.category is Some ==> entry.category == opts.category->0
            &&& opts.session_id is Some ==> entry.session_id == opts.session_id
            &&& crate::text::has_infix(crate::outside::lowered(entry.content), needle)
            &&& scope is Some ==> scope->0.allow@.len() > 0
        } by {
            assert(sorted[i] == found[i]);
            assert(sorted.contains(found[i]));
            crate::rows::lemma_sorted_from(hits, order, found[i]);
            lemma_matches_are_held(provider.entries, contents, needle, opts, found[i]);
        }
    }
}

proof fn lemma_matches_are_held(
    entries: Seq<crate::provider::types::EntryView>,
    contents: Seq<Seq<char>>,
    needle: Seq<char>,
    opts: crate::provider::entries::OptsView,
    hit: crate::provider::types::EntryView,
)
    requires
        contents == crate::provider::entries::lowered_contents(entries),
        crate::provider::entries::matches(entries, contents, needle, opts).contains(hit),
    ensures
        entries.contains(hit),
        crate::provider::entries::is_listed(hit, opts.namespace, opts.category, opts.session_id),
        crate::text::has_infix(crate::outside::lowered(hit.content), needle),
    decreases entries.len(),
{
    let all = crate::provider::entries::matches(entries, contents, needle, opts);
    if entries.len() > 0 {
        let fewer = entries.drop_last();
        let lowered = crate::provider::entries::lowered_contents(fewer);
        assert(contents.drop_last() =~= lowered);
        let before = crate::provider::entries::matches(fewer, lowered, needle, opts);
        let k = choose|k: int| 0 <= k < all.len() && all[k] == hit;
        if k < before.len() {
            assert(before[k] == hit);
            assert(before.contains(hit));
            lemma_matches_are_held(fewer, lowered, needle, opts, hit);
            let j = choose|j: int| 0 <= j < fewer.len() && fewer[j] == hit;
            assert(entries[j] == hit);
        } else {
            assert(entries[entries.len() - 1] == hit);
            assert(contents.last() == crate::outside::lowered(entries.last().content));
        }
    }
}

/// An entry that is looked up is the one under its namespace and key, where there is one.
pub proof fn law_lookups_find_the_entry(
    entries: Seq<crate::provider::types::EntryView>,
    namespace: Seq<char>,
    key: Seq<char>,
)
    ensures
        ({
            let at = crate::provider::entries::entry_at(entries, namespace, key);
            &&& 0 <= at <= entries.len()
            &&& at < entries.len() ==> entries[at].namespace == Some(namespace) && entries[at].key
                == key
            &&& at == entries.len() ==> forall|i: int|
                0 <= i < entries.len() ==> !((#[trigger] entries[i]).namespace == Some(namespace)
                    && entries[i].key == key)
        }),
{
    let meets = |e: crate::provider::types::EntryView|
        crate::provider::entries::is_entry(e, namespace, key);
    crate::rows::lemma_first_where(entries, meets);
    let at = crate::provider::entries::entry_at(entries, namespace, key);
    if at < entries.len() {
        assert(meets(entries[at]));
    } else {
        assert forall|i: int| 0 <= i < entries.len() implies !((#[trigger] entries[i]).namespace
            == Some(namespace) && entries[i].key == key) by {
            assert(!meets(entries[i]));
        }
    }
}

/// Key-value rows are listed by key: a row is listed exactly where it is held, under the
/// namespace asked for, or under none, and its key starts as asked for.
pub proof fn law_kv_listings_are_those_asked_for(
    kv: Seq<crate::provider::types::KvRecordView>,
    namespace: Option<Seq<char>>,
    prefix: Option<Seq<char>>,
    row: crate::provider::types::KvRecordView,
)
    ensures
        ({
            let listed = crate::rows::sorted_by(
                kv.filter(
                    |r: crate::provider::types::KvRecordView|
                        crate::provider::graph::is_kv_listed(r, namespace, prefix),
                ),
                crate::provider::graph::kv_order(),
            );
            &&& listed.contains(row) <==> kv.contains(row) && row.namespace == namespace && (prefix
                is Some ==> prefix->0.is_prefix_of(row.key))
            &&& forall|i: int, j: int|
                0 <= i < j < listed.len() ==> crate::text::text_le(
                    (#[trigger] listed[i]).key,
                    (#[trigger] listed[j]).key,
                )
        }),
{
    broadcast use vstd::seq_lib::group_filter_ensures;

    let keep = |r: crate::provider::types::KvRecordView|
        crate::provider::graph::is_kv_listed(r, namespace, prefix);
    let kept = kv.filter(keep);
    let order = crate::provider::graph::kv_order();
    let listed = crate::rows::sorted_by(kept, order);
    assert(crate::rows::is_order(order)) by {
        assert forall|
            a: crate::provider::types::KvRecordView,
            b: crate::provider::types::KvRecordView,
        | #[trigger] order(a, b) || order(b, a) by {
            crate::text::lemma_text_le_total(a.key, b.key);
        }
        assert forall|
            a: crate::provider::types::KvRecordView,
            b: crate::provider::types::KvRecordView,
            c: crate::provider::types::KvRecordView,
        | #[trigger] order(a, b) && #[trigger] order(b, c) implies order(a, c) by {
            crate::text::lemma_text_le_transitive(a.key, b.key, c.key);
        }
    }
    crate::rows::lemma_sorted_by(kept, order);
    assert forall|i: int, j: int| 0 <= i < j < listed.len() implies crate::text::text_le(
        (#[trigger] listed[i]).key,
        (#[trigger] listed[j]).key,
    ) by {
        assert(order(listed[i], listed[j]));
    }
    if listed.contains(row) {
        crate::rows::lemma_sorted_from(kept, order, row);
        kv.lemma_filter_contains_rev(keep, row);
        let i = choose|i: int| 0 <= i < kept.len() && kept[i] == row;
        assert(keep(kept[i]));
    }
    if kv.contains(row) && keep(row) {
        let i = choose|i: int| 0 <= i < kv.len() && kv[i] == row;
        assert(keep(kv[i]));
        assert(kept.contains(kv[i]));
        crate::rows::lemma_sorted_contains(kept, order, row);
    }
}

/// The order of relations compares any two of them: by subject first, then by predicate,
/// then by object.
pub proof fn law_relations_are_ordered(
    a: crate::provider::types::RelationView,
    b: crate::provider::types::RelationView,
)
    ensures
        ({
            let order = crate::provider::graph::relation_order();
            &&& order(a, b) || order(b, a)
            &&& order(a, b) ==> crate::text::text_le(a.subject, b.subject)
            &&& order(a, b) && a.subject == b.subject ==> crate::text::text_le(
                a.predicate,
                b.predicate,
            )
            &&& order(a, b) && a.subject == b.subject && a.predicate == b.predicate
                ==> crate::text::text_le(a.object, b.object)
            &&& order(a, b) && order(b, a) ==> a.subject == b.subject && a.predicate == b.predicate
                && a.object == b.object
        }),
{
    crate::text::lemma_text_le_total(a.subject, b.subject);
    crate::text::lemma_text_le_total(a.predicate, b.predicate);
    crate::text::lemma_text_le_total(a.object, b.object);
    crate::text::lemma_text_le_reflexive(a.subject);
    crate::text::lemma_text_le_reflexive(a.predicate);
    if crate::text::text_le(a.subject, b.subject) && crate::text::text_le(b.subject, a.subject) {
        crate::text::lemma_text_le_antisymmetric(a.subject, b.subject);
    }
    if crate::text::text_le(a.predicate, b.predicate) && crate::text::text_le(
        b.predicate,
        a.predicate,
    ) {
        crate::text::lemma_text_le_antisymmetric(a.predicate, b.predicate);
    }
    if crate::text::text_le(a.object, b.object) && crate::text::text_le(b.object, a.object) {
        crate::text::lemma_text_le_antisymmetric(a.object, b.object);
    }
}

/// Which relations are listed: those of the namespace, the subject and the predicate that
/// are asked for; what is not asked for does not matter.
pub proof fn law_relations_are_listed_as_asked(
    r: crate::provider::types::RelationView,
    namespace: Seq<char>,
    subject: Seq<char>,
    predicate: Seq<char>,
)
    ensures
        crate::provider::graph::is_relation_listed(r, None, None, None),
        crate::provider::graph::is_relation_listed(r, Some(namespace), None, None)
            <==> r.namespace == Some(namespace),
        crate::provider::graph::is_relation_listed(r, None, Some(subject), None) <==> r.subject
            == subject,
        crate::provider::graph::is_relation_listed(r, None, None, Some(predicate))
            <==> r.predicate == predicate,
        crate::provider::graph::is_relation_listed(
            r,
            Some(namespace),
            Some(subject),
            Some(predicate),
        ) <==> r.namespace == Some(namespace) && r.subject == subject && r.predicate == predicate,
{
}

/// A tool rule that is looked up has the id asked for, and rules are ordered by id.
pub proof fn law_lookups_find_the_rule(
    rules: Seq<crate::provider::types::RuleView>,
    id: Seq<char>,
    a: crate::provider::types::RuleView,
    b: crate::provider::types::RuleView,
)
    ensures
        ({
            let at = crate::provider::graph::rule_at(rules, id);
            &&& 0 <= at <= rules.len()
            &&& at < rules.len() ==> rules[at].id == id
            &&& at == rules.len() ==> forall|i: int|
                0 <= i < rules.len() ==> (#[trigger] rules[i]).id != id
        }),
        crate::provider::graph::rule_order()(a, b) <==> crate::text::text_le(a.id, b.id),
{
    let meets = |r: crate::provider::types::RuleView| r.id == id;
    crate::rows::lemma_first_where(rules, meets);
    let at = crate::provider::graph::rule_at(rules, id);
    if at < rules.len() {
        assert(meets(rules[at]));
    } else {
        assert forall|i: int| 0 <= i < rules.len() implies (#[trigger] rules[i]).id != id by {
            assert(!meets(rules[i]));
        }
    }
}

/// A key-value row that is looked up is the one under its namespace, or none, and key.
pub proof fn law_lookups_find_the_kv_row(
    kv: Seq<crate::provider::types::KvRecordView>,
    namespace: Option<Seq<char>>,
    key: Seq<char>,
)
    ensures
        ({
            let at = crate::provider::graph::kv_at(kv, namespace, key);
            &&& 0 <= at <= kv.len()
            &&& at < kv.len() ==> kv[at].namespace == namespace && kv[at].key == key
            &&& at == kv.len() ==> forall|i: int|
                0 <= i < kv.len() ==> !((#[trigger] kv[i]).namespace == namespace && kv[i].key
                    == key)
        }),
{
    let meets = |r: crate::provider::types::KvRecordView|
        crate::provider::graph::is_kv(r, namespace, key);
    crate::rows::lemma_first_where(kv, meets);
    let at = crate::provider::graph::kv_at(kv, namespace, key);
    if at < kv.len() {
        assert(meets(kv[at]));
    } else {
        assert forall|i: int| 0 <= i < kv.len() implies !((#[trigger] kv[i]).namespace == namespace
            && kv[i].key == key) by {
            assert(!meets(kv[i]));
        }
    }
}

/// The first kind of entity that cannot be asked for is found, where there is one.
pub proof fn law_unknown_kinds_are_found(kinds: Seq<Seq<char>>)
    ensures
        ({
            let at = crate::provider::graph::unknown_at(kinds);
            &&& 0 <= at <= kinds.len()
            &&& at < kinds.len() ==> !crate::provider::graph::is_known_kind(kinds[at])
            &&& forall|i: int|
                0 <= i < at ==> crate::provider::graph::is_known_kind(#[trigger] kinds[i])
        }),
{
    let meets = |kind: Seq<char>| !crate::provider::graph::is_known_kind(kind);
    crate::rows::lemma_first_where(kinds, meets);
    let at = crate::provider::graph::unknown_at(kinds);
    if at < kinds.len() {
        assert(meets(kinds[at]));
    }
    assert forall|i: int| 0 <= i < at implies crate::provider::graph::is_known_kind(
        #[trigger] kinds[i],
    ) by {
        assert(!meets(kinds[i]));
    }
}

/// A scope is logged by the sources that it allows: each of them stands in the text, and a
/// call says that it was scoped exactly where a scope came with it.
pub proof fn law_scopes_are_logged(scope: &SourceScope, method: Seq<char>, i: int)
    requires
        0 <= i < scope.allow@.len(),
    ensures
        ({
            let text = crate::provider::scope::rendered(Some(scope));
            let call = crate::provider::scope::scope_call(method, Some(scope));
            &&& text is Some
            &&& crate::text::has_infix(text->0, scope.allow@[i]@)
            &&& call.method == method
            &&& call.content == text
            &&& call.scoped == Some(true)
            &&& call.taint is None
            &&& crate::provider::scope::scope_call(method, None).scoped == Some(false)
            &&& crate::provider::scope::scope_call(method, None).content is None
            &&& crate::provider::scope::rendered(None) is None
        }),
{
    let texts = crate::text::texts(scope.allow@);
    let order = crate::provider::scope::text_order();
    let sorted = crate::rows::sorted_by(texts, order);
    assert(texts[i] == scope.allow@[i]@);
    assert(texts.contains(texts[i]));
    crate::rows::lemma_sorted_contains(texts, order, texts[i]);
    let k = choose|k: int| 0 <= k < sorted.len() && sorted[k] == texts[i];
    lemma_join_holds(sorted, ","@, k);
}

/// What is logged is the call: its method, what content and provenance it carried, and
/// whether it was scoped; and logging a call leaves everything that was logged and every
/// table as it was.
pub proof fn law_calls_are_logged_as_made(
    provider: crate::provider::ProviderView,
    method: Seq<char>,
    content: Seq<char>,
    taint: MemoryTaint,
    scoped: bool,
    call: Call,
)
    ensures
        call@ == crate::provider::plain_call(method) ==> call.method@ == method && call.content
            is None && call.taint is None && call.scoped is None,
        call@ == crate::provider::content_call(method, content) ==> call.method@ == method
            && call.content is Some && call.content->0@ == content && call.taint is None
            && call.scoped is None,
        call@ == crate::provider::tainted_call(method, Some(content), Some(taint))
            ==> call.method@ == method && call.content is Some && call.content->0@ == content
            && call.taint == Some(taint) && call.scoped is None,
        call@ == crate::provider::entries::recall_call(content, scoped) ==> call.method@
            == "recall.recall"@ && call.content is Some && call.content->0@ == content
            && call.scoped == Some(scoped),
        ({
            let after = provider.logged(call@);
            &&& after.calls.len() == provider.calls.len() + 1
            &&& after.calls.last() == call@
            &&& after.calls.drop_last() == provider.calls
            &&& after.entries == provider.entries
            &&& after.documents == provider.documents
            &&& after.kv == provider.kv
            &&& after.relations == provider.relations
            &&& after.tool_rules == provider.tool_rules
            &&& after.goals == provider.goals
            &&& after.recall_result == provider.recall_result
            &&& after.namespace_hits == provider.namespace_hits
            &&& after.namespace_summaries == provider.namespace_summaries
        }),
{
    assert(provider.logged(call@).calls.drop_last() =~= provider.calls);
}

/// An ingestion of several items logs the first of them, with its content and provenance;
/// one of a conversation logs every message, in order.
pub proof fn law_ingestions_are_logged(method: Seq<char>, items: Seq<IngestItem>, i: int)
    requires
        0 <= i < items.len(),
    ensures
        ({
            let first = crate::provider::tree::first_item_call(method, items);
            let messages = crate::provider::families::message_calls(items);
            &&& first.method == method
            &&& first.content == Some(items[0].content@)
            &&& first.taint == Some(items[0].taint)
            &&& messages.len() == items.len()
            &&& messages[i].content == Some(items[i].content@)
            &&& messages[i].taint == Some(items[i].taint)
            &&& messages[i].method == "conversation_ingest.ingest_conversation"@
        }),
{
}

/// What the provider keeps is seen as it is kept.
pub proof fn law_entries_are_seen_as_kept(entry: MemoryEntry)
    ensures
        entry@.id == entry.id@,
        entry@.key == entry.key@,
        entry@.content == entry.content@,
        entry.namespace is Some ==> entry@.namespace == Some(entry.namespace->0@),
        entry.namespace is None ==> entry@.namespace is None,
        entry@.category == entry.category@,
        entry@.timestamp == entry.timestamp@,
        entry.session_id is Some ==> entry@.session_id == Some(entry.session_id->0@),
        entry.session_id is None ==> entry@.session_id is None,
        entry@.score == entry.score,
        entry@.taint == entry.taint,
{
}

/// Two categories are seen as the same exactly where they are.
pub proof fn law_categories_are_told_apart(a: MemoryCategory, b: MemoryCategory)
    ensures
        a@ == b@ <==> {
            ||| a is Core && b is Core
            ||| a is Daily && b is Daily
            ||| a is Conversation && b is Conversation
            ||| a is Custom && b is Custom && a->Custom_0@ == b->Custom_0@
        },
{
}

/// The rows of the graph, the rules, the goals and what is known of namespaces are seen as
/// they are kept.
pub proof fn law_rows_are_seen_as_kept(
    kv: MemoryKvRecord,
    relation: GraphRelationRecord,
    rule: ToolMemoryRule,
    goal: GoalItem,
    summary: NamespaceSummary,
    hit: RetrievalHit,
)
    ensures
        kv@.key == kv.key@,
        kv@.value == kv.value@,
        kv@.updated_at == kv.updated_at,
        kv.namespace is Some ==> kv@.namespace == Some(kv.namespace->0@),
        kv.namespace is None ==> kv@.namespace is None,
        relation@.subject == relation.subject@,
        relation@.predicate == relation.predicate@,
        relation@.object == relation.object@,
        relation@.attrs == relation.attrs@,
        relation@.updated_at == relation.updated_at,
        relation@.evidence_count == relation.evidence_count,
        relation@.order_index == relation.order_index,
        relation@.document_ids == crate::text::texts(relation.document_ids@),
        relation@.chunk_ids == crate::text::texts(relation.chunk_ids@),
        relation.namespace is Some ==> relation@.namespace == Some(relation.namespace->0@),
        relation.namespace is None ==> relation@.namespace is None,
        rule@.id == rule.id@,
        rule@.tool_name == rule.tool_name@,
        rule@.rule == rule.rule@,
        rule@.priority == rule.priority,
        rule@.source == rule.source,
        rule@.tags == crate::text::texts(rule.tags@),
        rule@.created_at == rule.created_at@,
        rule@.updated_at == rule.updated_at@,
        goal@.id == goal.id@,
        goal@.text == goal.text@,
        summary@.namespace == summary.namespace@,
        summary@.count == summary.count,
        hit@.node_id == hit.node_id@,
        hit@.tree_scope == hit.tree_scope@,
        hit@.content == hit.content@,
        hit@.score == hit.score,
{
}

/// A family is advertised once.
pub proof fn law_families_are_advertised_once(i: int, j: int)
    requires
        0 <= i < j < crate::provider::families::every_capability().len(),
    ensures
        crate::provider::families::every_capability()[i]
            != crate::provider::families::every_capability()[j],
        crate::provider::families::every_capability().len() == 26,
{
}

/// The scored hits of a namespace are the set ones of that namespace, from the first on, as
/// many as the limit allows.
pub proof fn law_scored_hits_are_those_of_the_namespace(
    hits: Seq<crate::provider::types::HitView>,
    namespace: Seq<char>,
    limit: usize,
)
    ensures
        ({
            let inside = hits.filter(
                |hit: crate::provider::types::HitView| hit.namespace == namespace,
            );
            let found = crate::provider::graph::scored_hits(hits, namespace, limit);
            &&& found.is_prefix_of(inside)
            &&& found.len() <= limit
            &&& found.len() < limit ==> found == inside
            &&& forall|i: int|
                0 <= i < found.len() ==> (#[trigger] found[i]).namespace == namespace
                    && hits.contains(found[i])
        }),
{
    broadcast use vstd::seq_lib::group_filter_ensures;

    let keep = |hit: crate::provider::types::HitView| hit.namespace == namespace;
    let inside = hits.filter(keep);
    let found = crate::provider::graph::scored_hits(hits, namespace, limit);
    assert(inside.subrange(0, found.len() as int) =~= found);
    assert forall|i: int| 0 <= i < found.len() implies (#[trigger] found[i]).namespace == namespace
        && hits.contains(found[i]) by {
        assert(found[i] == inside[i]);
        assert(keep(inside[i]));
        assert(inside.contains(inside[i]));
        hits.lemma_filter_contains_rev(keep, inside[i]);
    }
}

/// The kinds of entities that can be asked for.
pub proof fn law_known_kinds(kind: Seq<char>)
    ensures
        crate::provider::graph::is_known_kind(kind) <==> seq![
            "artifact"@,
            "datetime"@,
            "email"@,
            "event"@,
            "handle"@,
            "hashtag"@,
            "location"@,
            "misc"@,
            "organization"@,
            "person"@,
            "product"@,
            "quantity"@,
            "technology"@,
            "topic"@,
            "url"@,
        ].contains(kind),
{
    let all = seq![
        "artifact"@,
        "datetime"@,
        "email"@,
        "event"@,
        "handle"@,
        "hashtag"@,
        "location"@,
        "misc"@,
        "organization"@,
        "person"@,
        "product"@,
        "quantity"@,
        "technology"@,
        "topic"@,
        "url"@,
    ];
    assert(all[0] == "artifact"@ && all[1] == "datetime"@ && all[2] == "email"@ && all[3]
        == "event"@ && all[4] == "handle"@ && all[5] == "hashtag"@ && all[6] == "location"@
        && all[7] == "misc"@ && all[8] == "organization"@ && all[9] == "person"@ && all[10]
        == "product"@ && all[11] == "quantity"@ && all[12] == "technology"@ && all[13] == "topic"@
        && all[14] == "url"@);
}

} // verus!
