//! The document tier: whole documents addressed by namespace and key.

use vstd::prelude::*;

use crate::documents::read::{DeletedDocument, StoredMemoryDocument};
use crate::documents::{MemoryTaint, NamespaceDocumentInput};
use crate::json::{add_text, add_value, Json};
use crate::outside::now_millis;
use crate::provider::RecordingProvider;
use crate::provider::types::{
    Call, Capability, MemoryError, MemoryItemKind, NamespaceMemoryHit, NamespaceRetrievalContext,
    RetrievalScoreBreakdown,
};
use crate::rows::{find_row, pick_rows, put_row, sort_rows, Row};
use crate::text::{comes_no_later, join_texts, joined3, place_text, same_text};

verus! {

/// The document tier of a provider. Reusing a key replaces the document.
pub trait MemoryDocuments: Sized {
    /// Upserts a document, and returns its id.
    fn put_document(&mut self, input: NamespaceDocumentInput) -> Result<String, MemoryError>;

    /// The document that a namespace holds under a key.
    fn get_document(&mut self, namespace: &str, key: &str) -> Result<
        Option<StoredMemoryDocument>,
        MemoryError,
    >;

    /// Lists documents, of one namespace or of all: `{ "count": N, "documents": [...] }`,
    /// the newest first.
    fn list_documents(&mut self, namespace: Option<&str>) -> Result<Json, MemoryError>;

    /// Every namespace that holds documents.
    fn list_namespaces(&mut self) -> Result<Vec<String>, MemoryError>;

    /// Deletes a document by its id:
    /// `{ "deleted": bool, "namespace": ..., "documentId": ... }`.
    fn delete_document(&mut self, namespace: &str, document_id: &str) -> Result<
        Json,
        MemoryError,
    >;

    /// Deletes everything of a namespace.
    fn clear_namespace(&mut self, namespace: &str) -> Result<(), MemoryError>;

    /// Queries the documents of a namespace.
    fn query_documents(&mut self, namespace: &str, query: &str, limit: usize) -> Result<
        NamespaceRetrievalContext,
        MemoryError,
    >;

    /// Recalls from a namespace without a query. A provider need not serve it.
    fn recall_documents(&mut self, _namespace: &str, _limit: usize) -> (r: Result<
        NamespaceRetrievalContext,
        MemoryError,
    >)
        default_ensures
            r == Err::<NamespaceRetrievalContext, MemoryError>(
                MemoryError::Unsupported(Capability::Documents),
            ),
            *final(self) == *old(self),
    {
        Err(MemoryError::unsupported(Capability::Documents))
    }
}

/// Whether a document is the one that a namespace holds under a key.
pub open spec fn is_document(
    d: crate::documents::read::StoredView,
    namespace: Seq<char>,
    key: Seq<char>,
) -> bool {
    d.namespace == namespace && d.key == key
}

/// The position of the document that a namespace holds under a key.
pub open spec fn document_at(
    documents: Seq<crate::documents::read::StoredView>,
    namespace: Seq<char>,
    key: Seq<char>,
) -> int {
    crate::rows::first_where(
        documents,
        |d: crate::documents::read::StoredView| is_document(d, namespace, key),
    )
}

/// The position of the document with an id, within a namespace.
pub open spec fn document_by_id(
    documents: Seq<crate::documents::read::StoredView>,
    namespace: Seq<char>,
    document_id: Seq<char>,
) -> int {
    crate::rows::first_where(
        documents,
        |d: crate::documents::read::StoredView|
            d.namespace == namespace && d.document_id == document_id,
    )
}

/// The id of a document: the requested one, or a fixed one.
pub open spec fn chosen_id(requested: Option<Seq<char>>) -> Seq<char> {
    match requested {
        Some(id) => id,
        None => "doc"@,
    }
}

/// The document that is kept for an input at a time.
pub open spec fn kept_document(
    input: crate::documents::write::InputView,
    now: i64,
) -> crate::documents::read::StoredView {
    crate::documents::read::StoredView {
        document_id: chosen_id(input.document_id),
        namespace: input.namespace,
        key: input.key,
        title: input.title,
        content: input.content,
        source_type: input.source_type,
        priority: input.priority,
        tags: input.tags,
        metadata: input.metadata,
        category: input.category,
        session_id: input.session_id,
        created_at: now,
        updated_at: now,
        markdown_rel_path: Seq::empty(),
        taint: input.taint,
    }
}

/// Documents with one more, in place of the one with its namespace and key.
pub open spec fn with_document(
    documents: Seq<crate::documents::read::StoredView>,
    document: crate::documents::read::StoredView,
) -> Seq<crate::documents::read::StoredView> {
    crate::rows::put_at(
        documents,
        document_at(documents, document.namespace, document.key),
        document,
    )
}

/// The provider after a document has been put at a time.
pub open spec fn after_put(
    provider: crate::provider::ProviderView,
    input: crate::documents::write::InputView,
    now: i64,
) -> crate::provider::ProviderView {
    crate::provider::ProviderView {
        documents: with_document(provider.documents, kept_document(input, now)),
        ..provider.logged(
            crate::provider::tainted_call(
                "documents.put_document"@,
                Some(input.content),
                Some(input.taint),
            ),
        )
    }
}

/// The documents of a namespace, or all of them.
pub open spec fn documents_in(
    documents: Seq<crate::documents::read::StoredView>,
    namespace: Option<Seq<char>>,
) -> Seq<crate::documents::read::StoredView> {
    documents.filter(
        |d: crate::documents::read::StoredView|
            namespace is Some ==> d.namespace == namespace->0,
    )
}

/// The order of a listing: the newest first, and by key within one time.
pub open spec fn listing_order() -> spec_fn(
    crate::documents::read::StoredView,
    crate::documents::read::StoredView,
) -> bool {
    |a: crate::documents::read::StoredView, b: crate::documents::read::StoredView|
        a.updated_at > b.updated_at || (a.updated_at == b.updated_at && crate::text::text_le(
            a.key,
            b.key,
        ))
}

/// The order of a recall: the newest first, by priority within one time, and by key
/// within one priority.
pub open spec fn recall_order() -> spec_fn(
    crate::documents::read::StoredView,
    crate::documents::read::StoredView,
) -> bool {
    |a: crate::documents::read::StoredView, b: crate::documents::read::StoredView|
        a.updated_at > b.updated_at || (a.updated_at == b.updated_at && if a.priority
            == b.priority {
            crate::text::text_le(a.key, b.key)
        } else {
            crate::text::text_le(a.priority, b.priority)
        })
}

/// A document of a listing. It carries no content.
pub open spec fn document_json(
    d: crate::documents::read::StoredView,
) -> crate::json::JsonView {
    crate::json::JsonView::Object(
        seq![
            ("documentId"@, crate::json::JsonView::Text(d.document_id)),
            ("namespace"@, crate::json::JsonView::Text(d.namespace)),
            ("key"@, crate::json::JsonView::Text(d.key)),
            ("title"@, crate::json::JsonView::Text(d.title)),
            ("sourceType"@, crate::json::JsonView::Text(d.source_type)),
            ("priority"@, crate::json::JsonView::Text(d.priority)),
            ("createdAt"@, crate::json::JsonView::Millis(d.created_at)),
            ("updatedAt"@, crate::json::JsonView::Millis(d.updated_at)),
            ("taint"@, crate::json::JsonView::Text(d.taint.db_text())),
        ],
    )
}

/// A listing of documents: how many there are, and the documents in order.
pub open spec fn documents_json(
    documents: Seq<crate::documents::read::StoredView>,
) -> crate::json::JsonView {
    crate::json::JsonView::Object(
        seq![
            ("count"@, crate::json::JsonView::Number(documents.len() as u64)),
            (
                "documents"@,
                crate::json::JsonView::Array(
                    crate::rows::sorted_by(documents, listing_order()).map_values(
                        |d: crate::documents::read::StoredView| document_json(d),
                    ),
                ),
            ),
        ],
    )
}

/// The outcome of a deletion on the wire.
pub open spec fn deletion_json(
    deleted: bool,
    namespace: Seq<char>,
    document_id: Seq<char>,
) -> crate::json::JsonView {
    crate::json::JsonView::Object(
        seq![
            ("deleted"@, crate::json::JsonView::Bool(deleted)),
            ("namespace"@, crate::json::JsonView::Text(namespace)),
            ("documentId"@, crate::json::JsonView::Text(document_id)),
        ],
    )
}

/// The namespaces of some documents, ascending, each once.
pub open spec fn document_namespaces(
    documents: Seq<crate::documents::read::StoredView>,
) -> Seq<Seq<char>>
    decreases documents.len(),
{
    if documents.len() == 0 {
        Seq::empty()
    } else {
        crate::text::placed(
            document_namespaces(documents.drop_last()),
            documents.last().namespace,
        )
    }
}

/// The hit that a document is recalled as. It carries no score: nothing is ranked but by
/// age.
pub open spec fn document_hit(
    d: crate::documents::read::StoredView,
) -> crate::provider::types::HitView {
    crate::provider::types::HitView {
        id: d.document_id,
        kind: MemoryItemKind::Document,
        namespace: d.namespace,
        key: d.key,
        title: Some(d.title),
        content: d.content,
        category: d.category,
        source_type: Some(d.source_type),
        updated_at: d.updated_at,
        score: 0,
        score_breakdown: RetrievalScoreBreakdown::zero(),
        document_id: Some(d.document_id),
        chunk_id: None,
        supporting_relations: Seq::empty(),
        taint: d.taint,
    }
}

/// The documents that a recall of a namespace picks.
pub open spec fn recalled_documents(
    documents: Seq<crate::documents::read::StoredView>,
    namespace: Seq<char>,
    limit: usize,
) -> Seq<crate::documents::read::StoredView> {
    crate::rows::at_most(
        crate::rows::sorted_by(documents_in(documents, Some(namespace)), recall_order()),
        limit,
    )
}

/// What a recall of a namespace answers: the hits, and the text assembled from them.
pub open spec fn recall_context(
    documents: Seq<crate::documents::read::StoredView>,
    namespace: Seq<char>,
    limit: usize,
) -> crate::provider::types::ContextView {
    let picked = recalled_documents(documents, namespace, limit);
    crate::provider::types::ContextView {
        namespace,
        query: None,
        context_text: crate::text::join(
            picked.map_values(
                |d: crate::documents::read::StoredView| d.title + "\n"@ + d.content,
            ),
            "\n\n"@,
        ),
        hits: picked.map_values(|d: crate::documents::read::StoredView| document_hit(d)),
    }
}

fn listed_document(d: &StoredMemoryDocument) -> (r: Json)
    ensures
        r@ == document_json(d@),
{
    let mut fields: Vec<(String, Json)> = Vec::new();
    assert(crate::json::field_views(fields@) =~= Seq::empty());
    add_text(&mut fields, "documentId", d.document_id.as_str());
    add_text(&mut fields, "namespace", d.namespace.as_str());
    add_text(&mut fields, "key", d.key.as_str());
    add_text(&mut fields, "title", d.title.as_str());
    add_text(&mut fields, "sourceType", d.source_type.as_str());
    add_text(&mut fields, "priority", d.priority.as_str());
    add_value(&mut fields, "createdAt", Json::Millis(d.created_at));
    add_value(&mut fields, "updatedAt", Json::Millis(d.updated_at));
    add_text(&mut fields, "taint", d.taint.as_db_str());
    proof {
        crate::json::lemma_object_view(fields);
        assert(crate::json::field_views(fields@) =~= document_json(d@)->Object_0);
    }
    Json::Object(fields)
}

fn hit_of(d: &StoredMemoryDocument) -> (r: NamespaceMemoryHit)
    ensures
        r@ == document_hit(d@),
{
    let r = NamespaceMemoryHit {
        id: d.document_id.clone(),
        kind: MemoryItemKind::Document,
        namespace: d.namespace.clone(),
        key: d.key.clone(),
        title: Some(d.title.clone()),
        content: d.content.clone(),
        category: d.category.clone(),
        source_type: Some(d.source_type.clone()),
        updated_at: d.updated_at,
        score: 0,
        score_breakdown: RetrievalScoreBreakdown::default(),
        document_id: Some(d.document_id.clone()),
        chunk_id: None,
        supporting_relations: Vec::new(),
        taint: d.taint,
    };
    assert(r@.supporting_relations =~= Seq::empty());
    r
}

impl RecordingProvider {
    fn pick_documents(&self, namespace: Option<&str>) -> (r: Vec<StoredMemoryDocument>)
        ensures
            crate::rows::row_views(r@) == documents_in(
                self@.documents,
                crate::documents::scope::opt_str(namespace),
            ),
    {
        let ghost scope = crate::documents::scope::opt_str(namespace);
        let ghost keep = |d: crate::documents::read::StoredView|
            scope is Some ==> d.namespace == scope->0;
        let keeps = |d: &StoredMemoryDocument| -> (b: bool)
            ensures
                b == keep(d@),
        {
            match namespace {
                Some(namespace) => same_text(d.namespace.as_str(), namespace),
                None => true,
            }
        };
        pick_rows(&self.documents, keeps, Ghost(keep))
    }

    /// Puts a document at a given time, and returns its id.
    pub fn put_document_at(&mut self, input: NamespaceDocumentInput, now: i64) -> (r: String)
        ensures
            r@ == chosen_id(input@.document_id),
            final(self)@ == after_put(old(self)@, input@, now),
            old(self)@.wf() ==> final(self)@.wf(),
    {
        proof {
            if old(self)@.wf() {
                crate::rows::lemma_put_stays_apart(
                    self@.documents,
                    crate::provider::laws::same_document(),
                    kept_document(input@, now),
                    |d: crate::documents::read::StoredView| is_document(d, input@.namespace, input@.key),
                );
            }
        }
        self.record(
            Call {
                method: "documents.put_document".to_owned(),
                content: Some(input.content.clone()),
                taint: Some(input.taint),
                scoped: None,
            },
        );
        let document_id = match input.document_id {
            Some(id) => id,
            None => "doc".to_owned(),
        };
        let ghost documents = self@.documents;
        let fits = |d: &StoredMemoryDocument| -> (b: bool)
            ensures
                b == is_document(d@, input.namespace@, input.key@),
        {
            same_text(d.namespace.as_str(), input.namespace.as_str()) && same_text(
                d.key.as_str(),
                input.key.as_str(),
            )
        };
        let at = find_row(
            &self.documents,
            fits,
            Ghost(
                |d: crate::documents::read::StoredView|
                    is_document(d, input.namespace@, input.key@),
            ),
        );
        let stored = StoredMemoryDocument {
            document_id: document_id.clone(),
            namespace: input.namespace.clone(),
            key: input.key.clone(),
            title: input.title,
            content: input.content,
            source_type: input.source_type,
            priority: input.priority,
            tags: input.tags,
            metadata: input.metadata,
            category: input.category,
            session_id: input.session_id,
            created_at: now,
            updated_at: now,
            markdown_rel_path: String::new(),
            taint: input.taint,
        };
        assert(stored@.markdown_rel_path =~= Seq::empty());
        put_row(&mut self.documents, at, stored);
        document_id
    }
}

impl MemoryDocuments for RecordingProvider {
    fn put_document(&mut self, input: NamespaceDocumentInput) -> (r: Result<String, MemoryError>)
        ensures
            r is Ok,
            r->Ok_0@ == chosen_id(input@.document_id),
            exists|now: i64| final(self)@ == #[trigger] after_put(old(self)@, input@, now),
            old(self)@.wf() ==> final(self)@.wf(),
    {
        let now: i64 = now_millis();
        Ok(self.put_document_at(input, now))
    }

    fn get_document(&mut self, namespace: &str, key: &str) -> (r: Result<
        Option<StoredMemoryDocument>,
        MemoryError,
    >)
        ensures
            final(self)@ == old(self)@.logged(
                crate::provider::plain_call("documents.get_document"@),
            ),
            r is Ok,
            ({
                let documents = old(self)@.documents;
                let at = document_at(documents, namespace@, key@);
                match r->Ok_0 {
                    Some(document) => at < documents.len() && document@ == documents[at],
                    None => at == documents.len(),
                }
            }),
    {
        self.record(Call::plain("documents.get_document"));
        let fits = |d: &StoredMemoryDocument| -> (b: bool)
            ensures
                b == is_document(d@, namespace@, key@),
        {
            same_text(d.namespace.as_str(), namespace) && same_text(d.key.as_str(), key)
        };
        match find_row(
            &self.documents,
            fits,
            Ghost(|d: crate::documents::read::StoredView| is_document(d, namespace@, key@)),
        ) {
            Some(i) => Ok(Some(self.documents[i].copied())),
            None => Ok(None),
        }
    }

    fn list_documents(&mut self, namespace: Option<&str>) -> (r: Result<Json, MemoryError>)
        ensures
            final(self)@ == old(self)@.logged(
                crate::provider::plain_call("documents.list_documents"@),
            ),
            r is Ok,
            r->Ok_0@ == documents_json(
                documents_in(
                    old(self)@.documents,
                    crate::documents::scope::opt_str(namespace),
                ),
            ),
    {
        self.record(Call::plain("documents.list_documents"));
        let rows = self.pick_documents(namespace);
        let ghost picked = crate::rows::row_views(rows@);
        let precedes = |a: &StoredMemoryDocument, b: &StoredMemoryDocument| -> (r: bool)
            ensures
                r == listing_order()(a@, b@),
        {
            a.updated_at > b.updated_at || (a.updated_at == b.updated_at && comes_no_later(
                a.key.as_str(),
                b.key.as_str(),
            ))
        };
        let rows = sort_rows(rows, precedes, Ghost(listing_order()));
        let ghost sorted = crate::rows::row_views(rows@);
        proof {
            crate::rows::lemma_sorted_len(picked, listing_order());
        }
        let mut documents: Vec<Json> = Vec::new();
        let mut i: usize = 0;
        while i < rows.len()
            invariant
                i <= rows.len(),
                documents.len() == i,
                sorted == crate::rows::row_views(rows@),
                forall|j: int|
                    0 <= j < i ==> (#[trigger] documents@[j])@ == document_json(sorted[j]),
            decreases rows.len() - i,
        {
            documents.push(listed_document(&rows[i]));
            i = i + 1;
        }
        let count: u64 = documents.len() as u64;
        let mut fields: Vec<(String, Json)> = Vec::new();
        proof {
            crate::json::lemma_array_view(documents);
            assert(documents@.map_values(|j: Json| j@) =~= sorted.map_values(
                |d: crate::documents::read::StoredView| document_json(d),
            ));
            assert(crate::json::field_views(fields@) =~= Seq::empty());
        }
        add_value(&mut fields, "count", Json::Number(count));
        add_value(&mut fields, "documents", Json::Array(documents));
        proof {
            crate::json::lemma_object_view(fields);
            assert(crate::json::field_views(fields@) =~= documents_json(picked)->Object_0);
        }
        Ok(Json::Object(fields))
    }

    fn list_namespaces(&mut self) -> (r: Result<Vec<String>, MemoryError>)
        ensures
            final(self)@ == old(self)@.logged(
                crate::provider::plain_call("documents.list_namespaces"@),
            ),
            r is Ok,
            crate::text::texts(r->Ok_0@) == document_namespaces(old(self)@.documents),
    {
        self.record(Call::plain("documents.list_namespaces"));
        let ghost documents = self@.documents;
        let mut names: Vec<String> = Vec::new();
        let mut i: usize = 0;
        assert(documents.take(0) =~= Seq::empty());
        assert(crate::text::texts(names@) =~= Seq::empty());
        while i < self.documents.len()
            invariant
                i <= self.documents.len(),
                documents == crate::rows::row_views(self.documents@),
                crate::text::texts(names@) == document_namespaces(documents.take(i as int)),
            decreases self.documents.len() - i,
        {
            assert(documents.take(i as int + 1).drop_last() =~= documents.take(i as int));
            assert(documents[i as int] == self.documents@[i as int]@);
            place_text(&mut names, self.documents[i].namespace.as_str());
            i = i + 1;
        }
        assert(documents.take(i as int) =~= documents);
        Ok(names)
    }

    fn delete_document(&mut self, namespace: &str, document_id: &str) -> (r: Result<
        Json,
        MemoryError,
    >)
        ensures
            ({
                let documents = old(self)@.documents;
                let at = document_by_id(documents, namespace@, document_id@);
                &&& r is Ok
                &&& r->Ok_0@ == deletion_json(at < documents.len(), namespace@, document_id@)
                &&& final(self)@ == (crate::provider::ProviderView {
                    documents: if at < documents.len() {
                        documents.remove(at)
                    } else {
                        documents
                    },
                    ..old(self)@.logged(
                        crate::provider::plain_call("documents.delete_document"@),
                    )
                })
            }),
            old(self)@.wf() ==> final(self)@.wf(),
    {
        proof {
            if old(self)@.wf() {
                let at = document_by_id(self@.documents, namespace@, document_id@);
                crate::rows::lemma_first_where(
                    self@.documents,
                    |d: crate::documents::read::StoredView|
                        d.namespace == namespace@ && d.document_id == document_id@,
                );
                if at < self@.documents.len() {
                    crate::rows::lemma_removed_stays_apart(
                        self@.documents,
                        crate::provider::laws::same_document(),
                        at,
                    );
                }
            }
        }
        self.record(Call::plain("documents.delete_document"));
        let ghost documents = self@.documents;
        let fits = |d: &StoredMemoryDocument| -> (b: bool)
            ensures
                b == (d@.namespace == namespace@ && d@.document_id == document_id@),
        {
            same_text(d.namespace.as_str(), namespace) && same_text(
                d.document_id.as_str(),
                document_id,
            )
        };
        let victim = find_row(
            &self.documents,
            fits,
            Ghost(
                |d: crate::documents::read::StoredView|
                    d.namespace == namespace@ && d.document_id == document_id@,
            ),
        );
        let deleted = match victim {
            Some(i) => {
                self.documents.remove(i);
                assert(self@.documents =~= documents.remove(i as int));
                true
            },
            None => false,
        };
        let outcome = DeletedDocument {
            deleted,
            namespace: namespace.to_owned(),
            document_id: document_id.to_owned(),
            sidecar: None,
        };
        Ok(outcome.to_json())
    }

    fn clear_namespace(&mut self, namespace: &str) -> (r: Result<(), MemoryError>)
        ensures
            r is Ok,
            final(self)@ == (crate::provider::ProviderView {
                documents: old(self)@.documents.filter(
                    |d: crate::documents::read::StoredView| d.namespace != namespace@,
                ),
                ..old(self)@.logged(crate::provider::plain_call("documents.clear_namespace"@))
            }),
            old(self)@.wf() ==> final(self)@.wf(),
    {
        proof {
            if old(self)@.wf() {
                crate::rows::lemma_filtered_stays_apart(
                    self@.documents,
                    crate::provider::laws::same_document(),
                    |d: crate::documents::read::StoredView| d.namespace != namespace@,
                );
            }
        }
        self.record(Call::plain("documents.clear_namespace"));
        let keeps = |d: &StoredMemoryDocument| -> (b: bool)
            ensures
                b == (d@.namespace != namespace@),
        {
            !same_text(d.namespace.as_str(), namespace)
        };
        self.documents =
        pick_rows(
            &self.documents,
            keeps,
            Ghost(|d: crate::documents::read::StoredView| d.namespace != namespace@),
        );
        Ok(())
    }

    fn query_documents(&mut self, namespace: &str, query: &str, _limit: usize) -> (r: Result<
        NamespaceRetrievalContext,
        MemoryError,
    >)
        ensures
            final(self)@ == old(self)@.logged(
                crate::provider::content_call("documents.query_documents"@, query@),
            ),
            r is Ok,
            r->Ok_0@ == (crate::provider::types::ContextView {
                namespace: namespace@,
                query: Some(query@),
                context_text: Seq::empty(),
                hits: Seq::empty(),
            }),
    {
        self.record(Call::with_content("documents.query_documents", query));
        let context = NamespaceRetrievalContext {
            namespace: namespace.to_owned(),
            query: Some(query.to_owned()),
            context_text: String::new(),
            hits: Vec::new(),
        };
        assert(context@.context_text =~= Seq::empty());
        assert(context@.hits =~= Seq::empty());
        Ok(context)
    }

    fn recall_documents(&mut self, namespace: &str, limit: usize) -> (r: Result<
        NamespaceRetrievalContext,
        MemoryError,
    >)
        ensures
            final(self)@ == old(self)@.logged(
                crate::provider::plain_call("documents.recall_documents"@),
            ),
            r is Ok,
            r->Ok_0@ == recall_context(old(self)@.documents, namespace@, limit),
    {
        self.record(Call::plain("documents.recall_documents"));
        let rows = self.pick_documents(Some(namespace));
        let precedes = |a: &StoredMemoryDocument, b: &StoredMemoryDocument| -> (r: bool)
            ensures
                r == recall_order()(a@, b@),
        {
            a.updated_at > b.updated_at || (a.updated_at == b.updated_at && if same_text(
                a.priority.as_str(),
                b.priority.as_str(),
            ) {
                comes_no_later(a.key.as_str(), b.key.as_str())
            } else {
                comes_no_later(a.priority.as_str(), b.priority.as_str())
            })
        };
        let mut rows = sort_rows(rows, precedes, Ghost(recall_order()));
        let ghost sorted = crate::rows::row_views(rows@);
        rows.truncate(limit);
        let ghost picked = recalled_documents(self@.documents, namespace@, limit);
        assert(crate::rows::row_views(rows@) =~= picked);
        let mut hits: Vec<NamespaceMemoryHit> = Vec::new();
        let mut parts: Vec<String> = Vec::new();
        let mut i: usize = 0;
        while i < rows.len()
            invariant
                i <= rows.len(),
                hits.len() == i,
                parts.len() == i,
                picked == crate::rows::row_views(rows@),
                forall|j: int| 0 <= j < i ==> (#[trigger] hits@[j])@ == document_hit(picked[j]),
                forall|j: int|
                    0 <= j < i ==> (#[trigger] parts@[j])@ == picked[j].title + "\n"@
                        + picked[j].content,
            decreases rows.len() - i,
        {
            assert(picked[i as int] == rows@[i as int]@);
            hits.push(hit_of(&rows[i]));
            parts.push(joined3(rows[i].title.as_str(), "\n", rows[i].content.as_str()));
            i = i + 1;
        }
        let context = NamespaceRetrievalContext {
            namespace: namespace.to_owned(),
            query: None,
            context_text: join_texts(&parts, "\n\n"),
            hits,
        };
        assert(context@.hits =~= picked.map_values(
            |d: crate::documents::read::StoredView| document_hit(d),
        ));
        assert(crate::text::texts(parts@) =~= picked.map_values(
            |d: crate::documents::read::StoredView| d.title + "\n"@ + d.content,
        ));
        Ok(context)
    }
}

/// A document with some content and provenance, for tests.
pub fn document(content: &str, taint: MemoryTaint) -> (r: NamespaceDocumentInput)
    ensures
        r@ == (crate::documents::write::InputView {
            namespace: "ns"@,
            logical_namespace: "ns"@,
            key: "k"@,
            title: "t"@,
            content: content@,
            source_type: "chat"@,
            priority: "normal"@,
            tags: Seq::empty(),
            metadata: "null"@,
            category: "core"@,
            session_id: None,
            document_id: None,
            taint,
        }),
{
    let r = NamespaceDocumentInput {
        namespace: "ns".to_owned(),
        logical_namespace: "ns".to_owned(),
        key: "k".to_owned(),
        title: "t".to_owned(),
        content: content.to_owned(),
        source_type: "chat".to_owned(),
        priority: "normal".to_owned(),
        tags: Vec::new(),
        metadata: "null".to_owned(),
        category: "core".to_owned(),
        session_id: None,
        document_id: None,
        taint,
    };
    assert(r@.tags =~= Seq::empty());
    r
}

/// A hit of which only the vector component is set, for tests. The similarity is a
/// double-precision number by its bit pattern.
pub fn namespace_hit(namespace: &str, key: &str, content: &str, vector_similarity: u64) -> (r:
    NamespaceMemoryHit)
    ensures
        r@ == (crate::provider::types::HitView {
            id: namespace@ + "/"@ + key@,
            kind: MemoryItemKind::Kv,
            namespace: namespace@,
            key: key@,
            title: None,
            content: content@,
            category: "core"@,
            source_type: None,
            updated_at: 0,
            score: vector_similarity,
            score_breakdown: (RetrievalScoreBreakdown {
                vector_similarity,
                ..RetrievalScoreBreakdown::zero()
            }),
            document_id: None,
            chunk_id: None,
            supporting_relations: Seq::empty(),
            taint: MemoryTaint::Internal,
        }),
{
    let mut score_breakdown = RetrievalScoreBreakdown::default();
    score_breakdown.vector_similarity = vector_similarity;
    let r = NamespaceMemoryHit {
        id: joined3(namespace, "/", key),
        kind: MemoryItemKind::Kv,
        namespace: namespace.to_owned(),
        key: key.to_owned(),
        title: None,
        content: content.to_owned(),
        category: "core".to_owned(),
        source_type: None,
        updated_at: 0,
        score: vector_similarity,
        score_breakdown,
        document_id: None,
        chunk_id: None,
        supporting_relations: Vec::new(),
        taint: MemoryTaint::Internal,
    };
    assert(r@.supporting_relations =~= Seq::empty());
    r
}

} // verus!
