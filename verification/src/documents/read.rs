//! Reading, listing, clearing and deleting documents.

use vstd::prelude::*;

use crate::documents::scope::{drop_scope, Scoped};
use crate::documents::{ChunkRow, DocumentRow, GraphRow, KvRow, MemoryTaint, UnifiedMemory};
use crate::json::{add_text, add_value, Json};
use crate::outside::{parse_string_array, parses_as_json};
use crate::text::{copy_opt, place_text, same_text, trim};

verus! {

/// A document as it is read back.
#[derive(Clone, Debug)]
pub struct StoredMemoryDocument {
    pub document_id: String,
    pub namespace: String,
    pub key: String,
    pub title: String,
    pub content: String,
    pub source_type: String,
    pub priority: String,
    pub tags: Vec<String>,
    /// JSON text.
    pub metadata: String,
    pub category: String,
    pub session_id: Option<String>,
    pub created_at: i64,
    pub updated_at: i64,
    pub markdown_rel_path: String,
    pub taint: MemoryTaint,
}

/// A stored document, as texts.
pub ghost struct StoredView {
    pub document_id: Seq<char>,
    pub namespace: Seq<char>,
    pub key: Seq<char>,
    pub title: Seq<char>,
    pub content: Seq<char>,
    pub source_type: Seq<char>,
    pub priority: Seq<char>,
    pub tags: Seq<Seq<char>>,
    pub metadata: Seq<char>,
    pub category: Seq<char>,
    pub session_id: Option<Seq<char>>,
    pub created_at: i64,
    pub updated_at: i64,
    pub markdown_rel_path: Seq<char>,
    pub taint: MemoryTaint,
}

impl View for StoredMemoryDocument {
    type V = StoredView;

    open spec fn view(&self) -> StoredView {
        StoredView {
            document_id: self.document_id@,
            namespace: self.namespace@,
            key: self.key@,
            title: self.title@,
            content: self.content@,
            source_type: self.source_type@,
            priority: self.priority@,
            tags: crate::text::texts(self.tags@),
            metadata: self.metadata@,
            category: self.category@,
            session_id: crate::text::opt_text(self.session_id),
            created_at: self.created_at,
            updated_at: self.updated_at,
            markdown_rel_path: self.markdown_rel_path@,
            taint: self.taint,
        }
    }
}

/// What deleting a document did.
#[derive(Debug)]
pub struct DeletedDocument {
    /// Whether there was such a row.
    pub deleted: bool,
    pub namespace: String,
    pub document_id: String,
    /// The sidecar file of the row, to be removed with it.
    pub sidecar: Option<String>,
}

/// The tags that a column stands for; an unreadable column stands for none.
pub open spec fn tags_of(tags_json: Seq<char>) -> Seq<Seq<char>> {
    match crate::outside::json_string_array(tags_json) {
        Some(tags) => tags,
        None => Seq::empty(),
    }
}

/// The metadata that a column stands for; an unreadable column stands for an empty
/// object.
pub open spec fn metadata_of(metadata_json: Seq<char>) -> Seq<char> {
    if crate::outside::is_json(metadata_json) {
        metadata_json
    } else {
        "{}"@
    }
}

/// The document that a row stands for.
pub open spec fn stored_of(row: crate::documents::RowView) -> StoredView {
    StoredView {
        document_id: row.document_id,
        namespace: row.namespace,
        key: row.key,
        title: row.body.title,
        content: row.body.content,
        source_type: row.body.source_type,
        priority: row.body.priority,
        tags: tags_of(row.body.tags_json),
        metadata: metadata_of(row.body.metadata_json),
        category: row.body.category,
        session_id: row.body.session_id,
        created_at: row.created_at,
        updated_at: row.body.updated_at,
        markdown_rel_path: row.body.markdown_rel_path,
        taint: MemoryTaint::of_db_text(row.body.taint),
    }
}

/// The rows of a namespace, or all of them.
pub open spec fn rows_in(
    docs: Seq<crate::documents::RowView>,
    namespace: Option<Seq<char>>,
) -> Seq<crate::documents::RowView> {
    match namespace {
        Some(namespace) => docs.filter(|r: crate::documents::RowView| r.namespace == namespace),
        None => docs,
    }
}

/// Whether a row was updated no earlier than another.
pub open spec fn no_older() -> spec_fn(
    crate::documents::RowView,
    crate::documents::RowView,
) -> bool {
    |a: crate::documents::RowView, b: crate::documents::RowView|
        a.body.updated_at >= b.body.updated_at
}

/// Rows sorted by when they were updated, the newest first; rows of one time stay in
/// the order they had.
pub open spec fn newest_first(rows: Seq<crate::documents::RowView>) -> Seq<
    crate::documents::RowView,
> {
    crate::rows::sorted_by(rows, no_older())
}

/// A row of a listing. It carries no content.
pub open spec fn summary_json(row: crate::documents::RowView) -> crate::json::JsonView {
    crate::json::JsonView::Object(
        seq![
            ("documentId"@, crate::json::JsonView::Text(row.document_id)),
            ("namespace"@, crate::json::JsonView::Text(row.namespace)),
            ("key"@, crate::json::JsonView::Text(row.key)),
            ("title"@, crate::json::JsonView::Text(row.body.title)),
            ("sourceType"@, crate::json::JsonView::Text(row.body.source_type)),
            ("priority"@, crate::json::JsonView::Text(row.body.priority)),
            ("createdAt"@, crate::json::JsonView::Millis(row.created_at)),
            ("updatedAt"@, crate::json::JsonView::Millis(row.body.updated_at)),
            ("taint"@, crate::json::JsonView::Text(row.body.taint)),
        ],
    )
}

/// A listing: the rows, the newest first, and how many there are.
pub open spec fn listing_json(rows: Seq<crate::documents::RowView>) -> crate::json::JsonView {
    crate::json::JsonView::Object(
        seq![
            (
                "documents"@,
                crate::json::JsonView::Array(
                    newest_first(rows).map_values(|r: crate::documents::RowView| summary_json(r)),
                ),
            ),
            ("count"@, crate::json::JsonView::Number(rows.len() as u64)),
        ],
    )
}

/// The namespaces that hold a document, ascending, each once; a blank one is left
/// out.
pub open spec fn namespaces_of(docs: Seq<crate::documents::RowView>) -> Seq<Seq<char>>
    decreases docs.len(),
{
    if docs.len() == 0 {
        Seq::empty()
    } else {
        let before = namespaces_of(docs.drop_last());
        if crate::text::is_blank(docs.last().namespace) {
            before
        } else {
            crate::text::placed(before, docs.last().namespace)
        }
    }
}

/// The tables without anything of a namespace.
pub open spec fn cleared(
    tables: crate::documents::Tables,
    namespace: Seq<char>,
) -> crate::documents::Tables {
    crate::documents::Tables {
        docs: tables.docs.filter(|r: crate::documents::RowView| r.namespace != namespace),
        chunks: tables.chunks.filter(|r: crate::documents::ChunkView| r.namespace != namespace),
        kv: tables.kv.filter(|r: crate::documents::KvView| r.namespace != namespace),
        graph: tables.graph.filter(|r: crate::documents::GraphView| r.namespace != namespace),
        signature: tables.signature,
    }
}

/// The tables without a document: its row, its chunks and the relations it is
/// evidence for.
pub open spec fn without_document(
    tables: crate::documents::Tables,
    namespace: Seq<char>,
    document_id: Seq<char>,
) -> crate::documents::Tables {
    crate::documents::Tables {
        docs: tables.docs.filter(
            |r: crate::documents::RowView| !r.has_id(namespace, document_id),
        ),
        chunks: crate::documents::write::chunks_elsewhere(tables.chunks, namespace, document_id),
        graph: tables.graph.filter(
            |r: crate::documents::GraphView|
                !(r.namespace == namespace && r.document_id == document_id),
        ),
        ..tables
    }
}

/// What deleting a document answers: whether there was such a row, and its sidecar.
pub open spec fn deletion_of(
    docs: Seq<crate::documents::RowView>,
    namespace: Seq<char>,
    document_id: Seq<char>,
) -> (bool, Option<Seq<char>>) {
    let at = crate::documents::by_id(docs, namespace, document_id);
    if at < docs.len() {
        (true, Some(docs[at].body.markdown_rel_path))
    } else {
        (false, None)
    }
}

/// The document that is read under a namespace and key.
pub open spec fn document_under(
    tables: crate::documents::Tables,
    namespace: Seq<char>,
    key: Seq<char>,
) -> Option<StoredView> {
    if tables.holds(namespace, key) {
        Some(stored_of(tables.row(namespace, key)))
    } else {
        None
    }
}

fn row_to_stored_document(row: &DocumentRow) -> (r: StoredMemoryDocument)
    ensures
        r@ == stored_of(row@),
{
    let tags: Vec<String> = match parse_string_array(row.body.tags_json.as_str()) {
        Some(tags) => tags,
        None => Vec::new(),
    };
    assert(crate::text::texts(tags@) =~= tags_of(row.body.tags_json@));
    let metadata = if parses_as_json(row.body.metadata_json.as_str()) {
        row.body.metadata_json.clone()
    } else {
        "{}".to_owned()
    };
    StoredMemoryDocument {
        document_id: row.document_id.clone(),
        namespace: row.namespace.clone(),
        key: row.key.clone(),
        title: row.body.title.clone(),
        content: row.body.content.clone(),
        source_type: row.body.source_type.clone(),
        priority: row.body.priority.clone(),
        tags,
        metadata,
        category: row.body.category.clone(),
        session_id: copy_opt(&row.body.session_id),
        created_at: row.created_at,
        updated_at: row.body.updated_at,
        markdown_rel_path: row.body.markdown_rel_path.clone(),
        taint: MemoryTaint::from_db_str(row.body.taint.as_str()),
    }
}

fn row_summary(row: &DocumentRow) -> (r: Json)
    ensures
        r@ == summary_json(row@),
{
    let mut fields: Vec<(String, Json)> = Vec::new();
    assert(crate::json::field_views(fields@) =~= Seq::empty());
    add_text(&mut fields, "documentId", row.document_id.as_str());
    add_text(&mut fields, "namespace", row.namespace.as_str());
    add_text(&mut fields, "key", row.key.as_str());
    add_text(&mut fields, "title", row.body.title.as_str());
    add_text(&mut fields, "sourceType", row.body.source_type.as_str());
    add_text(&mut fields, "priority", row.body.priority.as_str());
    add_value(&mut fields, "createdAt", Json::Millis(row.created_at));
    add_value(&mut fields, "updatedAt", Json::Millis(row.body.updated_at));
    add_text(&mut fields, "taint", row.body.taint.as_str());
    proof {
        crate::json::lemma_object_view(fields);
        assert(crate::json::field_views(fields@) =~= summary_json(row@)->Object_0);
    }
    Json::Object(fields)
}

/// The rows at some positions.
spec fn rows_at(docs: Seq<crate::documents::RowView>, order: Seq<usize>) -> Seq<
    crate::documents::RowView,
> {
    order.map_values(|i: usize| docs[i as int])
}

impl UnifiedMemory {
    /// The positions of the rows of a namespace, or of all rows, the newest first.
    fn order_by_age(&self, namespace: Option<&str>) -> (r: Vec<usize>)
        ensures
            forall|i: int| 0 <= i < r.len() ==> #[trigger] r@[i] < self@.docs.len(),
            rows_at(self@.docs, r@) == newest_first(
                rows_in(self@.docs, crate::documents::scope::opt_str(namespace)),
            ),
    {
        let ghost docs = self@.docs;
        let ghost scope = crate::documents::scope::opt_str(namespace);
        let mut order: Vec<usize> = Vec::new();
        let mut i: usize = 0;
        proof {
            lemma_rows_in_step(docs, scope, 0);
            assert(rows_at(docs, order@) =~= newest_first(rows_in(docs.take(0), scope)));
        }
        while i < self.docs.len()
            invariant
                i <= self.docs.len(),
                docs == self@.docs,
                docs.len() == self.docs.len(),
                scope == crate::documents::scope::opt_str(namespace),
                forall|k: int| 0 <= k < order.len() ==> #[trigger] order@[k] < docs.len(),
                rows_at(docs, order@) == newest_first(rows_in(docs.take(i as int), scope)),
            decreases self.docs.len() - i,
        {
            proof {
                lemma_rows_in_step(docs, scope, i as int);
            }
            let wanted = match namespace {
                Some(namespace) => same_text(self.docs[i].namespace.as_str(), namespace),
                None => true,
            };
            if wanted {
                let ghost sorted = rows_at(docs, order@);
                let ghost row = docs[i as int];
                let mut at: usize = 0;
                assert(sorted.skip(0) =~= sorted);
                while at < order.len() && !(self.docs[order[at]].body.updated_at
                    < self.docs[i].body.updated_at)
                    invariant
                        at <= order.len(),
                        i < self.docs.len(),
                        docs == self@.docs,
                        docs.len() == self.docs.len(),
                        row == docs[i as int],
                        sorted == rows_at(docs, order@),
                        forall|k: int| 0 <= k < order.len() ==> #[trigger] order@[k] < docs.len(),
                        crate::rows::slot_in(sorted, row, no_older()) == at
                            + crate::rows::slot_in(sorted.skip(at as int), row, no_older()),
                    decreases order.len() - at,
                {
                    assert(sorted[at as int] == docs[order@[at as int] as int]);
                    assert(sorted.skip(at as int).drop_first() =~= sorted.skip(at as int + 1));
                    at = at + 1;
                }
                if at < order.len() {
                    assert(sorted[at as int] == docs[order@[at as int] as int]);
                }
                assert(crate::rows::slot_in(sorted, row, no_older()) == at);
                order.insert(at, i);
                assert(rows_at(docs, order@) =~= sorted.insert(at as int, row));
            }
            i = i + 1;
        }
        assert(docs.take(i as int) =~= docs);
        order
    }

    /// The document that a namespace holds under a key.
    pub fn get_document_by_key(&self, namespace: &str, key: &str) -> (r: Option<
        StoredMemoryDocument,
    >)
        ensures
            match r {
                Some(document) => self@.holds(namespace@, key@) && document@ == stored_of(
                    self@.row(namespace@, key@),
                ),
                None => !self@.holds(namespace@, key@),
            },
            match r {
                Some(document) => document_under(self@, namespace@, key@) == Some(document@),
                None => document_under(self@, namespace@, key@) is None,
            },
    {
        match self.find_key(namespace, key) {
            Some(i) => Some(row_to_stored_document(&self.docs[i])),
            None => None,
        }
    }

    /// The documents of a namespace, the newest first.
    pub fn load_documents_for_scope(&self, namespace: &str) -> (r: Vec<StoredMemoryDocument>)
        ensures
            r@.map_values(|d: StoredMemoryDocument| d@) == newest_first(
                rows_in(self@.docs, Some(namespace@)),
            ).map_values(|r: crate::documents::RowView| stored_of(r)),
    {
        let order = self.order_by_age(Some(namespace));
        let ghost sorted = newest_first(rows_in(self@.docs, Some(namespace@)));
        let mut documents: Vec<StoredMemoryDocument> = Vec::new();
        let mut i: usize = 0;
        while i < order.len()
            invariant
                i <= order.len(),
                documents.len() == i,
                sorted == rows_at(self@.docs, order@),
                forall|k: int| 0 <= k < order.len() ==> #[trigger] order@[k] < self@.docs.len(),
                forall|k: int|
                    0 <= k < i ==> (#[trigger] documents@[k])@ == stored_of(sorted[k]),
            decreases order.len() - i,
        {
            let at: usize = order[i];
            assert(sorted[i as int] == self@.docs[at as int]);
            documents.push(row_to_stored_document(&self.docs[at]));
            i = i + 1;
        }
        assert(documents@.map_values(|d: StoredMemoryDocument| d@) =~= sorted.map_values(
            |r: crate::documents::RowView| stored_of(r),
        ));
        documents
    }

    /// Lists the documents of a namespace, or of all namespaces:
    /// `{ "documents": [...], "count": N }`, the newest first.
    pub fn list_documents(&self, namespace: Option<&str>) -> (r: Json)
        ensures
            r@ == listing_json(rows_in(self@.docs, crate::documents::scope::opt_str(namespace))),
    {
        let order = self.order_by_age(namespace);
        let ghost rows = rows_in(self@.docs, crate::documents::scope::opt_str(namespace));
        let ghost sorted = newest_first(rows);
        let mut documents: Vec<Json> = Vec::new();
        let mut i: usize = 0;
        while i < order.len()
            invariant
                i <= order.len(),
                documents.len() == i,
                sorted == rows_at(self@.docs, order@),
                forall|k: int| 0 <= k < order.len() ==> #[trigger] order@[k] < self@.docs.len(),
                forall|k: int|
                    0 <= k < i ==> (#[trigger] documents@[k])@ == summary_json(sorted[k]),
            decreases order.len() - i,
        {
            let at: usize = order[i];
            assert(sorted[i as int] == self@.docs[at as int]);
            documents.push(row_summary(&self.docs[at]));
            i = i + 1;
        }
        let count: u64 = documents.len() as u64;
        let mut fields: Vec<(String, Json)> = Vec::new();
        proof {
            law_listing_is_newest_first(rows);
            crate::json::lemma_array_view(documents);
            assert(documents@.map_values(|j: Json| j@) =~= sorted.map_values(
                |r: crate::documents::RowView| summary_json(r),
            ));
            assert(crate::json::field_views(fields@) =~= Seq::empty());
        }
        add_value(&mut fields, "documents", Json::Array(documents));
        add_value(&mut fields, "count", Json::Number(count));
        proof {
            crate::json::lemma_object_view(fields);
            assert(crate::json::field_views(fields@) =~= listing_json(rows)->Object_0);
        }
        Json::Object(fields)
    }

    /// Every namespace that holds a document, ascending.
    pub fn list_namespaces(&self) -> (r: Vec<String>)
        ensures
            crate::text::texts(r@) == namespaces_of(self@.docs),
    {
        let ghost docs = self@.docs;
        let mut names: Vec<String> = Vec::new();
        let mut i: usize = 0;
        assert(docs.take(0) =~= Seq::empty());
        assert(crate::text::texts(names@) =~= Seq::empty());
        while i < self.docs.len()
            invariant
                i <= self.docs.len(),
                docs == self@.docs,
                docs.len() == self.docs.len(),
                crate::text::texts(names@) == namespaces_of(docs.take(i as int)),
            decreases self.docs.len() - i,
        {
            assert(docs.take(i as int + 1).drop_last() =~= docs.take(i as int));
            let namespace = self.docs[i].namespace.as_str();
            if !trim(namespace).is_empty() {
                place_text(&mut names, namespace);
            }
            i = i + 1;
        }
        assert(docs.take(i as int) =~= docs);
        names
    }

    /// Deletes the documents, chunks, key-value entries and graph relations of a
    /// namespace. The caller removes its sidecar directory.
    pub fn clear_namespace(&mut self, namespace: &str)
        ensures
            final(self)@ == cleared(old(self)@, namespace@),
            old(self)@.wf() ==> final(self)@.wf(),
    {
        proof {
            if old(self)@.wf() {
                crate::documents::laws::lemma_filtered_stays_valid(
                    self@,
                    |r: crate::documents::RowView| r.namespace != namespace@,
                );
            }
        }
        drop_scope(&mut self.docs, namespace, None);
        drop_scope(&mut self.chunks, namespace, None);
        drop_scope(&mut self.kv, namespace, None);
        drop_scope(&mut self.graph, namespace, None);
        proof {
            lemma_scopes(namespace@, Seq::empty());
        }
    }

    /// Deletes a document, its chunks and the graph relations it is evidence for. The
    /// caller removes its sidecar.
    pub fn delete_document(&mut self, namespace: &str, document_id: &str) -> (r: DeletedDocument)
        ensures
            final(self)@ == without_document(old(self)@, namespace@, document_id@),
            r.namespace@ == namespace@,
            r.document_id@ == document_id@,
            (r.deleted, crate::text::opt_text(r.sidecar)) == deletion_of(
                old(self)@.docs,
                namespace@,
                document_id@,
            ),
            ({
                let docs = old(self)@.docs;
                let at = crate::documents::by_id(docs, namespace@, document_id@);
                &&& r.deleted == (at < docs.len())
                &&& crate::text::opt_text(r.sidecar) == if at < docs.len() {
                    Some(docs[at].body.markdown_rel_path)
                } else {
                    None
                }
            }),
            old(self)@.wf() ==> final(self)@.wf(),
    {
        proof {
            if old(self)@.wf() {
                crate::documents::laws::lemma_filtered_stays_valid(
                    self@,
                    |r: crate::documents::RowView| !r.has_id(namespace@, document_id@),
                );
            }
        }
        let ghost docs = self@.docs;
        let sidecar = match self.find_id(namespace, document_id) {
            Some(i) => Some(self.docs[i].body.markdown_rel_path.clone()),
            None => None,
        };
        drop_scope(&mut self.graph, namespace, Some(document_id));
        let deleted = drop_scope(&mut self.docs, namespace, Some(document_id));
        drop_scope(&mut self.chunks, namespace, Some(document_id));
        proof {
            lemma_scopes(namespace@, document_id@);
            let meets = |r: crate::documents::RowView| r.has_id(namespace@, document_id@);
            crate::rows::lemma_first_where(docs, meets);
            let at = crate::documents::by_id(docs, namespace@, document_id@);
            if at < docs.len() {
                assert(meets(docs[at]));
            }
        }
        DeletedDocument {
            deleted,
            namespace: namespace.to_owned(),
            document_id: document_id.to_owned(),
            sidecar,
        }
    }
}

impl DeletedDocument {
    /// `{ "deleted": bool, "namespace": ..., "documentId": ... }`.
    pub open spec fn json(self) -> crate::json::JsonView {
        crate::json::JsonView::Object(
            seq![
                ("deleted"@, crate::json::JsonView::Bool(self.deleted)),
                ("namespace"@, crate::json::JsonView::Text(self.namespace@)),
                ("documentId"@, crate::json::JsonView::Text(self.document_id@)),
            ],
        )
    }

    /// `{ "deleted": bool, "namespace": ..., "documentId": ... }`.
    pub fn to_json(&self) -> (r: Json)
        ensures
            r@ == self.json(),
            r@ == crate::json::JsonView::Object(
                seq![
                    ("deleted"@, crate::json::JsonView::Bool(self.deleted)),
                    ("namespace"@, crate::json::JsonView::Text(self.namespace@)),
                    ("documentId"@, crate::json::JsonView::Text(self.document_id@)),
                ],
            ),
    {
        let mut fields: Vec<(String, Json)> = Vec::new();
        assert(crate::json::field_views(fields@) =~= Seq::empty());
        add_value(&mut fields, "deleted", Json::Bool(self.deleted));
        add_text(&mut fields, "namespace", self.namespace.as_str());
        add_text(&mut fields, "documentId", self.document_id.as_str());
        proof {
            crate::json::lemma_object_view(fields);
            assert(crate::json::field_views(fields@) =~= self.json()->Object_0);
        }
        Json::Object(fields)
    }
}

/// The scope of a row says what the contracts say of its namespace and document.
proof fn lemma_scopes(namespace: Seq<char>, document_id: Seq<char>)
    ensures
        (|v: crate::documents::RowView| !DocumentRow::in_scope(v, namespace, None)) == (
        |r: crate::documents::RowView| r.namespace != namespace),
        (|v: crate::documents::ChunkView| !ChunkRow::in_scope(v, namespace, None)) == (
        |r: crate::documents::ChunkView| r.namespace != namespace),
        (|v: crate::documents::KvView| !KvRow::in_scope(v, namespace, None)) == (
        |r: crate::documents::KvView| r.namespace != namespace),
        (|v: crate::documents::GraphView| !GraphRow::in_scope(v, namespace, None)) == (
        |r: crate::documents::GraphView| r.namespace != namespace),
        (|v: crate::documents::RowView| !DocumentRow::in_scope(v, namespace, Some(document_id)))
            == (|r: crate::documents::RowView| !r.has_id(namespace, document_id)),
        (|v: crate::documents::ChunkView| !ChunkRow::in_scope(v, namespace, Some(document_id)))
            == (|c: crate::documents::ChunkView|
            !(c.namespace == namespace && c.document_id == document_id)),
        (|v: crate::documents::GraphView| !GraphRow::in_scope(v, namespace, Some(document_id)))
            == (|r: crate::documents::GraphView|
            !(r.namespace == namespace && r.document_id == document_id)),
{
}

proof fn lemma_rows_in_step(
    docs: Seq<crate::documents::RowView>,
    scope: Option<Seq<char>>,
    i: int,
)
    requires
        0 <= i <= docs.len(),
    ensures
        i == 0 ==> rows_in(docs.take(0), scope) == Seq::<crate::documents::RowView>::empty(),
        i < docs.len() ==> rows_in(docs.take(i + 1), scope) == (if scope is None || scope
            == Some(docs[i].namespace) {
            rows_in(docs.take(i), scope).push(docs[i])
        } else {
            rows_in(docs.take(i), scope)
        }),
        i < docs.len() ==> rows_in(docs.take(i), scope).push(docs[i]).drop_last() == rows_in(
            docs.take(i),
            scope,
        ),
{
    reveal(Seq::filter);
    assert(docs.take(0) =~= Seq::empty());
    if i < docs.len() {
        assert(docs.take(i + 1).drop_last() =~= docs.take(i));
        assert(docs.take(i + 1) =~= docs.take(i).push(docs[i]));
        assert(rows_in(docs.take(i), scope).push(docs[i]).drop_last() =~= rows_in(
            docs.take(i),
            scope,
        ));
    }
}

/// A listing puts no older document before a newer one, and neither adds nor loses one.
pub proof fn law_listing_is_newest_first(rows: Seq<crate::documents::RowView>)
    ensures
        newest_first(rows).len() == rows.len(),
        newest_first(rows).to_multiset() == rows.to_multiset(),
        forall|i: int, j: int|
            0 <= i < j < rows.len() ==> (#[trigger] newest_first(rows)[i]).body.updated_at >= (
            #[trigger] newest_first(rows)[j]).body.updated_at,
{
    crate::rows::lemma_sorted_by(rows, no_older());
    assert forall|i: int, j: int| 0 <= i < j < rows.len() implies (
    #[trigger] newest_first(rows)[i]).body.updated_at >= (
    #[trigger] newest_first(rows)[j]).body.updated_at by {
        assert(no_older()(newest_first(rows)[i], newest_first(rows)[j]));
    }
}

} // verus!
