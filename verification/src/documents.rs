//! The namespace document store: documents, their vector chunks, and the rows
//! that share their namespaces.
//!
//! Namespaces are given in their stored form. A document is addressed by its
//! namespace and key; its document id is the row's primary key. Times are
//! milliseconds since the epoch.

use vstd::prelude::*;

pub mod batch;
pub mod contents;
pub mod embed;
pub mod identity;
pub mod laws;
pub mod read;
pub mod scope;
pub mod write;

use crate::rows::find_row;
use crate::text::same_text;

verus! {

/// Token budget per vector chunk when a document is split for embedding.
pub const DOCUMENT_CHUNK_MAX_TOKENS: usize = 225;

/// Provenance of a memory: whether it came from an external service.
#[derive(Clone, Copy, Debug, PartialEq, Eq, Structural)]
pub enum MemoryTaint {
    /// Written by the user or by the agent itself.
    Internal,
    /// Taken in from an external sync source.
    ExternalSync,
}

impl MemoryTaint {
    /// The stored form.
    pub open spec fn db_text(self) -> Seq<char> {
        match self {
            MemoryTaint::Internal => "internal"@,
            MemoryTaint::ExternalSync => "external_sync"@,
        }
    }

    /// What a stored form stands for. An unknown one is taken for external.
    pub open spec fn of_db_text(text: Seq<char>) -> MemoryTaint {
        if text == "internal"@ {
            MemoryTaint::Internal
        } else {
            MemoryTaint::ExternalSync
        }
    }

    /// The stored form.
    pub fn as_db_str(&self) -> (r: &'static str)
        ensures
            r@ == self.db_text(),
    {
        match self {
            MemoryTaint::Internal => "internal",
            MemoryTaint::ExternalSync => "external_sync",
        }
    }

    /// Reads the stored form; an unknown one fails closed.
    pub fn from_db_str(raw: &str) -> (r: Self)
        ensures
            r == MemoryTaint::of_db_text(raw@),
    {
        if same_text(raw, "internal") {
            MemoryTaint::Internal
        } else {
            MemoryTaint::ExternalSync
        }
    }
}

/// A taint reads back from its stored form, and only the stored form of
/// internal content reads as internal.
pub proof fn law_taint_round_trips(taint: MemoryTaint, text: Seq<char>)
    ensures
        MemoryTaint::of_db_text(taint.db_text()) == taint,
        MemoryTaint::of_db_text(text) == MemoryTaint::Internal <==> text == "internal"@,
{
    reveal_strlit("internal");
    reveal_strlit("external_sync");
    assert("internal"@.len() != "external_sync"@.len());
}

/// A document to be written.
#[derive(Clone, Debug)]
pub struct NamespaceDocumentInput {
    /// The namespace in its stored form.
    pub namespace: String,
    /// The namespace as callers spell it.
    pub logical_namespace: String,
    pub key: String,
    pub title: String,
    pub content: String,
    pub source_type: String,
    pub priority: String,
    pub tags: Vec<String>,
    /// JSON text.
    pub metadata: String,
    pub category: String,
    pub session_id: Option<String>,
    pub document_id: Option<String>,
    pub taint: MemoryTaint,
}

/// The columns of a document row that a write replaces.
#[derive(Clone, Debug)]
pub struct DocumentBody {
    pub title: String,
    pub content: String,
    pub source_type: String,
    pub priority: String,
    /// JSON text of the tags.
    pub tags_json: String,
    /// JSON text.
    pub metadata_json: String,
    pub category: String,
    pub session_id: Option<String>,
    pub updated_at: i64,
    pub markdown_rel_path: String,
    /// Stored form of the taint.
    pub taint: String,
    pub logical_namespace: String,
}

/// A row of the document table.
#[derive(Clone, Debug)]
pub struct DocumentRow {
    pub document_id: String,
    pub namespace: String,
    pub key: String,
    pub created_at: i64,
    pub body: DocumentBody,
}

/// A row of the chunk table.
#[derive(Clone, Debug)]
pub struct ChunkRow {
    pub namespace: String,
    pub document_id: String,
    pub chunk_id: String,
    pub text: String,
    /// The vector, each component as its bit pattern.
    pub embedding: Option<Vec<u32>>,
    pub lancedb_table: String,
    pub chunk_index: usize,
    pub created_at: i64,
    pub updated_at: i64,
    /// The model that produced the vector.
    pub model_signature: Option<String>,
    /// The number of components of the vector.
    pub dim: Option<u64>,
}

/// A row of the key-value table.
#[derive(Clone, Debug)]
pub struct KvRow {
    pub namespace: String,
    pub key: String,
    /// JSON text.
    pub value: String,
}

/// A row of the graph table: a relation that one document is evidence for.
#[derive(Clone, Debug)]
pub struct GraphRow {
    pub namespace: String,
    pub document_id: String,
    pub relation: String,
}

/// The replaced columns, as texts.
pub ghost struct BodyView {
    pub title: Seq<char>,
    pub content: Seq<char>,
    pub source_type: Seq<char>,
    pub priority: Seq<char>,
    pub tags_json: Seq<char>,
    pub metadata_json: Seq<char>,
    pub category: Seq<char>,
    pub session_id: Option<Seq<char>>,
    pub updated_at: i64,
    pub markdown_rel_path: Seq<char>,
    pub taint: Seq<char>,
    pub logical_namespace: Seq<char>,
}

/// A document row, as texts.
pub ghost struct RowView {
    pub document_id: Seq<char>,
    pub namespace: Seq<char>,
    pub key: Seq<char>,
    pub created_at: i64,
    pub body: BodyView,
}

/// A chunk row, as texts.
pub ghost struct ChunkView {
    pub namespace: Seq<char>,
    pub document_id: Seq<char>,
    pub chunk_id: Seq<char>,
    pub text: Seq<char>,
    pub embedding: Option<Seq<u32>>,
    pub lancedb_table: Seq<char>,
    pub chunk_index: nat,
    pub created_at: i64,
    pub updated_at: i64,
    pub model_signature: Option<Seq<char>>,
    pub dim: Option<u64>,
}

/// A key-value row, as texts.
pub ghost struct KvView {
    pub namespace: Seq<char>,
    pub key: Seq<char>,
    pub value: Seq<char>,
}

/// A graph row, as texts.
pub ghost struct GraphView {
    pub namespace: Seq<char>,
    pub document_id: Seq<char>,
    pub relation: Seq<char>,
}

/// The view of an optional vector.
pub open spec fn opt_vector(vector: Option<Vec<u32>>) -> Option<Seq<u32>> {
    match vector {
        Some(vector) => Some(vector@),
        None => None,
    }
}

impl View for DocumentBody {
    type V = BodyView;

    open spec fn view(&self) -> BodyView {
        BodyView {
            title: self.title@,
            content: self.content@,
            source_type: self.source_type@,
            priority: self.priority@,
            tags_json: self.tags_json@,
            metadata_json: self.metadata_json@,
            category: self.category@,
            session_id: crate::text::opt_text(self.session_id),
            updated_at: self.updated_at,
            markdown_rel_path: self.markdown_rel_path@,
            taint: self.taint@,
            logical_namespace: self.logical_namespace@,
        }
    }
}

impl View for DocumentRow {
    type V = RowView;

    open spec fn view(&self) -> RowView {
        RowView {
            document_id: self.document_id@,
            namespace: self.namespace@,
            key: self.key@,
            created_at: self.created_at,
            body: self.body@,
        }
    }
}

impl View for ChunkRow {
    type V = ChunkView;

    open spec fn view(&self) -> ChunkView {
        ChunkView {
            namespace: self.namespace@,
            document_id: self.document_id@,
            chunk_id: self.chunk_id@,
            text: self.text@,
            embedding: opt_vector(self.embedding),
            lancedb_table: self.lancedb_table@,
            chunk_index: self.chunk_index as nat,
            created_at: self.created_at,
            updated_at: self.updated_at,
            model_signature: crate::text::opt_text(self.model_signature),
            dim: self.dim,
        }
    }
}

impl View for KvRow {
    type V = KvView;

    open spec fn view(&self) -> KvView {
        KvView { namespace: self.namespace@, key: self.key@, value: self.value@ }
    }
}

impl View for GraphRow {
    type V = GraphView;

    open spec fn view(&self) -> GraphView {
        GraphView {
            namespace: self.namespace@,
            document_id: self.document_id@,
            relation: self.relation@,
        }
    }
}

/// The tables of the store.
#[derive(Debug)]
pub struct UnifiedMemory {
    docs: Vec<DocumentRow>,
    chunks: Vec<ChunkRow>,
    kv: Vec<KvRow>,
    graph: Vec<GraphRow>,
    /// The embedding model whose vectors are being stored.
    signature: String,
}

/// The tables, as texts.
pub ghost struct Tables {
    pub docs: Seq<RowView>,
    pub chunks: Seq<ChunkView>,
    pub kv: Seq<KvView>,
    pub graph: Seq<GraphView>,
    pub signature: Seq<char>,
}

impl View for UnifiedMemory {
    type V = Tables;

    closed spec fn view(&self) -> Tables {
        Tables {
            docs: crate::rows::row_views(self.docs@),
            chunks: crate::rows::row_views(self.chunks@),
            kv: crate::rows::row_views(self.kv@),
            graph: crate::rows::row_views(self.graph@),
            signature: self.signature@,
        }
    }
}

impl RowView {
    /// Whether the row is addressed by a namespace and key.
    pub open spec fn has_key(self, namespace: Seq<char>, key: Seq<char>) -> bool {
        self.namespace == namespace && self.key == key
    }

    /// Whether the row is the one with an id, within a namespace.
    pub open spec fn has_id(self, namespace: Seq<char>, document_id: Seq<char>) -> bool {
        self.namespace == namespace && self.document_id == document_id
    }
}

/// The position of the row with a namespace and key.
pub open spec fn by_key(docs: Seq<RowView>, namespace: Seq<char>, key: Seq<char>) -> int {
    crate::rows::first_where(docs, |r: RowView| r.has_key(namespace, key))
}

/// The position of the row with an id, within a namespace.
pub open spec fn by_id(docs: Seq<RowView>, namespace: Seq<char>, document_id: Seq<char>) -> int {
    crate::rows::first_where(docs, |r: RowView| r.has_id(namespace, document_id))
}

/// The position of the row with an id, in whatever namespace.
pub open spec fn owner_of(docs: Seq<RowView>, document_id: Seq<char>) -> int {
    crate::rows::first_where(docs, |r: RowView| r.document_id == document_id)
}

impl Tables {
    /// What every store keeps: no two rows have the same document id, and no two
    /// rows of one namespace have the same key.
    pub open spec fn wf(self) -> bool {
        &&& forall|i: int, j: int|
            #![trigger self.docs[i], self.docs[j]]
            0 <= i < j < self.docs.len() ==> self.docs[i].document_id != self.docs[j].document_id
        &&& forall|i: int, j: int|
            #![trigger self.docs[i], self.docs[j]]
            0 <= i < j < self.docs.len() ==> !self.docs[i].has_key(
                self.docs[j].namespace,
                self.docs[j].key,
            )
    }

    /// Whether a namespace holds a document under a key.
    pub open spec fn holds(self, namespace: Seq<char>, key: Seq<char>) -> bool {
        by_key(self.docs, namespace, key) < self.docs.len()
    }

    /// The row that a namespace holds under a key.
    pub open spec fn row(self, namespace: Seq<char>, key: Seq<char>) -> RowView {
        self.docs[by_key(self.docs, namespace, key)]
    }
}

impl UnifiedMemory {
    /// An empty store whose vectors come from the given embedding model.
    pub fn new(signature: String) -> (r: Self)
        ensures
            r@ == (Tables {
                docs: Seq::empty(),
                chunks: Seq::empty(),
                kv: Seq::empty(),
                graph: Seq::empty(),
                signature: signature@,
            }),
            r@.wf(),
    {
        let r = UnifiedMemory {
            docs: Vec::new(),
            chunks: Vec::new(),
            kv: Vec::new(),
            graph: Vec::new(),
            signature,
        };
        assert(r@.docs =~= Seq::empty());
        assert(r@.chunks =~= Seq::empty());
        assert(r@.kv =~= Seq::empty());
        assert(r@.graph =~= Seq::empty());
        r
    }

    /// A store over rows that were loaded from elsewhere. It is valid where no two of the
    /// documents have the same id, and no two the same namespace and key.
    pub fn from_rows(
        docs: Vec<DocumentRow>,
        chunks: Vec<ChunkRow>,
        kv: Vec<KvRow>,
        graph: Vec<GraphRow>,
        signature: String,
    ) -> (r: Self)
        ensures
            r@ == (Tables {
                docs: crate::rows::row_views(docs@),
                chunks: crate::rows::row_views(chunks@),
                kv: crate::rows::row_views(kv@),
                graph: crate::rows::row_views(graph@),
                signature: signature@,
            }),
            r@.wf() <==> forall|i: int, j: int|
                #![trigger docs@[i], docs@[j]]
                0 <= i < j < docs@.len() ==> docs@[i]@.document_id != docs@[j]@.document_id
                    && !docs@[i]@.has_key(docs@[j]@.namespace, docs@[j]@.key),
    {
        let r = UnifiedMemory { docs, chunks, kv, graph, signature };
        proof {
            assert forall|i: int, j: int|
                #![trigger docs@[i], docs@[j]]
                r@.wf() && 0 <= i < j < docs@.len() implies docs@[i]@.document_id
                != docs@[j]@.document_id && !docs@[i]@.has_key(
                docs@[j]@.namespace,
                docs@[j]@.key,
            ) by {
                assert(r@.docs[i] == docs@[i]@ && r@.docs[j] == docs@[j]@);
            }
        }
        r
    }

    /// The document rows.
    pub fn document_rows(&self) -> (r: &Vec<DocumentRow>)
        ensures
            crate::rows::row_views(r@) == self@.docs,
    {
        &self.docs
    }

    /// The chunk rows.
    pub fn chunk_rows(&self) -> (r: &Vec<ChunkRow>)
        ensures
            crate::rows::row_views(r@) == self@.chunks,
    {
        &self.chunks
    }

    /// The key-value rows.
    pub fn kv_rows(&self) -> (r: &Vec<KvRow>)
        ensures
            crate::rows::row_views(r@) == self@.kv,
    {
        &self.kv
    }

    /// The graph rows.
    pub fn graph_rows(&self) -> (r: &Vec<GraphRow>)
        ensures
            crate::rows::row_views(r@) == self@.graph,
    {
        &self.graph
    }

    /// The position of the row with a namespace and key, if there is one.
    pub(crate) fn find_key(&self, namespace: &str, key: &str) -> (r: Option<usize>)
        ensures
            match r {
                Some(i) => i < self@.docs.len() && i == by_key(self@.docs, namespace@, key@),
                None => by_key(self@.docs, namespace@, key@) == self@.docs.len(),
            },
    {
        let fits = |r: &DocumentRow| -> (b: bool)
            ensures
                b == r@.has_key(namespace@, key@),
        {
            same_text(r.key.as_str(), key) && same_text(r.namespace.as_str(), namespace)
        };
        find_row(&self.docs, fits, Ghost(|r: RowView| r.has_key(namespace@, key@)))
    }

    /// The position of the row with an id within a namespace, if there is one.
    pub(crate) fn find_id(&self, namespace: &str, document_id: &str) -> (r: Option<usize>)
        ensures
            match r {
                Some(i) => i < self@.docs.len() && i == by_id(
                    self@.docs,
                    namespace@,
                    document_id@,
                ),
                None => by_id(self@.docs, namespace@, document_id@) == self@.docs.len(),
            },
    {
        let fits = |r: &DocumentRow| -> (b: bool)
            ensures
                b == r@.has_id(namespace@, document_id@),
        {
            same_text(r.document_id.as_str(), document_id) && same_text(
                r.namespace.as_str(),
                namespace,
            )
        };
        find_row(&self.docs, fits, Ghost(|r: RowView| r.has_id(namespace@, document_id@)))
    }

    /// The position of the row with an id in whatever namespace, if there is one.
    pub(crate) fn find_owner(&self, document_id: &str) -> (r: Option<usize>)
        ensures
            match r {
                Some(i) => i < self@.docs.len() && i == owner_of(self@.docs, document_id@),
                None => owner_of(self@.docs, document_id@) == self@.docs.len(),
            },
    {
        let fits = |r: &DocumentRow| -> (b: bool)
            ensures
                b <==> r@.document_id == document_id@,
        {
            same_text(r.document_id.as_str(), document_id)
        };
        find_row(&self.docs, fits, Ghost(|r: RowView| r.document_id == document_id@))
    }
}

} // verus!
