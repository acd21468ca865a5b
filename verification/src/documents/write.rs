//! Writing a document.
//!
//! A write resolves its row first, then the caller writes the markdown sidecar,
//! and then the row and its chunks are put into the tables together. Another
//! writer may have moved the row meanwhile, so the last step looks at the key
//! again.

use vstd::prelude::*;

use crate::documents::identity::DocumentIdentity;
use crate::documents::scope::{drop_scope, Scoped};
use crate::documents::{
    ChunkRow, DocumentBody, DocumentRow, NamespaceDocumentInput, UnifiedMemory,
};
use crate::outside::{now_millis, random_identifier, render_string_array};
use crate::text::{decimal_text, joined2, joined3, same_text, trim};

verus! {

/// A document write whose row is resolved.
#[derive(Debug)]
pub struct PendingWrite {
    pub document_id: String,
    pub created_at: i64,
    /// When the write was begun.
    pub now: i64,
    /// The trimmed key.
    pub key: String,
    /// Whether the id was minted: neither a row nor the caller gave it.
    pub minted: bool,
    pub input: NamespaceDocumentInput,
}

/// A pending write, as texts.
pub ghost struct PendingView {
    pub document_id: Seq<char>,
    pub created_at: i64,
    pub now: i64,
    pub key: Seq<char>,
    pub minted: bool,
    pub input: InputView,
}

/// A document to be written, as texts.
pub ghost struct InputView {
    pub namespace: Seq<char>,
    pub logical_namespace: Seq<char>,
    pub key: Seq<char>,
    pub title: Seq<char>,
    pub content: Seq<char>,
    pub source_type: Seq<char>,
    pub priority: Seq<char>,
    pub tags: Seq<Seq<char>>,
    pub metadata: Seq<char>,
    pub category: Seq<char>,
    pub session_id: Option<Seq<char>>,
    pub document_id: Option<Seq<char>>,
    pub taint: crate::documents::MemoryTaint,
}

impl View for NamespaceDocumentInput {
    type V = InputView;

    open spec fn view(&self) -> InputView {
        InputView {
            namespace: self.namespace@,
            logical_namespace: self.logical_namespace@,
            key: self.key@,
            title: self.title@,
            content: self.content@,
            source_type: self.source_type@,
            priority: self.priority@,
            tags: crate::text::texts(self.tags@),
            metadata: self.metadata@,
            category: self.category@,
            session_id: crate::text::opt_text(self.session_id),
            document_id: crate::text::opt_text(self.document_id),
            taint: self.taint,
        }
    }
}

impl View for PendingWrite {
    type V = PendingView;

    open spec fn view(&self) -> PendingView {
        PendingView {
            document_id: self.document_id@,
            created_at: self.created_at,
            now: self.now,
            key: self.key@,
            minted: self.minted,
            input: self.input@,
        }
    }
}

/// The write that an input begins at a time, where `minted` is the id of a new row
/// that none was requested for. A blank key is refused.
pub open spec fn begun(
    docs: Seq<crate::documents::RowView>,
    input: InputView,
    now: i64,
    minted: Seq<char>,
) -> Option<PendingView> {
    let key = crate::text::trimmed(input.key);
    if key.len() == 0 {
        None
    } else {
        let (document_id, created_at, is_minted) = match crate::documents::identity::identity(
            docs,
            input.namespace,
            key,
            input.document_id,
        ) {
            crate::documents::identity::IdentityView::Existing { document_id, created_at } => (
                document_id,
                created_at,
                false,
            ),
            crate::documents::identity::IdentityView::StaleKey { document_id, created_at } => (
                document_id,
                created_at,
                false,
            ),
            crate::documents::identity::IdentityView::New { document_id: Some(id) } => (
                id,
                now,
                false,
            ),
            crate::documents::identity::IdentityView::New { document_id: None } => (
                minted,
                now,
                true,
            ),
        };
        Some(PendingView { document_id, created_at, now, key, minted: is_minted, input })
    }
}

/// The id that a full write mints.
pub open spec fn minted_for(input: InputView) -> Seq<char> {
    crate::documents::identity::derived_id(input.namespace, crate::text::trimmed(input.key))
}

/// The id that a metadata-only write mints: the time in seconds and the first
/// eight characters of a random identifier.
pub open spec fn stamped_id(seconds: nat, random: Seq<char>) -> Seq<char> {
    crate::text::decimal(seconds) + "_"@ + random.take(8)
}

/// The whole seconds of a time; a time before the epoch counts as zero.
pub open spec fn whole_seconds(millis: i64) -> nat {
    if millis < 0 {
        0
    } else {
        (millis / 1000) as nat
    }
}

/// The row that a pending write stores.
pub open spec fn row_of(
    pending: PendingView,
    markdown_rel_path: Seq<char>,
) -> crate::documents::RowView {
    crate::documents::RowView {
        document_id: pending.document_id,
        namespace: pending.input.namespace,
        key: pending.key,
        created_at: pending.created_at,
        body: crate::documents::BodyView {
            title: pending.input.title,
            content: pending.input.content,
            source_type: pending.input.source_type,
            priority: pending.input.priority,
            tags_json: crate::outside::string_array_json(pending.input.tags),
            metadata_json: pending.input.metadata,
            category: pending.input.category,
            session_id: pending.input.session_id,
            updated_at: pending.now,
            markdown_rel_path,
            taint: pending.input.taint.db_text(),
            logical_namespace: pending.input.logical_namespace,
        },
    }
}

/// Why a row cannot be moved under a key.
pub open spec fn key_taken() -> Seq<char> {
    "re-key memory_docs: UNIQUE constraint failed: memory_docs.namespace, memory_docs.key"@
}

/// Why a row cannot be added under an id.
pub open spec fn id_taken() -> Seq<char> {
    "upsert memory_docs: UNIQUE constraint failed: memory_docs.document_id"@
}

/// The rows after the row with an id has been moved under a key; a row that is not
/// there, or is under that key already, is left alone.
pub open spec fn rekeyed(
    docs: Seq<crate::documents::RowView>,
    namespace: Seq<char>,
    document_id: Seq<char>,
    key: Seq<char>,
) -> Result<Seq<crate::documents::RowView>, Seq<char>> {
    let at = crate::documents::by_id(docs, namespace, document_id);
    if at < docs.len() && docs[at].key != key {
        if crate::documents::by_key(docs, namespace, key) < docs.len() {
            Err(key_taken())
        } else {
            Ok(docs.update(at, crate::documents::RowView { key, ..docs[at] }))
        }
    } else {
        Ok(docs)
    }
}

/// The rows after an insert that turns into an update where the namespace and key
/// are held: such a row keeps its id and when it was created.
pub open spec fn upserted(
    docs: Seq<crate::documents::RowView>,
    row: crate::documents::RowView,
) -> Result<Seq<crate::documents::RowView>, Seq<char>> {
    let at = crate::documents::by_key(docs, row.namespace, row.key);
    if at < docs.len() {
        Ok(docs.update(at, crate::documents::RowView { body: row.body, ..docs[at] }))
    } else if crate::documents::owner_of(docs, row.document_id) < docs.len() {
        Err(id_taken())
    } else {
        Ok(docs.push(row))
    }
}

/// The rows after a row has been put in its place. A row with its id that is held under
/// another key is the same document, and is moved first; under a minted id it is not, and
/// stays where it is.
pub open spec fn landed(
    docs: Seq<crate::documents::RowView>,
    row: crate::documents::RowView,
    minted: bool,
) -> Result<Seq<crate::documents::RowView>, Seq<char>> {
    if minted {
        upserted(docs, row)
    } else {
        match rekeyed(docs, row.namespace, row.document_id, row.key) {
            Ok(docs) => upserted(docs, row),
            Err(error) => Err(error),
        }
    }
}

/// The vector stored for a chunk; a missing slot is none.
pub open spec fn slot(embeddings: Seq<Option<Seq<u32>>>, index: int) -> Option<Seq<u32>> {
    if index < embeddings.len() {
        embeddings[index]
    } else {
        None
    }
}

/// The chunk row at a position of a document.
pub open spec fn chunk_of(
    pending: PendingView,
    chunks: Seq<Seq<char>>,
    embeddings: Seq<Option<Seq<u32>>>,
    signature: Seq<char>,
    index: int,
) -> crate::documents::ChunkView {
    let embedding = slot(embeddings, index);
    crate::documents::ChunkView {
        namespace: pending.input.namespace,
        document_id: pending.document_id,
        chunk_id: pending.document_id + ":"@ + crate::text::decimal(index as nat),
        text: chunks[index],
        embedding,
        lancedb_table: "ns_"@ + pending.input.namespace,
        chunk_index: index as nat,
        created_at: pending.now,
        updated_at: pending.now,
        model_signature: match embedding {
            Some(_) => Some(signature),
            None => None,
        },
        dim: match embedding {
            Some(vector) => Some(vector.len() as u64),
            None => None,
        },
    }
}

/// The chunk rows of a document.
pub open spec fn chunks_of(
    pending: PendingView,
    chunks: Seq<Seq<char>>,
    embeddings: Seq<Option<Seq<u32>>>,
    signature: Seq<char>,
) -> Seq<crate::documents::ChunkView> {
    Seq::new(chunks.len(), |i: int| chunk_of(pending, chunks, embeddings, signature, i))
}

/// The chunk rows that are not of a document.
pub open spec fn chunks_elsewhere(
    chunks: Seq<crate::documents::ChunkView>,
    namespace: Seq<char>,
    document_id: Seq<char>,
) -> Seq<crate::documents::ChunkView> {
    chunks.filter(
        |c: crate::documents::ChunkView| !(c.namespace == namespace && c.document_id == document_id),
    )
}

/// The tables after a full write, or why it failed.
pub open spec fn committed(
    tables: crate::documents::Tables,
    pending: PendingView,
    markdown_rel_path: Seq<char>,
    chunks: Seq<Seq<char>>,
    embeddings: Seq<Option<Seq<u32>>>,
) -> Result<crate::documents::Tables, Seq<char>> {
    match landed(tables.docs, row_of(pending, markdown_rel_path), pending.minted) {
        Ok(docs) => Ok(
            crate::documents::Tables {
                docs,
                chunks: chunks_elsewhere(
                    tables.chunks,
                    pending.input.namespace,
                    pending.document_id,
                ) + chunks_of(pending, chunks, embeddings, tables.signature),
                ..tables
            },
        ),
        Err(error) => Err(error),
    }
}

/// The tables after a metadata-only write, which leaves the chunks in place, or
/// why it failed.
pub open spec fn committed_metadata(
    tables: crate::documents::Tables,
    pending: PendingView,
    markdown_rel_path: Seq<char>,
) -> Result<crate::documents::Tables, Seq<char>> {
    match landed(tables.docs, row_of(pending, markdown_rel_path), pending.minted) {
        Ok(docs) => Ok(crate::documents::Tables { docs, ..tables }),
        Err(error) => Err(error),
    }
}

/// The document that a written row reads back as, with the id and the time of
/// creation that the row has.
pub open spec fn document_of(
    pending: PendingView,
    markdown_rel_path: Seq<char>,
    row: crate::documents::RowView,
) -> crate::documents::read::StoredView {
    crate::documents::read::StoredView {
        document_id: row.document_id,
        namespace: pending.input.namespace,
        key: pending.key,
        title: pending.input.title,
        content: pending.input.content,
        source_type: pending.input.source_type,
        priority: pending.input.priority,
        tags: pending.input.tags,
        metadata: crate::documents::read::metadata_of(pending.input.metadata),
        category: pending.input.category,
        session_id: pending.input.session_id,
        created_at: row.created_at,
        updated_at: pending.now,
        markdown_rel_path,
        taint: pending.input.taint,
    }
}

/// Whether a written document reads back as it was written.
pub open spec fn reads_back(
    tables: crate::documents::Tables,
    pending: PendingView,
    markdown_rel_path: Seq<char>,
) -> bool {
    let namespace = pending.input.namespace;
    &&& tables.holds(namespace, pending.key)
    &&& crate::documents::read::stored_of(tables.row(namespace, pending.key)) == document_of(
        pending,
        markdown_rel_path,
        tables.row(namespace, pending.key),
    )
}

/// A row that has been put in its place is found under its key.
proof fn lemma_landed_row_is_found(
    docs: Seq<crate::documents::RowView>,
    row: crate::documents::RowView,
    minted: bool,
)
    requires
        landed(docs, row, minted) is Ok,
    ensures
        ({
            let after = landed(docs, row, minted)->Ok_0;
            let at = crate::documents::by_key(after, row.namespace, row.key);
            &&& 0 <= at < after.len()
            &&& after[at].has_key(row.namespace, row.key)
            &&& after[at].body == row.body
        }),
{
    let meets = |r: crate::documents::RowView| r.has_key(row.namespace, row.key);
    let moved = if minted {
        docs
    } else {
        rekeyed(docs, row.namespace, row.document_id, row.key)->Ok_0
    };
    let after = landed(docs, row, minted)->Ok_0;
    crate::rows::lemma_first_where(moved, meets);
    let at = crate::documents::by_key(moved, row.namespace, row.key);
    assert(meets(after[at]));
    crate::rows::lemma_is_first_where(after, meets, at);
}

/// Whether the row with an id is held under another key.
pub open spec fn held_elsewhere(
    docs: Seq<crate::documents::RowView>,
    namespace: Seq<char>,
    document_id: Seq<char>,
    key: Seq<char>,
) -> bool {
    let at = crate::documents::by_id(docs, namespace, document_id);
    at < docs.len() && docs[at].key != key
}

/// The views of some vectors.
pub open spec fn vector_views(vectors: Seq<Option<Vec<u32>>>) -> Seq<Option<Seq<u32>>> {
    vectors.map_values(|v: Option<Vec<u32>>| crate::documents::opt_vector(v))
}

/// The first eight characters of a random identifier behind a time in seconds.
pub fn stamped_document_id(now: i64, random: &str) -> (r: String)
    requires
        random@.len() >= 8,
    ensures
        r@ == stamped_id(whole_seconds(now), random@),
{
    let seconds: u64 = if now < 0 {
        0
    } else {
        (now as u64) / 1000
    };
    let stamp = decimal_text(seconds);
    let short = random.substring_char(0, 8);
    assert(short@ =~= random@.take(8));
    joined3(stamp.as_str(), "_", short)
}

impl PendingWrite {
    fn row(self, markdown_rel_path: String) -> (r: Result<DocumentRow, String>)
        ensures
            r is Ok,
            r->Ok_0@ == row_of(self@, markdown_rel_path@),
            crate::outside::json_string_array(r->Ok_0.body.tags_json@) == Some(self@.input.tags),
    {
        let tags_json = match render_string_array(&self.input.tags) {
            Ok(tags_json) => tags_json,
            Err(error) => {
                return Err(error);
            },
        };
        Ok(
            DocumentRow {
                document_id: self.document_id,
                namespace: self.input.namespace,
                key: self.key,
                created_at: self.created_at,
                body: DocumentBody {
                    title: self.input.title,
                    content: self.input.content,
                    source_type: self.input.source_type,
                    priority: self.input.priority,
                    tags_json,
                    metadata_json: self.input.metadata,
                    category: self.input.category,
                    session_id: self.input.session_id,
                    updated_at: self.now,
                    markdown_rel_path,
                    taint: self.input.taint.as_db_str().to_owned(),
                    logical_namespace: self.input.logical_namespace,
                },
            },
        )
    }
}

impl UnifiedMemory {
    fn begin(&self, input: NamespaceDocumentInput, now: i64, minted: String) -> (r: Result<
        PendingWrite,
        String,
    >)
        ensures
            match r {
                Ok(pending) => begun(self@.docs, input@, now, minted@) == Some(pending@),
                Err(error) => begun(self@.docs, input@, now, minted@) is None && error@
                    == "document key cannot be empty"@,
            },
    {
        let key = trim(input.key.as_str()).to_owned();
        if key.as_str().is_empty() {
            return Err("document key cannot be empty".to_owned());
        }
        let identity = self.resolve_document_identity(
            input.namespace.as_str(),
            key.as_str(),
            match &input.document_id {
                Some(id) => Some(id.as_str()),
                None => None,
            },
        );
        let (document_id, created_at, is_minted): (String, i64, bool) = match identity {
            DocumentIdentity::Existing { document_id, created_at } => (
                document_id,
                created_at,
                false,
            ),
            DocumentIdentity::StaleKey { document_id, created_at } => (
                document_id,
                created_at,
                false,
            ),
            DocumentIdentity::New { document_id: Some(id) } => (id, now, false),
            DocumentIdentity::New { document_id: None } => (minted, now, true),
        };
        Ok(PendingWrite { document_id, created_at, now, key, minted: is_minted, input })
    }

    /// Begins a full write at a given time. A new row that no id was requested for
    /// gets the one derived from its namespace and key.
    pub fn begin_write_at(&self, input: NamespaceDocumentInput, now: i64) -> (r: Result<
        PendingWrite,
        String,
    >)
        ensures
            match r {
                Ok(pending) => begun(self@.docs, input@, now, minted_for(input@)) == Some(
                    pending@,
                ),
                Err(error) => begun(self@.docs, input@, now, minted_for(input@)) is None && error@
                    == "document key cannot be empty"@,
            },
    {
        let minted = UnifiedMemory::derive_document_id(
            input.namespace.as_str(),
            trim(input.key.as_str()),
        );
        self.begin(input, now, minted)
    }

    /// Begins a full write now.
    pub fn begin_write(&self, input: NamespaceDocumentInput) -> (r: Result<PendingWrite, String>)
        ensures
            match r {
                Ok(pending) => begun(self@.docs, input@, pending.now, minted_for(input@)) == Some(
                    pending@,
                ),
                Err(error) => crate::text::is_blank(input@.key) && error@
                    == "document key cannot be empty"@,
            },
            crate::text::is_blank(input@.key) ==> r is Err,
    {
        self.begin_write_at(input, now_millis())
    }

    /// Begins a metadata-only write at a given time. A new row that no id was
    /// requested for gets one made of the time and of a random identifier.
    pub fn begin_metadata_write_at(
        &self,
        input: NamespaceDocumentInput,
        now: i64,
        random: &str,
    ) -> (r: Result<PendingWrite, String>)
        requires
            random@.len() >= 8,
        ensures
            match r {
                Ok(pending) => begun(
                    self@.docs,
                    input@,
                    now,
                    stamped_id(whole_seconds(now), random@),
                ) == Some(pending@),
                Err(error) => crate::text::is_blank(input@.key) && error@
                    == "document key cannot be empty"@,
            },
            crate::text::is_blank(input@.key) ==> r is Err,
    {
        let minted = stamped_document_id(now, random);
        self.begin(input, now, minted)
    }

    /// Begins a metadata-only write now.
    pub fn begin_metadata_write(&self, input: NamespaceDocumentInput) -> (r: Result<
        PendingWrite,
        String,
    >)
        ensures
            match r {
                Ok(pending) => exists|random: Seq<char>|
                    random.len() == 36 && begun(
                        self@.docs,
                        input@,
                        pending.now,
                        #[trigger] stamped_id(whole_seconds(pending.now), random),
                    ) == Some(pending@),
                Err(error) => crate::text::is_blank(input@.key) && error@
                    == "document key cannot be empty"@,
            },
            crate::text::is_blank(input@.key) ==> r is Err,
    {
        let now: i64 = now_millis();
        let random = random_identifier();
        self.begin_metadata_write_at(input, now, random.as_str())
    }

    /// Moves the row with an id under a key, if it is held under another one, and
    /// says whether it was moved.
    pub fn rekey_document_in_namespace(
        &mut self,
        namespace: &str,
        document_id: &str,
        key: &str,
    ) -> (r: Result<bool, String>)
        ensures
            match rekeyed(old(self)@.docs, namespace@, document_id@, key@) {
                Ok(docs) => r == Ok::<bool, String>(
                    held_elsewhere(old(self)@.docs, namespace@, document_id@, key@),
                ) && final(self)@ == (crate::documents::Tables { docs, ..old(self)@ }),
                Err(error) => r is Err && r->Err_0@ == error && final(self)@ == old(self)@,
            },
            old(self)@.wf() ==> final(self)@.wf(),
    {
        proof {
            if old(self)@.wf() {
                crate::documents::laws::lemma_rekeyed_stays_valid(
                    self@,
                    namespace@,
                    document_id@,
                    key@,
                );
            }
        }
        let ghost before = self@;
        match self.find_id(namespace, document_id) {
            None => Ok(false),
            Some(i) => {
                if same_text(self.docs[i].key.as_str(), key) {
                    return Ok(false);
                }
                if self.find_key(namespace, key).is_some() {
                    return Err(
                        "re-key memory_docs: UNIQUE constraint failed: memory_docs.namespace, memory_docs.key".to_owned(),
                    );
                }
                let moved = key.to_owned();
                let row = &mut self.docs[i];
                row.key = moved;
                assert(self@.docs =~= before.docs.update(
                    i as int,
                    crate::documents::RowView { key: key@, ..before.docs[i as int] },
                ));
                Ok(true)
            },
        }
    }

    fn upsert_row(&mut self, row: DocumentRow) -> (r: Result<(), String>)
        ensures
            match upserted(old(self)@.docs, row@) {
                Ok(docs) => r is Ok && final(self)@ == (crate::documents::Tables {
                    docs,
                    ..old(self)@
                }),
                Err(error) => r is Err && r->Err_0@ == error && final(self)@ == old(self)@,
            },
    {
        let ghost before = self@;
        match self.find_key(row.namespace.as_str(), row.key.as_str()) {
            Some(i) => {
                let ghost body = row.body@;
                let held = &mut self.docs[i];
                held.body = row.body;
                assert(self@.docs =~= before.docs.update(
                    i as int,
                    crate::documents::RowView { body, ..before.docs[i as int] },
                ));
                Ok(())
            },
            None => {
                if self.find_owner(row.document_id.as_str()).is_some() {
                    return Err(
                        "upsert memory_docs: UNIQUE constraint failed: memory_docs.document_id".to_owned(),
                    );
                }
                let ghost view = row@;
                self.docs.push(row);
                assert(self@.docs =~= before.docs.push(view));
                Ok(())
            },
        }
    }

    fn land(&mut self, row: DocumentRow, minted: bool) -> (r: Result<(), String>)
        ensures
            match landed(old(self)@.docs, row@, minted) {
                Ok(docs) => r is Ok && final(self)@ == (crate::documents::Tables {
                    docs,
                    ..old(self)@
                }),
                Err(error) => r is Err && r->Err_0@ == error && final(self)@ == old(self)@,
            },
    {
        if minted {
            return self.upsert_row(row);
        }
        proof {
            lemma_rekeyed_row_is_updated(self@.docs, row@);
        }
        match self.rekey_document_in_namespace(
            row.namespace.as_str(),
            row.document_id.as_str(),
            row.key.as_str(),
        ) {
            Ok(_) => self.upsert_row(row),
            Err(error) => Err(error),
        }
    }
}

/// The chunk rows of a pending write.
fn chunk_rows(
    pending: &PendingWrite,
    chunks: Vec<String>,
    embeddings: Vec<Option<Vec<u32>>>,
    signature: &str,
) -> (r: Vec<ChunkRow>)
    ensures
        crate::rows::row_views(r@) == chunks_of(
            pending@,
            crate::text::texts(chunks@),
            vector_views(embeddings@),
            signature@,
        ),
{
    let ghost texts = crate::text::texts(chunks@);
    let ghost vectors = vector_views(embeddings@);
    let mut embeddings = embeddings;
    let mut rows: Vec<ChunkRow> = Vec::new();
    let mut i: usize = 0;
    while i < chunks.len()
        invariant
            i <= chunks.len(),
            rows.len() == i,
            texts == crate::text::texts(chunks@),
            embeddings@.len() == vectors.len(),
            forall|j: int|
                i <= j < vectors.len() ==> #[trigger] vector_views(embeddings@)[j] == vectors[j],
            forall|j: int|
                0 <= j < i ==> (#[trigger] rows@[j])@ == chunk_of(
                    pending@,
                    texts,
                    vectors,
                    signature@,
                    j,
                ),
        decreases chunks.len() - i,
    {
        let ghost whole = embeddings@;
        let embedding = if i < embeddings.len() {
            assert(vector_views(embeddings@)[i as int] == vectors[i as int]);
            let held = &mut embeddings[i];
            held.take()
        } else {
            None
        };
        assert(crate::documents::opt_vector(embedding) == slot(vectors, i as int));
        assert forall|j: int| i < j < vectors.len() implies #[trigger] vector_views(embeddings@)[j]
            == vectors[j] by {
            assert(vector_views(whole)[j] == vectors[j]);
            assert(embeddings@[j] == whole[j]);
        }
        let index = decimal_text(i as u64);
        let (model_signature, dim): (Option<String>, Option<u64>) = match &embedding {
            Some(vector) => (Some(signature.to_owned()), Some(vector.len() as u64)),
            None => (None, None),
        };
        let row = ChunkRow {
            namespace: pending.input.namespace.clone(),
            document_id: pending.document_id.clone(),
            chunk_id: joined3(pending.document_id.as_str(), ":", index.as_str()),
            text: chunks[i].clone(),
            embedding,
            lancedb_table: joined2("ns_", pending.input.namespace.as_str()),
            chunk_index: i,
            created_at: pending.now,
            updated_at: pending.now,
            model_signature,
            dim,
        };
        rows.push(row);
        i = i + 1;
    }
    assert(crate::rows::row_views(rows@) =~= chunks_of(
        pending@,
        texts,
        vectors,
        signature@,
    ));
    rows
}

impl UnifiedMemory {
    /// Puts a full write into the tables: the row, and its chunks in place of those
    /// it had. `embeddings` is aligned to `chunks` by position; a missing slot
    /// stores that chunk without a vector. A write that fails changes nothing.
    pub fn commit_write(
        &mut self,
        pending: PendingWrite,
        markdown_rel_path: String,
        chunks: Vec<String>,
        embeddings: Vec<Option<Vec<u32>>>,
    ) -> (r: Result<String, String>)
        ensures
            match committed(
                old(self)@,
                pending@,
                markdown_rel_path@,
                crate::text::texts(chunks@),
                vector_views(embeddings@),
            ) {
                Ok(tables) => final(self)@ == tables && r is Ok && r->Ok_0@
                    == pending@.document_id && reads_back(tables, pending@, markdown_rel_path@),
                Err(error) => final(self)@ == old(self)@ && r is Err && r->Err_0@ == error,
            },
            old(self)@.wf() ==> final(self)@.wf(),
    {
        proof {
            if old(self)@.wf() {
                let row = row_of(pending@, markdown_rel_path@);
                if landed(self@.docs, row, pending@.minted) is Ok {
                    crate::documents::laws::law_landing_touches_one_row(self@, row, pending@.minted);
                }
            }
        }
        let document_id = pending.document_id.clone();
        let minted = pending.minted;
        let namespace = pending.input.namespace.clone();
        let mut rows = chunk_rows(&pending, chunks, embeddings, self.signature.as_str());
        let ghost new = crate::rows::row_views(rows@);
        let ghost docs = self@.docs;
        let row = match pending.row(markdown_rel_path) {
            Ok(row) => row,
            Err(error) => {
                return Err(error);
            },
        };
        proof {
            crate::documents::law_taint_round_trips(pending.input.taint, Seq::empty());
            if landed(docs, row@, minted) is Ok {
                lemma_landed_row_is_found(docs, row@, minted);
            }
        }
        match self.land(row, minted) {
            Ok(()) => {},
            Err(error) => {
                return Err(error);
            },
        }
        let ghost before = self@.chunks;
        assert(before =~= crate::rows::row_views(self.chunks@));
        drop_scope(&mut self.chunks, namespace.as_str(), Some(document_id.as_str()));
        proof {
            let keep = |v: crate::documents::ChunkView|
                !ChunkRow::in_scope(v, namespace@, Some(document_id@));
            let elsewhere = |c: crate::documents::ChunkView|
                !(c.namespace == namespace@ && c.document_id == document_id@);
            assert(keep =~= elsewhere);
        }
        let ghost kept = self.chunks@;
        self.chunks.append(&mut rows);
        assert(self@.chunks =~= crate::rows::row_views(kept) + new);
        Ok(document_id)
    }

    /// Puts a metadata-only write into the tables: the row alone. A write that
    /// fails changes nothing.
    pub fn commit_metadata_write(
        &mut self,
        pending: PendingWrite,
        markdown_rel_path: String,
    ) -> (r: Result<String, String>)
        ensures
            match committed_metadata(old(self)@, pending@, markdown_rel_path@) {
                Ok(tables) => final(self)@ == tables && r is Ok && r->Ok_0@
                    == pending@.document_id && reads_back(tables, pending@, markdown_rel_path@),
                Err(error) => final(self)@ == old(self)@ && r is Err && r->Err_0@ == error,
            },
            old(self)@.wf() ==> final(self)@.wf(),
    {
        proof {
            if old(self)@.wf() {
                let row = row_of(pending@, markdown_rel_path@);
                if landed(self@.docs, row, pending@.minted) is Ok {
                    crate::documents::laws::law_landing_touches_one_row(self@, row, pending@.minted);
                }
            }
        }
        let document_id = pending.document_id.clone();
        let minted = pending.minted;
        let ghost docs = self@.docs;
        let row = match pending.row(markdown_rel_path) {
            Ok(row) => row,
            Err(error) => {
                return Err(error);
            },
        };
        proof {
            crate::documents::law_taint_round_trips(pending.input.taint, Seq::empty());
            if landed(docs, row@, minted) is Ok {
                lemma_landed_row_is_found(docs, row@, minted);
            }
        }
        match self.land(row, minted) {
            Ok(()) => Ok(document_id),
            Err(error) => Err(error),
        }
    }
}

/// A row that was just moved under its key is there to be updated.
proof fn lemma_rekeyed_row_is_updated(
    docs: Seq<crate::documents::RowView>,
    row: crate::documents::RowView,
)
    ensures
        held_elsewhere(docs, row.namespace, row.document_id, row.key) && rekeyed(
            docs,
            row.namespace,
            row.document_id,
            row.key,
        ) is Ok ==> landed(docs, row, false) is Ok,
{
    let at = crate::documents::by_id(docs, row.namespace, row.document_id);
    let by_id = |r: crate::documents::RowView| r.has_id(row.namespace, row.document_id);
    let by_key = |r: crate::documents::RowView| r.has_key(row.namespace, row.key);
    crate::rows::lemma_first_where(docs, by_id);
    if held_elsewhere(docs, row.namespace, row.document_id, row.key) && rekeyed(
        docs,
        row.namespace,
        row.document_id,
        row.key,
    ) is Ok {
        let moved = docs.update(at, crate::documents::RowView { key: row.key, ..docs[at] });
        crate::rows::lemma_first_where(moved, by_key);
        assert(by_key(moved[at]));
    }
}

} // verus!
