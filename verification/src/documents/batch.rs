//! Writing many documents whose chunks were embedded together.
//!
//! The documents are written one at a time, in order. [`DocumentBatch::begin_next`]
//! resolves the next one, the caller writes its sidecar, and
//! [`DocumentBatch::finish_next`] puts it into the tables. The first document that
//! fails ends the batch.

use vstd::prelude::*;

use crate::documents::write::PendingWrite;
use crate::documents::{NamespaceDocumentInput, UnifiedMemory};

verus! {

/// A document and its chunk texts.
#[derive(Debug)]
pub struct PreparedDocument {
    pub input: NamespaceDocumentInput,
    pub chunks: Vec<String>,
}

/// A prepared document, as texts.
pub ghost struct PreparedView {
    pub input: crate::documents::write::InputView,
    pub chunks: Seq<Seq<char>>,
}

impl View for PreparedDocument {
    type V = PreparedView;

    open spec fn view(&self) -> PreparedView {
        PreparedView { input: self.input@, chunks: crate::text::texts(self.chunks@) }
    }
}

/// A document whose row is resolved and whose sidecar is being written.
#[derive(Debug)]
struct Current {
    pending: PendingWrite,
    chunks: Vec<String>,
    embeddings: Vec<Option<Vec<u32>>>,
}

/// A document whose row is resolved, as texts.
pub ghost struct CurrentView {
    pub pending: crate::documents::write::PendingView,
    pub chunks: Seq<Seq<char>>,
    pub embeddings: Seq<Option<Seq<u32>>>,
}

/// A batch of documents being written.
#[derive(Debug)]
pub struct DocumentBatch {
    documents: Vec<PreparedDocument>,
    vectors: Vec<Option<Vec<u32>>>,
    current: Option<Current>,
    results: Vec<Result<String, String>>,
}

/// A batch: the documents and vectors that are left, the document being written,
/// and the outcome of each document attempted.
pub ghost struct BatchView {
    pub documents: Seq<PreparedView>,
    pub vectors: Seq<Option<Seq<u32>>>,
    pub current: Option<CurrentView>,
    pub results: Seq<Result<Seq<char>, Seq<char>>>,
}

/// An outcome, as texts.
pub open spec fn outcome_view(outcome: Result<String, String>) -> Result<Seq<char>, Seq<char>> {
    match outcome {
        Ok(id) => Ok(id@),
        Err(error) => Err(error@),
    }
}

spec fn current_view(current: Option<Current>) -> Option<CurrentView> {
    match current {
        Some(current) => Some(
            CurrentView {
                pending: current.pending@,
                chunks: crate::text::texts(current.chunks@),
                embeddings: crate::documents::write::vector_views(current.embeddings@),
            },
        ),
        None => None,
    }
}

impl View for DocumentBatch {
    type V = BatchView;

    closed spec fn view(&self) -> BatchView {
        BatchView {
            documents: self.documents@.map_values(|d: PreparedDocument| d@),
            vectors: crate::documents::write::vector_views(self.vectors@),
            current: current_view(self.current),
            results: self.results@.map_values(|o: Result<String, String>| outcome_view(o)),
        }
    }
}

impl BatchView {
    /// Whether a document failed.
    pub open spec fn failed(self) -> bool {
        self.results.len() > 0 && self.results.last() is Err
    }

    /// Whether nothing is left to be begun.
    pub open spec fn over(self) -> bool {
        self.failed() || self.documents.len() == 0
    }

    /// How many vectors the next document takes: one per chunk, or what is left.
    pub open spec fn share(self) -> nat {
        let count = self.documents[0].chunks.len();
        if count <= self.vectors.len() {
            count
        } else {
            self.vectors.len()
        }
    }

    /// The batch after its next document has been begun.
    pub open spec fn begun(self, docs: Seq<crate::documents::RowView>, now: i64) -> BatchView {
        if self.current is Some || self.over() {
            self
        } else {
            let document = self.documents[0];
            let share = self.share() as int;
            let rest = BatchView {
                documents: self.documents.drop_first(),
                vectors: self.vectors.skip(share),
                ..self
            };
            match crate::documents::write::begun(
                docs,
                document.input,
                now,
                crate::documents::write::minted_for(document.input),
            ) {
                Some(pending) => BatchView {
                    current: Some(
                        CurrentView {
                            pending,
                            chunks: document.chunks,
                            embeddings: self.vectors.take(share),
                        },
                    ),
                    ..rest
                },
                None => BatchView {
                    results: self.results.push(Err("document key cannot be empty"@)),
                    ..rest
                },
            }
        }
    }

    /// The batch and the tables after the sidecar of its current document has been
    /// written, or has failed.
    pub open spec fn finished(
        self,
        tables: crate::documents::Tables,
        sidecar: Result<Seq<char>, Seq<char>>,
    ) -> (BatchView, crate::documents::Tables) {
        match (self.current, sidecar) {
            (None, _) => (self, tables),
            (Some(_), Err(error)) => (
                BatchView { current: None, results: self.results.push(Err(error)), ..self },
                tables,
            ),
            (Some(current), Ok(path)) => match crate::documents::write::committed(
                tables,
                current.pending,
                path,
                current.chunks,
                current.embeddings,
            ) {
                Ok(after) => (
                    BatchView {
                        current: None,
                        results: self.results.push(Ok(current.pending.document_id)),
                        ..self
                    },
                    after,
                ),
                Err(error) => (
                    BatchView { current: None, results: self.results.push(Err(error)), ..self },
                    tables,
                ),
            },
        }
    }

    /// How many documents have been begun.
    pub open spec fn attempted(self) -> nat {
        self.results.len() + if self.current is Some {
            1nat
        } else {
            0nat
        }
    }

    /// What a batch over some documents and their vectors keeps: only its last
    /// outcome can be a failure, nothing is being written behind a failure, and what
    /// is left are the documents not yet begun, with the vectors behind those of the
    /// begun ones.
    pub open spec fn keeps(
        self,
        documents: Seq<PreparedView>,
        vectors: Seq<Option<Seq<u32>>>,
    ) -> bool {
        let begun = self.attempted() as int;
        &&& forall|i: int|
            0 <= i < self.results.len() - 1 ==> (#[trigger] self.results[i]) is Ok
        &&& self.current is Some ==> !self.failed()
        &&& begun <= documents.len()
        &&& self.documents == documents.skip(begun)
        &&& self.vectors == vectors.skip(chunks_before(documents, begun) as int)
        &&& match self.current {
            Some(current) => current.chunks == documents[begun - 1].chunks && current.embeddings
                == vectors.subrange(
                chunks_before(documents, begun - 1) as int,
                chunks_before(documents, begun) as int,
            ) && current.embeddings.len() == current.chunks.len(),
            None => true,
        }
    }
}

/// How many chunks the first documents have.
pub open spec fn chunks_before(documents: Seq<PreparedView>, count: int) -> nat
    decreases count,
{
    if count <= 0 {
        0
    } else {
        chunks_before(documents, count - 1) + documents[count - 1].chunks.len()
    }
}

proof fn lemma_chunks_before(documents: Seq<PreparedView>, fewer: int, more: int)
    requires
        fewer <= more,
    ensures
        chunks_before(documents, fewer) <= chunks_before(documents, more),
    decreases more - fewer,
{
    if fewer < more {
        lemma_chunks_before(documents, fewer, more - 1);
    }
}

/// Where there is one vector per chunk, every document is written with the vectors of
/// its own chunks, the documents behind a failed one are never begun, and every
/// outcome before the last is a success.
pub proof fn law_batch_stays_aligned(
    batch: BatchView,
    documents: Seq<PreparedView>,
    vectors: Seq<Option<Seq<u32>>>,
    docs: Seq<crate::documents::RowView>,
    now: i64,
    tables: crate::documents::Tables,
    sidecar: Result<Seq<char>, Seq<char>>,
)
    requires
        vectors.len() == chunks_before(documents, documents.len() as int),
        batch.keeps(documents, vectors),
    ensures
        batch.begun(docs, now).keeps(documents, vectors),
        batch.finished(tables, sidecar).0.keeps(documents, vectors),
        batch.failed() ==> batch.begun(docs, now) == batch,
{
    let begun = batch.attempted() as int;
    lemma_chunks_before(documents, begun, documents.len() as int);
    if batch.current is None && !batch.over() {
        lemma_chunks_before(documents, begun + 1, documents.len() as int);
        let next = batch.begun(docs, now);
        assert(documents[begun] == batch.documents[0]);
        assert(next.documents =~= documents.skip(begun + 1));
        assert(next.vectors =~= vectors.skip(chunks_before(documents, begun + 1) as int));
        if next.current is Some {
            assert(next.current->0.embeddings =~= vectors.subrange(
                chunks_before(documents, begun) as int,
                chunks_before(documents, begun + 1) as int,
            ));
        }
    }
}

impl DocumentBatch {
    /// A batch over some documents and the vectors of their chunks, in order.
    pub fn new(documents: Vec<PreparedDocument>, vectors: Vec<Option<Vec<u32>>>) -> (r: Self)
        ensures
            r@ == (BatchView {
                documents: documents@.map_values(|d: PreparedDocument| d@),
                vectors: crate::documents::write::vector_views(vectors@),
                current: None,
                results: Seq::empty(),
            }),
    {
        let r = DocumentBatch { documents, vectors, current: None, results: Vec::new() };
        assert(r@.results =~= Seq::empty());
        r
    }

    fn record(&mut self, outcome: Result<String, String>)
        ensures
            final(self)@ == (BatchView {
                results: old(self)@.results.push(outcome_view(outcome)),
                ..old(self)@
            }),
    {
        let ghost before = self@;
        self.results.push(outcome);
        assert(self@.results =~= before.results.push(outcome_view(outcome)));
    }

    /// Resolves the next document, and says what is to be written; `None` when the
    /// batch is over.
    pub fn begin_next(&mut self, memory: &UnifiedMemory, now: i64) -> (r: Option<&PendingWrite>)
        ensures
            final(self)@ == old(self)@.begun(memory@.docs, now),
            match r {
                Some(pending) => final(self)@.current is Some
                    && final(self)@.current->0.pending == pending@,
                None => final(self)@.current is None,
            },
    {
        let ghost before = self@;
        let failed = match self.results.last() {
            Some(outcome) => outcome.is_err(),
            None => false,
        };
        assert(failed == before.failed());
        if self.current.is_none() && !failed && self.documents.len() > 0 {
            let document = self.documents.remove(0);
            assert(self@.documents =~= before.documents.drop_first());
            let share: usize = if document.chunks.len() <= self.vectors.len() {
                document.chunks.len()
            } else {
                self.vectors.len()
            };
            let mut embeddings: Vec<Option<Vec<u32>>> = Vec::new();
            std::mem::swap(&mut embeddings, &mut self.vectors);
            self.vectors = embeddings.split_off(share);
            assert(share == before.share());
            assert(self@.vectors =~= before.vectors.skip(share as int));
            assert(crate::documents::write::vector_views(embeddings@) =~= before.vectors.take(
                share as int,
            ));
            match memory.begin_write_at(document.input, now) {
                Ok(pending) => {
                    self.current = Some(Current { pending, chunks: document.chunks, embeddings });
                },
                Err(error) => {
                    self.record(Err(error));
                },
            }
        }
        match &self.current {
            Some(current) => Some(&current.pending),
            None => None,
        }
    }

    /// Puts the current document into the tables, once its sidecar is written.
    pub fn finish_next(&mut self, memory: &mut UnifiedMemory, sidecar: Result<String, String>)
        ensures
            ({
                let (batch, tables) = old(self)@.finished(old(memory)@, outcome_view(sidecar));
                &&& final(self)@ == batch
                &&& final(memory)@ == tables
            }),
            old(memory)@.wf() ==> final(memory)@.wf(),
    {
        let current = match self.current.take() {
            Some(current) => current,
            None => {
                return ;
            },
        };
        let outcome = match sidecar {
            Ok(path) => memory.commit_write(
                current.pending,
                path,
                current.chunks,
                current.embeddings,
            ),
            Err(error) => Err(error),
        };
        self.record(outcome);
    }

    /// The outcome of each document attempted, in order.
    pub fn into_results(self) -> (r: Vec<Result<String, String>>)
        ensures
            r@.map_values(|o: Result<String, String>| outcome_view(o)) == self@.results,
    {
        self.results
    }

    /// The outcome of a batch of one document.
    pub fn into_result(self) -> (r: Result<String, String>)
        ensures
            outcome_view(r) == if self@.results.len() > 0 {
                self@.results.last()
            } else {
                Err("document upsert produced no result"@)
            },
    {
        let mut results = self.results;
        match results.pop() {
            Some(outcome) => outcome,
            None => Err("document upsert produced no result".to_owned()),
        }
    }
}

/// A batch begins its next document as it was given: with its own input, all of its chunks,
/// and the vectors at the front of those left, one per chunk as far as they go. A document
/// with a blank key fails instead, and so ends the batch. Either way the document and its
/// vectors are taken off, and no other.
pub proof fn law_documents_are_begun_as_given(
    batch: BatchView,
    docs: Seq<crate::documents::RowView>,
    now: i64,
)
    requires
        batch.current is None,
        !batch.over(),
    ensures
        ({
            let document = batch.documents[0];
            let after = batch.begun(docs, now);
            let taken = batch.vectors.len() - after.vectors.len();
            &&& after.documents == batch.documents.skip(1)
            &&& 0 <= taken <= document.chunks.len()
            &&& taken < document.chunks.len() ==> after.vectors.len() == 0
            &&& after.vectors == batch.vectors.skip(taken)
            &&& crate::text::is_blank(document.input.key) ==> {
                &&& after.current is None
                &&& after.results == batch.results.push(Err("document key cannot be empty"@))
                &&& after.over()
            }
            &&& !crate::text::is_blank(document.input.key) ==> {
                &&& after.current is Some
                &&& after.current->0.pending.input == document.input
                &&& after.current->0.pending.key == crate::text::trimmed(document.input.key)
                &&& after.current->0.pending.now == now
                &&& after.current->0.chunks == document.chunks
                &&& after.current->0.embeddings == batch.vectors.take(taken)
                &&& after.results == batch.results
            }
        }),
{
    let after = batch.begun(docs, now);
    let taken = batch.vectors.len() - after.vectors.len();
    assert(after.documents =~= batch.documents.skip(1));
    assert(taken == batch.share());
}

/// Once its sidecar is written, the current document of a batch is put into the tables, and
/// its outcome is the id it is stored under, or why it could not be stored. A sidecar that
/// failed is the outcome, and then, as with any failure, the tables stay as they were.
pub proof fn law_outcomes_tell_what_was_stored(
    batch: BatchView,
    tables: crate::documents::Tables,
    sidecar: Result<Seq<char>, Seq<char>>,
)
    requires
        batch.current is Some,
    ensures
        ({
            let current = batch.current->0;
            let (after, stored) = batch.finished(tables, sidecar);
            &&& after.current is None
            &&& after.documents == batch.documents
            &&& after.vectors == batch.vectors
            &&& after.results.len() == batch.results.len() + 1
            &&& after.results.drop_last() == batch.results
            &&& sidecar is Err ==> after.results.last() == sidecar && stored == tables
            &&& after.results.last() is Err ==> stored == tables && after.over()
            &&& after.results.last() is Ok ==> {
                &&& sidecar is Ok
                &&& after.results.last()->Ok_0 == current.pending.document_id
                &&& crate::documents::write::committed(
                    tables,
                    current.pending,
                    sidecar->Ok_0,
                    current.chunks,
                    current.embeddings,
                ) == Ok::<crate::documents::Tables, Seq<char>>(stored)
            }
        }),
{
    let (after, stored) = batch.finished(tables, sidecar);
    assert(after.results.drop_last() =~= batch.results);
}

/// A prepared document is seen as it was prepared.
pub proof fn law_prepared_documents_are_seen_as_given(document: PreparedDocument)
    ensures
        document@.input == document.input@,
        document@.chunks == crate::text::texts(document.chunks@),
{
}

} // verus!
