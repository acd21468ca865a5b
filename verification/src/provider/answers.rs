//! Values of the families that the recording provider logs and answers with nothing.

use vstd::prelude::*;

verus! {

/// A chunk of a tree.
#[derive(Debug)]
pub struct Chunk {
    pub id: String,
    pub source_id: String,
    pub content: String,
}

/// A node of a tree and its children.
#[derive(Debug)]
pub struct QueryResult {
    pub node: TreeNode,
    pub children: Vec<TreeNode>,
}

/// A node of a tree.
#[derive(Debug)]
pub struct TreeNode {
    pub node_id: String,
    pub namespace: String,
    pub summary: String,
}

/// A leaf of a summary tree.
#[derive(Debug)]
pub struct TreeLeaf {
    pub chunk_id: String,
    pub content: String,
}

/// The summary trees there are.
#[derive(Debug)]
pub struct SummaryForest {
    pub nodes: Vec<TreeNode>,
}

/// The summary at the root of a namespace's tree.
#[derive(Debug)]
pub struct RootSummary {
    pub namespace: String,
    pub content: String,
}

/// What a summary is made for.
#[derive(Debug)]
pub struct SummaryContext {
    pub tree_id: String,
    pub token_budget: u32,
}

/// Content to be appended to a tree.
#[derive(Debug)]
pub struct IngestRequest {
    pub namespace: String,
    pub content: String,
}

/// An entity of a namespace.
#[derive(Debug)]
pub struct EntityHit {
    pub entity_id: String,
    pub name: String,
}

/// An entity that a search matched. Its kind is an open vocabulary.
#[derive(Debug)]
pub struct EntityMatch {
    pub canonical_id: String,
    pub kind: String,
    pub surface: String,
}

/// A snapshot of a source.
#[derive(Debug)]
pub struct SnapshotRef {
    pub id: String,
    pub source_id: String,
}

/// What changed between two snapshots.
#[derive(Debug)]
pub struct DiffReport {
    pub added: Vec<String>,
    pub removed: Vec<String>,
    pub modified: Vec<String>,
}

/// An item of a source.
#[derive(Debug)]
pub struct SourceItem {
    pub id: String,
    pub content: String,
}

/// A place where coding sessions are found.
#[derive(Debug)]
pub struct CodingSessionSource {
    pub name: String,
    pub sessions: u64,
}

/// Which coding sessions to ingest.
#[derive(Debug)]
pub struct CodingSessionIngestRequest {
    pub source: String,
}

/// How far the sync of a connection has come.
#[derive(Debug)]
pub struct SourceSyncState {
    pub toolkit: String,
    pub connection_id: String,
    pub cursor: Option<String>,
}

/// A record of a sync run.
#[derive(Debug)]
pub struct SyncAuditEntry {
    pub source_id: String,
    pub message: String,
}

/// The state of a source's sync.
#[derive(Debug)]
pub struct SourceSyncStatus {
    pub source_id: String,
    pub status: String,
}

/// A turn of a conversation.
#[derive(Debug)]
pub struct EpisodicTurn {
    pub session_id: String,
    pub role: String,
    pub content: String,
}

/// An event of a conversation.
#[derive(Debug)]
pub struct EpisodicEvent {
    pub event_id: String,
    pub segment_id: String,
    pub content: String,
}

/// A facet of the user's profile.
#[derive(Debug)]
pub struct ProfileFacet {
    pub facet_id: String,
    pub key: String,
    pub value: String,
}

/// Which chunks to list.
#[derive(Debug)]
pub struct ChunkQuery {
    pub source_id: Option<String>,
    pub limit: Option<usize>,
}

/// A chunk with what is known of it.
#[derive(Debug)]
pub struct ChunkDetail {
    pub chunk: Chunk,
    pub embedded: bool,
}

/// The vector of a chunk, by bit pattern.
#[derive(Debug)]
pub struct ChunkEmbedding {
    pub chunk_id: String,
    pub vector: Vec<u32>,
}

/// The score of a chunk, a double-precision number by its bit pattern.
#[derive(Debug)]
pub struct ChunkScore {
    pub chunk_id: String,
    pub score: u64,
}

/// A prefix of source ids.
#[derive(Debug)]
pub struct SourceIngestQuery {
    pub prefix: String,
}

/// What was ingested under a prefix of source ids.
#[derive(Debug)]
pub struct SourceIngestStatus {
    pub prefix: String,
    pub chunks: u64,
}

/// How a fast retrieval is narrowed.
#[derive(Debug)]
pub struct FastRetrieveQuery {
    pub limit: usize,
}

/// The time window that a retrieval covers.
#[derive(Debug)]
pub struct CoverWindowQuery {
    pub since: i64,
    pub until: i64,
}

/// Which source a retrieval reads.
#[derive(Debug)]
pub struct SourceRetrievalQuery {
    pub source_id: String,
    pub limit: usize,
}

/// A person with a rank.
#[derive(Debug)]
pub struct RankedPerson {
    pub person_id: String,
    pub rank: u64,
}

/// A person.
#[derive(Debug)]
pub struct PersonRecord {
    pub person_id: String,
    pub display_name: String,
}

/// A handle of a person.
#[derive(Debug)]
pub struct PersonHandle {
    pub kind: String,
    pub value: String,
}

/// The person behind a handle.
#[derive(Debug)]
pub struct ResolvedPerson {
    pub person_id: String,
    pub created: bool,
}

/// The score of a person, a double-precision number by its bit pattern.
#[derive(Debug)]
pub struct PersonScore {
    pub person_id: String,
    pub score: u64,
}

/// An interaction with a person.
#[derive(Debug)]
pub struct PersonInteraction {
    pub person_id: String,
    pub at: i64,
}

/// Something that may be worth learning.
#[derive(Debug)]
pub struct LearningCandidate {
    pub text: String,
}

/// An event as it came in.
#[derive(Debug)]
pub struct RawMemoryEvent {
    pub payload: String,
}

/// A question.
#[derive(Debug)]
pub struct AnswerRequest {
    pub question: String,
}

/// An answer, with where it came from.
#[derive(Debug)]
pub struct AnswerResponse {
    pub answer: String,
    pub model: Option<String>,
    pub citations: Vec<String>,
    pub steps: Vec<String>,
}

/// The kind of a facet.
#[derive(Clone, Copy, Debug, PartialEq, Eq, Structural)]
pub enum FacetType {
    Preference,
    Skill,
    Role,
    Personality,
    Context,
}

/// What the user made of a facet.
#[derive(Clone, Copy, Debug, PartialEq, Eq, Structural)]
pub enum UserState {
    Auto,
    Pinned,
    Forgotten,
}

/// Whether a provider can be used.
#[derive(Clone, Copy, Debug, PartialEq, Eq, Structural)]
pub enum MemoryHealth {
    Ready,
    Degraded,
}

/// What a maintenance step did.
#[derive(Clone, Copy, Debug, PartialEq, Eq, Structural)]
pub struct MaintenanceReport {
    pub examined: u64,
    pub changed: u64,
}

impl Default for MaintenanceReport {
    fn default() -> (r: Self)
        ensures
            r == (MaintenanceReport { examined: 0, changed: 0 }),
    {
        MaintenanceReport { examined: 0, changed: 0 }
    }
}

/// What a diagnosis found.
#[derive(Clone, Copy, Debug, PartialEq, Eq, Structural)]
pub struct Diagnosis {
    pub problems: u64,
}

impl Default for Diagnosis {
    fn default() -> (r: Self)
        ensures
            r == (Diagnosis { problems: 0 }),
    {
        Diagnosis { problems: 0 }
    }
}

/// How many capabilities are degraded.
#[derive(Clone, Copy, Debug, PartialEq, Eq, Structural)]
pub struct DegradedCapabilities {
    pub degraded: u64,
}

impl Default for DegradedCapabilities {
    fn default() -> (r: Self)
        ensures
            r == (DegradedCapabilities { degraded: 0 }),
    {
        DegradedCapabilities { degraded: 0 }
    }
}

/// What a sync run did.
#[derive(Clone, Copy, Debug, PartialEq, Eq, Structural)]
pub struct SyncRunOutcome {
    pub records_ingested: u32,
    pub actions_called: u32,
}

impl Default for SyncRunOutcome {
    fn default() -> (r: Self)
        ensures
            r == (SyncRunOutcome { records_ingested: 0, actions_called: 0 }),
    {
        SyncRunOutcome { records_ingested: 0, actions_called: 0 }
    }
}

/// How much of a raw archive its tree covers.
#[derive(Clone, Copy, Debug, PartialEq, Eq, Structural)]
pub struct RawArchiveCoverage {
    pub total: u64,
    pub covered: u64,
}

impl Default for RawArchiveCoverage {
    fn default() -> (r: Self)
        ensures
            r == (RawArchiveCoverage { total: 0, covered: 0 }),
    {
        RawArchiveCoverage { total: 0, covered: 0 }
    }
}

/// What a rebuild from a raw archive did.
#[derive(Clone, Copy, Debug, PartialEq, Eq, Structural)]
pub struct RawRebuildOutcome {
    pub files_read: u64,
    pub batches: u64,
}

impl Default for RawRebuildOutcome {
    fn default() -> (r: Self)
        ensures
            r == (RawRebuildOutcome { files_read: 0, batches: 0 }),
    {
        RawRebuildOutcome { files_read: 0, batches: 0 }
    }
}

/// What an ingestion of coding sessions did.
#[derive(Clone, Copy, Debug, PartialEq, Eq, Structural)]
pub struct CodingSessionIngestReport {
    pub sessions: u64,
    pub chunks: u64,
}

impl Default for CodingSessionIngestReport {
    fn default() -> (r: Self)
        ensures
            r == (CodingSessionIngestReport { sessions: 0, chunks: 0 }),
    {
        CodingSessionIngestReport { sessions: 0, chunks: 0 }
    }
}

/// What seeding from an address book did.
#[derive(Clone, Copy, Debug, PartialEq, Eq, Structural)]
pub struct AddressBookSeedOutcome {
    pub people: u64,
    pub handles: u64,
}

impl Default for AddressBookSeedOutcome {
    fn default() -> (r: Self)
        ensures
            r == (AddressBookSeedOutcome { people: 0, handles: 0 }),
    {
        AddressBookSeedOutcome { people: 0, handles: 0 }
    }
}

} // verus!
