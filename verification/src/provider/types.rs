//! The values that a memory provider is handed and answers with.
//!
//! Times are milliseconds since the epoch.

use vstd::prelude::*;

use crate::documents::MemoryTaint;
use crate::documents::read::StoredMemoryDocument;
use crate::rows::{copy_rows, Row};
use crate::text::{copy_opt, copy_texts, same_text};

verus! {

/// What kind of memory an entry is.
#[derive(Clone, Debug, PartialEq, Eq)]
pub enum MemoryCategory {
    /// Long-term facts and preferences.
    Core,
    /// Daily activities.
    Daily,
    /// Context of a conversation.
    Conversation,
    /// A category of the user's own.
    Custom(String),
}

/// A category, as texts.
pub ghost enum CategoryView {
    Core,
    Daily,
    Conversation,
    Custom(Seq<char>),
}

impl View for MemoryCategory {
    type V = CategoryView;

    open spec fn view(&self) -> CategoryView {
        match *self {
            MemoryCategory::Core => CategoryView::Core,
            MemoryCategory::Daily => CategoryView::Daily,
            MemoryCategory::Conversation => CategoryView::Conversation,
            MemoryCategory::Custom(name) => CategoryView::Custom(name@),
        }
    }
}

impl Row for MemoryCategory {
    fn copied(&self) -> (r: Self) {
        match self {
            MemoryCategory::Core => MemoryCategory::Core,
            MemoryCategory::Daily => MemoryCategory::Daily,
            MemoryCategory::Conversation => MemoryCategory::Conversation,
            MemoryCategory::Custom(name) => MemoryCategory::Custom(name.clone()),
        }
    }
}

impl MemoryCategory {
    /// Whether two categories are the same.
    pub fn is_same(&self, other: &MemoryCategory) -> (r: bool)
        ensures
            r == (self@ == other@),
    {
        match (self, other) {
            (MemoryCategory::Core, MemoryCategory::Core) => true,
            (MemoryCategory::Daily, MemoryCategory::Daily) => true,
            (MemoryCategory::Conversation, MemoryCategory::Conversation) => true,
            (MemoryCategory::Custom(a), MemoryCategory::Custom(b)) => same_text(
                a.as_str(),
                b.as_str(),
            ),
            _ => false,
        }
    }
}

/// What a hit refers to.
#[derive(Clone, Copy, Debug, PartialEq, Eq, Structural)]
pub enum MemoryItemKind {
    Document,
    Kv,
    Episodic,
    Event,
}

/// What each signal contributed to a score, as double-precision numbers by their bit
/// patterns.
#[derive(Clone, Copy, Debug, PartialEq, Eq, Structural)]
pub struct RetrievalScoreBreakdown {
    pub keyword_relevance: u64,
    pub vector_similarity: u64,
    pub graph_relevance: u64,
    pub episodic_relevance: u64,
    pub freshness: u64,
    pub final_score: u64,
}

impl RetrievalScoreBreakdown {
    /// No signal contributed anything.
    pub open spec fn zero() -> RetrievalScoreBreakdown {
        RetrievalScoreBreakdown {
            keyword_relevance: 0,
            vector_similarity: 0,
            graph_relevance: 0,
            episodic_relevance: 0,
            freshness: 0,
            final_score: 0,
        }
    }
}

impl Default for RetrievalScoreBreakdown {
    fn default() -> (r: Self)
        ensures
            r == RetrievalScoreBreakdown::zero(),
    {
        RetrievalScoreBreakdown {
            keyword_relevance: 0,
            vector_similarity: 0,
            graph_relevance: 0,
            episodic_relevance: 0,
            freshness: 0,
            final_score: 0,
        }
    }
}

/// How much a tool rule matters.
#[derive(Clone, Copy, Debug, PartialEq, Eq, Structural)]
pub enum ToolMemoryPriority {
    Normal,
    High,
    Critical,
}

/// Where a tool rule came from.
#[derive(Clone, Copy, Debug, PartialEq, Eq, Structural)]
pub enum ToolMemorySource {
    UserExplicit,
    PostTurn,
    Programmatic,
}

/// The families of operations that a provider can serve.
#[derive(Clone, Copy, Debug, PartialEq, Eq, Structural)]
pub enum Capability {
    Core,
    Recall,
    Portability,
    Ingest,
    Documents,
    Tree,
    Entities,
    Graph,
    Diff,
    Goals,
    ToolMemory,
    Sources,
    Maintenance,
    People,
    Chunks,
    Retrieval,
    Profile,
    Episodic,
    SourceSync,
    CodingSessions,
    Scoring,
    DocumentIngest,
    ConversationIngest,
    LearningIngest,
    EventIngest,
    Answer,
}

/// Why a provider refused an operation.
#[derive(Clone, Debug, PartialEq, Eq)]
pub enum MemoryError {
    /// The provider does not serve the family.
    Unsupported(Capability),
    /// There is no such thing.
    NotFound(String),
    /// The request is malformed.
    Invalid(String),
    /// The store behind the provider failed.
    Backend(String),
}

impl MemoryError {
    /// The error of an operation that a provider does not serve.
    pub fn unsupported(capability: Capability) -> (r: Self)
        ensures
            r == MemoryError::Unsupported(capability),
    {
        MemoryError::Unsupported(capability)
    }
}

/// The sources that a call may read.
#[derive(Clone, Debug)]
pub struct SourceScope {
    pub allow: Vec<String>,
}

impl SourceScope {
    /// Whether the scope allows nothing.
    pub fn is_empty(&self) -> (r: bool)
        ensures
            r == (self.allow@.len() == 0),
    {
        self.allow.len() == 0
    }
}

/// How a recall is narrowed.
#[derive(Clone, Debug)]
pub struct OwnedRecallOpts {
    pub namespace: Option<String>,
    pub category: Option<MemoryCategory>,
    pub session_id: Option<String>,
    /// A double-precision number by its bit pattern.
    pub min_score: Option<u64>,
}

/// A piece of content to be ingested.
#[derive(Clone, Debug)]
pub struct IngestItem {
    pub source_id: String,
    pub content: String,
    pub taint: MemoryTaint,
}

/// What an ingestion wrote.
#[derive(Clone, Copy, Debug, PartialEq, Eq, Structural)]
pub struct IngestOutcome {
    pub chunks_written: u64,
    pub already_ingested: u64,
}

impl IngestOutcome {
    /// Nothing was written.
    pub open spec fn none() -> IngestOutcome {
        IngestOutcome { chunks_written: 0, already_ingested: 0 }
    }
}

impl Default for IngestOutcome {
    fn default() -> (r: Self)
        ensures
            r == IngestOutcome::none(),
    {
        IngestOutcome { chunks_written: 0, already_ingested: 0 }
    }
}

/// The state of a summary tree.
#[derive(Clone, Debug)]
pub struct TreeStatus {
    pub namespace: String,
    pub total_nodes: u64,
    pub depth: u32,
    pub oldest_entry: Option<i64>,
    pub newest_entry: Option<i64>,
    pub last_run_at: Option<i64>,
}

impl TreeStatus {
    /// Whether this is the status of an empty tree.
    pub open spec fn is_empty_tree(self, namespace: Seq<char>) -> bool {
        &&& self.namespace@ == namespace
        &&& self.total_nodes == 0
        &&& self.depth == 0
        &&& self.oldest_entry is None
        &&& self.newest_entry is None
        &&& self.last_run_at is None
    }
}

/// One call that reached the driver.
#[derive(Clone, Debug, PartialEq, Eq)]
pub struct Call {
    /// The family-qualified method name, such as `chunks.list_chunks`.
    pub method: String,
    /// Content the driver was handed, when the method carries any.
    pub content: Option<String>,
    /// Provenance the driver was handed, when the method carries any.
    pub taint: Option<MemoryTaint>,
    /// Whether the method received a scope.
    pub scoped: Option<bool>,
}

/// One call that reached the driver, as texts.
pub ghost struct CallView {
    pub method: Seq<char>,
    pub content: Option<Seq<char>>,
    pub taint: Option<MemoryTaint>,
    pub scoped: Option<bool>,
}

impl View for Call {
    type V = CallView;

    open spec fn view(&self) -> CallView {
        CallView {
            method: self.method@,
            content: crate::text::opt_text(self.content),
            taint: self.taint,
            scoped: self.scoped,
        }
    }
}

impl Row for Call {
    fn copied(&self) -> (r: Self) {
        Call {
            method: self.method.clone(),
            content: copy_opt(&self.content),
            taint: self.taint,
            scoped: self.scoped,
        }
    }
}

/// A stored entry.
#[derive(Clone, Debug)]
pub struct MemoryEntry {
    pub id: String,
    pub key: String,
    pub content: String,
    pub namespace: Option<String>,
    pub category: MemoryCategory,
    pub timestamp: String,
    pub session_id: Option<String>,
    /// A double-precision number by its bit pattern.
    pub score: Option<u64>,
    pub taint: MemoryTaint,
}

/// A stored entry, as texts.
pub ghost struct EntryView {
    pub id: Seq<char>,
    pub key: Seq<char>,
    pub content: Seq<char>,
    pub namespace: Option<Seq<char>>,
    pub category: CategoryView,
    pub timestamp: Seq<char>,
    pub session_id: Option<Seq<char>>,
    pub score: Option<u64>,
    pub taint: MemoryTaint,
}

impl View for MemoryEntry {
    type V = EntryView;

    open spec fn view(&self) -> EntryView {
        EntryView {
            id: self.id@,
            key: self.key@,
            content: self.content@,
            namespace: crate::text::opt_text(self.namespace),
            category: self.category@,
            timestamp: self.timestamp@,
            session_id: crate::text::opt_text(self.session_id),
            score: self.score,
            taint: self.taint,
        }
    }
}

impl Row for MemoryEntry {
    fn copied(&self) -> (r: Self) {
        MemoryEntry {
            id: self.id.clone(),
            key: self.key.clone(),
            content: self.content.clone(),
            namespace: copy_opt(&self.namespace),
            category: self.category.copied(),
            timestamp: self.timestamp.clone(),
            session_id: copy_opt(&self.session_id),
            score: self.score,
            taint: self.taint,
        }
    }
}

/// How many entries a namespace holds.
#[derive(Clone, Debug)]
pub struct NamespaceSummary {
    pub namespace: String,
    pub count: usize,
    pub last_updated: Option<String>,
}

/// How many entries a namespace holds, as texts.
pub ghost struct SummaryView {
    pub namespace: Seq<char>,
    pub count: usize,
    pub last_updated: Option<Seq<char>>,
}

impl View for NamespaceSummary {
    type V = SummaryView;

    open spec fn view(&self) -> SummaryView {
        SummaryView {
            namespace: self.namespace@,
            count: self.count,
            last_updated: crate::text::opt_text(self.last_updated),
        }
    }
}

impl Row for NamespaceSummary {
    fn copied(&self) -> (r: Self) {
        NamespaceSummary {
            namespace: self.namespace.clone(),
            count: self.count,
            last_updated: copy_opt(&self.last_updated),
        }
    }
}

/// A relation of the graph, with its evidence.
#[derive(Clone, Debug)]
pub struct GraphRelationRecord {
    pub namespace: Option<String>,
    pub subject: String,
    pub predicate: String,
    pub object: String,
    /// JSON text.
    pub attrs: String,
    pub updated_at: i64,
    pub evidence_count: u32,
    pub order_index: Option<i64>,
    pub document_ids: Vec<String>,
    pub chunk_ids: Vec<String>,
}

/// A relation of the graph, with its evidence, as texts.
pub ghost struct RelationView {
    pub namespace: Option<Seq<char>>,
    pub subject: Seq<char>,
    pub predicate: Seq<char>,
    pub object: Seq<char>,
    pub attrs: Seq<char>,
    pub updated_at: i64,
    pub evidence_count: u32,
    pub order_index: Option<i64>,
    pub document_ids: Seq<Seq<char>>,
    pub chunk_ids: Seq<Seq<char>>,
}

impl View for GraphRelationRecord {
    type V = RelationView;

    open spec fn view(&self) -> RelationView {
        RelationView {
            namespace: crate::text::opt_text(self.namespace),
            subject: self.subject@,
            predicate: self.predicate@,
            object: self.object@,
            attrs: self.attrs@,
            updated_at: self.updated_at,
            evidence_count: self.evidence_count,
            order_index: self.order_index,
            document_ids: crate::text::texts(self.document_ids@),
            chunk_ids: crate::text::texts(self.chunk_ids@),
        }
    }
}

impl Row for GraphRelationRecord {
    fn copied(&self) -> (r: Self) {
        GraphRelationRecord {
            namespace: copy_opt(&self.namespace),
            subject: self.subject.clone(),
            predicate: self.predicate.clone(),
            object: self.object.clone(),
            attrs: self.attrs.clone(),
            updated_at: self.updated_at,
            evidence_count: self.evidence_count,
            order_index: self.order_index,
            document_ids: copy_texts(&self.document_ids),
            chunk_ids: copy_texts(&self.chunk_ids),
        }
    }
}

/// A key-value row, of a namespace or of none.
#[derive(Clone, Debug)]
pub struct MemoryKvRecord {
    pub namespace: Option<String>,
    pub key: String,
    /// JSON text.
    pub value: String,
    pub updated_at: i64,
}

/// A key-value row, of a namespace or of none, as texts.
pub ghost struct KvRecordView {
    pub namespace: Option<Seq<char>>,
    pub key: Seq<char>,
    pub value: Seq<char>,
    pub updated_at: i64,
}

impl View for MemoryKvRecord {
    type V = KvRecordView;

    open spec fn view(&self) -> KvRecordView {
        KvRecordView {
            namespace: crate::text::opt_text(self.namespace),
            key: self.key@,
            value: self.value@,
            updated_at: self.updated_at,
        }
    }
}

impl Row for MemoryKvRecord {
    fn copied(&self) -> (r: Self) {
        MemoryKvRecord {
            namespace: copy_opt(&self.namespace),
            key: self.key.clone(),
            value: self.value.clone(),
            updated_at: self.updated_at,
        }
    }
}

/// A ranked hit of a namespace. Scores are double-precision numbers by their bit patterns.
#[derive(Clone, Debug)]
pub struct NamespaceMemoryHit {
    pub id: String,
    pub kind: MemoryItemKind,
    pub namespace: String,
    pub key: String,
    pub title: Option<String>,
    pub content: String,
    pub category: String,
    pub source_type: Option<String>,
    pub updated_at: i64,
    pub score: u64,
    pub score_breakdown: RetrievalScoreBreakdown,
    pub document_id: Option<String>,
    pub chunk_id: Option<String>,
    pub supporting_relations: Vec<GraphRelationRecord>,
    pub taint: MemoryTaint,
}

/// A ranked hit of a namespace, as texts.
pub ghost struct HitView {
    pub id: Seq<char>,
    pub kind: MemoryItemKind,
    pub namespace: Seq<char>,
    pub key: Seq<char>,
    pub title: Option<Seq<char>>,
    pub content: Seq<char>,
    pub category: Seq<char>,
    pub source_type: Option<Seq<char>>,
    pub updated_at: i64,
    pub score: u64,
    pub score_breakdown: RetrievalScoreBreakdown,
    pub document_id: Option<Seq<char>>,
    pub chunk_id: Option<Seq<char>>,
    pub supporting_relations: Seq<RelationView>,
    pub taint: MemoryTaint,
}

impl View for NamespaceMemoryHit {
    type V = HitView;

    open spec fn view(&self) -> HitView {
        HitView {
            id: self.id@,
            kind: self.kind,
            namespace: self.namespace@,
            key: self.key@,
            title: crate::text::opt_text(self.title),
            content: self.content@,
            category: self.category@,
            source_type: crate::text::opt_text(self.source_type),
            updated_at: self.updated_at,
            score: self.score,
            score_breakdown: self.score_breakdown,
            document_id: crate::text::opt_text(self.document_id),
            chunk_id: crate::text::opt_text(self.chunk_id),
            supporting_relations: crate::rows::row_views(self.supporting_relations@),
            taint: self.taint,
        }
    }
}

impl Row for NamespaceMemoryHit {
    fn copied(&self) -> (r: Self) {
        NamespaceMemoryHit {
            id: self.id.clone(),
            kind: self.kind,
            namespace: self.namespace.clone(),
            key: self.key.clone(),
            title: copy_opt(&self.title),
            content: self.content.clone(),
            category: self.category.clone(),
            source_type: copy_opt(&self.source_type),
            updated_at: self.updated_at,
            score: self.score,
            score_breakdown: self.score_breakdown,
            document_id: copy_opt(&self.document_id),
            chunk_id: copy_opt(&self.chunk_id),
            supporting_relations: copy_rows(&self.supporting_relations),
            taint: self.taint,
        }
    }
}

/// Hits of a namespace and the text assembled from them.
#[derive(Clone, Debug)]
pub struct NamespaceRetrievalContext {
    pub namespace: String,
    pub query: Option<String>,
    pub context_text: String,
    pub hits: Vec<NamespaceMemoryHit>,
}

/// Hits of a namespace and the text assembled from them, as texts.
pub ghost struct ContextView {
    pub namespace: Seq<char>,
    pub query: Option<Seq<char>>,
    pub context_text: Seq<char>,
    pub hits: Seq<HitView>,
}

impl View for NamespaceRetrievalContext {
    type V = ContextView;

    open spec fn view(&self) -> ContextView {
        ContextView {
            namespace: self.namespace@,
            query: crate::text::opt_text(self.query),
            context_text: self.context_text@,
            hits: crate::rows::row_views(self.hits@),
        }
    }
}

impl Row for NamespaceRetrievalContext {
    fn copied(&self) -> (r: Self) {
        NamespaceRetrievalContext {
            namespace: self.namespace.clone(),
            query: copy_opt(&self.query),
            context_text: self.context_text.clone(),
            hits: copy_rows(&self.hits),
        }
    }
}

/// A rule that was learned for a tool.
#[derive(Clone, Debug)]
pub struct ToolMemoryRule {
    pub id: String,
    pub tool_name: String,
    pub rule: String,
    pub priority: ToolMemoryPriority,
    pub source: ToolMemorySource,
    pub tags: Vec<String>,
    pub created_at: String,
    pub updated_at: String,
}

/// A rule that was learned for a tool, as texts.
pub ghost struct RuleView {
    pub id: Seq<char>,
    pub tool_name: Seq<char>,
    pub rule: Seq<char>,
    pub priority: ToolMemoryPriority,
    pub source: ToolMemorySource,
    pub tags: Seq<Seq<char>>,
    pub created_at: Seq<char>,
    pub updated_at: Seq<char>,
}

impl View for ToolMemoryRule {
    type V = RuleView;

    open spec fn view(&self) -> RuleView {
        RuleView {
            id: self.id@,
            tool_name: self.tool_name@,
            rule: self.rule@,
            priority: self.priority,
            source: self.source,
            tags: crate::text::texts(self.tags@),
            created_at: self.created_at@,
            updated_at: self.updated_at@,
        }
    }
}

impl Row for ToolMemoryRule {
    fn copied(&self) -> (r: Self) {
        ToolMemoryRule {
            id: self.id.clone(),
            tool_name: self.tool_name.clone(),
            rule: self.rule.clone(),
            priority: self.priority,
            source: self.source,
            tags: copy_texts(&self.tags),
            created_at: self.created_at.clone(),
            updated_at: self.updated_at.clone(),
        }
    }
}

/// One goal.
#[derive(Clone, Debug)]
pub struct GoalItem {
    pub id: String,
    pub text: String,
}

/// One goal, as texts.
pub ghost struct GoalView {
    pub id: Seq<char>,
    pub text: Seq<char>,
}

impl View for GoalItem {
    type V = GoalView;

    open spec fn view(&self) -> GoalView {
        GoalView {
            id: self.id@,
            text: self.text@,
        }
    }
}

impl Row for GoalItem {
    fn copied(&self) -> (r: Self) {
        GoalItem {
            id: self.id.clone(),
            text: self.text.clone(),
        }
    }
}

/// The goals.
#[derive(Clone, Debug)]
pub struct GoalsDoc {
    pub items: Vec<GoalItem>,
}

/// The goals, as texts.
pub ghost struct GoalsView {
    pub items: Seq<GoalView>,
}

impl View for GoalsDoc {
    type V = GoalsView;

    open spec fn view(&self) -> GoalsView {
        GoalsView {
            items: crate::rows::row_views(self.items@),
        }
    }
}

impl Row for GoalsDoc {
    fn copied(&self) -> (r: Self) {
        GoalsDoc {
            items: copy_rows(&self.items),
        }
    }
}

/// A hit of a tree retrieval. The score is a single-precision number by its bit pattern.
#[derive(Clone, Debug)]
pub struct RetrievalHit {
    pub node_id: String,
    pub tree_scope: String,
    pub content: String,
    pub score: u32,
}

/// A hit of a tree retrieval, as texts.
pub ghost struct RetrievalHitView {
    pub node_id: Seq<char>,
    pub tree_scope: Seq<char>,
    pub content: Seq<char>,
    pub score: u32,
}

impl View for RetrievalHit {
    type V = RetrievalHitView;

    open spec fn view(&self) -> RetrievalHitView {
        RetrievalHitView {
            node_id: self.node_id@,
            tree_scope: self.tree_scope@,
            content: self.content@,
            score: self.score,
        }
    }
}

impl Row for RetrievalHit {
    fn copied(&self) -> (r: Self) {
        RetrievalHit {
            node_id: self.node_id.clone(),
            tree_scope: self.tree_scope.clone(),
            content: self.content.clone(),
            score: self.score,
        }
    }
}

/// The hits of a tree retrieval.
#[derive(Clone, Debug)]
pub struct RetrievalResponse {
    pub hits: Vec<RetrievalHit>,
    pub total: usize,
    pub truncated: bool,
}

/// The hits of a tree retrieval, as texts.
pub ghost struct ResponseView {
    pub hits: Seq<RetrievalHitView>,
    pub total: usize,
    pub truncated: bool,
}

impl View for RetrievalResponse {
    type V = ResponseView;

    open spec fn view(&self) -> ResponseView {
        ResponseView {
            hits: crate::rows::row_views(self.hits@),
            total: self.total,
            truncated: self.truncated,
        }
    }
}

impl Row for RetrievalResponse {
    fn copied(&self) -> (r: Self) {
        RetrievalResponse {
            hits: copy_rows(&self.hits),
            total: self.total,
            truncated: self.truncated,
        }
    }
}

/// A record of an export.
#[derive(Clone, Debug)]
pub struct ExportRecord {
    pub kind: String,
    pub id: String,
    pub namespace: Option<String>,
    pub taint: MemoryTaint,
    /// JSON text.
    pub payload: String,
}

/// A record of an export, as texts.
pub ghost struct RecordView {
    pub kind: Seq<char>,
    pub id: Seq<char>,
    pub namespace: Option<Seq<char>>,
    pub taint: MemoryTaint,
    pub payload: Seq<char>,
}

impl View for ExportRecord {
    type V = RecordView;

    open spec fn view(&self) -> RecordView {
        RecordView {
            kind: self.kind@,
            id: self.id@,
            namespace: crate::text::opt_text(self.namespace),
            taint: self.taint,
            payload: self.payload@,
        }
    }
}

impl Row for ExportRecord {
    fn copied(&self) -> (r: Self) {
        ExportRecord {
            kind: self.kind.clone(),
            id: self.id.clone(),
            namespace: copy_opt(&self.namespace),
            taint: self.taint,
            payload: self.payload.clone(),
        }
    }
}

/// What a record decodes to.
#[derive(Debug)]
pub struct DecodedRecord {
    pub namespace: String,
    pub key: String,
    pub content: String,
    pub category: MemoryCategory,
    pub session_id: Option<String>,
}

/// A record to be imported, with what it decodes to, if it does.
#[derive(Debug)]
pub struct ImportRecord {
    pub record: ExportRecord,
    pub decoded: Option<DecodedRecord>,
}

/// What an import wrote.
#[derive(Debug)]
pub struct ImportOutcome {
    pub imported: u64,
    pub failed: u64,
    pub errors: Vec<String>,
}

impl Row for StoredMemoryDocument {
    fn copied(&self) -> (r: Self) {
        StoredMemoryDocument {
            document_id: self.document_id.clone(),
            namespace: self.namespace.clone(),
            key: self.key.clone(),
            title: self.title.clone(),
            content: self.content.clone(),
            source_type: self.source_type.clone(),
            priority: self.priority.clone(),
            tags: copy_texts(&self.tags),
            metadata: self.metadata.clone(),
            category: self.category.clone(),
            session_id: copy_opt(&self.session_id),
            created_at: self.created_at,
            updated_at: self.updated_at,
            markdown_rel_path: self.markdown_rel_path.clone(),
            taint: self.taint,
        }
    }
}

impl RetrievalResponse {
    /// A response without hits.
    pub open spec fn empty_view() -> ResponseView {
        ResponseView { hits: Seq::empty(), total: 0, truncated: false }
    }
}

impl Default for RetrievalResponse {
    fn default() -> (r: Self)
        ensures
            r@ == RetrievalResponse::empty_view(),
    {
        let r = RetrievalResponse { hits: Vec::new(), total: 0, truncated: false };
        assert(r@.hits =~= Seq::empty());
        r
    }
}

impl Default for GoalsDoc {
    fn default() -> (r: Self)
        ensures
            r@ == (GoalsView { items: Seq::empty() }),
    {
        let r = GoalsDoc { items: Vec::new() };
        assert(r@.items =~= Seq::empty());
        r
    }
}

} // verus!
