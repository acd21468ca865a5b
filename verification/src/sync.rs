//! Connector synchronisation: the tree identity of a connector item, what is
//! handed to the tree for it, and how a sync run is admitted and reported.

use vstd::prelude::*;

pub mod laws;

use crate::outside::now_millis;
use crate::sources::{MemorySourceEntry, SourceKind, SyncBudget};
use crate::text::{joined2, joined3, joined4, to_ascii_lower, trim};

verus! {

/// The tree identity of one connector item, derived once for every reader and
/// writer of it.
#[derive(Clone, Debug)]
pub struct ConnectorItemIdentity {
    /// `{toolkit}:{connection_id}`: the scope retrieval resolves by prefix.
    pub tree_scope: String,
    /// `{tree_scope}:{item_id}`: the ingest gate's key, one per item.
    pub source_id: String,
    /// `{toolkit}-sync:{connection_id}`.
    pub owner: String,
    /// The normalised toolkit.
    pub toolkit: String,
}

/// A connector item's tree identity, as texts.
pub ghost struct IdentityView {
    pub tree_scope: Seq<char>,
    pub source_id: Seq<char>,
    pub owner: Seq<char>,
    pub toolkit: Seq<char>,
}

impl View for ConnectorItemIdentity {
    type V = IdentityView;

    open spec fn view(&self) -> IdentityView {
        IdentityView {
            tree_scope: self.tree_scope@,
            source_id: self.source_id@,
            owner: self.owner@,
            toolkit: self.toolkit@,
        }
    }
}

/// A failure of the tree store.
#[derive(Debug)]
pub struct TreeFailure {
    /// The rendered error.
    pub message: String,
    /// Whether the store itself is damaged, so that every later item would fail
    /// in the same way.
    pub corrupt: bool,
}

/// A tree failure, with its message as a text.
pub ghost struct FailureView {
    pub message: Seq<char>,
    pub corrupt: bool,
}

impl View for TreeFailure {
    type V = FailureView;

    open spec fn view(&self) -> FailureView {
        FailureView { message: self.message@, corrupt: self.corrupt }
    }
}

/// The failure policy of every connector path: a damaged store is handed back,
/// so that the run ends; any other failure is counted, and the run goes on.
pub fn escalate_or_count(failure: TreeFailure, counter: &mut u32) -> (r: Result<(), TreeFailure>)
    ensures
        failure.corrupt ==> r == Err::<(), TreeFailure>(failure) && *final(counter) == *old(
            counter,
        ),
        !failure.corrupt ==> r is Ok && *final(counter) == counted(*old(counter)),
{
    if failure.corrupt {
        Err(failure)
    } else {
        *counter = counter.wrapping_add(1);
        Ok(())
    }
}

/// A failure counter after one more failure; it wraps as an atomic counter does.
pub open spec fn counted(counter: u32) -> u32 {
    if counter == u32::MAX {
        0
    } else {
        (counter + 1) as u32
    }
}

/// The normal form of a toolkit name: trimmed, with ASCII letters lowered.
pub open spec fn normal_toolkit(toolkit: Seq<char>) -> Seq<char> {
    crate::text::ascii_lower(crate::text::trimmed(toolkit))
}

/// The normal form of a connection id: trimmed.
pub open spec fn normal_connection(connection_id: Seq<char>) -> Seq<char> {
    crate::text::trimmed(connection_id)
}

/// `{toolkit}:{connection_id}`, of a toolkit and a connection in normal form.
pub open spec fn scope_of(toolkit: Seq<char>, connection_id: Seq<char>) -> Seq<char> {
    toolkit + ":"@ + connection_id
}

/// The identity of a connector item, where neither scope half is blank.
pub open spec fn identity_of(
    toolkit: Seq<char>,
    connection_id: Seq<char>,
    item_id: Seq<char>,
) -> Option<IdentityView> {
    let toolkit = normal_toolkit(toolkit);
    let connection_id = normal_connection(connection_id);
    if toolkit.len() == 0 || connection_id.len() == 0 {
        None
    } else {
        let tree_scope = scope_of(toolkit, connection_id);
        Some(
            IdentityView {
                tree_scope,
                source_id: tree_scope + ":"@ + item_id,
                owner: toolkit + "-sync:"@ + connection_id,
                toolkit,
            },
        )
    }
}

/// Derives the identity of a connector item, or `None` when either scope half
/// is blank: a scope with no platform prefix is one no retrieval resolves.
pub fn connector_item_identity(toolkit: &str, connection_id: &str, item_id: &str) -> (r: Option<
    ConnectorItemIdentity,
>)
    ensures
        match r {
            Some(identity) => identity_of(toolkit@, connection_id@, item_id@) == Some(identity@),
            None => identity_of(toolkit@, connection_id@, item_id@) is None,
        },
{
    let toolkit = to_ascii_lower(trim(toolkit));
    let connection_id = trim(connection_id);
    if toolkit.as_str().is_empty() || connection_id.is_empty() {
        return None;
    }
    let tree_scope = joined3(toolkit.as_str(), ":", connection_id);
    Some(
        ConnectorItemIdentity {
            source_id: joined3(tree_scope.as_str(), ":", item_id),
            owner: joined3(toolkit.as_str(), "-sync:", connection_id),
            tree_scope,
            toolkit,
        },
    )
}

/// The identity depends on the normal forms alone, so a reader that hands in
/// names already in normal form gets the identity the writer got.
pub proof fn law_identity_of_normal_forms(
    toolkit: Seq<char>,
    connection_id: Seq<char>,
    item_id: Seq<char>,
)
    ensures
        identity_of(normal_toolkit(toolkit), normal_connection(connection_id), item_id)
            == identity_of(toolkit, connection_id, item_id),
        normal_toolkit(normal_toolkit(toolkit)) == normal_toolkit(toolkit),
        normal_connection(normal_connection(connection_id)) == normal_connection(connection_id),
{
    crate::text::lemma_lowered_trimmed(toolkit);
    crate::text::lemma_ascii_lower_idempotent(crate::text::trimmed(toolkit));
    crate::text::lemma_trimmed_idempotent(connection_id);
}

/// Items of one connection have different source ids when their item ids
/// differ, and every source id starts with the tree scope and a colon.
pub proof fn law_source_ids_tell_items_apart(
    toolkit: Seq<char>,
    connection_id: Seq<char>,
    a: Seq<char>,
    b: Seq<char>,
)
    requires
        identity_of(toolkit, connection_id, a) is Some,
        a != b,
    ensures
        identity_of(toolkit, connection_id, b) is Some,
        identity_of(toolkit, connection_id, a)->0.tree_scope == identity_of(
            toolkit,
            connection_id,
            b,
        )->0.tree_scope,
        identity_of(toolkit, connection_id, a)->0.source_id != identity_of(
            toolkit,
            connection_id,
            b,
        )->0.source_id,
        (identity_of(toolkit, connection_id, a)->0.tree_scope + ":"@).is_prefix_of(
            identity_of(toolkit, connection_id, a)->0.source_id,
        ),
{
    let x = identity_of(toolkit, connection_id, a)->0;
    let y = identity_of(toolkit, connection_id, b)->0;
    let head = x.tree_scope + ":"@;
    if x.source_id == y.source_id {
        assert(x.source_id.skip(head.len() as int) =~= a);
        assert(y.source_id.skip(head.len() as int) =~= b);
    }
    assert(x.source_id.take(head.len() as int) =~= head);
}

/// A document for the tree, under its scope.
#[derive(Debug)]
pub struct ScopedIngest {
    pub source_id: String,
    pub owner: String,
    pub tags: Vec<String>,
    pub provider: String,
    pub title: String,
    pub body: String,
    pub modified_at: i64,
    pub source_ref: Option<String>,
    pub path_scope: Option<String>,
}

/// A document for the tree, as texts.
pub ghost struct IngestView {
    pub source_id: Seq<char>,
    pub owner: Seq<char>,
    pub tags: Seq<Seq<char>>,
    pub provider: Seq<char>,
    pub title: Seq<char>,
    pub body: Seq<char>,
    pub modified_at: i64,
    pub source_ref: Option<Seq<char>>,
    pub path_scope: Option<Seq<char>>,
}

impl View for ScopedIngest {
    type V = IngestView;

    open spec fn view(&self) -> IngestView {
        IngestView {
            source_id: self.source_id@,
            owner: self.owner@,
            tags: crate::text::texts(self.tags@),
            provider: self.provider@,
            title: self.title@,
            body: self.body@,
            modified_at: self.modified_at,
            source_ref: crate::text::opt_text(self.source_ref),
            path_scope: crate::text::opt_text(self.path_scope),
        }
    }
}

/// What the tree is handed for a connector item, where the item has a scope.
pub open spec fn connector_ingest(
    toolkit: Seq<char>,
    connection_id: Seq<char>,
    item_id: Seq<char>,
    title: Seq<char>,
    content: Seq<char>,
    modified_at: i64,
) -> Option<IngestView> {
    match identity_of(toolkit, connection_id, item_id) {
        Some(identity) => Some(
            IngestView {
                source_id: identity.source_id,
                owner: identity.owner,
                tags: seq![identity.toolkit],
                provider: "composio:"@ + identity.toolkit,
                title,
                body: content,
                modified_at,
                source_ref: Some(item_id),
                path_scope: Some(identity.tree_scope),
            },
        ),
        None => None,
    }
}

/// The view of what the tree is handed, if anything.
pub open spec fn opt_ingest(ingest: Option<ScopedIngest>) -> Option<IngestView> {
    match ingest {
        Some(ingest) => Some(ingest@),
        None => None,
    }
}

/// What the tree is handed for a connector item at a given time. `None` where the item has
/// no scope: the caller's own store still holds it, and only the tree skips it.
pub fn ingest_connector_item_at(
    toolkit: &str,
    connection_id: &str,
    item_id: &str,
    title: &str,
    content: &str,
    modified_at: i64,
) -> (r: Option<ScopedIngest>)
    ensures
        opt_ingest(r) == connector_ingest(
            toolkit@,
            connection_id@,
            item_id@,
            title@,
            content@,
            modified_at,
        ),
{
    let identity = match connector_item_identity(toolkit, connection_id, item_id) {
        Some(identity) => identity,
        None => {
            return None;
        },
    };
    let provider = joined2("composio:", identity.toolkit.as_str());
    let mut tags: Vec<String> = Vec::new();
    tags.push(identity.toolkit);
    let ingest = ScopedIngest {
        source_id: identity.source_id,
        owner: identity.owner,
        tags,
        provider,
        title: title.to_owned(),
        body: content.to_owned(),
        modified_at,
        source_ref: Some(item_id.to_owned()),
        path_scope: Some(identity.tree_scope),
    };
    assert(ingest@.tags =~= seq![normal_toolkit(toolkit@)]);
    Some(ingest)
}

/// What the tree is handed for a connector item now.
pub fn ingest_connector_item_into_tree(
    toolkit: &str,
    connection_id: &str,
    item_id: &str,
    title: &str,
    content: &str,
) -> (r: Option<ScopedIngest>)
    ensures
        exists|now: i64|
            opt_ingest(r) == #[trigger] connector_ingest(
                toolkit@,
                connection_id@,
                item_id@,
                title@,
                content@,
                now,
            ),
{
    let now: i64 = now_millis();
    ingest_connector_item_at(toolkit, connection_id, item_id, title, content, now)
}

/// The message of a failed ingest.
pub fn ingest_failure(source_id: &str, error: &str) -> (r: String)
    ensures
        r@ == "memory-tree ingest failed for source `"@ + source_id@ + "`: "@ + error@,
{
    joined4("memory-tree ingest failed for source `", source_id, "`: ", error)
}

/// The failure of an outcome, if it is one.
pub open spec fn failure_of(outcome: Result<(), TreeFailure>) -> Option<FailureView> {
    match outcome {
        Ok(()) => None,
        Err(failure) => Some(failure@),
    }
}

/// The counter after an outcome, and whether the outcome ends the run.
pub open spec fn settled(counter: u32, failure: Option<FailureView>) -> (u32, bool) {
    match failure {
        None => (counter, false),
        Some(failure) => if failure.corrupt {
            (counter, true)
        } else {
            (counted(counter), false)
        },
    }
}

/// Settles the outcome of a connector item's ingest: the tree is a secondary index over a
/// store that has already committed, so only a damaged tree ends the run.
pub fn ingest_connector_item_tolerated(
    outcome: Result<(), TreeFailure>,
    counter: &mut u32,
) -> (r: Result<(), TreeFailure>)
    ensures
        (*final(counter), r is Err) == settled(*old(counter), failure_of(outcome)),
        r is Err ==> r == outcome,
{
    match outcome {
        Ok(()) => Ok(()),
        Err(failure) => escalate_or_count(failure, counter),
    }
}

/// Sync audit records, for surfaces that do their best: records that could not be read are
/// none.
pub fn read_audit_log<E>(records: Result<Vec<E>, String>) -> (r: Vec<E>)
    ensures
        r@ == match records {
            Ok(records) => records@,
            Err(_) => Seq::empty(),
        },
{
    match records {
        Ok(records) => records,
        Err(_) => Vec::new(),
    }
}

/// A failed source pipeline, with what it used.
#[derive(Debug)]
pub struct SourcePipelineFailure {
    pub message: String,
    pub actions_called: u32,
    /// Dollars, a double-precision number by its bit pattern.
    pub provider_cost_usd: u64,
}

/// What a pipeline run did, as the engine reports it.
#[derive(Debug)]
pub struct SyncOutcome {
    pub records_ingested: u32,
    pub more_pending: bool,
    pub actions_called: u32,
    /// Dollars, a double-precision number by its bit pattern.
    pub provider_cost_usd: u64,
    pub note: Option<String>,
}

/// What a pipeline run did, with the items whose fetch committed and whose tree ingest did
/// not.
#[derive(Debug)]
pub struct SourcePipelineOutcome {
    pub records_ingested: u32,
    pub more_pending: bool,
    pub actions_called: u32,
    /// Dollars, a double-precision number by its bit pattern.
    pub provider_cost_usd: u64,
    pub note: Option<String>,
    pub tree_ingest_failures: u32,
}

impl SourcePipelineFailure {
    /// Whether this is a failure with a message, and with no usage.
    pub open spec fn is_unused(self, message: Seq<char>) -> bool {
        self.message@ == message && self.actions_called == 0 && self.provider_cost_usd == 0
    }

    /// A failure before anything was used.
    pub fn without_usage(message: String) -> (r: Self)
        ensures
            r.is_unused(message@),
    {
        SourcePipelineFailure { message, actions_called: 0, provider_cost_usd: 0 }
    }
}

/// Which pipeline reads a source.
#[derive(Clone, Copy, Debug, PartialEq, Eq, Structural)]
pub enum PipelineKind {
    /// Activity of a GitHub repository.
    GithubRepo,
    /// Anything else that is read here.
    Workspace,
}

/// What a pipeline run is given besides its events, documents and state.
#[derive(Clone, Copy, Debug, PartialEq, Eq, Structural)]
pub struct ContextParts {
    pub local_documents: bool,
    pub external_sources: bool,
    pub summariser: bool,
}

/// How a source is run.
#[derive(Clone, Copy, Debug, PartialEq, Eq, Structural)]
pub struct PipelineRun {
    pub pipeline: PipelineKind,
    /// How many seconds the host leaves between two runs.
    pub interval_secs: u64,
    pub budget: SyncBudget,
    pub parts: ContextParts,
}

/// Which pipeline a source gets; connector sources get none.
pub fn build_pipeline(source: &MemorySourceEntry) -> (r: Result<PipelineKind, String>)
    ensures
        match r {
            Ok(pipeline) => source.kind != SourceKind::Composio && pipeline == (if source.kind
                == SourceKind::GithubRepo {
                PipelineKind::GithubRepo
            } else {
                PipelineKind::Workspace
            }),
            Err(error) => source.kind == SourceKind::Composio && error@
                == "engine seam does not build composio pipelines (kind "@ + source.kind.named()
                + " unexpected here)"@,
        },
{
    if source.kind != SourceKind::Composio {
        if source.kind == SourceKind::GithubRepo {
            return Ok(PipelineKind::GithubRepo);
        }
        return Ok(PipelineKind::Workspace);
    }
    Err(
        joined3(
            "engine seam does not build composio pipelines (kind ",
            source.kind.name(),
            " unexpected here)",
        ),
    )
}

/// What a run over an adapter is given: everything local, or nothing.
pub fn context_over_adapter(local: bool) -> (r: ContextParts)
    ensures
        r == (ContextParts {
            local_documents: local,
            external_sources: local,
            summariser: local,
        }),
{
    ContextParts { local_documents: local, external_sources: local, summariser: local }
}

/// Admits a source to its pipeline. A connector source is refused, because it is read
/// elsewhere: a run that read nothing and reported no error would move the caller's cursor
/// past what nobody looked at. A source is refused too while the memory client is not
/// ready.
pub fn admit_source(source: &MemorySourceEntry, client_ready: bool, interval_secs: u64) -> (r:
    Result<PipelineRun, SourcePipelineFailure>)
    ensures
        match r {
            Ok(run) => source.kind != SourceKind::Composio && client_ready && run == (PipelineRun {
                pipeline: if source.kind == SourceKind::GithubRepo {
                    PipelineKind::GithubRepo
                } else {
                    PipelineKind::Workspace
                },
                interval_secs,
                budget: source.budget,
                parts: (ContextParts {
                    local_documents: true,
                    external_sources: true,
                    summariser: true,
                }),
            }),
            Err(failure) => if source.kind == SourceKind::Composio {
                failure.is_unused(
                    "composio sources are synced through the connector module, not this pipeline"@,
                )
            } else {
                !client_ready && failure.is_unused("memory client is not ready"@)
            },
        },
{
    if source.kind == SourceKind::Composio {
        return Err(
            SourcePipelineFailure::without_usage(
                "composio sources are synced through the connector module, not this pipeline".to_owned(),
            ),
        );
    }
    if !client_ready {
        return Err(SourcePipelineFailure::without_usage("memory client is not ready".to_owned()));
    }
    let pipeline = match build_pipeline(source) {
        Ok(pipeline) => pipeline,
        Err(error) => {
            return Err(SourcePipelineFailure::without_usage(error));
        },
    };
    let local = source.kind != SourceKind::Composio;
    Ok(
        PipelineRun {
            pipeline,
            interval_secs,
            budget: source.budget,
            parts: context_over_adapter(local),
        },
    )
}

/// Why a pipeline could not run, or failed in its run, with what it had used, where that is
/// known.
#[derive(Debug)]
pub struct SyncRunError {
    pub message: String,
    /// The actions called, and dollars as a double-precision number by its bit pattern.
    pub usage: Option<(u32, u64)>,
}

/// The outcome of a run, with the tree failures that were tolerated in it. A fetch that
/// committed while its tree ingest did not is counted, so that it does not pass for a
/// success.
pub fn run_source_pipeline_core(
    run: Result<SyncOutcome, SyncRunError>,
    tree_ingest_failures: u32,
) -> (r: Result<SourcePipelineOutcome, SourcePipelineFailure>)
    ensures
        match run {
            Ok(outcome) => r == Ok::<_, SourcePipelineFailure>(
                (SourcePipelineOutcome {
                    records_ingested: outcome.records_ingested,
                    more_pending: outcome.more_pending,
                    actions_called: outcome.actions_called,
                    provider_cost_usd: outcome.provider_cost_usd,
                    note: outcome.note,
                    tree_ingest_failures,
                }),
            ),
            Err(error) => r matches Err(failure) && match error.usage {
                Some((actions, cost)) => failure.message@ == error.message@
                    && failure.actions_called == actions && failure.provider_cost_usd == cost,
                None => failure.is_unused(error.message@),
            },
        },
        run is Ok ==> r is Ok && r->Ok_0 == with_failures(run->Ok_0, tree_ingest_failures),
{
    match run {
        Ok(outcome) => Ok(
            SourcePipelineOutcome {
                records_ingested: outcome.records_ingested,
                more_pending: outcome.more_pending,
                actions_called: outcome.actions_called,
                provider_cost_usd: outcome.provider_cost_usd,
                note: outcome.note,
                tree_ingest_failures,
            },
        ),
        Err(error) => match error.usage {
            Some((actions_called, provider_cost_usd)) => Err(
                SourcePipelineFailure {
                    message: error.message,
                    actions_called,
                    provider_cost_usd,
                },
            ),
            None => Err(SourcePipelineFailure::without_usage(error.message)),
        },
    }
}

/// The outcome of a run, for callers that do not ask about the tree.
pub fn run_source_pipeline(outcome: Result<SourcePipelineOutcome, SourcePipelineFailure>) -> (r:
    Result<SyncOutcome, SourcePipelineFailure>)
    ensures
        r == match outcome {
            Ok(outcome) => Ok::<_, SourcePipelineFailure>(
                (SyncOutcome {
                    records_ingested: outcome.records_ingested,
                    more_pending: outcome.more_pending,
                    actions_called: outcome.actions_called,
                    provider_cost_usd: outcome.provider_cost_usd,
                    note: outcome.note,
                }),
            ),
            Err(failure) => Err(failure),
        },
        outcome is Ok ==> r is Ok && r->Ok_0 == without_failures(outcome->Ok_0),
{
    match outcome {
        Ok(outcome) => Ok(
            SyncOutcome {
                records_ingested: outcome.records_ingested,
                more_pending: outcome.more_pending,
                actions_called: outcome.actions_called,
                provider_cost_usd: outcome.provider_cost_usd,
                note: outcome.note,
            },
        ),
        Err(failure) => Err(failure),
    }
}

/// A stage of a sync run.
#[derive(Clone, Copy, Debug, PartialEq, Eq, Structural)]
pub enum SyncStage {
    Requested,
    Fetching,
    Stored,
    Ingesting,
    Completed,
    Failed,
}

impl SyncStage {
    /// The name of the stage.
    pub open spec fn named(self) -> Seq<char> {
        match self {
            SyncStage::Requested => "requested"@,
            SyncStage::Fetching => "fetching"@,
            SyncStage::Stored => "stored"@,
            SyncStage::Ingesting => "ingesting"@,
            SyncStage::Completed => "completed"@,
            SyncStage::Failed => "failed"@,
        }
    }
}

/// The name of a stage.
pub fn stage_name(stage: SyncStage) -> (r: &'static str)
    ensures
        r@ == stage.named(),
{
    match stage {
        SyncStage::Requested => "requested",
        SyncStage::Fetching => "fetching",
        SyncStage::Stored => "stored",
        SyncStage::Ingesting => "ingesting",
        SyncStage::Completed => "completed",
        SyncStage::Failed => "failed",
    }
}

/// An event of a sync run.
#[derive(Debug)]
pub struct SyncEvent {
    pub stage: SyncStage,
    pub toolkit: String,
    pub connection_id: Option<String>,
    pub message: Option<String>,
    pub source_id: String,
}

/// What is published when a sync run changes its stage.
#[derive(Debug)]
pub struct SyncStageChanged {
    pub trigger: String,
    pub stage: String,
    pub provider: Option<String>,
    pub connection_id: Option<String>,
    pub detail: Option<String>,
    pub source_id: Option<String>,
}

/// A document that a connector synchronised.
#[derive(Debug)]
pub struct SkillDocument {
    pub namespace_skill_id: String,
    pub toolkit: String,
    pub connection_id: String,
    pub document_id: String,
    pub title: String,
    pub content: String,
    /// JSON text.
    pub metadata: String,
}

/// What the skill store is asked to keep.
#[derive(Debug)]
pub struct SkillStore {
    pub skill_id: String,
    pub integration_id: String,
    pub title: String,
    pub content: String,
    pub source_type: Option<String>,
    /// JSON text.
    pub metadata: Option<String>,
    pub priority: Option<String>,
    pub created_at: Option<i64>,
    pub updated_at: Option<i64>,
    pub document_id: Option<String>,
}

/// A document of a local source.
#[derive(Debug)]
pub struct LocalDocument {
    pub source_id: String,
    pub owner: String,
    pub tags: Vec<String>,
    pub title: String,
    pub body: String,
    pub modified_at: i64,
    pub source_ref: Option<String>,
    pub path_scope: Option<String>,
}

/// What the tree is handed for a synchronised document. Without a configuration there is no
/// ingest pipeline, and the tree is skipped.
pub open spec fn document_ingest(
    has_config: bool,
    document: SkillDocument,
    now: i64,
) -> Option<IngestView> {
    if has_config {
        connector_ingest(
            document.toolkit@,
            document.connection_id@,
            document.document_id@,
            document.title@,
            document.content@,
            now,
        )
    } else {
        None
    }
}

/// What the tree is handed for a document of a local source.
pub open spec fn local_ingest(document: LocalDocument) -> IngestView {
    IngestView {
        source_id: document.source_id@,
        owner: document.owner@,
        tags: crate::text::texts(document.tags@),
        provider: "memory_sources:local"@,
        title: document.title@,
        body: document.body@,
        modified_at: document.modified_at,
        source_ref: crate::text::opt_text(document.source_ref),
        path_scope: crate::text::opt_text(document.path_scope),
    }
}

/// Whether the skill store is asked to keep a document.
pub open spec fn keeps(document: SkillDocument, request: SkillStore) -> bool {
    &&& request.skill_id@ == document.namespace_skill_id@
    &&& request.integration_id@ == document.connection_id@
    &&& request.title@ == document.title@
    &&& request.content@ == document.content@
    &&& crate::text::opt_text(request.metadata) == Some(document.metadata@)
    &&& crate::text::opt_text(request.document_id) == Some(document.document_id@)
}

/// Whether what is published tells of an event.
pub open spec fn tells(event: SyncEvent, published: SyncStageChanged) -> bool {
    &&& published.stage@ == event.stage.named()
    &&& published.provider == Some(event.toolkit)
    &&& published.connection_id == event.connection_id
    &&& published.detail == event.message
    &&& published.source_id == Some(event.source_id)
}

/// The outcome of a run, with the tree failures that were tolerated in it.
pub open spec fn with_failures(outcome: SyncOutcome, failures: u32) -> SourcePipelineOutcome {
    SourcePipelineOutcome {
        records_ingested: outcome.records_ingested,
        more_pending: outcome.more_pending,
        actions_called: outcome.actions_called,
        provider_cost_usd: outcome.provider_cost_usd,
        note: outcome.note,
        tree_ingest_failures: failures,
    }
}

/// The outcome of a run, without them.
pub open spec fn without_failures(outcome: SourcePipelineOutcome) -> SyncOutcome {
    SyncOutcome {
        records_ingested: outcome.records_ingested,
        more_pending: outcome.more_pending,
        actions_called: outcome.actions_called,
        provider_cost_usd: outcome.provider_cost_usd,
        note: outcome.note,
    }
}

/// The host's side of a sync run: the memory it writes to, the configuration it has, if
/// any, and the tree failures it has tolerated.
#[derive(Debug)]
pub struct HostSyncAdapter<M, C> {
    memory: M,
    config: Option<C>,
    tree_ingest_failures: u32,
}

impl<M, C> HostSyncAdapter<M, C> {
    /// The memory that the adapter writes to.
    pub closed spec fn spec_memory(self) -> M {
        self.memory
    }

    /// The configuration that the adapter has, if any.
    pub closed spec fn spec_config(self) -> Option<C> {
        self.config
    }

    /// The tree failures that the adapter has tolerated.
    pub closed spec fn failures(self) -> u32 {
        self.tree_ingest_failures
    }

    /// An adapter without a configuration.
    pub fn new(memory: M) -> (r: Self)
        ensures
            r.spec_memory() == memory,
            r.spec_config() is None,
            r.failures() == 0,
    {
        HostSyncAdapter { memory, config: None, tree_ingest_failures: 0 }
    }

    /// An adapter with a configuration.
    pub fn with_config(memory: M, config: C) -> (r: Self)
        ensures
            r.spec_memory() == memory,
            r.spec_config() == Some(config),
            r.failures() == 0,
    {
        HostSyncAdapter { memory, config: Some(config), tree_ingest_failures: 0 }
    }

    /// The memory that the adapter writes to.
    pub fn memory(&self) -> (r: &M)
        ensures
            *r == self.spec_memory(),
    {
        &self.memory
    }

    /// The configuration that the adapter has, if any.
    pub fn config(&self) -> (r: Option<&C>)
        ensures
            r == match self.spec_config() {
                Some(config) => Some(&config),
                None => None,
            },
    {
        self.config.as_ref()
    }

    /// The tree failures that the adapter has tolerated.
    pub fn tree_ingest_failure_count(&self) -> (r: u32)
        ensures
            r == self.failures(),
    {
        self.tree_ingest_failures
    }

    /// What the skill store is asked to keep for a synchronised document. What the store
    /// answers is handed to [`Self::after_store`].
    pub fn store(&self, document: &SkillDocument) -> (r: SkillStore)
        ensures
            r.skill_id@ == document.namespace_skill_id@,
            r.integration_id@ == document.connection_id@,
            r.title@ == document.title@,
            r.content@ == document.content@,
            crate::text::opt_text(r.source_type) == Some("tinycortex-sync"@),
            crate::text::opt_text(r.metadata) == Some(document.metadata@),
            crate::text::opt_text(r.priority) == Some("medium"@),
            r.created_at is None,
            r.updated_at is None,
            crate::text::opt_text(r.document_id) == Some(document.document_id@),
            keeps(*document, r),
    {
        SkillStore {
            skill_id: document.namespace_skill_id.clone(),
            integration_id: document.connection_id.clone(),
            title: document.title.clone(),
            content: document.content.clone(),
            source_type: Some("tinycortex-sync".to_owned()),
            metadata: Some(document.metadata.clone()),
            priority: Some("medium".to_owned()),
            created_at: None,
            updated_at: None,
            document_id: Some(document.document_id.clone()),
        }
    }

    fn tree_ingest(&self, document: &SkillDocument, now: i64) -> (r: Option<ScopedIngest>)
        ensures
            opt_ingest(r) == document_ingest(self.spec_config() is Some, *document, now),
    {
        if self.config.is_none() {
            return None;
        }
        ingest_connector_item_at(
            document.toolkit.as_str(),
            document.connection_id.as_str(),
            document.document_id.as_str(),
            document.title.as_str(),
            document.content.as_str(),
            now,
        )
    }

    /// What follows the store of a synchronised document. The store comes first, and the
    /// tree is a secondary index over it: where the store failed, the call ends with its
    /// error and the tree is handed nothing. Where it committed, the tree is handed the
    /// document, if there is anything to hand over; what came of that is settled by
    /// [`Self::settle`].
    pub fn after_store(
        &self,
        document: &SkillDocument,
        stored: Result<(), String>,
        now: i64,
    ) -> (r: Result<Option<ScopedIngest>, String>)
        ensures
            match stored {
                Err(error) => r == Err::<Option<ScopedIngest>, String>(error),
                Ok(()) => r is Ok && opt_ingest(r->Ok_0) == document_ingest(
                    self.spec_config() is Some,
                    *document,
                    now,
                ),
            },
    {
        match stored {
            Err(error) => Err(error),
            Ok(()) => Ok(self.tree_ingest(document, now)),
        }
    }

    /// Settles the outcome of a document's tree ingest.
    pub fn settle(&mut self, outcome: Result<(), TreeFailure>) -> (r: Result<(), TreeFailure>)
        ensures
            final(self).spec_memory() == old(self).spec_memory(),
            final(self).spec_config() == old(self).spec_config(),
            (final(self).failures(), r is Err) == settled(
                old(self).failures(),
                failure_of(outcome),
            ),
            r is Err ==> r == outcome,
    {
        ingest_connector_item_tolerated(outcome, &mut self.tree_ingest_failures)
    }

    /// The namespace and the id that a synchronised document is deleted by.
    pub fn delete(&self, namespace_skill_id: &str, document_id: &str) -> (r: (String, String))
        ensures
            r.0@ == "skill-"@ + crate::text::trimmed(namespace_skill_id@),
            r.1@ == document_id@,
    {
        (joined2("skill-", trim(namespace_skill_id)), document_id.to_owned())
    }

    /// What the tree is handed for a document of a local source.
    pub fn upsert(&self, document: LocalDocument) -> (r: Result<ScopedIngest, String>)
        ensures
            match r {
                Ok(ingest) => self.spec_config() is Some && ingest@ == (IngestView {
                    source_id: document.source_id@,
                    owner: document.owner@,
                    tags: crate::text::texts(document.tags@),
                    provider: "memory_sources:local"@,
                    title: document.title@,
                    body: document.body@,
                    modified_at: document.modified_at,
                    source_ref: crate::text::opt_text(document.source_ref),
                    path_scope: crate::text::opt_text(document.path_scope),
                }),
                Err(error) => self.spec_config() is None && error@
                    == "local document sink missing host config"@,
            },
            r is Ok ==> r->Ok_0@ == local_ingest(document),
    {
        if self.config.is_none() {
            return Err("local document sink missing host config".to_owned());
        }
        Ok(
            ScopedIngest {
                source_id: document.source_id,
                owner: document.owner,
                tags: document.tags,
                provider: "memory_sources:local".to_owned(),
                title: document.title,
                body: document.body,
                modified_at: document.modified_at,
                source_ref: document.source_ref,
                path_scope: document.path_scope,
            },
        )
    }

    /// The source whose chunks are deleted for a local document.
    pub fn local_delete(&self, source_id: &str) -> (r: Result<String, String>)
        ensures
            match r {
                Ok(source) => self.spec_config() is Some && source@ == source_id@,
                Err(error) => self.spec_config() is None && error@
                    == "local document sink missing host config"@,
            },
    {
        if self.config.is_none() {
            return Err("local document sink missing host config".to_owned());
        }
        Ok(source_id.to_owned())
    }

    /// Whether an external source can be read: the adapter needs a configuration, and the
    /// kind of the source needs a reader. A kind without one is an error, not an empty
    /// listing.
    pub fn reader_check(&self, kind: SourceKind, has_reader: bool) -> (r: Result<(), String>)
        ensures
            match r {
                Ok(()) => self.spec_config() is Some && has_reader,
                Err(error) => if self.spec_config() is None {
                    error@ == "external source reader requires host config"@
                } else {
                    !has_reader && error@ == "no reader for source kind "@ + kind.named()
                        + ": it is fetched outside this crate"@
                },
            },
    {
        if self.config.is_none() {
            return Err("external source reader requires host config".to_owned());
        }
        if !has_reader {
            return Err(
                joined3(
                    "no reader for source kind ",
                    kind.name(),
                    ": it is fetched outside this crate",
                ),
            );
        }
        Ok(())
    }

    /// What is published for an event of a sync run.
    pub fn emit(&self, event: SyncEvent) -> (r: SyncStageChanged)
        ensures
            r.trigger@ == "tinycortex"@,
            r.stage@ == event.stage.named(),
            r.provider == Some(event.toolkit),
            r.connection_id == event.connection_id,
            r.detail == event.message,
            r.source_id == Some(event.source_id),
            tells(event, r),
    {
        SyncStageChanged {
            trigger: "tinycortex".to_owned(),
            stage: stage_name(event.stage).to_owned(),
            provider: Some(event.toolkit),
            connection_id: event.connection_id,
            detail: event.message,
            source_id: Some(event.source_id),
        }
    }
}

/// What a sync run is given: the adapter, which serves its events, documents and state, and
/// which further parts it serves.
#[derive(Debug)]
pub struct SyncContext<M, C> {
    pub adapter: HostSyncAdapter<M, C>,
    pub parts: ContextParts,
}

/// What a run without a configuration is given: nothing local.
pub fn sync_context<M, C>(memory: M) -> (r: SyncContext<M, C>)
    ensures
        r.adapter.spec_memory() == memory,
        r.adapter.spec_config() is None,
        r.adapter.failures() == 0,
        r.parts == (ContextParts {
            local_documents: false,
            external_sources: false,
            summariser: false,
        }),
{
    SyncContext { adapter: HostSyncAdapter::new(memory), parts: context_over_adapter(false) }
}

/// The tree is handed an item under the identity that every reader of it derives, and an
/// item without a scope is not handed over.
pub proof fn law_ingest_carries_the_identity(
    toolkit: Seq<char>,
    connection_id: Seq<char>,
    item_id: Seq<char>,
    title: Seq<char>,
    content: Seq<char>,
    modified_at: i64,
)
    ensures
        ({
            let ingest = connector_ingest(
                toolkit,
                connection_id,
                item_id,
                title,
                content,
                modified_at,
            );
            let identity = identity_of(toolkit, connection_id, item_id);
            &&& ingest is Some <==> !crate::text::is_blank(toolkit) && !crate::text::is_blank(
                connection_id,
            )
            &&& ingest is Some ==> ingest->0.source_id == identity->0.source_id
                && ingest->0.path_scope == Some(identity->0.tree_scope) && ingest->0.source_id
                == identity->0.tree_scope + ":"@ + item_id
        }),
{
}

/// The counter after the outcomes of some ingests, and whether one of them ended the run.
pub open spec fn settled_all(counter: u32, failures: Seq<Option<FailureView>>) -> (u32, bool)
    decreases failures.len(),
{
    if failures.len() == 0 {
        (counter, false)
    } else {
        let (before, ended) = settled_all(counter, failures.drop_last());
        if ended {
            (before, true)
        } else {
            settled(before, failures.last())
        }
    }
}

/// Whether a failure is that of a damaged tree.
pub open spec fn is_damage(failure: Option<FailureView>) -> bool {
    failure is Some && failure->0.corrupt
}

/// A damaged tree ends a run, and nothing else does; a run that goes on has counted every
/// failure.
pub proof fn law_only_damage_ends_a_run(counter: u32, failures: Seq<Option<FailureView>>)
    ensures
        settled_all(counter, failures).1 <==> exists|i: int|
            0 <= i < failures.len() && is_damage(#[trigger] failures[i]),
        counter + failures.len() <= u32::MAX ==> settled_all(counter, failures).0 <= counter
            + failures.len(),
        !settled_all(counter, failures).1 && counter + failures.len() <= u32::MAX ==> settled_all(
            counter,
            failures,
        ).0 == counter + failures.filter(|f: Option<FailureView>| f is Some).len(),
    decreases failures.len(),
{
    reveal(Seq::filter);
    if failures.len() > 0 {
        let before = failures.drop_last();
        law_only_damage_ends_a_run(counter, before);
        assert(failures.last() == failures[failures.len() - 1]);
        if settled_all(counter, before).1 {
            let i = choose|i: int| 0 <= i < before.len() && is_damage(#[trigger] before[i]);
            assert(failures[i] == before[i]);
        } else if exists|i: int| 0 <= i < failures.len() && is_damage(#[trigger] failures[i]) {
            let i = choose|i: int| 0 <= i < failures.len() && is_damage(#[trigger] failures[i]);
            if i < before.len() {
                assert(before[i] == failures[i]);
            }
        }
    }
}

} // verus!
