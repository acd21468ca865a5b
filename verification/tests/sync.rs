//! Connector identities, tree ingests and source pipelines.

use tinymemory::sources::{MemorySourceEntry, SourceKind, SyncBudget};
use tinymemory::sync::{
    admit_source, build_pipeline, connector_item_identity, context_over_adapter,
    escalate_or_count, ingest_connector_item_at, ingest_connector_item_into_tree,
    ingest_connector_item_tolerated, ingest_failure, read_audit_log, run_source_pipeline,
    run_source_pipeline_core, stage_name, sync_context, HostSyncAdapter, LocalDocument,
    PipelineKind, SkillDocument, SourcePipelineFailure, SyncContext, SyncEvent, SyncOutcome,
    SyncRunError, SyncStage, TreeFailure,
};

fn source(kind: SourceKind) -> MemorySourceEntry {
    MemorySourceEntry {
        id: "src".to_string(),
        kind,
        label: "label".to_string(),
        enabled: true,
        toolkit: None,
        connection_id: None,
        budget: SyncBudget {
            max_items: Some(3),
            max_tokens_per_sync: Some(1_000),
            max_cost_per_sync_usd: Some(0.5f64.to_bits()),
            sync_depth_days: Some(30),
        },
    }
}

fn failure(message: &str, corrupt: bool) -> TreeFailure {
    TreeFailure { message: message.to_string(), corrupt }
}

#[test]
fn an_identity_joins_the_normal_forms() {
    let identity = connector_item_identity(" GMail ", "\tconn-1 ", "msg-1").unwrap();
    assert_eq!(identity.toolkit, "gmail");
    assert_eq!(identity.tree_scope, "gmail:conn-1");
    assert_eq!(identity.source_id, "gmail:conn-1:msg-1");
    assert_eq!(identity.owner, "gmail-sync:conn-1");
    assert!(connector_item_identity("  ", "conn-1", "msg-1").is_none());
    assert!(connector_item_identity("gmail", "\u{3000}", "msg-1").is_none());
    assert_eq!(
        connector_item_identity("\u{c9}A", "c", "").unwrap().tree_scope,
        "\u{c9}a:c"
    );
}

#[test]
fn items_are_told_apart_by_their_source_ids() {
    let a = connector_item_identity("gmail", "c", "1").unwrap();
    let b = connector_item_identity("GMAIL", " c", "2").unwrap();
    assert_eq!(a.tree_scope, b.tree_scope);
    assert_ne!(a.source_id, b.source_id);
}

#[test]
fn an_item_is_handed_to_the_tree_under_its_identity() {
    let item = ingest_connector_item_at("Slack", "team", "m-1", "Title", "Body", 42).unwrap();
    assert_eq!(item.source_id, "slack:team:m-1");
    assert_eq!(item.owner, "slack-sync:team");
    assert_eq!(item.tags, vec!["slack".to_string()]);
    assert_eq!(item.provider, "composio:slack");
    assert_eq!((item.title.as_str(), item.body.as_str()), ("Title", "Body"));
    assert_eq!(item.modified_at, 42);
    assert_eq!(item.source_ref.as_deref(), Some("m-1"));
    assert_eq!(item.path_scope.as_deref(), Some("slack:team"));
    assert!(ingest_connector_item_at("", "team", "m-1", "t", "b", 42).is_none());

    let now = ingest_connector_item_into_tree("slack", "team", "m-1", "t", "b").unwrap();
    assert!(now.modified_at > 1_600_000_000_000);
    assert!(ingest_connector_item_into_tree("slack", " ", "m-1", "t", "b").is_none());
    assert_eq!(
        ingest_failure("slack:team:m-1", "locked"),
        "memory-tree ingest failed for source `slack:team:m-1`: locked"
    );
}

#[test]
fn only_damage_ends_a_run() {
    let mut counter = 0;
    assert!(ingest_connector_item_tolerated(Ok(()), &mut counter).is_ok());
    assert_eq!(counter, 0);
    assert!(ingest_connector_item_tolerated(Err(failure("busy", false)), &mut counter).is_ok());
    assert_eq!(counter, 1);
    let error =
        ingest_connector_item_tolerated(Err(failure("malformed", true)), &mut counter).unwrap_err();
    assert_eq!(error.message, "malformed");
    assert_eq!(counter, 1);
    let mut full = u32::MAX;
    assert!(escalate_or_count(failure("busy", false), &mut full).is_ok());
    assert_eq!(full, 0);
}

#[test]
fn an_unreadable_audit_log_is_empty() {
    assert_eq!(read_audit_log(Ok(vec![1, 2])), vec![1, 2]);
    assert_eq!(read_audit_log::<u8>(Err("gone".to_string())), Vec::<u8>::new());
}

#[test]
fn connector_sources_are_refused() {
    let refused = admit_source(&source(SourceKind::Composio), true, 60).unwrap_err();
    assert_eq!(
        refused.message,
        "composio sources are synced through the connector module, not this pipeline"
    );
    assert_eq!((refused.actions_called, refused.provider_cost_usd), (0, 0));
    assert_eq!(
        build_pipeline(&source(SourceKind::Composio)).unwrap_err(),
        "engine seam does not build composio pipelines (kind Composio unexpected here)"
    );
    let waiting = admit_source(&source(SourceKind::Folder), false, 60).unwrap_err();
    assert_eq!(waiting.message, "memory client is not ready");
}

#[test]
fn a_source_gets_its_pipeline_and_its_budget() {
    let run = admit_source(&source(SourceKind::GithubRepo), true, 900).unwrap();
    assert_eq!(run.interval_secs, 900);
    assert_eq!(run.pipeline, PipelineKind::GithubRepo);
    assert_eq!(run.budget, source(SourceKind::GithubRepo).budget);
    assert_eq!(run.parts, context_over_adapter(true));
    for kind in [
        SourceKind::Conversation,
        SourceKind::Folder,
        SourceKind::TwitterQuery,
        SourceKind::RssFeed,
        SourceKind::WebPage,
    ] {
        assert_eq!(build_pipeline(&source(kind)), Ok(PipelineKind::Workspace));
    }
    let context: SyncContext<u8, u8> = sync_context(7);
    assert_eq!(*context.adapter.memory(), 7);
    assert!(context.adapter.config().is_none());
    assert_eq!(context.parts, context_over_adapter(false));
}

fn outcome() -> SyncOutcome {
    SyncOutcome {
        records_ingested: 4,
        more_pending: true,
        actions_called: 9,
        provider_cost_usd: 1.25f64.to_bits(),
        note: Some("partial".to_string()),
    }
}

#[test]
fn an_outcome_carries_the_tolerated_failures() {
    let core = run_source_pipeline_core(Ok(outcome()), 2).unwrap();
    assert_eq!(core.records_ingested, 4);
    assert!(core.more_pending);
    assert_eq!(core.actions_called, 9);
    assert_eq!(f64::from_bits(core.provider_cost_usd), 1.25);
    assert_eq!(core.note.as_deref(), Some("partial"));
    assert_eq!(core.tree_ingest_failures, 2);
    let plain = run_source_pipeline(Ok(core)).unwrap();
    assert_eq!((plain.records_ingested, plain.actions_called), (4, 9));
    assert_eq!(plain.note.as_deref(), Some("partial"));
}

#[test]
fn a_failed_run_reports_what_it_used() {
    let used = run_source_pipeline_core(
        Err(SyncRunError {
            message: "quota".to_string(),
            usage: Some((5, 0.75f64.to_bits())),
        }),
        0,
    )
    .unwrap_err();
    assert_eq!((used.message.as_str(), used.actions_called), ("quota", 5));
    assert_eq!(f64::from_bits(used.provider_cost_usd), 0.75);
    let unused = run_source_pipeline_core(
        Err(SyncRunError { message: "offline".to_string(), usage: None }),
        3,
    )
    .unwrap_err();
    assert_eq!((unused.actions_called, f64::from_bits(unused.provider_cost_usd)), (0, 0.0));
    let passed_on = run_source_pipeline(Err(SourcePipelineFailure::without_usage("x".to_string())));
    assert_eq!(passed_on.unwrap_err().message, "x");
}

fn skill_document() -> SkillDocument {
    SkillDocument {
        namespace_skill_id: "gmail".to_string(),
        toolkit: "gmail".to_string(),
        connection_id: "conn-1".to_string(),
        document_id: "msg-1".to_string(),
        title: "Title".to_string(),
        content: "Body".to_string(),
        metadata: "{\"a\":1}".to_string(),
    }
}

#[test]
fn a_synchronised_document_is_stored_and_filed() {
    let mut adapter: HostSyncAdapter<&str, &str> = HostSyncAdapter::with_config("memory", "config");
    let stored = adapter.store(&skill_document());
    assert_eq!(stored.skill_id, "gmail");
    assert_eq!(stored.integration_id, "conn-1");
    assert_eq!((stored.title.as_str(), stored.content.as_str()), ("Title", "Body"));
    assert_eq!(stored.source_type.as_deref(), Some("tinycortex-sync"));
    assert_eq!(stored.metadata.as_deref(), Some("{\"a\":1}"));
    assert_eq!(stored.priority.as_deref(), Some("medium"));
    assert_eq!((stored.created_at, stored.updated_at), (None, None));
    assert_eq!(stored.document_id.as_deref(), Some("msg-1"));
    let filed = adapter.after_store(&skill_document(), Ok(()), 11).unwrap().unwrap();
    assert_eq!(filed.source_id, "gmail:conn-1:msg-1");
    assert_eq!(filed.modified_at, 11);
    assert!(adapter.settle(Err(failure("busy", false))).is_ok());
    assert!(adapter.settle(Ok(())).is_ok());
    assert!(adapter.settle(Err(failure("malformed", true))).is_err());
    assert_eq!(adapter.tree_ingest_failure_count(), 1);
    assert_eq!(
        adapter.delete(" gmail ", "msg-1"),
        ("skill-gmail".to_string(), "msg-1".to_string())
    );

    let bare: HostSyncAdapter<&str, &str> = HostSyncAdapter::new("memory");
    assert!(bare.after_store(&skill_document(), Ok(()), 11).unwrap().is_none());
}

fn local_document() -> LocalDocument {
    LocalDocument {
        source_id: "folder:1".to_string(),
        owner: "me".to_string(),
        tags: vec!["x".to_string()],
        title: "Title".to_string(),
        body: "Body".to_string(),
        modified_at: 5,
        source_ref: None,
        path_scope: Some("folder".to_string()),
    }
}

#[test]
fn local_documents_need_a_configuration() {
    let adapter: HostSyncAdapter<u8, u8> = HostSyncAdapter::with_config(1, 2);
    assert_eq!(adapter.config(), Some(&2));
    let filed = adapter.upsert(local_document()).unwrap();
    assert_eq!(filed.provider, "memory_sources:local");
    assert_eq!(filed.source_id, "folder:1");
    assert_eq!(filed.path_scope.as_deref(), Some("folder"));
    assert_eq!(adapter.local_delete("folder:1"), Ok("folder:1".to_string()));
    assert_eq!(adapter.reader_check(SourceKind::Folder, true), Ok(()));
    assert_eq!(
        adapter.reader_check(SourceKind::TwitterQuery, false),
        Err("no reader for source kind TwitterQuery: it is fetched outside this crate".to_string())
    );

    let bare: HostSyncAdapter<u8, u8> = HostSyncAdapter::new(1);
    let missing = "local document sink missing host config".to_string();
    assert_eq!(bare.upsert(local_document()).unwrap_err(), missing);
    assert_eq!(bare.local_delete("folder:1"), Err(missing));
    assert_eq!(
        bare.reader_check(SourceKind::Folder, true),
        Err("external source reader requires host config".to_string())
    );
}

#[test]
fn stages_are_published_by_name() {
    let names: Vec<&str> = [
        SyncStage::Requested,
        SyncStage::Fetching,
        SyncStage::Stored,
        SyncStage::Ingesting,
        SyncStage::Completed,
        SyncStage::Failed,
    ]
    .into_iter()
    .map(stage_name)
    .collect();
    assert_eq!(
        names,
        vec!["requested", "fetching", "stored", "ingesting", "completed", "failed"]
    );
    let adapter: HostSyncAdapter<u8, u8> = HostSyncAdapter::new(1);
    let published = adapter.emit(SyncEvent {
        stage: SyncStage::Stored,
        toolkit: "gmail".to_string(),
        connection_id: Some("conn-1".to_string()),
        message: None,
        source_id: "src".to_string(),
    });
    assert_eq!(published.trigger, "tinycortex");
    assert_eq!(published.stage, "stored");
    assert_eq!(published.provider.as_deref(), Some("gmail"));
    assert_eq!(published.connection_id.as_deref(), Some("conn-1"));
    assert_eq!(published.detail, None);
    assert_eq!(published.source_id.as_deref(), Some("src"));
}

#[test]
fn a_run_counts_failures_until_damage_ends_it() {
    let mut adapter: HostSyncAdapter<u8, u8> = HostSyncAdapter::with_config(1, 2);
    let outcomes = [
        Err(failure("busy", false)),
        Ok(()),
        Err(failure("busy", false)),
        Err(failure("malformed", true)),
    ];
    let settled: Vec<bool> =
        outcomes.into_iter().map(|outcome| adapter.settle(outcome).is_ok()).collect();
    assert_eq!(settled, vec![true, true, true, false]);
    assert_eq!(adapter.tree_ingest_failure_count(), 2);
}

#[test]
fn a_failed_store_hands_the_tree_nothing() {
    let adapter: HostSyncAdapter<u8, u8> = HostSyncAdapter::with_config(1, 2);
    assert_eq!(
        adapter.after_store(&skill_document(), Err("disk full".to_string()), 11).unwrap_err(),
        "disk full"
    );
    let unscoped = SkillDocument { toolkit: " ".to_string(), ..skill_document() };
    assert!(adapter.after_store(&unscoped, Ok(()), 11).unwrap().is_none());
    assert_eq!(adapter.tree_ingest_failure_count(), 0);
}
