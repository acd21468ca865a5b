//! Backfill passes over a stored corpus.

use tinymemory::backfill::pass::{
    backfill_connector_trees, BackfillAction, BackfillEvent, BackfillPass,
};
use tinymemory::backfill::{
    listed_keys, resolve_targets, BackfillReport, DEFAULT_BACKFILL_LIMIT, MAX_NOTES,
};
use tinymemory::documents::{MemoryTaint, NamespaceDocumentInput, UnifiedMemory};
use tinymemory::json::Json;
use tinymemory::sources::{MemorySourceEntry, SourceKind, SyncBudget};
use tinymemory::sync::{connector_item_identity, ingest_connector_item_at, ScopedIngest, TreeFailure};

fn source(id: &str, kind: SourceKind, toolkit: Option<&str>, connection: Option<&str>) -> MemorySourceEntry {
    MemorySourceEntry {
        id: id.to_string(),
        kind,
        label: "Test connector".to_string(),
        enabled: true,
        toolkit: toolkit.map(str::to_owned),
        connection_id: connection.map(str::to_owned),
        budget: SyncBudget {
            max_items: None,
            max_tokens_per_sync: None,
            max_cost_per_sync_usd: None,
            sync_depth_days: None,
        },
    }
}

fn composio_source(id: &str, toolkit: &str, connection_id: &str) -> MemorySourceEntry {
    source(id, SourceKind::Composio, Some(toolkit), Some(connection_id))
}

/// A document store, a tree, and what of them fails.
struct World {
    sources: Vec<MemorySourceEntry>,
    store: UnifiedMemory,
    now: i64,
    tree: Vec<ScopedIngest>,
    gate: Option<TreeFailure>,
    unreadable: bool,
}

fn workspace(sources: Vec<MemorySourceEntry>) -> World {
    World {
        sources,
        store: UnifiedMemory::new("noop".to_string()),
        now: 0,
        tree: Vec::new(),
        gate: None,
        unreadable: false,
    }
}

fn failure(message: &str, corrupt: bool) -> TreeFailure {
    TreeFailure { message: message.to_string(), corrupt }
}

impl World {
    fn store_document(&mut self, namespace: &str, key: &str, body: &str) {
        self.now += 1_000;
        let pending = self
            .store
            .begin_write_at(
                NamespaceDocumentInput {
                    namespace: namespace.to_string(),
                    logical_namespace: namespace.to_string(),
                    key: key.to_string(),
                    title: "Quarterly planning".to_string(),
                    content: body.to_string(),
                    source_type: "composio".to_string(),
                    priority: "medium".to_string(),
                    tags: vec!["gmail".to_string()],
                    metadata: "{}".to_string(),
                    category: "core".to_string(),
                    session_id: None,
                    document_id: None,
                    taint: MemoryTaint::ExternalSync,
                },
                self.now,
            )
            .expect("store a connector document");
        self.store
            .commit_write(pending, "p".to_string(), vec![], vec![])
            .expect("store a connector document");
    }

    fn holds(&self, source_id: &str) -> bool {
        self.tree.iter().any(|item| item.source_id == source_id)
    }

    fn answer(&mut self, action: BackfillAction) -> BackfillEvent {
        match action {
            BackfillAction::List { namespace } => {
                BackfillEvent::Listed(Ok(listed_keys(&self.store.list_documents(Some(&namespace)))))
            }
            BackfillAction::Probe { toolkit, connection_id, key } => {
                BackfillEvent::Probed(match &self.gate {
                    Some(f) => Err(failure(&f.message, f.corrupt)),
                    None => Ok(connector_item_identity(&toolkit, &connection_id, &key)
                        .map(|identity| self.holds(&identity.source_id))),
                })
            }
            BackfillAction::Read { namespace, key } => BackfillEvent::Read(if self.unreadable {
                Err("locked".to_string())
            } else {
                Ok(self
                    .store
                    .get_document_by_key(&namespace, &key)
                    .map(|stored| (stored.title, stored.content)))
            }),
            BackfillAction::Ingest { toolkit, connection_id, key, title, content } => {
                let item =
                    ingest_connector_item_at(&toolkit, &connection_id, &key, &title, &content, 7);
                BackfillEvent::Ingested(Ok(item.map(|item| {
                    let held = self.holds(&item.source_id);
                    if !held {
                        self.tree.push(item);
                    }
                    held
                })))
            }
            other => panic!("nothing to answer: {other:?}"),
        }
    }

    fn run(&mut self, limit: Option<u64>, dry_run: bool) -> Result<BackfillReport, TreeFailure> {
        let (mut pass, mut action) = backfill_connector_trees(&self.sources, limit, dry_run);
        loop {
            match action {
                BackfillAction::Finish => return Ok(pass.report().clone()),
                BackfillAction::Abort(failure) => return Err(failure),
                next => {
                    let event = self.answer(next);
                    action = pass.advance(event);
                }
            }
        }
    }
}

#[test]
fn targets_are_rebuilt_from_the_registry_including_the_legacy_namespace() {
    let sources = vec![composio_source("src_gmail", "gmail", "conn-1")];
    let mut report = BackfillReport::default();
    let targets = resolve_targets(&sources, &mut report);

    let namespaces: Vec<&str> = targets.iter().map(|t| t.namespace.as_str()).collect();
    assert!(
        namespaces.contains(&"source:gmail:conn-1"),
        "the current namespace must be swept: {namespaces:?}"
    );
    assert!(
        namespaces.contains(&"skill-gmail"),
        "one connection means the legacy namespace is unambiguous: {namespaces:?}"
    );
    assert!(
        report.notes.is_empty(),
        "nothing was skipped, so nothing should be reported: {:?}",
        report.notes
    );
}

#[test]
fn the_legacy_namespace_is_skipped_when_a_toolkit_has_several_connections() {
    let sources = vec![
        composio_source("src_a", "gmail", "conn-1"),
        composio_source("src_b", "gmail", "conn-2"),
    ];
    let mut report = BackfillReport::default();
    let targets = resolve_targets(&sources, &mut report);

    let namespaces: Vec<&str> = targets.iter().map(|t| t.namespace.as_str()).collect();
    assert!(
        !namespaces.contains(&"skill-gmail"),
        "an ambiguous legacy namespace must not be guessed at: {namespaces:?}"
    );
    assert!(
        namespaces.contains(&"source:gmail:conn-1") && namespaces.contains(&"source:gmail:conn-2"),
        "both current namespaces stay addressable: {namespaces:?}"
    );
    assert!(
        report.notes.iter().any(|n| n.contains("skill-gmail")),
        "the skip must say which namespace and why: {:?}",
        report.notes
    );
    assert_eq!(
        report.notes[0],
        "skill-gmail: skipped — 2 connections are registered for this toolkit and the \
         pre-migration documents record none, so the account they belong to cannot be determined"
    );
}

#[test]
fn targets_skip_what_is_no_connector_and_normalise_the_rest() {
    let sources = vec![
        source("f", SourceKind::Folder, Some("gmail"), Some("c")),
        source("n", SourceKind::Composio, None, Some("c")),
        source("m", SourceKind::Composio, Some("slack"), None),
        composio_source("b", "  ", "c"),
        composio_source("s", " Slack ", " team\t"),
        composio_source("g", "gmail", "c"),
    ];
    let mut report = BackfillReport::default();
    let targets = resolve_targets(&sources, &mut report);
    let rows: Vec<(&str, &str, &str)> = targets
        .iter()
        .map(|t| (t.namespace.as_str(), t.toolkit.as_str(), t.connection_id.as_str()))
        .collect();
    assert_eq!(
        rows,
        vec![
            ("source:slack:team", "slack", "team"),
            ("source:gmail:c", "gmail", "c"),
            ("skill-gmail", "gmail", "c"),
            ("skill-slack", "slack", "team"),
        ]
    );
}

#[test]
fn a_stored_document_is_filed_into_the_tree_and_never_twice() {
    let mut world = workspace(vec![composio_source("src_gmail", "gmail", "conn-1")]);
    world.store_document(
        "source:gmail:conn-1",
        "msg-1",
        "Let's finalise the Q3 roadmap and align on the launch date.",
    );
    assert_eq!(world.tree.len(), 0, "the document store alone must leave the tree empty");

    let first = world.run(None, false).expect("backfill");
    assert_eq!(first.ingested, 1, "the stored document must be treed: {first:?}");
    assert_eq!(first.already_present, 0, "nothing was there before: {first:?}");

    let treed: Vec<&ScopedIngest> =
        world.tree.iter().filter(|item| item.source_id == "gmail:conn-1:msg-1").collect();
    assert!(!treed.is_empty(), "backfilled rows must carry the per-item connector source id");
    assert!(
        treed.iter().all(|item| item.path_scope.as_deref() == Some("gmail:conn-1")),
        "backfilled rows must carry the platform-prefixed path_scope"
    );
    let after_first = world.tree.len();

    let second = world.run(None, false).expect("second backfill");
    assert_eq!(second.ingested, 0, "a second pass must write nothing: {second:?}");
    assert_eq!(second.already_present, 1, "and must say why it wrote nothing: {second:?}");
    assert_eq!(
        second.scanned, 0,
        "a document the tree holds is never charged against the limit: {second:?}"
    );
    assert_eq!(world.tree.len(), after_first, "a repeated pass must not duplicate chunks");
}

#[test]
fn a_second_pass_counts_what_the_first_left() {
    let mut world = workspace(vec![composio_source("src_gmail", "gmail", "conn-1")]);
    for key in ["msg-1", "msg-2"] {
        world.store_document("source:gmail:conn-1", key, "Q3 roadmap.");
    }
    world.store_document("skill-gmail", "msg-2", "Q3 roadmap.");
    let first = world.run(Some(9), false).unwrap();
    assert_eq!((first.ingested, first.already_present, first.skipped), (2, 1, 0));
    let second = world.run(Some(0), false).unwrap();
    assert_eq!((second.scanned, second.ingested, second.more_pending), (0, 0, false));
    assert_eq!(second.already_present, first.ingested + first.already_present);
}

#[test]
fn a_second_pass_recognises_rows_that_others_filed_during_the_first() {
    let sources = vec![composio_source("src_gmail", "gmail", "conn-1")];
    let keys = || vec![Some("a".to_string()), Some("b".to_string())];
    let (mut first, _) = backfill_connector_trees(&sources, Some(5), false);
    first.advance(BackfillEvent::Probed(Ok(Some(true))));
    first.advance(BackfillEvent::Listed(Ok(keys())));
    first.advance(BackfillEvent::Probed(Ok(Some(false))));
    first.advance(BackfillEvent::Read(Ok(Some(("t".to_string(), "c".to_string())))));
    first.advance(BackfillEvent::Ingested(Ok(Some(true))));
    first.advance(BackfillEvent::Ingested(Ok(Some(true))));
    first.advance(BackfillEvent::Probed(Ok(Some(false))));
    first.advance(BackfillEvent::Read(Ok(Some(("t".to_string(), "c".to_string())))));
    first.advance(BackfillEvent::Ingested(Ok(Some(false))));
    assert!(matches!(
        first.advance(BackfillEvent::Listed(Ok(vec![]))),
        BackfillAction::Finish
    ));
    let report = first.report();
    assert_eq!((report.ingested, report.already_present, report.skipped), (1, 1, 0));
    assert_eq!((report.scanned, report.more_pending), (2, false));

    let (mut second, _) = backfill_connector_trees(&sources, Some(0), false);
    second.advance(BackfillEvent::Listed(Ok(keys())));
    second.advance(BackfillEvent::Probed(Ok(Some(true))));
    second.advance(BackfillEvent::Probed(Ok(Some(true))));
    second.advance(BackfillEvent::Listed(Ok(vec![])));
    let report = second.report();
    assert_eq!((report.scanned, report.ingested, report.more_pending), (0, 0, false));
    assert_eq!(report.already_present, 2);
}

#[test]
fn every_listed_row_is_accounted_for() {
    let sources = vec![composio_source("src_gmail", "gmail", "conn-1")];
    let (mut pass, _) = backfill_connector_trees(&sources, Some(5), false);
    let keys = ["a", "b", "c", "d"].map(|k| Some(k.to_string()));
    let mut rows = keys.to_vec();
    rows.insert(1, None);
    pass.advance(BackfillEvent::Listed(Ok(rows)));
    pass.advance(BackfillEvent::Probed(Ok(Some(true))));
    pass.advance(BackfillEvent::Probed(Err(failure("busy", false))));
    pass.advance(BackfillEvent::Probed(Ok(Some(false))));
    pass.advance(BackfillEvent::Read(Ok(None)));
    pass.advance(BackfillEvent::Probed(Ok(Some(false))));
    pass.advance(BackfillEvent::Read(Ok(Some(("t".to_string(), "c".to_string())))));
    pass.advance(BackfillEvent::Ingested(Ok(Some(false))));
    let action = pass.advance(BackfillEvent::Listed(Ok(vec![])));
    assert!(matches!(action, BackfillAction::Finish));
    let report = pass.report();
    assert_eq!((report.ingested, report.already_present, report.skipped), (1, 1, 3));
}

#[test]
fn a_dry_run_counts_without_writing() {
    let mut world = workspace(vec![composio_source("src_gmail", "gmail", "conn-1")]);
    world.store_document("source:gmail:conn-1", "msg-1", "Q3 roadmap.");

    let report = world.run(None, true).expect("dry run");

    assert_eq!(report.scanned, 1, "a dry run still reports the size of the job");
    assert_eq!(report.ingested, 0, "a dry run must not ingest");
    assert_eq!(world.tree.len(), 0, "a dry run must leave the tree untouched");
}

#[test]
fn a_bounded_pass_reports_that_more_is_pending() {
    let mut world = workspace(vec![composio_source("src_gmail", "gmail", "conn-1")]);
    for key in ["msg-1", "msg-2", "msg-3"] {
        world.store_document("source:gmail:conn-1", key, "Q3 roadmap.");
    }

    let report = world.run(Some(2), true).expect("bounded dry run");

    assert_eq!(report.scanned, 2, "the limit is respected: {report:?}");
    assert!(
        report.more_pending,
        "a pass that stopped on its limit must not read as complete: {report:?}"
    );
}

#[test]
fn already_filed_documents_do_not_charge_the_limit_so_bounded_passes_converge() {
    let mut world = workspace(vec![composio_source("src_gmail", "gmail", "conn-1")]);
    for key in ["msg-1", "msg-2", "msg-3"] {
        world.store_document("source:gmail:conn-1", key, "Q3 roadmap.");
    }

    let first = world.run(Some(2), false).expect("first bounded pass");
    assert_eq!(first.ingested, 2, "the first pass files up to its limit: {first:?}");
    assert!(first.more_pending, "one document is still waiting: {first:?}");

    let second = world.run(Some(2), false).expect("second bounded pass");
    assert_eq!(
        second.already_present, 2,
        "the documents the first pass filed are recognised: {second:?}"
    );
    assert_eq!(
        second.ingested, 1,
        "and they must not have spent the budget the waiting one needed: {second:?}"
    );
    assert!(!second.more_pending, "nothing is waiting once the last document is filed: {second:?}");

    let third = world.run(Some(2), false).expect("third bounded pass");
    assert_eq!(
        (third.scanned, third.ingested, third.already_present),
        (0, 0, 3),
        "a fully filed store charges nothing and says so: {third:?}"
    );
    assert!(!third.more_pending, "and does not ask to be run again: {third:?}");
}

#[test]
fn a_later_target_is_reached_once_the_earlier_one_is_fully_filed() {
    let mut world = workspace(vec![
        composio_source("src_notion", "notion", "conn-n"),
        composio_source("src_gmail", "gmail", "conn-g"),
    ]);
    world.store_document("source:notion:conn-n", "page-1", "Roadmap page.");
    world.store_document("source:gmail:conn-g", "msg-1", "Q3 roadmap.");

    let first = world.run(Some(1), false).expect("first bounded pass");
    assert_eq!(
        (first.ingested, first.more_pending),
        (1, true),
        "the first target fills the whole budget: {first:?}"
    );

    let second = world.run(Some(1), false).expect("second bounded pass");
    assert_eq!(
        (second.already_present, second.ingested, second.more_pending),
        (1, 1, false),
        "the filed first target costs nothing, so the second is reached: {second:?}"
    );
    assert!(
        world.holds("gmail:conn-g:msg-1"),
        "the second target's document must actually be in the tree"
    );
}

#[test]
fn a_dry_run_tells_already_filed_documents_from_waiting_ones() {
    let mut world = workspace(vec![composio_source("src_gmail", "gmail", "conn-1")]);
    world.store_document("source:gmail:conn-1", "msg-1", "Q3 roadmap.");
    world.store_document("source:gmail:conn-1", "msg-2", "Launch date.");

    let filed_one = world.run(Some(1), false).expect("file one document");
    assert_eq!(filed_one.ingested, 1, "{filed_one:?}");
    let after = world.tree.len();

    let preview = world.run(None, true).expect("dry run with one document waiting");
    assert_eq!(
        (preview.scanned, preview.already_present, preview.more_pending),
        (1, 1, false),
        "the preview counts the waiting document and names the filed one: {preview:?}"
    );
    assert_eq!(world.tree.len(), after, "a dry run must leave the tree untouched");

    world.run(None, false).expect("file the rest");
    let done = world.run(None, true).expect("dry run with nothing waiting");
    assert_eq!(
        (done.scanned, done.already_present, done.more_pending),
        (0, 2, false),
        "a fully filed store previews as nothing to do: {done:?}"
    );
}

#[test]
fn a_gate_read_failure_is_tolerated_per_document_and_charges_nothing() {
    let mut world = workspace(vec![composio_source("src_gmail", "gmail", "conn-1")]);
    world.store_document("source:gmail:conn-1", "msg-1", "Q3 roadmap.");
    world.store_document("source:gmail:conn-1", "msg-2", "Launch date.");
    world.gate = Some(failure("not a directory", false));

    let report =
        world.run(Some(1), false).expect("a gate that cannot be read is tolerated, not fatal");
    assert_eq!(
        (report.scanned, report.ingested, report.already_present, report.skipped),
        (0, 0, 0, 2),
        "every document is skipped and none is charged: {report:?}"
    );
    assert!(!report.more_pending, "a skip is not a document left waiting: {report:?}");
    assert!(
        report.notes.iter().any(|note| note.contains("tree gate could not be read")),
        "the skip must say why: {:?}",
        report.notes
    );
    assert_eq!(
        report.notes,
        vec!["source:gmail:conn-1: the tree gate could not be read (not a directory)".to_string()]
    );
}

#[test]
fn a_damaged_tree_ends_the_pass() {
    let mut world = workspace(vec![composio_source("src_gmail", "gmail", "conn-1")]);
    world.store_document("source:gmail:conn-1", "msg-1", "Q3 roadmap.");
    world.gate = Some(failure("malformed", true));
    let failure = world.run(None, false).unwrap_err();
    assert!(failure.corrupt);
    assert_eq!(failure.message, "malformed");
}

#[test]
fn an_unreadable_document_is_skipped_and_charged() {
    let mut world = workspace(vec![composio_source("src_gmail", "gmail", "conn-1")]);
    world.store_document("source:gmail:conn-1", "msg-1", "Q3 roadmap.");
    world.unreadable = true;
    let report = world.run(None, false).unwrap();
    assert_eq!((report.scanned, report.ingested, report.skipped), (1, 0, 1));
    assert_eq!(
        report.notes,
        vec!["source:gmail:conn-1: a document could not be read (locked)".to_string()]
    );
}

fn drive(events: Vec<BackfillEvent>) -> BackfillPass {
    let sources = vec![composio_source("src_gmail", "gmail", "conn-1")];
    let (mut pass, action) = backfill_connector_trees(&sources, Some(5), false);
    assert!(matches!(action, BackfillAction::List { namespace } if namespace == "source:gmail:conn-1"));
    for event in events {
        pass.advance(event);
    }
    pass
}

#[test]
fn every_answer_is_reported() {
    let pass = drive(vec![BackfillEvent::Listed(Err("offline".to_string()))]);
    assert_eq!(
        pass.report().notes,
        vec!["source:gmail:conn-1: could not be listed (offline)".to_string()]
    );
    assert_eq!(pass.report().skipped, 0);

    let pass = drive(vec![BackfillEvent::Listed(Ok(vec![None]))]);
    assert_eq!(pass.report().skipped, 1);
    assert_eq!(
        pass.report().notes,
        vec!["source:gmail:conn-1: a document row carries no key".to_string()]
    );

    let listed = || BackfillEvent::Listed(Ok(vec![Some("k".to_string())]));
    let read =
        || BackfillEvent::Read(Ok(Some(("title".to_string(), "content".to_string()))));
    let pass = drive(vec![listed(), BackfillEvent::Probed(Ok(None))]);
    assert_eq!((pass.report().scanned, pass.report().skipped), (0, 1));
    assert!(pass.report().notes.is_empty());

    let pass = drive(vec![listed(), BackfillEvent::Probed(Ok(Some(false))), BackfillEvent::Read(Ok(None))]);
    assert_eq!((pass.report().scanned, pass.report().skipped), (1, 1));

    let pass = drive(vec![
        listed(),
        BackfillEvent::Probed(Ok(Some(false))),
        read(),
        BackfillEvent::Ingested(Ok(Some(true))),
    ]);
    assert_eq!((pass.report().ingested, pass.report().already_present), (0, 1));

    let pass = drive(vec![
        listed(),
        BackfillEvent::Probed(Ok(Some(false))),
        read(),
        BackfillEvent::Ingested(Ok(None)),
    ]);
    assert_eq!((pass.report().ingested, pass.report().skipped), (0, 1));

    let pass = drive(vec![
        listed(),
        BackfillEvent::Probed(Ok(Some(false))),
        read(),
        BackfillEvent::Ingested(Err(failure("no space", false))),
    ]);
    assert_eq!(pass.report().skipped, 1);
    assert_eq!(pass.tolerated_failures(), 1);
    assert_eq!(
        pass.report().notes,
        vec!["source:gmail:conn-1: an ingest failed (no space)".to_string()]
    );
}

#[test]
fn an_answer_out_of_turn_is_ignored() {
    let sources = vec![composio_source("src_gmail", "gmail", "conn-1")];
    let (mut pass, _) = backfill_connector_trees(&sources, None, false);
    let before = pass.report().clone();
    assert!(matches!(pass.advance(BackfillEvent::Read(Ok(None))), BackfillAction::Ignored));
    assert_eq!(*pass.report(), before);
    let (_, action) = backfill_connector_trees(&vec![], None, false);
    assert!(matches!(action, BackfillAction::Finish));
}

#[test]
fn a_pass_is_bounded_where_no_limit_is_named() {
    let mut world = workspace(vec![composio_source("src_gmail", "gmail", "conn-1")]);
    for i in 0..DEFAULT_BACKFILL_LIMIT + 1 {
        world.store_document("source:gmail:conn-1", &format!("msg-{i}"), "x");
    }
    let report = world.run(None, true).unwrap();
    assert_eq!((report.scanned, report.more_pending), (500, true));
}

#[test]
fn notes_are_distinct_and_bounded() {
    let mut report = BackfillReport::default();
    for i in 0..30 {
        report.note(format!("reason {}", i / 2));
    }
    assert_eq!(report.notes.len(), 15);
    for i in 0..30 {
        report.note(format!("other {i}"));
    }
    assert_eq!(report.notes.len(), MAX_NOTES);
}

#[test]
fn a_listing_without_documents_has_no_keys() {
    assert!(listed_keys(&Json::Null).is_empty());
    assert!(listed_keys(&Json::Object(vec![("documents".to_string(), Json::Number(1))])).is_empty());
    let rows = Json::Array(vec![
        Json::Object(vec![("key".to_string(), Json::Text("a".to_string()))]),
        Json::Object(vec![("key".to_string(), Json::Number(1))]),
        Json::Null,
    ]);
    let listing = Json::Object(vec![("documents".to_string(), rows)]);
    assert_eq!(listed_keys(&listing), vec![Some("a".to_string()), None, None]);
}
