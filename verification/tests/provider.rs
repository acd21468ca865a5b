//! The recording provider: what it keeps, what it answers and what it logs.

use tinymemory::documents::{MemoryTaint, NamespaceDocumentInput};
use tinymemory::json::Json;
use tinymemory::provider::answers::{
    AnswerRequest, Chunk, ChunkQuery, CoverWindowQuery, EpisodicEvent, EpisodicTurn,
    FastRetrieveQuery, IngestRequest, MemoryHealth, QueryResult, SourceItem, SummaryContext,
    UserState,
};
use tinymemory::provider::documents::{document, namespace_hit, MemoryDocuments};
use tinymemory::provider::entries::{entry, export_record, namespace_summary};
use tinymemory::provider::families::MemoryDocumentIngest;
use tinymemory::provider::scope::rendered_scope;
use tinymemory::provider::tree::{MemoryIngest, MemoryTree};
use tinymemory::provider::types::{
    Call, Capability, DecodedRecord, ExportRecord, GoalItem, GoalsDoc, GraphRelationRecord,
    ImportRecord, IngestItem, IngestOutcome, MemoryCategory, MemoryError, OwnedRecallOpts,
    RetrievalHit, RetrievalResponse, SourceScope, ToolMemoryPriority, ToolMemoryRule,
    ToolMemorySource, TreeStatus,
};
use tinymemory::provider::{RecordingProvider, FULL_DRIVER_ID};
use tinymemory::summarise::SummaryInput;

fn opts() -> OwnedRecallOpts {
    OwnedRecallOpts { namespace: None, category: None, session_id: None, min_score: None }
}

fn store(provider: &mut RecordingProvider, namespace: &str, key: &str, content: &str) {
    provider
        .store(
            namespace,
            key,
            content,
            MemoryCategory::Core,
            None,
            MemoryTaint::Internal,
        )
        .unwrap();
}

fn scope(allow: &[&str]) -> SourceScope {
    SourceScope { allow: allow.iter().map(|s| s.to_string()).collect() }
}

fn item(content: &str, taint: MemoryTaint) -> IngestItem {
    IngestItem { source_id: "src".to_string(), content: content.to_string(), taint }
}

#[test]
fn the_full_driver_advertises_every_family() {
    let provider = RecordingProvider::new();
    assert!(provider.as_tree().is_some());
    assert!(provider.as_chunks().is_some());
    assert!(provider.as_documents().is_some());
    assert!(provider.as_retrieval().is_some());
    assert_eq!(provider.driver_id(), FULL_DRIVER_ID);
    let capabilities = provider.capabilities();
    for family in [
        Capability::Core,
        Capability::Recall,
        Capability::Portability,
        Capability::Ingest,
        Capability::Documents,
        Capability::Tree,
        Capability::Graph,
        Capability::Episodic,
        Capability::Answer,
    ] {
        assert_eq!(capabilities.iter().filter(|c| **c == family).count(), 1);
    }
}

#[test]
fn the_full_driver_retains_writes() {
    let mut provider = RecordingProvider::new();
    store(&mut provider, "probe", "k", "v");
    let read = provider.get("probe", "k").unwrap();
    assert_eq!(
        read.map(|entry| entry.content),
        Some("v".to_string()),
        "the full driver dropped a write"
    );
}

#[test]
fn a_stored_entry_is_read_back_and_forgotten() {
    let mut provider = RecordingProvider::new();
    store(&mut provider, "a", "k", "first");
    store(&mut provider, "b", "k", "other");
    provider
        .store(
            "a",
            "k",
            "second",
            MemoryCategory::Daily,
            Some("s".to_string()),
            MemoryTaint::ExternalSync,
        )
        .unwrap();
    let read = provider.get("a", "k").unwrap().unwrap();
    assert_eq!(read.id, "a::k");
    assert_eq!(read.content, "second");
    assert_eq!(read.category, MemoryCategory::Daily);
    assert_eq!(read.session_id.as_deref(), Some("s"));
    assert_eq!(read.taint, MemoryTaint::ExternalSync);
    assert_eq!(read.timestamp, "1970-01-01T00:00:00Z");
    assert_eq!(provider.forget("a", "k"), Ok(true));
    assert_eq!(provider.forget("a", "k"), Ok(false));
    assert!(provider.get("a", "k").unwrap().is_none());
    assert_eq!(provider.get("b", "k").unwrap().unwrap().content, "other");
}

#[test]
fn entries_are_listed_by_id_and_counted_by_namespace() {
    let mut provider = RecordingProvider::new();
    store(&mut provider, "b", "k", "1");
    store(&mut provider, "a", "z", "2");
    store(&mut provider, "a", "y", "3");
    let ids: Vec<String> =
        provider.list(None, None, None).unwrap().into_iter().map(|e| e.id).collect();
    assert_eq!(ids, vec!["a::y", "a::z", "b::k"]);
    assert_eq!(provider.list(Some("a"), None, None).unwrap().len(), 2);
    assert_eq!(provider.list(None, Some(&MemoryCategory::Daily), None).unwrap().len(), 0);
    assert_eq!(provider.list(None, None, Some("s")).unwrap().len(), 0);
    let counts: Vec<(String, usize)> =
        provider.namespaces().unwrap().into_iter().map(|n| (n.namespace, n.count)).collect();
    assert_eq!(counts, vec![("a".to_string(), 2), ("b".to_string(), 1)]);
    let mut set = RecordingProvider::new().with_namespace_summaries(vec![namespace_summary("n", 9)]);
    assert_eq!(set.namespaces().unwrap()[0].count, 9);
}

#[test]
fn recall_matches_without_regard_to_case() {
    let mut provider = RecordingProvider::new();
    store(&mut provider, "a", "1", "The ROADMAP");
    store(&mut provider, "b", "2", "a Stra\u{df}e roadmap");
    let ids = |entries: Vec<tinymemory::provider::types::MemoryEntry>| {
        entries.into_iter().map(|e| e.id).collect::<Vec<_>>()
    };
    assert_eq!(ids(provider.recall("Roadmap", 5, &opts(), None).unwrap()), vec!["a::1", "b::2"]);
    assert_eq!(ids(provider.recall("roadmap", 1, &opts(), None).unwrap()), vec!["a::1"]);
    let mut only_b = opts();
    only_b.namespace = Some("b".to_string());
    assert_eq!(ids(provider.recall("ROADMAP", 5, &only_b, None).unwrap()), vec!["b::2"]);
    assert!(provider.recall("roadmap", 5, &opts(), Some(&scope(&[]))).unwrap().is_empty());
    assert_eq!(provider.recall("roadmap", 5, &opts(), Some(&scope(&["x"]))).unwrap().len(), 2);
    assert_eq!(
        ids(provider.recall_lowered(
            "x",
            &vec!["xy".to_string(), "z".to_string()],
            5,
            &opts(),
            None
        )),
        vec!["a::1"]
    );
    let calls = provider.calls();
    assert_eq!(calls[2].method, "recall.recall");
    assert_eq!(calls[2].content.as_deref(), Some("Roadmap"));
    assert_eq!(calls[2].scoped, Some(false));
    assert_eq!(calls[5].scoped, Some(true));

    let mut set = RecordingProvider::new().with_recall_result(vec![entry("canned")]);
    let answered = set.recall("anything", 0, &opts(), Some(&scope(&[]))).unwrap();
    assert_eq!(answered[0].content, "canned");
}

#[test]
fn an_import_keeps_provenance_and_names_what_it_cannot_read() {
    let mut provider = RecordingProvider::new();
    let decoded = DecodedRecord {
        namespace: "n".to_string(),
        key: "k".to_string(),
        content: "c".to_string(),
        category: MemoryCategory::Custom("x".to_string()),
        session_id: None,
    };
    let good = ImportRecord {
        record: ExportRecord { id: "r0".to_string(), ..export_record(MemoryTaint::ExternalSync) },
        decoded: Some(decoded),
    };
    let bad = ImportRecord { record: export_record(MemoryTaint::Internal), decoded: None };
    let outcome = provider.import_records(vec![good, bad]).unwrap();
    assert_eq!((outcome.imported, outcome.failed), (1, 1));
    assert_eq!(outcome.errors, vec!["record r1 lacks a namespace or key".to_string()]);
    let read = provider.get("n", "k").unwrap().unwrap();
    assert_eq!(read.taint, MemoryTaint::ExternalSync);
    assert_eq!(read.category, MemoryCategory::Custom("x".to_string()));
    assert_eq!(provider.export_page().unwrap().len(), 1);
    assert_eq!(provider.calls()[0].taint, Some(MemoryTaint::ExternalSync));
}

fn dated(provider: &mut RecordingProvider, key: &str, priority: &str, now: i64) {
    let input = NamespaceDocumentInput {
        key: key.to_string(),
        title: key.to_uppercase(),
        priority: priority.to_string(),
        document_id: Some(format!("d-{key}")),
        ..document(&format!("body {key}"), MemoryTaint::ExternalSync)
    };
    provider.put_document_at(input, now);
}

#[test]
fn documents_are_kept_listed_and_recalled() {
    let mut provider = RecordingProvider::new();
    dated(&mut provider, "b", "low", 10);
    dated(&mut provider, "a", "low", 10);
    dated(&mut provider, "c", "high", 10);
    dated(&mut provider, "d", "low", 20);
    let read = provider.get_document("ns", "a").unwrap().unwrap();
    assert_eq!(read.document_id, "d-a");
    assert_eq!(read.taint, MemoryTaint::ExternalSync);
    let recalled = provider.recall_documents("ns", 3).unwrap();
    assert_eq!(recalled.context_text, "D\nbody d\n\nC\nbody c\n\nA\nbody a");
    assert_eq!(recalled.hits.len(), 3);
    assert_eq!(recalled.hits[0].key, "d");
    assert_eq!(recalled.query, None);
    let listing = provider.list_documents(Some("ns")).unwrap();
    assert!(matches!(listing.get("count"), Some(Json::Number(4))));
    assert_eq!(provider.list_namespaces().unwrap(), vec!["ns".to_string()]);
    let gone = provider.delete_document("ns", "d-a").unwrap();
    assert!(matches!(gone.get("deleted"), Some(Json::Bool(true))));
    let again = provider.delete_document("ns", "d-a").unwrap();
    assert!(matches!(again.get("deleted"), Some(Json::Bool(false))));
    assert!(provider.get_document("ns", "a").unwrap().is_none());
    let queried = provider.query_documents("ns", "q", 2).unwrap();
    assert_eq!(queried.query.as_deref(), Some("q"));
    assert!(queried.hits.is_empty() && queried.context_text.is_empty());
    provider.clear_namespace("ns").unwrap();
    assert!(provider.list_namespaces().unwrap().is_empty());
}

#[test]
fn a_document_is_put_now_under_the_default_id() {
    let mut provider = RecordingProvider::new();
    assert_eq!(
        provider.put_document(document("x", MemoryTaint::Internal)),
        Ok("doc".to_string())
    );
    let read = provider.get_document("ns", "k").unwrap().unwrap();
    assert!(read.created_at > 1_600_000_000_000);
    assert_eq!(provider.calls()[0].method, "documents.put_document");
    assert_eq!(provider.calls()[0].content.as_deref(), Some("x"));
    assert_eq!(provider.calls()[0].taint, Some(MemoryTaint::Internal));
}

fn relation(subject: &str, object: &str, attrs: &str) -> GraphRelationRecord {
    GraphRelationRecord {
        namespace: Some("ns".to_string()),
        subject: subject.to_string(),
        predicate: "knows".to_string(),
        object: object.to_string(),
        attrs: attrs.to_string(),
        updated_at: 1,
        evidence_count: 1,
        order_index: None,
        document_ids: vec![],
        chunk_ids: vec![],
    }
}

#[test]
fn kv_rows_and_relations_are_upserted() {
    let mut provider = RecordingProvider::new();
    provider.kv_put(Some("ns"), "b", "1".to_string()).unwrap();
    provider.kv_put(Some("ns"), "a", "2".to_string()).unwrap();
    provider.kv_put(None, "a", "3".to_string()).unwrap();
    provider.kv_put(Some("ns"), "b", "4".to_string()).unwrap();
    assert_eq!(provider.kv_get(Some("ns"), "b").unwrap().unwrap().value, "4");
    assert_eq!(provider.kv_get(None, "a").unwrap().unwrap().value, "3");
    let keys = |rows: Vec<tinymemory::provider::types::MemoryKvRecord>| {
        rows.into_iter().map(|r| r.key).collect::<Vec<_>>()
    };
    assert_eq!(keys(provider.kv_list(Some("ns"), None, 9).unwrap()), vec!["a", "b"]);
    assert_eq!(keys(provider.kv_list(Some("ns"), Some("b"), 9).unwrap()), vec!["b"]);
    assert_eq!(keys(provider.kv_list(Some("ns"), None, 1).unwrap()), vec!["a"]);
    assert_eq!(provider.kv_delete(Some("ns"), "b"), Ok(true));
    assert_eq!(provider.kv_delete(Some("ns"), "b"), Ok(false));

    provider.put_relation(relation("z", "x", "{}")).unwrap();
    provider.put_relation(relation("a", "x", "{}")).unwrap();
    provider.put_relation(relation("z", "x", "{\"w\":1}")).unwrap();
    let rows = provider.relations(None, None, None, 9).unwrap();
    assert_eq!(
        rows.iter().map(|r| (r.subject.as_str(), r.attrs.as_str())).collect::<Vec<_>>(),
        vec![("a", "{}"), ("z", "{\"w\":1}")]
    );
    assert_eq!(provider.relations(Some("ns"), Some("z"), Some("knows"), 9).unwrap().len(), 1);
    assert_eq!(provider.relations(None, None, Some("likes"), 9).unwrap().len(), 0);
}

fn rule(id: &str, tool: &str) -> ToolMemoryRule {
    ToolMemoryRule {
        id: id.to_string(),
        tool_name: tool.to_string(),
        rule: "be brief".to_string(),
        priority: ToolMemoryPriority::High,
        source: ToolMemorySource::UserExplicit,
        tags: vec![],
        created_at: String::new(),
        updated_at: String::new(),
    }
}

#[test]
fn goals_and_tool_rules_are_kept() {
    let mut provider = RecordingProvider::new();
    assert!(provider.goals().unwrap().items.is_empty());
    let goal = GoalItem { id: "g".to_string(), text: "ship".to_string() };
    provider.set_goals(GoalsDoc { items: vec![goal] }).unwrap();
    assert_eq!(provider.goals().unwrap().items[0].text, "ship");

    provider.put_tool_rule(rule("2", "mail")).unwrap();
    provider.put_tool_rule(rule("1", "mail")).unwrap();
    provider.put_tool_rule(rule("3", "calendar")).unwrap();
    let ids: Vec<String> =
        provider.tool_rules("mail").unwrap().into_iter().map(|r| r.id).collect();
    assert_eq!(ids, vec!["1", "2"]);
    provider.put_tool_rule(rule("1", "calendar")).unwrap();
    assert_eq!(provider.tool_rules("mail").unwrap().len(), 1);
    assert_eq!(provider.delete_tool_rule("mail", "1"), Ok(false));
    assert_eq!(provider.delete_tool_rule("calendar", "1"), Ok(true));
}

#[test]
fn sources_and_ingests_are_logged_with_their_provenance() {
    let mut provider = RecordingProvider::new();
    let items = vec![SourceItem { id: "1".to_string(), content: "mail".to_string() }];
    provider.accept_source_items("s", "gmail", items, MemoryTaint::ExternalSync).unwrap();
    assert_eq!(provider.forget_source("s"), Ok(0));
    MemoryIngest::ingest_document(&mut provider, item("d", MemoryTaint::Internal)).unwrap();
    provider
        .ingest_chat(vec![item("x", MemoryTaint::ExternalSync), item("y", MemoryTaint::Internal)])
        .unwrap();
    MemoryDocumentIngest::ingest_document(&mut provider, item("t", MemoryTaint::Internal)).unwrap();
    assert_eq!(
        provider
            .ingest_conversation(vec![
                item("1", MemoryTaint::Internal),
                item("2", MemoryTaint::ExternalSync)
            ])
            .unwrap(),
        IngestOutcome::default()
    );
    let logged: Vec<(String, Option<String>, Option<MemoryTaint>)> =
        provider.calls().into_iter().map(|c| (c.method, c.content, c.taint)).collect();
    let call = |method: &str, content: Option<&str>, taint: Option<MemoryTaint>| {
        (method.to_string(), content.map(str::to_owned), taint)
    };
    assert_eq!(
        logged,
        vec![
            call("sources.accept_source_items", Some("mail"), Some(MemoryTaint::ExternalSync)),
            call("sources.forget_source", None, None),
            call("ingest.ingest_document", Some("d"), Some(MemoryTaint::Internal)),
            call("ingest.ingest_chat", Some("x"), Some(MemoryTaint::ExternalSync)),
            call("document_ingest.ingest_document", Some("t"), Some(MemoryTaint::Internal)),
            call("conversation_ingest.ingest_conversation", Some("1"), Some(MemoryTaint::Internal)),
            call(
                "conversation_ingest.ingest_conversation",
                Some("2"),
                Some(MemoryTaint::ExternalSync)
            ),
        ]
    );
    assert_eq!(provider.call_count(), 7);
    assert_eq!(
        provider.ingest_email(vec![]),
        Err(MemoryError::Unsupported(Capability::Ingest))
    );
    assert_eq!(provider.call_count(), 7);
}

#[test]
fn retrieval_answers_what_was_set() {
    let response = RetrievalResponse {
        hits: vec![RetrievalHit {
            node_id: "n".to_string(),
            tree_scope: "gmail:c".to_string(),
            content: "x".to_string(),
            score: 0.5f32.to_bits(),
        }],
        total: 1,
        truncated: false,
    };
    let mut provider = RecordingProvider::new().with_fast_retrieve_result(response).with_namespace_hits(
        vec![
            namespace_hit("a", "1", "x", 0.9f64.to_bits()),
            namespace_hit("b", "2", "y", 0.8f64.to_bits()),
            namespace_hit("a", "3", "z", 0.7f64.to_bits()),
        ],
    );
    let answered =
        provider.fast_retrieve("q", FastRetrieveQuery { limit: 3 }, Some(&scope(&["b", "a"]))).unwrap();
    assert_eq!(answered.hits[0].node_id, "n");
    assert_eq!(
        provider.only_call(),
        Call {
            method: "retrieval.fast_retrieve".to_string(),
            content: Some("a,b".to_string()),
            taint: None,
            scoped: Some(true),
        }
    );
    let hits = provider.recall_namespace_scored("a", "q", 1, None).unwrap();
    assert_eq!(hits.len(), 1);
    assert_eq!(hits[0].id, "a/1");
    assert_eq!(f64::from_bits(hits[0].score_breakdown.vector_similarity), 0.9);
    assert_eq!(provider.calls()[1].content.as_deref(), Some("namespace=a limit=1"));
    assert_eq!(provider.recall_namespace_scored("a", "q", 9, None).unwrap().len(), 2);
    assert!(provider.search_entities("q", Some(&vec!["person".to_string()]), 3).is_ok());
    assert!(provider.search_entities("q", None, 3).unwrap().is_empty());
    assert!(matches!(
        provider.search_entities("q", Some(&vec!["url".to_string(), "alien".to_string()]), 3),
        Err(MemoryError::Invalid(message)) if message == "unknown entity kind: alien"
    ));
}

#[test]
fn a_scope_is_rendered_in_order() {
    assert_eq!(rendered_scope(None), None);
    assert_eq!(rendered_scope(Some(&scope(&[]))).as_deref(), Some(""));
    assert_eq!(rendered_scope(Some(&scope(&["slack:b", "gmail:a"]))).as_deref(), Some("gmail:a,slack:b"));
}

#[test]
fn the_tree_answers_as_an_empty_one() {
    let mut provider = RecordingProvider::new();
    provider
        .append(IngestRequest { namespace: "ns".to_string(), content: "leaf".to_string() })
        .unwrap();
    let input = |content: &str| SummaryInput {
        id: "i".to_string(),
        content: content.to_string(),
        token_count: 0,
        entities: vec![],
        topics: vec![],
        score: 0,
    };
    let context = SummaryContext { tree_id: "t".to_string(), token_budget: 8 };
    let out = provider.summarise(&vec![input("a"), input("b")], &context).unwrap();
    assert!(out.content.is_empty());
    assert!(matches!(
        provider.drill_down("ns", "x"),
        Err(MemoryError::NotFound(what)) if what == "node"
    ));
    assert_eq!(provider.seal("ns").unwrap().namespace, "ns");
    assert_eq!(provider.seal("ns").unwrap().total_nodes, 0);
    let calls = provider.calls();
    assert_eq!(calls[0].content.as_deref(), Some("leaf"));
    assert_eq!(calls[1].content.as_deref(), Some("a|b"));
}

/// A tree that serves only what has to be served.
struct BareTree;

impl MemoryTree for BareTree {
    fn append(&mut self, _request: IngestRequest) -> Result<(), MemoryError> {
        Ok(())
    }

    fn query_source(
        &mut self,
        _namespace: &str,
        _source_id: &str,
        _limit: usize,
        _scope: Option<&SourceScope>,
    ) -> Result<Vec<Chunk>, MemoryError> {
        Ok(vec![])
    }

    fn drill_down(&mut self, _namespace: &str, _node_id: &str) -> Result<QueryResult, MemoryError> {
        Err(MemoryError::NotFound("node".to_string()))
    }

    fn seal(&mut self, _namespace: &str) -> Result<TreeStatus, MemoryError> {
        Err(MemoryError::Backend("sealed".to_string()))
    }

    fn cascade(&mut self, _namespace: &str) -> Result<TreeStatus, MemoryError> {
        Err(MemoryError::Backend("sealed".to_string()))
    }
}

#[test]
fn what_a_tree_does_not_serve_is_refused() {
    let mut tree = BareTree;
    let refused = || MemoryError::Unsupported(Capability::Tree);
    assert_eq!(tree.flush_source_tree("s").unwrap_err(), refused());
    assert_eq!(tree.runtime_rebuild("ns").unwrap_err(), refused());
    assert_eq!(tree.recent_leaves(3, None).unwrap_err(), refused());
    assert_eq!(MemoryError::unsupported(Capability::Tree), refused());
}

#[test]
fn the_plain_families_answer_nothing_and_log_their_names() {
    let mut provider = RecordingProvider::new();
    assert!(provider.entities("ns", None, 3).unwrap().is_empty());
    assert_eq!(provider.reembed().unwrap().examined, 0);
    assert!(provider.source_sync_state("gmail", "c").unwrap().is_none());
    assert!(provider.sync_audit_log(None).unwrap().is_empty());
    assert_eq!(provider.estimate_sync_cost_usd(1, 2), Ok(0.0f64.to_bits()));
    let turn = EpisodicTurn {
        session_id: "s".to_string(),
        role: "user".to_string(),
        content: "hello".to_string(),
    };
    assert_eq!(provider.insert_turn(&turn), Ok(1));
    let event = EpisodicEvent {
        event_id: "e".to_string(),
        segment_id: "s".to_string(),
        content: "met".to_string(),
    };
    provider.insert_event(&event).unwrap();
    provider.set_segment_summary("s", "recap", 0).unwrap();
    assert!(provider.open_segment("s").unwrap().is_none());
    assert_eq!(provider.set_facet_user_state("k", UserState::Pinned), Ok(false));
    let query = ChunkQuery { source_id: None, limit: None };
    assert!(provider.list_chunks(&query, Some(&scope(&["b", "a"]))).unwrap().is_empty());
    assert!(provider.list_people(None).unwrap().is_empty());
    assert!(provider.extract_entities("who").unwrap().is_empty());
    let window = CoverWindowQuery { since: 0, until: 1 };
    assert_eq!(provider.cover_window(&window, None).unwrap().total, 0);
    let answered = provider.answer(AnswerRequest { question: "?".to_string() }).unwrap();
    assert!(answered.answer.is_empty() && answered.model.is_none());
    assert_eq!(provider.health(), MemoryHealth::Ready);
    let logged: Vec<(String, Option<String>)> =
        provider.calls().into_iter().map(|c| (c.method, c.content)).collect();
    let call = |method: &str, content: Option<&str>| {
        (method.to_string(), content.map(str::to_owned))
    };
    assert_eq!(
        logged,
        vec![
            call("entities.entities", None),
            call("maintenance.reembed", None),
            call("source_sync.source_sync_state", None),
            call("source_sync.sync_audit_log", None),
            call("source_sync.estimate_sync_cost_usd", None),
            call("episodic.insert_turn", Some("hello")),
            call("episodic.insert_event", Some("met")),
            call("episodic.set_segment_summary", Some("recap")),
            call("episodic.open_segment", None),
            call("profile.set_facet_user_state", None),
            call("chunks.list_chunks", Some("a,b")),
            call("people.list_people", None),
            call("scoring.extract_entities", Some("who")),
            call("retrieval.cover_window", None),
            call("answer.answer", None),
        ]
    );
}
