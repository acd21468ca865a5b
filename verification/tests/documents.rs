//! Document writes, reads and deletions.

use tinymemory::documents::batch::{DocumentBatch, PreparedDocument};
use tinymemory::documents::embed::{EmbedRun, EMBED_REQUEST_MAX_TEXTS};
use tinymemory::documents::identity::{short_hex, DocumentIdentity};
use tinymemory::documents::write::stamped_document_id;
use tinymemory::documents::{
    ChunkRow, DocumentBody, DocumentRow, GraphRow, KvRow, MemoryTaint, NamespaceDocumentInput,
    UnifiedMemory,
};
use tinymemory::json::Json;

fn input(
    namespace: &str,
    key: &str,
    document_id: Option<&str>,
    content: &str,
) -> NamespaceDocumentInput {
    NamespaceDocumentInput {
        namespace: namespace.to_string(),
        logical_namespace: namespace.to_string(),
        key: key.to_string(),
        title: key.to_string(),
        content: content.to_string(),
        source_type: "doc".to_string(),
        priority: "medium".to_string(),
        tags: vec![],
        metadata: "{}".to_string(),
        category: "core".to_string(),
        session_id: None,
        document_id: document_id.map(str::to_owned),
        taint: MemoryTaint::ExternalSync,
    }
}

fn open() -> UnifiedMemory {
    UnifiedMemory::new("noop".to_string())
}

/// A full write of one document whose content is its only chunk, with a provider that
/// answers with empty vectors.
fn upsert_document(
    memory: &mut UnifiedMemory,
    input: NamespaceDocumentInput,
    now: i64,
) -> Result<String, String> {
    let chunks = vec![input.content.clone()];
    let mut run = EmbedRun::new(chunks.len());
    while let Some((start, end)) = run.next_request() {
        run.accept(Ok(vec![vec![]; end - start]));
    }
    let mut batch = DocumentBatch::new(vec![PreparedDocument { input, chunks }], run.finish());
    let path = batch
        .begin_next(memory, now)
        .map(|pending| format!("docs/{}.md", pending.document_id));
    if let Some(path) = path {
        batch.finish_next(memory, Ok(path));
    }
    batch.into_result()
}

fn upsert_document_metadata_only(
    memory: &mut UnifiedMemory,
    input: NamespaceDocumentInput,
    now: i64,
) -> Result<String, String> {
    let pending = memory.begin_metadata_write_at(input, now, "0123456789abcdef")?;
    let path = format!("docs/{}.md", pending.document_id);
    memory.commit_metadata_write(pending, path)
}

/// `(document_id, key, content, created_at)` of every row in `namespace`, ordered by key.
fn stored_rows(memory: &UnifiedMemory, namespace: &str) -> Vec<(String, String, String, i64)> {
    let mut rows: Vec<(String, String, String, i64)> = memory
        .document_rows()
        .iter()
        .filter(|row| row.namespace == namespace)
        .map(|row| {
            (row.document_id.clone(), row.key.clone(), row.body.content.clone(), row.created_at)
        })
        .collect();
    rows.sort_by(|a, b| a.1.cmp(&b.1));
    rows
}

/// The distinct document ids that the chunks of `namespace` carry.
fn chunk_document_ids(memory: &UnifiedMemory, namespace: &str) -> Vec<String> {
    let mut ids: Vec<String> = memory
        .chunk_rows()
        .iter()
        .filter(|row| row.namespace == namespace)
        .map(|row| row.document_id.clone())
        .collect();
    ids.sort();
    ids.dedup();
    ids
}

#[test]
fn a_requested_id_that_names_a_row_under_a_stale_key_updates_that_row() {
    let mut memory = open();
    let namespace = "skill-github";
    let stable_id = "github:4892120323";

    let legacy_id = upsert_document(
        &mut memory,
        input(namespace, "Fix the login page", Some(stable_id), "issue body v1"),
        1_000,
    )
    .unwrap();
    assert_eq!(legacy_id, stable_id);
    let legacy_created_at = stored_rows(&memory, namespace)[0].3;

    let resynced_id = upsert_document(
        &mut memory,
        input(namespace, stable_id, Some(stable_id), "issue body v2"),
        2_000,
    )
    .expect("a re-sync keyed by the stable id must update the title-keyed row");
    assert_eq!(resynced_id, legacy_id);

    let rows = stored_rows(&memory, namespace);
    assert_eq!(rows.len(), 1, "the re-sync must update the row in place, not add a second one");
    let (document_id, key, content, created_at) = &rows[0];
    assert_eq!(document_id, stable_id);
    assert_eq!(key, stable_id, "the row now carries the key the write addressed it by");
    assert_eq!(content, "issue body v2");
    assert_eq!(*created_at, legacy_created_at, "re-keying is an update: created_at survives");
    assert_eq!(
        chunk_document_ids(&memory, namespace),
        vec![stable_id.to_string()],
        "the chunks stay addressable from the row's id"
    );
    assert!(
        memory.get_document_by_key(namespace, stable_id).is_some(),
        "the row resolves by its new key"
    );
    assert!(
        memory.get_document_by_key(namespace, "Fix the login page").is_none(),
        "the stale key no longer resolves"
    );
}

#[test]
fn a_requested_id_owned_by_another_namespace_stores_under_a_derived_id() {
    let mut memory = open();
    upsert_document(
        &mut memory,
        input("skill-github", "github:1", Some("github:1"), "issue in github"),
        1_000,
    )
    .unwrap();

    let stored = upsert_document(
        &mut memory,
        input("notes", "github:1", Some("github:1"), "a note about it"),
        2_000,
    )
    .expect("a foreign row must not block the write");

    assert_eq!(stored, UnifiedMemory::derive_document_id("notes", "github:1"));
    let notes = stored_rows(&memory, "notes");
    assert_eq!(notes.len(), 1);
    assert_eq!(notes[0].0, stored);
    assert_eq!(notes[0].2, "a note about it");
    assert_eq!(chunk_document_ids(&memory, "notes"), vec![stored]);
    let github = stored_rows(&memory, "skill-github");
    assert_eq!(github.len(), 1);
    assert_eq!(
        (github[0].0.as_str(), github[0].1.as_str(), github[0].2.as_str()),
        ("github:1", "github:1", "issue in github"),
        "the other namespace's row is untouched"
    );
}

#[test]
fn the_row_id_wins_over_a_conflicting_requested_id() {
    let mut memory = open();
    let derived =
        upsert_document(&mut memory, input("notes", "plan", None, "draft one"), 1_000).unwrap();
    assert_eq!(derived, UnifiedMemory::derive_document_id("notes", "plan"));

    let stored = upsert_document(
        &mut memory,
        input("notes", "plan", Some("plan-v2"), "draft two"),
        2_000,
    )
    .unwrap();

    assert_eq!(stored, derived, "the existing row's id is the write's id");
    let notes = stored_rows(&memory, "notes");
    assert_eq!(notes.len(), 1);
    assert_eq!(notes[0].0, derived);
    assert_eq!(notes[0].2, "draft two");
    assert_eq!(
        chunk_document_ids(&memory, "notes"),
        vec![derived],
        "no chunks are written under an id the row does not have"
    );
}

#[test]
fn a_metadata_only_write_reaches_a_row_under_a_stale_key_too() {
    let mut memory = open();
    let namespace = "skill-github";
    upsert_document(
        &mut memory,
        input(namespace, "Fix the login page", Some("github:7"), "issue body v1"),
        1_000,
    )
    .unwrap();
    let legacy_created_at = stored_rows(&memory, namespace)[0].3;

    let stored = upsert_document_metadata_only(
        &mut memory,
        input(namespace, "github:7", Some("github:7"), "issue body v2"),
        2_000,
    )
    .expect("the light write must update the title-keyed row");

    assert_eq!(stored, "github:7");
    let rows = stored_rows(&memory, namespace);
    assert_eq!(rows.len(), 1);
    assert_eq!((rows[0].1.as_str(), rows[0].2.as_str()), ("github:7", "issue body v2"));
    assert_eq!(rows[0].3, legacy_created_at);
    assert_eq!(
        chunk_document_ids(&memory, namespace),
        vec!["github:7".to_string()],
        "a metadata-only write leaves the row's chunks in place"
    );
}

#[test]
fn the_write_transaction_rekeys_a_row_another_writer_moved_meanwhile() {
    let mut memory = open();
    let namespace = "skill-github";
    upsert_document(
        &mut memory,
        input(namespace, "moved-key", Some("github:9"), "issue body v1"),
        1_000,
    )
    .unwrap();

    assert!(
        memory.rekey_document_in_namespace(namespace, "github:9", "github:9").unwrap(),
        "a row held under another key is moved under the key being written"
    );
    assert!(
        !memory.rekey_document_in_namespace(namespace, "github:9", "github:9").unwrap(),
        "a row already under the key is left alone"
    );
    assert!(
        !memory.rekey_document_in_namespace(namespace, "github:404", "x").unwrap(),
        "a document the namespace does not hold is nothing to re-key"
    );

    let stored = upsert_document(
        &mut memory,
        input(namespace, "github:9", Some("github:9"), "issue body v2"),
        2_000,
    )
    .expect("the upsert lands on the moved row");
    assert_eq!(stored, "github:9");
    let rows = stored_rows(&memory, namespace);
    assert_eq!(rows.len(), 1);
    assert_eq!((rows[0].1.as_str(), rows[0].2.as_str()), ("github:9", "issue body v2"));
}

#[test]
fn a_blank_requested_id_is_ignored() {
    let mut memory = open();
    let stored =
        upsert_document(&mut memory, input("notes", "plan", Some("   "), "draft"), 1_000).unwrap();
    assert_eq!(stored, UnifiedMemory::derive_document_id("notes", "plan"));
}

#[test]
fn a_write_follows_a_row_that_moved_after_it_was_resolved() {
    let mut memory = open();
    upsert_document(&mut memory, input("ns", "old", Some("d1"), "v1"), 1_000).unwrap();
    let pending = memory.begin_write_at(input("ns", "new", Some("d1"), "v2"), 2_000).unwrap();
    assert!(memory.rekey_document_in_namespace("ns", "d1", "elsewhere").unwrap());
    let stored = memory
        .commit_write(pending, "docs/d1.md".to_string(), vec!["v2".to_string()], vec![])
        .unwrap();
    assert_eq!(stored, "d1");
    assert_eq!(
        stored_rows(&memory, "ns"),
        vec![("d1".to_string(), "new".to_string(), "v2".to_string(), 1_000)]
    );
}

#[test]
fn a_write_that_cannot_land_changes_nothing() {
    let mut memory = open();
    upsert_document(&mut memory, input("ns", "a", Some("d1"), "one"), 1_000).unwrap();
    upsert_document(&mut memory, input("ns", "b", Some("d2"), "two"), 1_000).unwrap();
    let error = memory.rekey_document_in_namespace("ns", "d1", "b").unwrap_err();
    assert!(error.starts_with("re-key memory_docs:"), "{error}");
    assert_eq!(stored_rows(&memory, "ns").len(), 2);
    assert_eq!(stored_rows(&memory, "ns")[0].1, "a");

    let pending = memory.begin_write_at(input("other", "c", Some("free"), "x"), 2_000).unwrap();
    upsert_document(&mut memory, input("ns", "c", Some("free"), "taken"), 2_500).unwrap();
    let before = memory.chunk_rows().len();
    let error = memory
        .commit_write(pending, "p".to_string(), vec!["x".to_string()], vec![])
        .unwrap_err();
    assert!(error.contains("document_id"), "{error}");
    assert_eq!(memory.chunk_rows().len(), before);
    assert!(stored_rows(&memory, "other").is_empty());
}

#[test]
fn a_derived_id_is_the_start_of_the_digest_of_namespace_and_key() {
    assert_eq!(
        UnifiedMemory::derive_document_id("notes", "plan"),
        "210dac731bb690b5f158ed92f7440664"
    );
    assert_ne!(
        UnifiedMemory::derive_document_id("notes", "plan"),
        UnifiedMemory::derive_document_id("note", "splan")
    );
    assert_ne!(
        UnifiedMemory::derive_document_id("a", "bc"),
        UnifiedMemory::derive_document_id("ab", "c")
    );
    for (namespace, key) in [("", ""), ("notes", "plan"), ("\u{e9}", "\u{1f600}")] {
        let id = UnifiedMemory::derive_document_id(namespace, key);
        assert_eq!(id.len(), 32);
        assert!(id.chars().all(|c| c.is_ascii_digit() || ('a'..='f').contains(&c)));
    }
    let digest: Vec<u8> = (0u8..32).collect();
    assert_eq!(short_hex(&digest), "000102030405060708090a0b0c0d0e0f");
}

#[test]
fn an_empty_key_is_refused() {
    let mut memory = open();
    assert_eq!(
        upsert_document(&mut memory, input("ns", "  ", None, "x"), 1_000),
        Err("document key cannot be empty".to_string())
    );
    assert_eq!(
        memory.begin_write(input("ns", "\t", None, "x")).unwrap_err(),
        "document key cannot be empty"
    );
    assert_eq!(
        upsert_document_metadata_only(&mut memory, input("ns", "", None, "x"), 1_000),
        Err("document key cannot be empty".to_string())
    );
    assert!(memory.document_rows().is_empty());
}

#[test]
fn identities_are_told_apart() {
    let mut memory = open();
    upsert_document(&mut memory, input("ns", "k", Some("d"), "x"), 1_000).unwrap();
    assert!(matches!(
        memory.resolve_document_identity("ns", "k", Some("other")),
        DocumentIdentity::Existing { document_id, created_at: 1_000 } if document_id == "d"
    ));
    assert!(matches!(
        memory.resolve_document_identity("ns", "k2", Some(" d ")),
        DocumentIdentity::StaleKey { document_id, created_at: 1_000 } if document_id == "d"
    ));
    assert!(matches!(
        memory.resolve_document_identity("ns", "k2", Some("free")),
        DocumentIdentity::New { document_id: Some(id) } if id == "free"
    ));
    assert!(matches!(
        memory.resolve_document_identity("ns2", "k2", Some("d")),
        DocumentIdentity::New { document_id: None }
    ));
    assert!(matches!(
        memory.resolve_document_identity("ns", "k2", None),
        DocumentIdentity::New { document_id: None }
    ));
}

#[test]
fn a_metadata_only_write_mints_a_stamped_id() {
    let mut memory = open();
    let stored =
        upsert_document_metadata_only(&mut memory, input("ns", "k", None, "x"), 1_723_456).unwrap();
    assert_eq!(stored, "1723_01234567");
    assert_eq!(stamped_document_id(-5, "abcdefghij"), "0_abcdefgh");
    assert!(memory.chunk_rows().is_empty());

    let minted = memory.begin_metadata_write(input("ns", "k2", None, "x")).unwrap();
    let (seconds, random) = minted.document_id.split_once('_').unwrap();
    assert_eq!(seconds, (minted.now / 1000).to_string());
    assert_eq!(random.len(), 8);
    assert!(random.chars().all(|c| c.is_ascii_hexdigit()));
    assert!(minted.now > 1_600_000_000_000);
}

#[test]
fn a_document_reads_back_as_it_was_written() {
    let mut memory = open();
    let mut document = input("ns", " k ", None, "body");
    document.tags = vec!["a\"b".to_string(), "c".to_string()];
    document.metadata = "{\"n\":1}".to_string();
    document.session_id = Some("s".to_string());
    document.taint = MemoryTaint::Internal;
    let id = upsert_document(&mut memory, document, 5_000).unwrap();
    let row = &memory.document_rows()[0];
    assert_eq!(row.key, "k");
    assert_eq!(row.body.tags_json, "[\"a\\\"b\",\"c\"]");
    assert_eq!(row.body.taint, "internal");
    let read = memory.get_document_by_key("ns", "k").unwrap();
    assert_eq!(read.document_id, id);
    assert_eq!(read.tags, vec!["a\"b".to_string(), "c".to_string()]);
    assert_eq!(read.metadata, "{\"n\":1}");
    assert_eq!(read.session_id.as_deref(), Some("s"));
    assert_eq!(read.taint, MemoryTaint::Internal);
    assert_eq!((read.created_at, read.updated_at), (5_000, 5_000));
    assert_eq!(read.markdown_rel_path, format!("docs/{id}.md"));
}

fn raw_row(id: &str, key: &str, updated_at: i64, tags_json: &str, metadata_json: &str) -> DocumentRow {
    DocumentRow {
        document_id: id.to_string(),
        namespace: "ns".to_string(),
        key: key.to_string(),
        created_at: 1,
        body: DocumentBody {
            title: "t".to_string(),
            content: "c".to_string(),
            source_type: "doc".to_string(),
            priority: "low".to_string(),
            tags_json: tags_json.to_string(),
            metadata_json: metadata_json.to_string(),
            category: "core".to_string(),
            session_id: None,
            updated_at,
            markdown_rel_path: "p".to_string(),
            taint: "no such taint".to_string(),
            logical_namespace: "ns".to_string(),
        },
    }
}

#[test]
fn unreadable_columns_read_as_empty() {
    let memory = UnifiedMemory::from_rows(
        vec![raw_row("d1", "k1", 1, "nonsense", "{"), raw_row("d2", "k2", 2, "[\"x\"]", "[1, 2]")],
        vec![],
        vec![],
        vec![],
        "m".to_string(),
    );
    let first = memory.get_document_by_key("ns", "k1").unwrap();
    assert!(first.tags.is_empty());
    assert_eq!(first.metadata, "{}");
    assert_eq!(first.taint, MemoryTaint::ExternalSync);
    let second = memory.get_document_by_key("ns", "k2").unwrap();
    assert_eq!(second.tags, vec!["x".to_string()]);
    assert_eq!(second.metadata, "[1, 2]");
}

#[test]
fn taints_round_trip() {
    for taint in [MemoryTaint::Internal, MemoryTaint::ExternalSync] {
        assert_eq!(MemoryTaint::from_db_str(taint.as_db_str()), taint);
    }
    assert_eq!(MemoryTaint::ExternalSync.as_db_str(), "external_sync");
    assert_eq!(MemoryTaint::from_db_str("INTERNAL"), MemoryTaint::ExternalSync);
}

fn text<'a>(value: &'a Json, name: &str) -> &'a str {
    value.get(name).and_then(Json::as_str).unwrap()
}

#[test]
fn listings_are_newest_first() {
    let mut memory = open();
    upsert_document(&mut memory, input("a", "k1", None, "1"), 1_000).unwrap();
    upsert_document(&mut memory, input("b", "k2", None, "2"), 3_000).unwrap();
    upsert_document(&mut memory, input("a", "k3", None, "3"), 2_000).unwrap();
    let listing = memory.list_documents(None);
    let documents = listing.get("documents").and_then(Json::as_array).unwrap();
    let keys: Vec<&str> = documents.iter().map(|d| text(d, "key")).collect();
    assert_eq!(keys, vec!["k2", "k3", "k1"]);
    assert!(matches!(listing.get("count"), Some(Json::Number(3))));
    let listing = memory.list_documents(Some("a"));
    let documents = listing.get("documents").and_then(Json::as_array).unwrap();
    let keys: Vec<&str> = documents.iter().map(|d| text(d, "key")).collect();
    assert_eq!(keys, vec!["k3", "k1"]);
    assert!(matches!(documents[0].get("updatedAt"), Some(Json::Millis(2_000))));
    let scope = memory.load_documents_for_scope("a");
    assert_eq!(
        scope.iter().map(|d| d.key.as_str()).collect::<Vec<_>>(),
        vec!["k3", "k1"]
    );
    assert_eq!(memory.list_namespaces(), vec!["a".to_string(), "b".to_string()]);
}

#[test]
fn clearing_and_deleting_are_scoped() {
    let chunk = |namespace: &str, id: &str| ChunkRow {
        namespace: namespace.to_string(),
        document_id: id.to_string(),
        chunk_id: format!("{id}:0"),
        text: "x".to_string(),
        embedding: None,
        lancedb_table: format!("ns_{namespace}"),
        chunk_index: 0,
        created_at: 1,
        updated_at: 1,
        model_signature: None,
        dim: None,
    };
    let graph = |namespace: &str, id: &str| GraphRow {
        namespace: namespace.to_string(),
        document_id: id.to_string(),
        relation: "knows".to_string(),
    };
    let kv = |namespace: &str| KvRow {
        namespace: namespace.to_string(),
        key: "k".to_string(),
        value: "1".to_string(),
    };
    let mut other = raw_row("d3", "k3", 3, "[]", "{}");
    other.namespace = "other".to_string();
    let mut memory = UnifiedMemory::from_rows(
        vec![raw_row("d1", "k1", 1, "[]", "{}"), raw_row("d2", "k2", 2, "[]", "{}"), other],
        vec![chunk("ns", "d1"), chunk("ns", "d2"), chunk("other", "d3")],
        vec![kv("ns"), kv("other")],
        vec![graph("ns", "d1"), graph("ns", "d2"), graph("other", "d3")],
        "m".to_string(),
    );
    let gone = memory.delete_document("ns", "d1");
    assert!(gone.deleted);
    assert_eq!(gone.sidecar.as_deref(), Some("p"));
    let json = gone.to_json();
    assert!(matches!(json.get("deleted"), Some(Json::Bool(true))));
    assert_eq!(text(&json, "namespace"), "ns");
    assert_eq!(text(&json, "documentId"), "d1");
    assert!(memory.get_document_by_key("ns", "k1").is_none());
    assert_eq!(chunk_document_ids(&memory, "ns"), vec!["d2".to_string()]);
    assert_eq!(memory.graph_rows().len(), 2);
    assert_eq!(memory.kv_rows().len(), 2);

    let absent = memory.delete_document("ns", "d3");
    assert!(!absent.deleted);
    assert_eq!(absent.sidecar, None);
    assert_eq!(memory.document_rows().len(), 2);

    memory.clear_namespace("ns");
    assert_eq!(memory.list_namespaces(), vec!["other".to_string()]);
    assert_eq!(chunk_document_ids(&memory, "ns"), Vec::<String>::new());
    assert_eq!(chunk_document_ids(&memory, "other"), vec!["d3".to_string()]);
    assert_eq!((memory.kv_rows().len(), memory.graph_rows().len()), (1, 1));
}

#[test]
fn an_embedding_run_fills_one_slot_per_text() {
    let mut run = EmbedRun::new(130);
    assert_eq!(run.next_request(), Some((0, EMBED_REQUEST_MAX_TEXTS)));
    run.accept(Ok(vec![vec![7]; EMBED_REQUEST_MAX_TEXTS]));
    assert_eq!(run.next_request(), Some((64, 128)));
    run.accept(Err("refused".to_string()));
    assert_eq!(run.next_request(), Some((128, 130)));
    run.accept(Ok(vec![vec![]]));
    assert_eq!(run.next_request(), None);
    let slots = run.finish();
    assert_eq!(slots.len(), 130);
    assert!(slots[..64].iter().all(|slot| *slot == Some(vec![7])));
    assert!(slots[64..].iter().all(|slot| slot.is_none()));
    assert_eq!(EmbedRun::new(0).next_request(), None);
}

#[test]
fn a_batch_hands_each_document_its_own_vectors() {
    let mut memory = UnifiedMemory::new("model-a".to_string());
    let documents = vec![
        PreparedDocument {
            input: input("ns", "k1", Some("d1"), "ab"),
            chunks: vec!["a".to_string(), "b".to_string()],
        },
        PreparedDocument {
            input: input("ns", "k2", Some("d2"), "c"),
            chunks: vec!["c".to_string()],
        },
    ];
    let mut batch =
        DocumentBatch::new(documents, vec![Some(vec![1, 2]), None, Some(vec![3])]);
    while batch.begin_next(&memory, 9_000).is_some() {
        batch.finish_next(&mut memory, Ok("p".to_string()));
    }
    assert_eq!(
        batch.into_results(),
        vec![Ok("d1".to_string()), Ok("d2".to_string())]
    );
    let chunks = memory.chunk_rows();
    assert_eq!(chunks.len(), 3);
    assert_eq!(chunks[0].chunk_id, "d1:0");
    assert_eq!(chunks[0].embedding, Some(vec![1, 2]));
    assert_eq!(chunks[0].model_signature.as_deref(), Some("model-a"));
    assert_eq!(chunks[0].dim, Some(2));
    assert_eq!(chunks[0].lancedb_table, "ns_ns");
    assert_eq!(chunks[1].chunk_id, "d1:1");
    assert_eq!((&chunks[1].embedding, &chunks[1].model_signature), (&None, &None));
    assert_eq!(chunks[2].embedding, Some(vec![3]));
}

#[test]
fn the_first_failed_write_ends_the_batch() {
    let mut memory = open();
    let documents = vec![
        PreparedDocument { input: input("ns", "k1", Some("d1"), ""), chunks: vec![] },
        PreparedDocument { input: input("ns", " ", Some("d2"), ""), chunks: vec![] },
        PreparedDocument { input: input("ns", "k3", Some("d3"), ""), chunks: vec![] },
    ];
    let mut batch = DocumentBatch::new(documents, vec![]);
    while batch.begin_next(&memory, 1).is_some() {
        batch.finish_next(&mut memory, Ok("p".to_string()));
    }
    assert_eq!(
        batch.into_results(),
        vec![Ok("d1".to_string()), Err("document key cannot be empty".to_string())]
    );
    assert_eq!(memory.document_rows().len(), 1);

    let documents = vec![
        PreparedDocument { input: input("ns", "k4", Some("d4"), ""), chunks: vec![] },
        PreparedDocument { input: input("ns", "k5", Some("d5"), ""), chunks: vec![] },
    ];
    let mut batch = DocumentBatch::new(documents, vec![]);
    assert!(batch.begin_next(&memory, 1).is_some());
    batch.finish_next(&mut memory, Err("disk full".to_string()));
    assert!(batch.begin_next(&memory, 1).is_none());
    assert_eq!(batch.into_results(), vec![Err("disk full".to_string())]);
    assert_eq!(memory.document_rows().len(), 1);
    assert_eq!(
        DocumentBatch::new(vec![], vec![]).into_result(),
        Err("document upsert produced no result".to_string())
    );
}

#[test]
fn concurrent_first_writes_agree_on_the_id() {
    let mut memory = open();
    let one = memory.begin_write_at(input("ns", "k", None, "one"), 1_000).unwrap();
    let two = memory.begin_write_at(input("ns", " k ", Some(" "), "two"), 2_000).unwrap();
    assert_eq!(one.document_id, two.document_id);
    let texts = |texts: &[&str]| texts.iter().map(|t| t.to_string()).collect::<Vec<_>>();
    memory.commit_write(one, "p".to_string(), texts(&["o", "n", "e"]), vec![]).unwrap();
    let id = memory.commit_write(two, "p".to_string(), texts(&["two"]), vec![]).unwrap();
    assert_eq!(
        stored_rows(&memory, "ns"),
        vec![(id.clone(), "k".to_string(), "two".to_string(), 1_000)]
    );
    assert_eq!(memory.chunk_rows().len(), 1);
    assert_eq!(memory.chunk_rows()[0].document_id, id);
    assert_eq!(memory.chunk_rows()[0].text, "two");
}

#[test]
fn a_minted_id_takes_over_no_row() {
    let mut memory = open();
    let derived = upsert_document(&mut memory, input("ns", "a", None, "one"), 1_000).unwrap();
    upsert_document(&mut memory, input("ns", "b", Some(&derived), "two"), 2_000).unwrap();
    let chunks = memory.chunk_rows().len();
    assert_eq!(
        upsert_document(&mut memory, input("ns", "a", None, "three"), 3_000),
        Err("upsert memory_docs: UNIQUE constraint failed: memory_docs.document_id".to_string())
    );
    assert_eq!(
        stored_rows(&memory, "ns"),
        vec![(derived.clone(), "b".to_string(), "two".to_string(), 1_000)]
    );
    assert_eq!(memory.chunk_rows().len(), chunks);

    let stamped = "5_01234567";
    upsert_document(&mut memory, input("other", "c", Some(stamped), "held"), 4_000).unwrap();
    assert_eq!(
        upsert_document_metadata_only(&mut memory, input("other", "d", None, "new"), 5_000),
        Err("upsert memory_docs: UNIQUE constraint failed: memory_docs.document_id".to_string())
    );
    assert_eq!(stored_rows(&memory, "other")[0].2, "held");

    let pending = memory.begin_write_at(input("ns", "late", None, "mine"), 6_000).unwrap();
    assert!(pending.minted);
    let id = pending.document_id.clone();
    upsert_document(&mut memory, input("ns", "early", Some(&id), "theirs"), 7_000).unwrap();
    assert!(memory.commit_write(pending, "p".to_string(), vec![], vec![]).is_err());
    assert_eq!(memory.get_document_by_key("ns", "early").unwrap().content, "theirs");
}
