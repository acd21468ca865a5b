//! What connector items are filed as, and how stages and kinds are named.

use vstd::prelude::*;

use crate::sources::SourceKind;
use crate::sync::{
    ConnectorItemIdentity, LocalDocument, ScopedIngest, SkillDocument, SkillStore, SyncEvent,
    SyncOutcome, SyncStage, SyncStageChanged, TreeFailure,
};

verus! {

/// The identity of a connector item is spelled out of its parts: the scope is the toolkit,
/// without the white space around it and in lower case, a colon and the connection without
/// the white space around it; the source id is the scope, a colon and the item, as it is;
/// and the owner names toolkit and connection.
pub proof fn law_identities_spell_their_parts(
    toolkit: Seq<char>,
    connection_id: Seq<char>,
    item_id: Seq<char>,
    identity: ConnectorItemIdentity,
)
    requires
        crate::sync::identity_of(toolkit, connection_id, item_id) == Some(identity@),
    ensures
        ({
            let kit = crate::text::ascii_lower(crate::text::trimmed(toolkit));
            let connection = crate::text::trimmed(connection_id);
            let scope = identity.tree_scope@;
            &&& identity.toolkit@ == kit
            &&& scope.len() == kit.len() + 1 + connection.len()
            &&& scope.take(kit.len() as int) == kit
            &&& scope[kit.len() as int] == ':'
            &&& scope.skip(kit.len() as int + 1) == connection
            &&& identity.source_id@.take(scope.len() as int) == scope
            &&& identity.source_id@[scope.len() as int] == ':'
            &&& identity.source_id@.skip(scope.len() as int + 1) == item_id
            &&& identity.owner@ == kit + "-sync:"@ + connection
        }),
{
    let kit = crate::text::ascii_lower(crate::text::trimmed(toolkit));
    let connection = crate::text::trimmed(connection_id);
    let scope = identity.tree_scope@;
    reveal_strlit(":");
    assert(scope.take(kit.len() as int) =~= kit);
    assert(scope.skip(kit.len() as int + 1) =~= connection);
    assert(identity.source_id@.take(scope.len() as int) =~= scope);
    assert(identity.source_id@.skip(scope.len() as int + 1) =~= item_id);
}

/// An item has an identity exactly where neither its toolkit nor its connection is blank.
pub proof fn law_scoped_items_have_an_identity(
    toolkit: Seq<char>,
    connection_id: Seq<char>,
    item_id: Seq<char>,
)
    ensures
        crate::sync::identity_of(toolkit, connection_id, item_id) is Some
            <==> !crate::text::is_blank(toolkit) && !crate::text::is_blank(connection_id),
{
}

/// The tree is handed the item itself: its title as the title, its content as the body, and
/// the item as what it refers to, at the time it was modified. It is tagged with the toolkit
/// and filed under the identity that every reader derives.
pub proof fn law_the_tree_is_handed_the_item(
    toolkit: Seq<char>,
    connection_id: Seq<char>,
    item_id: Seq<char>,
    title: Seq<char>,
    content: Seq<char>,
    modified_at: i64,
    item: ScopedIngest,
    identity: ConnectorItemIdentity,
)
    requires
        crate::sync::connector_ingest(
            toolkit,
            connection_id,
            item_id,
            title,
            content,
            modified_at,
        ) == Some(item@),
        crate::sync::identity_of(toolkit, connection_id, item_id) == Some(identity@),
    ensures
        item.title@ == title,
        item.body@ == content,
        item.modified_at == modified_at,
        item.source_ref is Some && item.source_ref->0@ == item_id,
        item.path_scope is Some && item.path_scope->0@ == identity.tree_scope@,
        item.source_id@ == identity.source_id@,
        item.owner@ == identity.owner@,
        item.tags@.len() == 1 && item.tags@[0]@ == identity.toolkit@,
        item.provider@ == "composio:"@ + identity.toolkit@,
{
    assert(item@.tags.len() == item.tags@.len());
    assert(item@.tags[0] == item.tags@[0]@);
}

/// A synchronised document is handed to the tree as it was stored, under its connector, its
/// connection and its id, where there is a configuration to hand it over with.
pub proof fn law_stored_documents_are_handed_over(
    document: SkillDocument,
    now: i64,
    item: ScopedIngest,
)
    requires
        crate::sync::document_ingest(true, document, now) == Some(item@),
    ensures
        item.title@ == document.title@,
        item.body@ == document.content@,
        item.modified_at == now,
        item.source_ref is Some && item.source_ref->0@ == document.document_id@,
        crate::sync::identity_of(
            document.toolkit@,
            document.connection_id@,
            document.document_id@,
        ) is Some,
        item.source_id@ == crate::sync::identity_of(
            document.toolkit@,
            document.connection_id@,
            document.document_id@,
        )->0.source_id,
        crate::sync::document_ingest(false, document, now) is None,
{
}

/// A document for the tree is seen as it is handed over.
pub proof fn law_items_are_seen_as_handed_over(item: ScopedIngest)
    ensures
        item@.source_id == item.source_id@,
        item@.owner == item.owner@,
        item@.tags == crate::text::texts(item.tags@),
        item@.provider == item.provider@,
        item@.title == item.title@,
        item@.body == item.body@,
        item@.modified_at == item.modified_at,
        item.source_ref is Some ==> item@.source_ref == Some(item.source_ref->0@),
        item.source_ref is None ==> item@.source_ref is None,
        item.path_scope is Some ==> item@.path_scope == Some(item.path_scope->0@),
        item.path_scope is None ==> item@.path_scope is None,
{
}

/// A tolerated failure adds one to the count, a success and a damaged tree add nothing, and
/// only a damaged tree ends the run.
pub proof fn law_tolerated_failures_are_counted(counter: u32, outcome: Result<(), TreeFailure>)
    ensures
        ({
            let (after, ended) = crate::sync::settled(
                counter,
                crate::sync::failure_of(outcome),
            );
            &&& ended <==> outcome is Err && outcome->Err_0.corrupt
            &&& outcome is Ok ==> after == counter
            &&& ended ==> after == counter
            &&& outcome is Err && !outcome->Err_0.corrupt && counter < u32::MAX ==> after
                == counter + 1
            &&& outcome is Err && !outcome->Err_0.corrupt && counter == u32::MAX ==> after == 0
        }),
{
}

/// Every stage of a run has a name of its own, a word in lower case.
pub proof fn law_stages_are_named(a: SyncStage, b: SyncStage)
    ensures
        a.named() == b.named() ==> a == b,
        SyncStage::Requested.named() == "requested"@,
        SyncStage::Fetching.named() == "fetching"@,
        SyncStage::Stored.named() == "stored"@,
        SyncStage::Ingesting.named() == "ingesting"@,
        SyncStage::Completed.named() == "completed"@,
        SyncStage::Failed.named() == "failed"@,
{
    reveal_strlit("requested");
    reveal_strlit("fetching");
    reveal_strlit("stored");
    reveal_strlit("ingesting");
    reveal_strlit("completed");
    reveal_strlit("failed");
    assert("requested"@[0] == 'r');
    assert("ingesting"@[0] == 'i');
    assert("completed"@[0] == 'c');
    assert("stored"@[0] == 's');
    assert("failed"@[0] == 'f');
    if a.named() == b.named() {
        assert(a.named().len() == b.named().len());
        assert(a.named()[0] == b.named()[0]);
    }
}

/// Every kind of source has a name of its own.
pub proof fn law_source_kinds_are_named(a: SourceKind, b: SourceKind)
    ensures
        a.named() == b.named() ==> a == b,
        SourceKind::Composio.named() == "Composio"@,
        SourceKind::Conversation.named() == "Conversation"@,
        SourceKind::Folder.named() == "Folder"@,
        SourceKind::GithubRepo.named() == "GithubRepo"@,
        SourceKind::TwitterQuery.named() == "TwitterQuery"@,
        SourceKind::RssFeed.named() == "RssFeed"@,
        SourceKind::WebPage.named() == "WebPage"@,
{
    reveal_strlit("Composio");
    reveal_strlit("Conversation");
    reveal_strlit("Folder");
    reveal_strlit("GithubRepo");
    reveal_strlit("TwitterQuery");
    reveal_strlit("RssFeed");
    reveal_strlit("WebPage");
    assert("Conversation"@[0] == 'C');
    assert("TwitterQuery"@[0] == 'T');
    assert("RssFeed"@[0] == 'R');
    assert("WebPage"@[0] == 'W');
    if a.named() == b.named() {
        assert(a.named().len() == b.named().len());
        assert(a.named()[0] == b.named()[0]);
    }
}

/// A document of a local source is handed to the tree as it is, under its own source.
pub proof fn law_local_documents_are_handed_over_whole(
    document: LocalDocument,
    item: ScopedIngest,
)
    requires
        item@ == crate::sync::local_ingest(document),
    ensures
        item.source_id@ == document.source_id@,
        item.owner@ == document.owner@,
        crate::text::texts(item.tags@) == crate::text::texts(document.tags@),
        item.provider@ == "memory_sources:local"@,
        item.title@ == document.title@,
        item.body@ == document.body@,
        item.modified_at == document.modified_at,
        crate::text::opt_text(item.source_ref) == crate::text::opt_text(document.source_ref),
        crate::text::opt_text(item.path_scope) == crate::text::opt_text(document.path_scope),
{
}

/// What the store is asked to keep and what the tree is handed for a synchronised document
/// are the same document: the same title, the same content, the same id.
pub proof fn law_store_and_tree_get_the_same_document(
    document: SkillDocument,
    request: SkillStore,
    now: i64,
    item: ScopedIngest,
)
    requires
        crate::sync::keeps(document, request),
        crate::sync::document_ingest(true, document, now) == Some(item@),
    ensures
        request.title@ == item.title@,
        request.content@ == item.body@,
        request.document_id is Some && item.source_ref is Some && request.document_id->0@
            == item.source_ref->0@,
        request.title@ == document.title@,
        request.content@ == document.content@,
        request.metadata is Some && request.metadata->0@ == document.metadata@,
        request.skill_id@ == document.namespace_skill_id@,
        request.integration_id@ == document.connection_id@,
{
}

/// What is published tells every part of the event under its own name.
pub proof fn law_events_are_published_whole(event: SyncEvent, published: SyncStageChanged)
    requires
        crate::sync::tells(event, published),
    ensures
        published.stage@ == event.stage.named(),
        published.provider is Some && published.provider->0@ == event.toolkit@,
        published.source_id is Some && published.source_id->0@ == event.source_id@,
        event.connection_id is Some ==> published.connection_id is Some
            && published.connection_id->0@ == event.connection_id->0@,
        event.connection_id is None ==> published.connection_id is None,
        event.message is Some ==> published.detail is Some && published.detail->0@
            == event.message->0@,
        event.message is None ==> published.detail is None,
{
}

/// Counting the tolerated failures into an outcome and leaving them out again gives the
/// outcome back, and the count is the one that was given.
pub proof fn law_outcomes_survive_the_count(outcome: SyncOutcome, failures: u32)
    ensures
        ({
            let counted = crate::sync::with_failures(outcome, failures);
            &&& crate::sync::without_failures(counted) == outcome
            &&& counted.tree_ingest_failures == failures
            &&& counted.records_ingested == outcome.records_ingested
            &&& counted.more_pending == outcome.more_pending
            &&& counted.actions_called == outcome.actions_called
            &&& counted.provider_cost_usd == outcome.provider_cost_usd
            &&& counted.note == outcome.note
        }),
{
}

} // verus!
