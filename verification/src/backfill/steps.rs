//! What one answer to a pass leads to, and which namespaces and rows a pass looks at.

use vstd::prelude::*;

use crate::backfill::pass::{BackfillAction, BackfillEvent};
use crate::backfill::{BackfillReport, Target};
use crate::sources::{MemorySourceEntry, SourceKind};
use crate::sync::TreeFailure;

verus! {

/// What is read is what is filed: the action that follows a read of a title and a content
/// files exactly that title as the title and that content as the content, for the row whose
/// document was read, in the scope of its namespace.
pub proof fn law_what_is_read_is_filed(
    pass: crate::backfill::pass::PassView,
    title: String,
    content: String,
    event: BackfillEvent,
    action: BackfillAction,
)
    requires
        pass.phase is Reading,
        event == BackfillEvent::Read(Ok(Some((title, content)))),
        action@ == pass.action(event@),
    ensures
        action is Ingest,
        action->Ingest_title@ == title@,
        action->Ingest_content@ == content@,
        action->Ingest_toolkit@ == pass.targets[pass.at as int].toolkit,
        action->Ingest_connection_id@ == pass.targets[pass.at as int].connection_id,
        action->Ingest_key@ == pass.keys[pass.row as int]->0,
        pass.after(event@).phase is Ingesting,
        pass.after(event@).row == pass.row,
        pass.after(event@).at == pass.at,
{
}

/// A row that the tree does not hold is read, as long as the limit allows it and the run is
/// not dry, and it is the row that was asked about: its key, in its namespace. On a dry run
/// nothing is ever read or filed.
pub proof fn law_missing_rows_are_read(
    pass: crate::backfill::pass::PassView,
    event: BackfillEvent,
    action: BackfillAction,
)
    requires
        pass.wf(),
        pass.phase is Probing,
        event == BackfillEvent::Probed(Ok(Some(false))),
        action@ == pass.action(event@),
    ensures
        pass.report.scanned < pass.limit && !pass.dry_run ==> {
            &&& action is Read
            &&& action->Read_namespace@ == pass.targets[pass.at as int].namespace
            &&& action->Read_key@ == pass.keys[pass.row as int]->0
            &&& pass.after(event@).report.scanned == pass.report.scanned + 1
        },
        pass.report.scanned >= pass.limit ==> action is Finish && pass.after(
            event@,
        ).report.more_pending,
        pass.dry_run ==> !(action is Read) && !(action is Ingest),
{
    crate::backfill::pass::law_pass_keeps_its_bounds(pass, event@);
    if pass.dry_run && pass.report.scanned < pass.limit {
        crate::backfill::pass::lemma_settled(
            crate::backfill::pass::PassView {
                row: pass.row + 1,
                report: pass.report.with_scanned(),
                ..pass
            },
        );
    }
}

/// Every action is seen as it is carried out.
pub proof fn law_actions_are_seen_as_carried_out(action: BackfillAction)
    ensures
        action is List ==> action@ is List && action@->List_namespace == action->List_namespace@,
        action is Probe ==> action@ is Probe && action@->Probe_toolkit == action->Probe_toolkit@
            && action@->Probe_connection_id == action->Probe_connection_id@ && action@->Probe_key
            == action->Probe_key@,
        action is Read ==> action@ is Read && action@->Read_namespace == action->Read_namespace@
            && action@->Read_key == action->Read_key@,
        action is Ingest ==> action@ is Ingest && action@->title == action->Ingest_title@
            && action@->content == action->Ingest_content@ && action@->Ingest_key
            == action->Ingest_key@ && action@->Ingest_toolkit == action->Ingest_toolkit@
            && action@->Ingest_connection_id == action->Ingest_connection_id@,
        action is Abort ==> action@ is Abort && action@->Abort_0.message
            == action->Abort_0.message@ && action@->Abort_0.corrupt == action->Abort_0.corrupt,
        action is Finish <==> action@ is Finish,
        action is Ignored <==> action@ is Ignored,
{
}

/// Where a pass settles: at the first row with a key, starting with the row it stands at, or
/// behind the namespace where there is none.
proof fn lemma_settles_at_first(pass: crate::backfill::pass::PassView)
    requires
        pass.at < pass.targets.len(),
    ensures
        ({
            let after = pass.settled();
            &&& after.phase is Probing ==> after.at == pass.at && after.keys == pass.keys
                && pass.row <= after.row < pass.keys.len() && pass.keys[after.row as int] is Some
                && forall|i: int|
                pass.row <= i < after.row ==> #[trigger] pass.keys[i] is None
            &&& !(after.phase is Probing) ==> after.at == pass.at + 1 && forall|i: int|
                pass.row <= i < pass.keys.len() ==> #[trigger] pass.keys[i] is None
            &&& after.targets == pass.targets
        }),
    decreases pass.keys.len() - pass.row,
{
    if pass.row < pass.keys.len() && pass.keys[pass.row as int] is None {
        lemma_settles_at_first(
            crate::backfill::pass::PassView {
                row: pass.row + 1,
                report: pass.report.with_skip().with_note(
                    pass.target().namespace + ": a document row carries no key"@,
                ),
                ..pass
            },
        );
    }
}

/// A listed namespace is gone through from its first row on: the first thing asked about is
/// its first row with a key, and where it has none, the next namespace is listed.
pub proof fn law_listed_rows_are_asked_about_in_order(
    pass: crate::backfill::pass::PassView,
    keys: Vec<Option<String>>,
    event: BackfillEvent,
    action: BackfillAction,
)
    requires
        pass.wf(),
        pass.phase is Listing,
        event == BackfillEvent::Listed(Ok(keys)),
        action@ == pass.action(event@),
    ensures
        action is Probe ==> exists|k: int|
            0 <= k < keys@.len() && (#[trigger] keys@[k]) is Some && keys@[k]->0@
                == action->Probe_key@ && forall|i: int|
                0 <= i < k ==> #[trigger] keys@[i] is None,
        action is Probe ==> action->Probe_toolkit@ == pass.targets[pass.at as int].toolkit
            && action->Probe_connection_id@ == pass.targets[pass.at as int].connection_id,
        !(action is Probe) ==> forall|i: int| 0 <= i < keys@.len() ==> #[trigger] keys@[i] is None,
        action is List ==> pass.at + 1 < pass.targets.len() && action->List_namespace@
            == pass.targets[pass.at as int + 1].namespace,
        action is Finish <==> !(action is Probe) && pass.at + 1 == pass.targets.len(),
{
    let listed = crate::backfill::pass::PassView {
        keys: crate::backfill::pass::key_views(keys@),
        row: 0,
        ..pass
    };
    lemma_settles_at_first(listed);
    crate::backfill::pass::lemma_settled(listed);
    let after = listed.settled();
    if action is Probe {
        let k = after.row as int;
        assert(listed.keys[k] is Some);
        assert(keys@[k] is Some);
        assert forall|i: int| 0 <= i < k implies #[trigger] keys@[i] is None by {
            assert(listed.keys[i] is None);
        }
    } else {
        assert forall|i: int| 0 <= i < keys@.len() implies #[trigger] keys@[i] is None by {
            assert(listed.keys[i] is None);
        }
    }
}

/// A row that the tree holds is not read, and the next row with a key is asked about.
pub proof fn law_held_rows_are_passed(
    pass: crate::backfill::pass::PassView,
    event: BackfillEvent,
)
    requires
        pass.wf(),
        pass.phase is Probing || pass.phase is Ingesting,
        pass.phase is Probing ==> event == BackfillEvent::Probed(Ok(Some(true))),
        pass.phase is Ingesting ==> event == BackfillEvent::Ingested(Ok(Some(true))) || event
            == BackfillEvent::Ingested(Ok(Some(false))),
    ensures
        ({
            let after = pass.after(event@);
            &&& after.phase is Probing ==> after.at == pass.at && after.row > pass.row
                && forall|i: int|
                pass.row < i < after.row ==> #[trigger] pass.keys[i] is None
            &&& !(after.phase is Probing) ==> after.at == pass.at + 1 && forall|i: int|
                pass.row < i < pass.keys.len() ==> #[trigger] pass.keys[i] is None
            &&& event == BackfillEvent::Ingested(Ok(Some(false))) ==> after.report.ingested
                == pass.report.ingested + 1 && after.report.already_present
                == pass.report.already_present
            &&& event != BackfillEvent::Ingested(Ok(Some(false))) ==> after.report.ingested
                == pass.report.ingested && (pass.report.already_present < u64::MAX
                ==> after.report.already_present == pass.report.already_present + 1)
            &&& after.report.scanned == pass.report.scanned
        }),
{
    let report = if event == BackfillEvent::Ingested(Ok(Some(false))) {
        pass.report.with_ingested()
    } else {
        pass.report.with_present()
    };
    let moved = crate::backfill::pass::PassView { row: pass.row + 1, report, ..pass };
    lemma_settles_at_first(moved);
    crate::backfill::pass::lemma_settled(moved);
}

/// A damaged tree ends the pass with its failure. Any other failure of the tree is counted
/// and skipped, and a note says in which namespace and why, where there is room for one.
pub proof fn law_only_damage_ends_the_pass(
    pass: crate::backfill::pass::PassView,
    event: BackfillEvent,
    action: BackfillAction,
)
    requires
        pass.wf(),
        action@ == pass.action(event@),
        pass.phase is Probing && event is Probed && event->Probed_0 is Err || pass.phase
            is Ingesting && event is Ingested && event->Ingested_0 is Err,
    ensures
        ({
            let failure = if event is Probed {
                event->Probed_0->Err_0
            } else {
                event->Ingested_0->Err_0
            };
            let after = pass.after(event@);
            &&& failure.corrupt ==> action is Abort && action->Abort_0.message@ == failure.message@
                && after.phase is Aborted && after.failures == pass.failures
            &&& !failure.corrupt ==> !(action is Abort) && !(after.phase is Aborted)
                && after.failures == crate::sync::counted(pass.failures) && after.report.skipped > 0
                && after.report.ingested == pass.report.ingested
        }),
{
    let failure = if event is Probed {
        event->Probed_0->Err_0
    } else {
        event->Ingested_0->Err_0
    };
    let what = if event is Probed {
        ": the tree gate could not be read ("@
    } else {
        ": an ingest failed ("@
    };
    if !failure.corrupt {
        let reason = pass.target().namespace + what + failure@.message + ")"@;
        crate::backfill::law_notes_stay_bounded(pass.report.with_skip(), reason);
        let moved = crate::backfill::pass::PassView {
            row: pass.row + 1,
            failures: crate::sync::counted(pass.failures),
            report: pass.report.with_skip().with_note(reason),
            ..pass
        };
        crate::backfill::pass::lemma_settled(moved);
        lemma_skips_stay(moved);
    }
}

proof fn lemma_skips_stay(pass: crate::backfill::pass::PassView)
    ensures
        pass.settled().report.skipped >= pass.report.skipped,
    decreases pass.keys.len() - pass.row,
{
    if pass.row < pass.keys.len() && pass.keys[pass.row as int] is None {
        lemma_skips_stay(
            crate::backfill::pass::PassView {
                row: pass.row + 1,
                report: pass.report.with_skip().with_note(
                    pass.target().namespace + ": a document row carries no key"@,
                ),
                ..pass
            },
        );
    }
}

/// A reason that is noted names the namespace first and holds the error, word for word.
pub proof fn law_notes_say_where_and_why(
    pass: crate::backfill::pass::PassView,
    error: String,
    event: BackfillEvent,
)
    requires
        pass.wf(),
        pass.phase is Listing,
        event == BackfillEvent::Listed(Err(error)),
        pass.report.notes.len() < crate::backfill::MAX_NOTES,
    ensures
        exists|note: Seq<char>| #[trigger]
            pass.after(event@).report.notes.contains(note)
                && pass.targets[pass.at as int].namespace.is_prefix_of(note)
                && crate::text::has_infix(note, error@),
        pass.after(event@).at == pass.at + 1,
{
    let namespace = pass.targets[pass.at as int].namespace;
    let head = namespace + ": could not be listed ("@;
    let note = head + error@ + ")"@;
    crate::backfill::law_notes_stay_bounded(pass.report, note);
    assert(note.subrange(0, namespace.len() as int) =~= namespace);
    assert(note.subrange(head.len() as int, head.len() as int + error@.len()) =~= error@);
    assert(pass.after(event@).report.notes.contains(note));
}

/// A pass is bounded by the limit it is given, or by five hundred documents, and starts with
/// nothing counted.
pub proof fn law_passes_start_with_nothing(
    sources: Seq<MemorySourceEntry>,
    limit: u64,
    dry_run: bool,
)
    ensures
        ({
            let given = crate::backfill::pass::PassView::fresh(sources, Some(limit), dry_run);
            let free = crate::backfill::pass::PassView::fresh(sources, None, dry_run);
            &&& given.limit == limit
            &&& free.limit == 500
            &&& given.dry_run == dry_run && free.dry_run == dry_run
            &&& given.failures == 0 && free.failures == 0
            &&& given.report.scanned == 0 && given.report.ingested == 0
                && given.report.already_present == 0 && given.report.skipped == 0
                && !given.report.more_pending
            &&& given.phase is Finished <==> given.targets.len() == 0
            &&& !(given.phase is Finished) ==> given.phase is Listing && given.at == 0
        }),
{
    crate::backfill::pass::lemma_fresh_wf(sources, Some(limit), dry_run);
}

/// A connection is registered exactly where some row of the registry is that of a connector
/// and names it: a toolkit and a connection that are not blank, without the white space
/// around them, the toolkit in lower case.
pub proof fn law_connections_are_the_registered_ones(
    sources: Seq<MemorySourceEntry>,
    toolkit: Seq<char>,
    connection_id: Seq<char>,
)
    ensures
        crate::backfill::connections(sources).contains((toolkit, connection_id)) <==> exists|i: int|
            0 <= i < sources.len() && names_connection(#[trigger] sources[i], toolkit, connection_id),
    decreases sources.len(),
{
    let all = crate::backfill::connections(sources);
    let pair = (toolkit, connection_id);
    if sources.len() > 0 {
        let fewer = sources.drop_last();
        let before = crate::backfill::connections(fewer);
        law_connections_are_the_registered_ones(fewer, toolkit, connection_id);
        assert(sources.last() == sources[sources.len() - 1]);
        if before.contains(pair) {
            let i = choose|i: int|
                0 <= i < fewer.len() && names_connection(#[trigger] fewer[i], toolkit, connection_id);
            assert(sources[i] == fewer[i]);
            let k = choose|k: int| 0 <= k < before.len() && before[k] == pair;
            assert(all[k] == pair);
        }
        if crate::backfill::connection_of(sources.last()) == Some(pair) {
            assert(all[all.len() - 1] == pair);
        }
        if exists|i: int|
            0 <= i < sources.len() && names_connection(
                #[trigger] sources[i],
                toolkit,
                connection_id,
            ) {
            let i = choose|i: int|
                0 <= i < sources.len() && names_connection(
                    #[trigger] sources[i],
                    toolkit,
                    connection_id,
                );
            if i < fewer.len() {
                assert(fewer[i] == sources[i]);
            }
        }
        if all.contains(pair) {
            let k = choose|k: int| 0 <= k < all.len() && all[k] == pair;
            if k < before.len() {
                assert(before[k] == pair);
            }
        }
    }
}

/// Whether a row of the registry names a connection.
pub open spec fn names_connection(
    source: MemorySourceEntry,
    toolkit: Seq<char>,
    connection_id: Seq<char>,
) -> bool {
    &&& source.kind == SourceKind::Composio
    &&& source.toolkit is Some
    &&& source.connection_id is Some
    &&& toolkit == crate::text::ascii_lower(crate::text::trimmed(source.toolkit->0@))
    &&& connection_id == crate::text::trimmed(source.connection_id->0@)
    &&& toolkit.len() > 0
    &&& connection_id.len() > 0
}

/// The namespace of every registered connection is swept: it is named by the toolkit and the
/// connection, and its documents belong to their scope.
pub proof fn law_every_connection_is_swept(sources: Seq<MemorySourceEntry>, i: int)
    requires
        0 <= i < crate::backfill::connections(sources).len(),
    ensures
        ({
            let (toolkit, connection_id) = crate::backfill::connections(sources)[i];
            let target = crate::backfill::targets_of(sources)[i];
            &&& i < crate::backfill::targets_of(sources).len()
            &&& target.namespace == "source:"@ + toolkit + ":"@ + connection_id
            &&& target.toolkit == toolkit
            &&& target.connection_id == connection_id
        }),
{
    let (toolkit, connection_id) = crate::backfill::connections(sources)[i];
    assert("source:"@ + (toolkit + ":"@ + connection_id) =~= "source:"@ + toolkit + ":"@
        + connection_id);
}

/// The namespace of a toolkit alone is swept only for a connection of that toolkit, and is
/// named by the toolkit.
pub proof fn law_legacy_namespaces_are_named_by_toolkit(
    toolkit: Seq<char>,
    connection_id: Seq<char>,
)
    ensures
        ({
            let target = crate::backfill::legacy_target(toolkit, connection_id);
            &&& target.namespace == "skill-"@ + toolkit
            &&& target.toolkit == toolkit
            &&& target.connection_id == connection_id
        }),
{
}

/// What a listing of documents says of their keys is what a pass goes by: as many rows, in
/// the listed order, each with the key of its document.
pub proof fn law_listings_are_swept_row_by_row(rows: Seq<crate::documents::RowView>, i: int)
    requires
        0 <= i < rows.len(),
    ensures
        ({
            let keys = crate::backfill::keys_of(crate::documents::read::listing_json(rows));
            &&& keys.len() == rows.len()
            &&& keys[i] == Some(crate::documents::read::newest_first(rows)[i].key)
        }),
{
    let tables = crate::documents::Tables {
        docs: rows,
        chunks: Seq::empty(),
        kv: Seq::empty(),
        graph: Seq::empty(),
        signature: Seq::empty(),
    };
    crate::documents::contents::law_listings_name_their_documents(tables, None, i);
}

/// Reports and targets are seen as they are.
pub proof fn law_reports_and_targets_are_seen_as_they_are(report: BackfillReport, target: Target)
    ensures
        report@.scanned == report.scanned,
        report@.ingested == report.ingested,
        report@.already_present == report.already_present,
        report@.skipped == report.skipped,
        report@.more_pending == report.more_pending,
        report@.notes == crate::text::texts(report.notes@),
        target@.namespace == target.namespace@,
        target@.toolkit == target.toolkit@,
        target@.connection_id == target.connection_id@,
{
}

/// A document that could not be read is skipped, and a note names its namespace first and
/// holds the error, word for word, where there is room for one.
pub proof fn law_unreadable_documents_are_noted(
    pass: crate::backfill::pass::PassView,
    error: String,
    event: BackfillEvent,
)
    requires
        pass.wf(),
        pass.phase is Reading,
        event == BackfillEvent::Read(Err(error)),
    ensures
        pass.after(event@).report.skipped > 0,
        pass.after(event@).report.ingested == pass.report.ingested,
        pass.report.notes.len() < crate::backfill::MAX_NOTES ==> exists|note: Seq<char>| #[trigger]
            pass.after(event@).report.notes.contains(note)
                && pass.targets[pass.at as int].namespace.is_prefix_of(note)
                && crate::text::has_infix(note, error@),
{
    let head = pass.targets[pass.at as int].namespace + ": a document could not be read ("@;
    lemma_noted_and_passed(pass, head, error@, pass.failures);
}

/// A failure of the tree that does not end the pass is noted in the same way.
pub proof fn law_tree_failures_are_noted(
    pass: crate::backfill::pass::PassView,
    failure: TreeFailure,
    event: BackfillEvent,
)
    requires
        pass.wf(),
        !failure.corrupt,
        pass.phase is Probing && event == BackfillEvent::Probed(Err(failure)) || pass.phase
            is Ingesting && event == BackfillEvent::Ingested(Err(failure)),
    ensures
        pass.report.notes.len() < crate::backfill::MAX_NOTES ==> exists|note: Seq<char>| #[trigger]
            pass.after(event@).report.notes.contains(note)
                && pass.targets[pass.at as int].namespace.is_prefix_of(note)
                && crate::text::has_infix(note, failure.message@),
{
    let what = if pass.phase is Probing {
        ": the tree gate could not be read ("@
    } else {
        ": an ingest failed ("@
    };
    let head = pass.targets[pass.at as int].namespace + what;
    lemma_noted_and_passed(
        pass,
        head,
        failure.message@,
        crate::sync::counted(pass.failures),
    );
}

proof fn lemma_noted_and_passed(
    pass: crate::backfill::pass::PassView,
    head: Seq<char>,
    error: Seq<char>,
    failures: u32,
)
    requires
        pass.wf(),
        pass.at < pass.targets.len(),
        pass.targets[pass.at as int].namespace.is_prefix_of(head),
    ensures
        ({
            let moved = crate::backfill::pass::PassView {
                row: pass.row + 1,
                failures,
                report: pass.report.with_skip().with_note(head + error + ")"@),
                ..pass
            };
            let after = moved.settled();
            &&& after.report.skipped > 0
            &&& after.report.ingested == pass.report.ingested
            &&& pass.report.notes.len() < crate::backfill::MAX_NOTES ==> exists|note: Seq<char>|
                #[trigger]
                after.report.notes.contains(note)
                    && pass.targets[pass.at as int].namespace.is_prefix_of(note)
                    && crate::text::has_infix(note, error)
        }),
{
    let note = head + error + ")"@;
    let namespace = pass.targets[pass.at as int].namespace;
    let moved = crate::backfill::pass::PassView {
        row: pass.row + 1,
        failures,
        report: pass.report.with_skip().with_note(note),
        ..pass
    };
    crate::backfill::law_notes_stay_bounded(pass.report.with_skip(), note);
    crate::backfill::pass::lemma_settled(moved);
    lemma_skips_stay(moved);
    if pass.report.notes.len() < crate::backfill::MAX_NOTES {
        lemma_notes_stay(moved, note);
        assert(note.subrange(0, namespace.len() as int) =~= head.subrange(
            0,
            namespace.len() as int,
        ));
        assert(note.subrange(head.len() as int, head.len() as int + error.len()) =~= error);
    }
}

proof fn lemma_notes_stay(pass: crate::backfill::pass::PassView, note: Seq<char>)
    requires
        pass.report.notes.contains(note),
    ensures
        pass.settled().report.notes.contains(note),
    decreases pass.keys.len() - pass.row,
{
    if pass.row < pass.keys.len() && pass.keys[pass.row as int] is None {
        let reason = pass.target().namespace + ": a document row carries no key"@;
        lemma_note_keeps(pass.report.notes, reason, note);
        lemma_notes_stay(
            crate::backfill::pass::PassView {
                row: pass.row + 1,
                report: pass.report.with_skip().with_note(reason),
                ..pass
            },
            note,
        );
    }
}

proof fn lemma_note_keeps(notes: Seq<Seq<char>>, reason: Seq<char>, note: Seq<char>)
    ensures
        notes.contains(note) ==> crate::backfill::noted(notes, reason).contains(note),
        crate::backfill::noted(notes, reason).contains(note) ==> notes.contains(note) || note
            == reason,
        notes.len() < crate::backfill::MAX_NOTES ==> crate::backfill::noted(
            notes,
            reason,
        ).contains(reason),
        crate::backfill::noted(notes, reason).len() <= notes.len() + 1,
{
    let after = crate::backfill::noted(notes, reason);
    if notes.contains(note) {
        let i = choose|i: int| 0 <= i < notes.len() && notes[i] == note;
        assert(after[i] == note);
    }
    if after != notes {
        assert(after[notes.len() as int] == reason);
    }
}

/// A pass says at its start which toolkits it leaves aside: those with more connections than
/// one, whose common namespace could belong to any of them. Each is noted by the name of that
/// namespace and by how many connections there are, where there is room for all, and nothing
/// else is noted.
pub proof fn law_ambiguous_toolkits_are_noted(
    all: Seq<(Seq<char>, Seq<char>)>,
    names: Seq<Seq<char>>,
    note: Seq<char>,
)
    ensures
        ({
            let report = crate::backfill::ambiguity_noted(
                crate::backfill::ReportView::empty(),
                all,
                names,
            );
            &&& report.notes.len() <= names.len()
            &&& report.notes.contains(note) ==> exists|i: int|
                0 <= i < names.len() && is_ambiguous(all, #[trigger] names[i], note)
            &&& names.len() <= crate::backfill::MAX_NOTES ==> forall|i: int|
                0 <= i < names.len() && is_ambiguous(all, #[trigger] names[i], note)
                    ==> report.notes.contains(note)
        }),
    decreases names.len(),
{
    let empty = crate::backfill::ReportView::empty();
    if names.len() > 0 {
        let fewer = names.drop_last();
        let last = names.last();
        law_ambiguous_toolkits_are_noted(all, fewer, note);
        let before = crate::backfill::ambiguity_noted(empty, all, fewer);
        let after = crate::backfill::ambiguity_noted(empty, all, names);
        let owners = crate::backfill::connections_of(all, last);
        let reason = crate::backfill::ambiguous_note(last, owners.len());
        assert(names[names.len() - 1] == last);
        lemma_note_keeps(before.notes, reason, note);
        lemma_ambiguous_note(last, owners.len());
        if after.notes.contains(note) {
            if before.notes.contains(note) {
                let i = choose|i: int|
                    0 <= i < fewer.len() && is_ambiguous(all, #[trigger] fewer[i], note);
                assert(names[i] == fewer[i]);
            } else {
                assert(is_ambiguous(all, names[names.len() - 1], note));
            }
        }
        if names.len() <= crate::backfill::MAX_NOTES {
            assert forall|i: int|
                0 <= i < names.len() && is_ambiguous(all, #[trigger] names[i], note) implies
                after.notes.contains(note) by {
                if i < fewer.len() {
                    assert(fewer[i] == names[i]);
                } else {
                    assert(note == reason);
                }
            }
        }
    }
}

/// Whether a note says that a toolkit has several connections, or none, and how many.
pub open spec fn is_ambiguous(
    all: Seq<(Seq<char>, Seq<char>)>,
    toolkit: Seq<char>,
    note: Seq<char>,
) -> bool {
    let count = crate::backfill::connections_of(all, toolkit).len();
    let head = "skill-"@ + toolkit + ": skipped \u{2014} "@;
    &&& count != 1
    &&& head.is_prefix_of(note)
    &&& note == head + crate::text::decimal(count)
        + " connections are registered for this toolkit and the pre-migration documents record none, so the account they belong to cannot be determined"@
}

proof fn lemma_ambiguous_note(toolkit: Seq<char>, count: nat)
    ensures
        ("skill-"@ + toolkit + ": skipped \u{2014} "@).is_prefix_of(
            crate::backfill::ambiguous_note(toolkit, count),
        ),
{
    let head = "skill-"@ + toolkit + ": skipped \u{2014} "@;
    let note = crate::backfill::ambiguous_note(toolkit, count);
    assert(note.subrange(0, head.len() as int) =~= head);
}

/// The connections of a toolkit are those registered for it, in registry order.
pub proof fn law_toolkits_own_their_connections(
    all: Seq<(Seq<char>, Seq<char>)>,
    toolkit: Seq<char>,
)
    ensures
        ({
            let own = all.filter(|c: (Seq<char>, Seq<char>)| c.0 == toolkit);
            let ids = crate::backfill::connections_of(all, toolkit);
            &&& ids.len() == own.len()
            &&& forall|i: int| 0 <= i < own.len() ==> #[trigger] ids[i] == own[i].1
        }),
    decreases all.len(),
{
    reveal(Seq::filter);
    if all.len() > 0 {
        law_toolkits_own_their_connections(all.drop_last(), toolkit);
    }
}

} // verus!
