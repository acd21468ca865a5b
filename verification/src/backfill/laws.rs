//! What holds of whole backfill passes.
//!
//! The store and the tree are described by a [`World`] that answers every
//! action truthfully: it lists the rows it has, it says of an item whether it is
//! filed, and it files what it is handed.
//! One law goes further: its first pass may be answered in any way that the world it leaves
//! does not contradict.

use vstd::prelude::*;

use crate::backfill::pass::Phase;
use crate::sources::MemorySourceEntry;

verus! {

/// The documents of a store and the items filed in its tree.
pub ghost struct World {
    /// The rows of each namespace.
    pub listing: Map<Seq<char>, Seq<Option<Seq<char>>>>,
    /// Title and content of each document, by namespace and key.
    pub documents: Map<(Seq<char>, Seq<char>), (Seq<char>, Seq<char>)>,
    /// Title and body of each item that the tree holds, by source id.
    pub filed: Map<Seq<char>, (Seq<char>, Seq<char>)>,
}

/// A pass, what has to be done next, and the world it is done in.
pub ghost struct Run {
    pub pass: crate::backfill::pass::PassView,
    pub todo: crate::backfill::pass::ActionView,
    pub world: World,
}

impl World {
    /// The source ids that the tree holds.
    pub open spec fn held(self) -> Set<Seq<char>> {
        self.filed.dom()
    }

    /// What the tree says of an item.
    pub open spec fn holds(
        self,
        toolkit: Seq<char>,
        connection_id: Seq<char>,
        key: Seq<char>,
    ) -> Option<bool> {
        match crate::sync::identity_of(toolkit, connection_id, key) {
            Some(identity) => Some(self.held().contains(identity.source_id)),
            None => None,
        }
    }

    /// The truthful answer to an action.
    pub open spec fn answer(
        self,
        action: crate::backfill::pass::ActionView,
    ) -> crate::backfill::pass::EventView {
        match action {
            crate::backfill::pass::ActionView::Probe { toolkit, connection_id, key } =>
                crate::backfill::pass::EventView::Probed(
                Ok(self.holds(toolkit, connection_id, key)),
            ),
            crate::backfill::pass::ActionView::Read { namespace, key } =>
                crate::backfill::pass::EventView::Read(Ok(Some(self.documents[(namespace, key)]))),
            crate::backfill::pass::ActionView::Ingest { toolkit, connection_id, key, .. } =>
                crate::backfill::pass::EventView::Ingested(
                Ok(self.holds(toolkit, connection_id, key)),
            ),
            crate::backfill::pass::ActionView::List { namespace } =>
                crate::backfill::pass::EventView::Listed(Ok(self.listing[namespace])),
            _ => crate::backfill::pass::EventView::Listed(Ok(Seq::empty())),
        }
    }

    /// The world after an action. What the tree holds already it does not take in again.
    pub open spec fn after(self, action: crate::backfill::pass::ActionView) -> World {
        match action {
            crate::backfill::pass::ActionView::Ingest {
                toolkit,
                connection_id,
                key,
                title,
                content,
            } => match crate::sync::connector_ingest(
                toolkit,
                connection_id,
                key,
                title,
                content,
                0,
            ) {
                Some(item) if !self.held().contains(item.source_id) => World {
                    filed: self.filed.insert(item.source_id, (item.title, item.body)),
                    ..self
                },
                _ => self,
            },
            _ => self,
        }
    }

    /// The source ids of everything that a pass over some targets is shown.
    pub open spec fn shown(self, targets: Seq<crate::backfill::TargetView>) -> Seq<Seq<char>> {
        shown_before(targets, self.listing, targets.len())
    }

    /// How many rows a pass over some targets is shown, those without a key included.
    pub open spec fn rows(self, targets: Seq<crate::backfill::TargetView>) -> nat {
        rows_before(targets, self.listing, targets.len())
    }

    /// The source ids among them that the tree does not hold.
    pub open spec fn missing(self, targets: Seq<crate::backfill::TargetView>) -> Set<Seq<char>> {
        self.shown(targets).to_set().difference(self.held())
    }
}

impl Run {
    /// A pass before its first answer.
    pub open spec fn fresh(
        sources: Seq<MemorySourceEntry>,
        limit: Option<u64>,
        dry_run: bool,
        world: World,
    ) -> Run {
        let pass = crate::backfill::pass::PassView::fresh(sources, limit, dry_run);
        Run { pass, todo: pass.pending(), world }
    }

    pub open spec fn is_over(self) -> bool {
        self.pass.phase is Finished || self.pass.phase is Aborted
    }

    /// The run after one action and its answer.
    pub open spec fn next(self) -> Run {
        if self.is_over() {
            self
        } else {
            let event = self.world.answer(self.todo);
            Run {
                pass: self.pass.after(event),
                todo: self.pass.action(event),
                world: self.world.after(self.todo),
            }
        }
    }

    pub open spec fn steps(self, n: nat) -> Run
        decreases n,
    {
        if n == 0 {
            self
        } else {
            self.next().steps((n - 1) as nat)
        }
    }

    /// The run carried on to its end.
    pub open spec fn end(self) -> Run {
        self.steps(work(self.pass, self.world.listing))
    }
}

/// The source id under which a document of a target is filed.
pub open spec fn source_id(target: crate::backfill::TargetView, key: Seq<char>) -> Seq<char> {
    crate::sync::identity_of(target.toolkit, target.connection_id, key)->0.source_id
}

/// The source ids of the first rows of a target; a row without a key has none.
pub open spec fn ids_of(
    target: crate::backfill::TargetView,
    keys: Seq<Option<Seq<char>>>,
    rows: nat,
) -> Seq<Seq<char>>
    decreases rows,
{
    if rows == 0 {
        Seq::empty()
    } else {
        let before = ids_of(target, keys, (rows - 1) as nat);
        match keys[rows - 1] {
            Some(key) => before.push(source_id(target, key)),
            None => before,
        }
    }
}

/// The source ids of the first targets.
pub open spec fn shown_before(
    targets: Seq<crate::backfill::TargetView>,
    listing: Map<Seq<char>, Seq<Option<Seq<char>>>>,
    count: nat,
) -> Seq<Seq<char>>
    decreases count,
{
    if count == 0 {
        Seq::empty()
    } else {
        let target = targets[count - 1];
        let keys = listing[target.namespace];
        shown_before(targets, listing, (count - 1) as nat) + ids_of(target, keys, keys.len())
    }
}

/// The number of rows of the first targets.
pub open spec fn rows_before(
    targets: Seq<crate::backfill::TargetView>,
    listing: Map<Seq<char>, Seq<Option<Seq<char>>>>,
    count: nat,
) -> nat
    decreases count,
{
    if count == 0 {
        0
    } else {
        rows_before(targets, listing, (count - 1) as nat) + listing[targets[count
            - 1].namespace].len()
    }
}

/// How many of some source ids the tree does not hold, counting repeats.
pub open spec fn waiting(ids: Seq<Seq<char>>, filed: Set<Seq<char>>) -> nat
    decreases ids.len(),
{
    if ids.len() == 0 {
        0
    } else {
        waiting(ids.drop_last(), filed) + if filed.contains(ids.last()) {
            0nat
        } else {
            1nat
        }
    }
}

/// An upper bound on the actions that the targets from `at` on take.
pub open spec fn work_from(
    targets: Seq<crate::backfill::TargetView>,
    listing: Map<Seq<char>, Seq<Option<Seq<char>>>>,
    at: nat,
) -> nat
    decreases targets.len() - at,
{
    if at >= targets.len() {
        0
    } else {
        1 + 4 * listing[targets[at as int].namespace].len() + work_from(targets, listing, at + 1)
    }
}

/// An upper bound on the actions that a pass still takes.
pub open spec fn work(
    pass: crate::backfill::pass::PassView,
    listing: Map<Seq<char>, Seq<Option<Seq<char>>>>,
) -> nat {
    let rest = work_from(pass.targets, listing, pass.at + 1);
    let rows = 4 * (pass.keys.len() - pass.row);
    match pass.phase {
        Phase::Listing => work_from(pass.targets, listing, pass.at),
        Phase::Probing => (rows + rest) as nat,
        Phase::Reading => (rows - 1 + rest) as nat,
        Phase::Ingesting => (rows - 2 + rest) as nat,
        _ => 0,
    }
}

/// The source ids that a pass has dealt with.
pub open spec fn seen(
    pass: crate::backfill::pass::PassView,
    listing: Map<Seq<char>, Seq<Option<Seq<char>>>>,
) -> Seq<Seq<char>> {
    let before = shown_before(pass.targets, listing, pass.at);
    if pass.phase is Listing || pass.at >= pass.targets.len() {
        before
    } else {
        before + ids_of(pass.target(), pass.keys, pass.row)
    }
}

/// The number of rows that a pass has dealt with.
spec fn dealt(
    pass: crate::backfill::pass::PassView,
    listing: Map<Seq<char>, Seq<Option<Seq<char>>>>,
) -> nat {
    let before = rows_before(pass.targets, listing, pass.at);
    if pass.phase is Listing || pass.at >= pass.targets.len() {
        before
    } else {
        before + pass.row
    }
}

/// Whether a pass has skipped the rows without a key, and no others.
spec fn skips_keyless(
    pass: crate::backfill::pass::PassView,
    listing: Map<Seq<char>, Seq<Option<Seq<char>>>>,
) -> bool {
    pass.report.skipped == capped(dealt(pass, listing) - seen(pass, listing).len())
}

/// A count, as far as the report can count.
pub open spec fn capped(count: int) -> int {
    if count <= u64::MAX {
        count
    } else {
        u64::MAX as int
    }
}

/// How many rows a pass has filed, or, on a dry run, would have.
spec fn charged(pass: crate::backfill::pass::PassView) -> u64 {
    if pass.dry_run {
        pass.report.scanned
    } else {
        pass.report.ingested
    }
}

/// Whether the row at a position of a target is the one that an item is made of.
pub open spec fn is_made_of(
    world: World,
    targets: Seq<crate::backfill::TargetView>,
    target: int,
    row: int,
    id: Seq<char>,
) -> bool {
    &&& 0 <= target < targets.len()
    &&& 0 <= row < world.listing[targets[target].namespace].len()
    &&& world.listing[targets[target].namespace][row] is Some
    &&& source_id(targets[target], world.listing[targets[target].namespace][row]->0) == id
}

/// The stored document of the row at a position of a target: its title and its content.
pub open spec fn document_at(
    world: World,
    targets: Seq<crate::backfill::TargetView>,
    target: int,
    row: int,
) -> (Seq<char>, Seq<char>) {
    let namespace = targets[target].namespace;
    world.documents[(namespace, world.listing[namespace][row]->0)]
}

/// Whether title and body of an item are title and content of the stored document of a row
/// that the item is made of.
pub open spec fn is_stored(
    world: World,
    targets: Seq<crate::backfill::TargetView>,
    id: Seq<char>,
    text: (Seq<char>, Seq<char>),
) -> bool {
    exists|target: int, row: int| #[trigger]
        is_made_of(world, targets, target, row, id) && text == document_at(
            world,
            targets,
            target,
            row,
        )
}

/// What a run keeps, from the world `start` on.
spec fn kept(run: Run, start: World) -> bool {
    let pass = run.pass;
    let filed = run.world.held();
    let texts = run.world.filed;
    let new = filed.difference(start.held());
    let ids = seen(pass, start.listing);
    &&& pass.wf()
    &&& run.world == World { filed: texts, ..start }
    &&& pass.at <= pass.targets.len()
    &&& forall|i: int, key: Seq<char>|
        0 <= i < pass.targets.len() ==> (#[trigger] crate::sync::identity_of(
            pass.targets[i].toolkit,
            pass.targets[i].connection_id,
            key,
        )) is Some
    &&& !(pass.phase is Aborted)
    &&& pass.phase is Ingesting ==> run.todo is Ingest && run.todo->Ingest_toolkit
        == pass.target().toolkit && run.todo->Ingest_connection_id == pass.target().connection_id
        && run.todo->Ingest_key == pass.key() && (run.todo->title, run.todo->content)
        == start.documents[(pass.target().namespace, pass.key())]
    &&& !(pass.phase is Ingesting) ==> run.todo == pass.pending()
    &&& pass.phase is Listing ==> pass.at < pass.targets.len()
    &&& !(pass.phase is Listing) && pass.at < pass.targets.len() ==> pass.keys
        == start.listing[pass.target().namespace] && pass.row < pass.keys.len()
        && pass.keys[pass.row as int] is Some
    &&& pass.phase is Finished ==> (pass.report.more_pending <==> pass.at < pass.targets.len())
    &&& pass.phase is Reading || pass.phase is Ingesting || pass.report.more_pending
        ==> !filed.contains(source_id(pass.target(), pass.key()))
    &&& start.held().subset_of(filed)
    &&& forall|id: Seq<char>| #[trigger]
        start.held().contains(id) ==> texts[id] == start.filed[id]
    &&& forall|id: Seq<char>| #[trigger]
        new.contains(id) ==> is_stored(start, pass.targets, id, texts[id])
    &&& new.finite()
    &&& skips_keyless(pass, start.listing)
    &&& charged(pass) <= ids.len()
    &&& pass.report.already_present == capped(ids.len() - charged(pass))
    &&& if pass.dry_run {
        &&& new =~= Set::empty()
        &&& pass.report.scanned == waiting(ids, filed)
    } else {
        &&& new.len() == pass.report.ingested
        &&& forall|i: int| 0 <= i < ids.len() ==> filed.contains(#[trigger] ids[i])
        &&& forall|id: Seq<char>| #[trigger] new.contains(id) ==> ids.contains(id)
        &&& pass.report.scanned == pass.report.ingested + if pass.phase is Reading
            || pass.phase is Ingesting {
            1int
        } else {
            0int
        }
    }
}

proof fn lemma_seen_settled(
    pass: crate::backfill::pass::PassView,
    listing: Map<Seq<char>, Seq<Option<Seq<char>>>>,
)
    requires
        pass.at < pass.targets.len(),
        pass.keys == listing[pass.target().namespace],
        pass.row <= pass.keys.len(),
        pass.report.notes_bounded(),
    ensures
        seen(pass.settled(), listing) == shown_before(pass.targets, listing, pass.at) + ids_of(
            pass.target(),
            pass.keys,
            pass.row,
        ),
        work(pass.settled(), listing) <= 4 * (pass.keys.len() - pass.row) + work_from(
            pass.targets,
            listing,
            pass.at + 1,
        ),
    decreases pass.keys.len() - pass.row,
{
    crate::backfill::pass::lemma_settled(pass);
    if pass.row < pass.keys.len() && pass.keys[pass.row as int] is None {
        let reason = pass.target().namespace + ": a document row carries no key"@;
        crate::backfill::law_notes_stay_bounded(pass.report.with_skip(), reason);
        lemma_seen_settled(
            crate::backfill::pass::PassView {
                row: pass.row + 1,
                report: pass.report.with_skip().with_note(reason),
                ..pass
            },
            listing,
        );
    }
}

/// Settling skips the rows without a key, and no others.
proof fn lemma_skips_settled(
    pass: crate::backfill::pass::PassView,
    listing: Map<Seq<char>, Seq<Option<Seq<char>>>>,
)
    requires
        pass.at < pass.targets.len(),
        pass.keys == listing[pass.target().namespace],
        pass.row <= pass.keys.len(),
        pass.report.skipped == capped(
            rows_before(pass.targets, listing, pass.at) + pass.row - shown_before(
                pass.targets,
                listing,
                pass.at,
            ).len() - ids_of(pass.target(), pass.keys, pass.row).len(),
        ),
    ensures
        skips_keyless(pass.settled(), listing),
    decreases pass.keys.len() - pass.row,
{
    if pass.row < pass.keys.len() && pass.keys[pass.row as int] is None {
        lemma_skips_settled(
            crate::backfill::pass::PassView {
                row: pass.row + 1,
                report: pass.report.with_skip().with_note(
                    pass.target().namespace + ": a document row carries no key"@,
                ),
                ..pass
            },
            listing,
        );
    }
}

/// Going behind a keyed row skips the rows without a key behind it, and no others.
proof fn lemma_skips_past_row(
    pass: crate::backfill::pass::PassView,
    report: crate::backfill::ReportView,
    listing: Map<Seq<char>, Seq<Option<Seq<char>>>>,
)
    requires
        pass.at < pass.targets.len(),
        pass.keys == listing[pass.target().namespace],
        pass.row < pass.keys.len(),
        pass.keys[pass.row as int] is Some,
        !(pass.phase is Listing),
        skips_keyless(pass, listing),
        report.skipped == pass.report.skipped,
    ensures
        skips_keyless(pass.past_row(report), listing),
{
    lemma_skips_settled(
        crate::backfill::pass::PassView { row: pass.row + 1, report, ..pass },
        listing,
    );
}

proof fn lemma_waiting_push(ids: Seq<Seq<char>>, id: Seq<char>, filed: Set<Seq<char>>)
    ensures
        waiting(ids.push(id), filed) == waiting(ids, filed) + if filed.contains(id) {
            0nat
        } else {
            1nat
        },
{
    assert(ids.push(id).drop_last() =~= ids);
}

proof fn lemma_fresh_kept(
    sources: Seq<MemorySourceEntry>,
    limit: Option<u64>,
    dry_run: bool,
    world: World,
)
    ensures
        kept(Run::fresh(sources, limit, dry_run, world), world),
{
    let run = Run::fresh(sources, limit, dry_run, world);
    crate::backfill::pass::lemma_fresh_wf(sources, limit, dry_run);
    assert forall|i: int, key: Seq<char>| 0 <= i < run.pass.targets.len() implies (
    #[trigger] crate::sync::identity_of(
        run.pass.targets[i].toolkit,
        run.pass.targets[i].connection_id,
        key,
    )) is Some by {
        crate::backfill::law_targets_agree_with_the_sync_path(sources, i, key);
    }
    assert(world.held().difference(world.held()) =~= Set::empty());
}

/// Going behind a keyed row adds its source id to what was dealt with.
proof fn lemma_past_row(
    pass: crate::backfill::pass::PassView,
    report: crate::backfill::ReportView,
    listing: Map<Seq<char>, Seq<Option<Seq<char>>>>,
)
    requires
        pass.at < pass.targets.len(),
        pass.keys == listing[pass.target().namespace],
        pass.row < pass.keys.len(),
        pass.keys[pass.row as int] is Some,
        !(pass.phase is Listing),
        report.notes_bounded(),
    ensures
        ({
            let after = pass.past_row(report);
            &&& seen(after, listing) == seen(pass, listing).push(
                source_id(pass.target(), pass.key()),
            )
            &&& work(after, listing) + 4 <= 4 * (pass.keys.len() - pass.row) + work_from(
                pass.targets,
                listing,
                pass.at + 1,
            )
        }),
{
    let moved = crate::backfill::pass::PassView { row: pass.row + 1, report, ..pass };
    lemma_seen_settled(moved, listing);
    let before = shown_before(pass.targets, listing, pass.at);
    let ids = ids_of(pass.target(), pass.keys, pass.row);
    let id = source_id(pass.target(), pass.key());
    assert(ids_of(moved.target(), moved.keys, moved.row) == ids.push(id));
    assert(before + ids.push(id) =~= (before + ids).push(id));
}

proof fn lemma_next_listing(run: Run, start: World)
    requires
        kept(run, start),
        run.pass.phase is Listing,
    ensures
        kept(run.next(), start),
        work(run.next().pass, start.listing) < work(run.pass, start.listing),
{
    let keys = start.listing[run.pass.target().namespace];
    let listed = crate::backfill::pass::PassView { keys, row: 0, ..run.pass };
    crate::backfill::pass::law_pass_keeps_its_bounds(run.pass, run.world.answer(run.todo));
    crate::backfill::pass::lemma_settled(listed);
    lemma_seen_settled(listed, start.listing);
    lemma_skips_settled(listed, start.listing);
    assert(seen(run.next().pass, start.listing) =~= seen(run.pass, start.listing));
}

proof fn lemma_next_probing(run: Run, start: World)
    requires
        kept(run, start),
        run.pass.phase is Probing,
    ensures
        kept(run.next(), start),
        work(run.next().pass, start.listing) < work(run.pass, start.listing),
{
    let pass = run.pass;
    let event = run.world.answer(run.todo);
    let id = source_id(pass.target(), pass.key());
    let ids = seen(pass, start.listing);
    crate::backfill::pass::law_pass_keeps_its_bounds(pass, event);
    assert(crate::sync::identity_of(
        pass.targets[pass.at as int].toolkit,
        pass.targets[pass.at as int].connection_id,
        pass.key(),
    ) is Some);
    if run.world.held().contains(id) {
        let report = pass.report.with_present();
        lemma_past_row(pass, report, start.listing);
        lemma_skips_past_row(pass, report, start.listing);
        crate::backfill::pass::lemma_settled(
            crate::backfill::pass::PassView { row: pass.row + 1, report, ..pass },
        );
        lemma_waiting_push(ids, id, run.world.held());
        lemma_contains_after_push(ids, id);
    } else if pass.report.scanned < pass.limit && pass.dry_run {
        let report = pass.report.with_scanned();
        lemma_past_row(pass, report, start.listing);
        lemma_skips_past_row(pass, report, start.listing);
        crate::backfill::pass::lemma_settled(
            crate::backfill::pass::PassView { row: pass.row + 1, report, ..pass },
        );
        lemma_waiting_push(ids, id, run.world.held());
        lemma_contains_after_push(ids, id);
    }
}

proof fn lemma_contains_after_push(ids: Seq<Seq<char>>, id: Seq<char>)
    ensures
        forall|x: Seq<char>| #[trigger] ids.push(id).contains(x) <==> ids.contains(x) || x == id,
{
    assert forall|x: Seq<char>| #[trigger]
        ids.push(id).contains(x) <==> ids.contains(x) || x == id by {
        if ids.contains(x) {
            let i = choose|i: int| 0 <= i < ids.len() && ids[i] == x;
            assert(ids.push(id)[i] == x);
        }
        if x == id {
            assert(ids.push(id)[ids.len() as int] == x);
        }
    }
}

proof fn lemma_next_filing(run: Run, start: World)
    requires
        kept(run, start),
        run.pass.phase is Reading || run.pass.phase is Ingesting,
    ensures
        kept(run.next(), start),
        work(run.next().pass, start.listing) < work(run.pass, start.listing),
{
    let pass = run.pass;
    let event = run.world.answer(run.todo);
    crate::backfill::pass::law_pass_keeps_its_bounds(pass, event);
    if pass.phase is Ingesting {
        let id = source_id(pass.target(), pass.key());
        let ids = seen(pass, start.listing);
        let report = pass.report.with_ingested();
        assert(crate::sync::identity_of(
            pass.targets[pass.at as int].toolkit,
            pass.targets[pass.at as int].connection_id,
            pass.key(),
        ) is Some);
        lemma_past_row(pass, report, start.listing);
        lemma_skips_past_row(pass, report, start.listing);
        crate::backfill::pass::lemma_settled(
            crate::backfill::pass::PassView { row: pass.row + 1, report, ..pass },
        );
        lemma_contains_after_push(ids, id);
        let new = run.world.held().difference(start.held());
        let next = run.next();
        let text = (run.todo->title, run.todo->content);
        assert(next.world.filed == run.world.filed.insert(id, text));
        assert(next.world.held().difference(start.held()) =~= new.insert(id));
        assert(is_made_of(start, pass.targets, pass.at as int, pass.row as int, id));
        assert(is_stored(start, pass.targets, id, text));
        assert forall|x: Seq<char>| #[trigger]
            next.world.held().difference(start.held()).contains(x) implies is_stored(
            start,
            next.pass.targets,
            x,
            next.world.filed[x],
        ) by {
            if x != id {
                assert(new.contains(x));
            }
        }
    }
}

proof fn lemma_steps(run: Run, start: World, n: nat)
    requires
        kept(run, start),
    ensures
        kept(run.steps(n), start),
        work(run.pass, start.listing) <= n ==> run.steps(n).is_over(),
    decreases n,
{
    if run.is_over() {
        if n > 0 {
            lemma_steps(run.next(), start, (n - 1) as nat);
        }
    } else {
        lemma_works(run, start);
        if n > 0 {
            match run.pass.phase {
                Phase::Listing => lemma_next_listing(run, start),
                Phase::Probing => lemma_next_probing(run, start),
                _ => lemma_next_filing(run, start),
            }
            lemma_steps(run.next(), start, (n - 1) as nat);
        }
    }
}

/// The world after a number of passes that each really file.
pub open spec fn after_passes(
    sources: Seq<MemorySourceEntry>,
    limit: u64,
    world: World,
    passes: nat,
) -> World
    decreases passes,
{
    if passes == 0 {
        world
    } else {
        after_passes(
            sources,
            limit,
            Run::fresh(sources, Some(limit), false, world).end().world,
            (passes - 1) as nat,
        )
    }
}

proof fn lemma_ids_prefix(
    target: crate::backfill::TargetView,
    keys: Seq<Option<Seq<char>>>,
    fewer: nat,
    more: nat,
)
    requires
        fewer <= more,
    ensures
        ids_of(target, keys, fewer).is_prefix_of(ids_of(target, keys, more)),
    decreases more,
{
    if fewer < more {
        lemma_ids_prefix(target, keys, fewer, (more - 1) as nat);
    }
}

proof fn lemma_shown_prefix(
    targets: Seq<crate::backfill::TargetView>,
    listing: Map<Seq<char>, Seq<Option<Seq<char>>>>,
    fewer: nat,
    more: nat,
)
    requires
        fewer <= more,
    ensures
        shown_before(targets, listing, fewer).is_prefix_of(shown_before(targets, listing, more)),
    decreases more,
{
    if fewer < more {
        lemma_shown_prefix(targets, listing, fewer, (more - 1) as nat);
    }
}

/// What a pass has dealt with, and the row it stands at, come first in what it is
/// shown.
proof fn lemma_seen_prefix(run: Run, start: World)
    requires
        kept(run, start),
        run.is_over(),
    ensures
        run.pass.report.more_pending ==> seen(run.pass, start.listing).push(
            source_id(run.pass.target(), run.pass.key()),
        ).is_prefix_of(start.shown(run.pass.targets)),
        !run.pass.report.more_pending ==> seen(run.pass, start.listing) == start.shown(
            run.pass.targets,
        ),
{
    let pass = run.pass;
    if pass.report.more_pending {
        let before = shown_before(pass.targets, start.listing, pass.at);
        lemma_ids_prefix(pass.target(), pass.keys, pass.row + 1, pass.keys.len());
        lemma_shown_prefix(pass.targets, start.listing, pass.at + 1, pass.targets.len());
        let ids = ids_of(pass.target(), pass.keys, pass.row);
        let id = source_id(pass.target(), pass.key());
        assert(ids_of(pass.target(), pass.keys, pass.row + 1) == ids.push(id));
        assert(shown_before(pass.targets, start.listing, pass.at + 1) == before + ids_of(
            pass.target(),
            pass.keys,
            pass.keys.len(),
        ));
        assert((before + ids).push(id) =~= before + ids.push(id));
        assert((before + ids.push(id)).is_prefix_of(
            before + ids_of(pass.target(), pass.keys, pass.keys.len()),
        ));
    }
}

proof fn lemma_waiting_prefix(ids: Seq<Seq<char>>, all: Seq<Seq<char>>, filed: Set<Seq<char>>)
    requires
        ids.is_prefix_of(all),
    ensures
        waiting(ids, filed) <= waiting(all, filed),
    decreases all.len(),
{
    if ids.len() < all.len() {
        lemma_waiting_prefix(ids, all.drop_last(), filed);
    } else {
        assert(ids =~= all);
    }
}

/// A pass comes to its end. It files as many of the documents that the tree
/// misses as its limit allows, charges exactly those, files nothing else, and
/// says that more is pending exactly where some are left. Where none are, every
/// document is filed or counted as already present, and every other row is skipped.
pub proof fn law_pass_files_what_is_missing(
    sources: Seq<MemorySourceEntry>,
    limit: u64,
    world: World,
)
    ensures
        ({
            let targets = crate::backfill::targets_of(sources);
            let end = Run::fresh(sources, Some(limit), false, world).end();
            let report = end.pass.report;
            let missing = world.missing(targets);
            let left = end.world.missing(targets);
            &&& end.pass.phase is Finished
            &&& end.world == World { filed: end.world.filed, ..world }
            &&& world.held().subset_of(end.world.held())
            &&& end.world.held().difference(world.held()).subset_of(missing)
            &&& missing.finite()
            &&& left == missing.difference(end.world.held())
            &&& left.len() + report.ingested == missing.len()
            &&& report.scanned == report.ingested
            &&& report.ingested == if missing.len() <= limit {
                missing.len()
            } else {
                limit as nat
            }
            &&& report.more_pending <==> missing.len() > limit
            &&& !report.more_pending ==> {
                &&& report.ingested <= world.shown(targets).len()
                &&& report.already_present == capped(world.shown(targets).len() - report.ingested)
                &&& report.skipped == capped(world.rows(targets) - world.shown(targets).len())
            }
            &&& world.rows(targets) <= u64::MAX && !report.more_pending ==> report.ingested
                + report.already_present + report.skipped == world.rows(targets)
        }),
{
    let run = Run::fresh(sources, Some(limit), false, world);
    let targets = crate::backfill::targets_of(sources);
    let end = run.end();
    lemma_fresh_kept(sources, Some(limit), false, world);
    lemma_steps(run, world, work(run.pass, world.listing));
    lemma_targets_kept(run, work(run.pass, world.listing), world);
    lemma_seen_prefix(end, world);
    let shown = world.shown(targets);
    let missing = world.missing(targets);
    let new = end.world.held().difference(world.held());
    let left = end.world.missing(targets);
    let ids = seen(end.pass, world.listing);
    vstd::seq_lib::seq_to_set_is_finite(shown);
    assert(end.world.shown(targets) == shown);
    assert forall|id: Seq<char>| new.contains(id) implies missing.contains(id) by {
        let i = choose|i: int| 0 <= i < ids.len() && ids[i] == id;
        if end.pass.report.more_pending {
            assert(ids.push(source_id(end.pass.target(), end.pass.key()))[i] == id);
        }
        assert(shown[i] == id);
    }
    assert(left =~= missing.difference(new));
    assert(left =~= missing.difference(end.world.held()));
    assert(missing.intersect(new) =~= new);
    vstd::set_lib::lemma_set_disjoint_lens(left, new);
    assert(left + new =~= missing);
    lemma_shown_are_rows(targets, world.listing, targets.len());
    if end.pass.report.more_pending {
        let id = source_id(end.pass.target(), end.pass.key());
        assert(ids.push(id)[ids.len() as int] == id);
        assert(shown[ids.len() as int] == id);
        assert(left.contains(id));
        assert(left.len() > 0);
    } else {
        assert forall|id: Seq<char>| !left.contains(id) by {
            if left.contains(id) {
                let i = choose|i: int| 0 <= i < shown.len() && shown[i] == id;
                assert(end.world.held().contains(ids[i]));
            }
        }
        assert(left =~= Set::empty());
    }
}

/// Whatever a pass files carries the stored document: title and body of every item that it
/// adds to the tree are title and content of the stored document of a row that the item is
/// made of, and what the tree held before stays as it was. A pass that is complete leaves
/// every listed document in the tree.
pub proof fn law_filed_items_are_the_stored_documents(
    sources: Seq<MemorySourceEntry>,
    limit: u64,
    world: World,
    id: Seq<char>,
)
    ensures
        ({
            let targets = crate::backfill::targets_of(sources);
            let end = Run::fresh(sources, Some(limit), false, world).end();
            &&& world.held().contains(id) ==> end.world.held().contains(id) && end.world.filed[id]
                == world.filed[id]
            &&& end.world.held().contains(id) && !world.held().contains(id) ==> is_stored(
                world,
                targets,
                id,
                end.world.filed[id],
            )
            &&& !end.pass.report.more_pending ==> forall|target: int, row: int| #[trigger]
                is_made_of(world, targets, target, row, id) ==> end.world.held().contains(id)
        }),
{
    let run = Run::fresh(sources, Some(limit), false, world);
    let targets = crate::backfill::targets_of(sources);
    let end = run.end();
    lemma_fresh_kept(sources, Some(limit), false, world);
    lemma_steps(run, world, work(run.pass, world.listing));
    lemma_targets_kept(run, work(run.pass, world.listing), world);
    if end.world.held().contains(id) && !world.held().contains(id) {
        assert(end.world.held().difference(world.held()).contains(id));
    }
    if !end.pass.report.more_pending {
        lemma_seen_prefix(end, world);
        let shown = world.shown(targets);
        assert forall|target: int, row: int| #[trigger]
            is_made_of(world, targets, target, row, id) implies end.world.held().contains(id) by {
            lemma_row_is_shown(targets, world, target, row, id);
            let i = choose|i: int| 0 <= i < shown.len() && shown[i] == id;
            assert(end.world.held().contains(seen(end.pass, world.listing)[i]));
        }
    }
}

/// A complete pass files every listed document that the tree did not hold, under its own
/// source id: with the title of the stored document as its title and the content as its
/// body, where no other row stands for the same item with another document.
pub proof fn law_every_missing_document_is_filed(
    sources: Seq<MemorySourceEntry>,
    limit: u64,
    world: World,
    target: int,
    row: int,
)
    requires
        ({
            let targets = crate::backfill::targets_of(sources);
            let id = source_id(
                targets[target],
                world.listing[targets[target].namespace][row]->0,
            );
            &&& is_made_of(world, targets, target, row, id)
            &&& !world.held().contains(id)
            &&& forall|t: int, r: int| #[trigger]
                is_made_of(world, targets, t, r, id) ==> document_at(world, targets, t, r)
                    == document_at(world, targets, target, row)
        }),
        !Run::fresh(sources, Some(limit), false, world).end().pass.report.more_pending,
    ensures
        ({
            let targets = crate::backfill::targets_of(sources);
            let namespace = targets[target].namespace;
            let key = world.listing[namespace][row]->0;
            let id = source_id(targets[target], key);
            let end = Run::fresh(sources, Some(limit), false, world).end();
            &&& end.world.filed.contains_key(id)
            &&& end.world.filed[id].0 == world.documents[(namespace, key)].0
            &&& end.world.filed[id].1 == world.documents[(namespace, key)].1
        }),
{
    let targets = crate::backfill::targets_of(sources);
    let id = source_id(targets[target], world.listing[targets[target].namespace][row]->0);
    law_filed_items_are_the_stored_documents(sources, limit, world, id);
}

/// The source id of every row with a key is shown.
proof fn lemma_row_is_shown(
    targets: Seq<crate::backfill::TargetView>,
    world: World,
    target: int,
    row: int,
    id: Seq<char>,
)
    requires
        is_made_of(world, targets, target, row, id),
    ensures
        world.shown(targets).contains(id),
{
    let keys = world.listing[targets[target].namespace];
    let before = shown_before(targets, world.listing, target as nat);
    lemma_ids_prefix(targets[target], keys, (row + 1) as nat, keys.len());
    lemma_shown_prefix(targets, world.listing, (target + 1) as nat, targets.len());
    let some = ids_of(targets[target], keys, (row + 1) as nat);
    let all = ids_of(targets[target], keys, keys.len());
    let at = some.len() - 1;
    assert(some[at] == id);
    assert(all[at] == id);
    let upto = shown_before(targets, world.listing, (target + 1) as nat);
    assert(upto == before + all);
    assert(upto[before.len() + at] == id);
    assert(world.shown(targets)[before.len() + at] == id);
}

/// No more documents are shown than rows.
proof fn lemma_shown_are_rows(
    targets: Seq<crate::backfill::TargetView>,
    listing: Map<Seq<char>, Seq<Option<Seq<char>>>>,
    count: nat,
)
    ensures
        shown_before(targets, listing, count).len() <= rows_before(targets, listing, count),
    decreases count,
{
    if count > 0 {
        let target = targets[count - 1];
        let keys = listing[target.namespace];
        lemma_shown_are_rows(targets, listing, (count - 1) as nat);
        lemma_ids_are_rows(target, keys, keys.len());
    }
}

proof fn lemma_ids_are_rows(
    target: crate::backfill::TargetView,
    keys: Seq<Option<Seq<char>>>,
    rows: nat,
)
    ensures
        ids_of(target, keys, rows).len() <= rows,
    decreases rows,
{
    if rows > 0 {
        lemma_ids_are_rows(target, keys, (rows - 1) as nat);
    }
}

/// A second pass recognises what the first one left in the tree. Where the first was
/// complete, the second, whatever its limit, writes nothing, charges nothing, does not ask
/// to be run again, and counts as already present exactly what the first filed or found.
pub proof fn law_second_pass_recognises_the_first(
    sources: Seq<MemorySourceEntry>,
    first_limit: Option<u64>,
    second_limit: Option<u64>,
    dry_run: bool,
    world: World,
)
    requires
        !Run::fresh(sources, first_limit, false, world).end().pass.report.more_pending,
    ensures
        ({
            let first = Run::fresh(sources, first_limit, false, world).end();
            let second = Run::fresh(sources, second_limit, dry_run, first.world).end();
            let report = second.pass.report;
            &&& first.pass.phase is Finished
            &&& second.pass.phase is Finished
            &&& second.world == first.world
            &&& report.scanned == 0
            &&& report.ingested == 0
            &&& !report.more_pending
            &&& report.already_present == capped(
                first.pass.report.ingested + first.pass.report.already_present,
            )
            &&& report.skipped == first.pass.report.skipped
        }),
{
    let one: u64 = match first_limit {
        Some(limit) => limit,
        None => crate::backfill::DEFAULT_BACKFILL_LIMIT,
    };
    let two: u64 = match second_limit {
        Some(limit) => limit,
        None => crate::backfill::DEFAULT_BACKFILL_LIMIT,
    };
    assert(Run::fresh(sources, first_limit, false, world) == Run::fresh(
        sources,
        Some(one),
        false,
        world,
    ));
    let first = Run::fresh(sources, Some(one), false, world).end();
    assert(Run::fresh(sources, second_limit, dry_run, first.world) == Run::fresh(
        sources,
        Some(two),
        dry_run,
        first.world,
    ));
    let targets = crate::backfill::targets_of(sources);
    law_pass_files_what_is_missing(sources, one, world);
    assert(first.world.missing(targets) =~= Set::empty()) by {
        assert(first.world.missing(targets).len() == 0);
        assert(first.world.missing(targets).finite());
        first.world.missing(targets).lemma_len0_is_empty();
    }
    law_nothing_is_filed_twice(sources, two, dry_run, first.world);
}

/// Whether an answer to a pass agrees with the world that the pass leaves: the rows of a
/// namespace are those that the world lists, and what the tree says that it held, or that
/// it took in, the world holds. Whether a read works, whether the tree fails, and what it
/// says of other rows is left open.
pub open spec fn agrees(
    pass: crate::backfill::pass::PassView,
    event: crate::backfill::pass::EventView,
    world: World,
) -> bool {
    match (pass.phase, event) {
        (Phase::Listing, crate::backfill::pass::EventView::Listed(answer)) => answer == Ok::<
            Seq<Option<Seq<char>>>,
            Seq<char>,
        >(world.listing[pass.target().namespace]),
        (Phase::Probing, crate::backfill::pass::EventView::Probed(Ok(Some(held)))) => held
            ==> world.held().contains(source_id(pass.target(), pass.key())),
        (Phase::Ingesting, crate::backfill::pass::EventView::Ingested(Ok(Some(_)))) =>
            world.held().contains(source_id(pass.target(), pass.key())),
        _ => true,
    }
}

/// Whether every answer to a pass agrees with the world that the pass leaves.
pub open spec fn all_agree(
    pass: crate::backfill::pass::PassView,
    events: Seq<crate::backfill::pass::EventView>,
    world: World,
) -> bool
    decreases events.len(),
{
    events.len() == 0 || (all_agree(pass, events.drop_last(), world) && agrees(
        pass.after_all(events.drop_last()),
        events.last(),
        world,
    ))
}

/// What a pass keeps that files, whatever it is answered, as long as it skips nothing:
/// the world holds every document that the pass has dealt with.
spec fn backed(pass: crate::backfill::pass::PassView, world: World) -> bool {
    let ids = seen(pass, world.listing);
    &&& pass.at <= pass.targets.len()
    &&& !(pass.phase is Listing) && pass.at < pass.targets.len() ==> pass.keys
        == world.listing[pass.target().namespace] && pass.row < pass.keys.len()
        && pass.keys[pass.row as int] is Some
    &&& pass.phase is Finished ==> (pass.report.more_pending <==> pass.at < pass.targets.len())
    &&& forall|i: int| 0 <= i < ids.len() ==> world.held().contains(#[trigger] ids[i])
    &&& skips_keyless(pass, world.listing)
    &&& charged(pass) <= ids.len()
    &&& pass.report.already_present == capped(ids.len() - charged(pass))
}

/// Settling takes back no skip.
proof fn lemma_settled_skips(pass: crate::backfill::pass::PassView)
    ensures
        pass.settled().report.skipped >= pass.report.skipped,
    decreases pass.keys.len() - pass.row,
{
    if pass.row < pass.keys.len() && pass.keys[pass.row as int] is None {
        lemma_settled_skips(
            crate::backfill::pass::PassView {
                row: pass.row + 1,
                report: pass.report.with_skip().with_note(
                    pass.target().namespace + ": a document row carries no key"@,
                ),
                ..pass
            },
        );
    }
}

/// No answer takes back a skip.
proof fn lemma_after_skips(
    pass: crate::backfill::pass::PassView,
    event: crate::backfill::pass::EventView,
)
    ensures
        pass.after(event).report.skipped >= pass.report.skipped,
{
    let report = pass.report;
    let next = crate::backfill::pass::PassView { row: pass.row + 1, ..pass };
    match event {
        crate::backfill::pass::EventView::Listed(answer) => {
            if let Ok(keys) = answer {
                lemma_settled_skips(
                    crate::backfill::pass::PassView { keys, row: 0, ..pass },
                );
            }
        },
        crate::backfill::pass::EventView::Probed(answer) => {
            lemma_settled_skips(
                crate::backfill::pass::PassView { report: report.with_present(), ..next },
            );
            lemma_settled_skips(
                crate::backfill::pass::PassView { report: report.with_scanned(), ..next },
            );
            lemma_settled_skips(
                crate::backfill::pass::PassView { report: report.with_skip(), ..next },
            );
            if let Err(failure) = answer {
                lemma_failed_skips(pass, failure, ": the tree gate could not be read ("@);
            }
        },
        crate::backfill::pass::EventView::Read(answer) => {
            lemma_settled_skips(
                crate::backfill::pass::PassView { report: report.with_skip(), ..next },
            );
            if let Err(error) = answer {
                lemma_settled_skips(
                    crate::backfill::pass::PassView {
                        report: report.with_skip().with_note(
                            pass.target().namespace + ": a document could not be read ("@ + error
                                + ")"@,
                        ),
                        ..next
                    },
                );
            }
        },
        crate::backfill::pass::EventView::Ingested(answer) => {
            lemma_settled_skips(
                crate::backfill::pass::PassView { report: report.with_present(), ..next },
            );
            lemma_settled_skips(
                crate::backfill::pass::PassView { report: report.with_ingested(), ..next },
            );
            lemma_settled_skips(
                crate::backfill::pass::PassView { report: report.with_skip(), ..next },
            );
            if let Err(failure) = answer {
                lemma_failed_skips(pass, failure, ": an ingest failed ("@);
            }
        },
    }
}

/// A tree failure that does not end the pass is a skip.
proof fn lemma_failed_skips(
    pass: crate::backfill::pass::PassView,
    failure: crate::sync::FailureView,
    what: Seq<char>,
)
    ensures
        pass.failed(failure, what).report.skipped >= pass.report.skipped,
        pass.failed(failure, what).phase is Aborted || pass.failed(
            failure,
            what,
        ).report.skipped > 0,
{
    if !failure.corrupt {
        lemma_settled_skips(
            crate::backfill::pass::PassView {
                row: pass.row + 1,
                report: pass.report.with_skip().with_note(
                    pass.target().namespace + what + failure.message + ")"@,
                ),
                failures: crate::sync::counted(pass.failures),
                ..pass
            },
        );
    }
}

/// Filing or finding the current row keeps what is kept of the rows dealt with.
proof fn lemma_backed_past_row(
    pass: crate::backfill::pass::PassView,
    report: crate::backfill::ReportView,
    world: World,
)
    requires
        pass.wf(),
        pass.phase is Probing || pass.phase is Ingesting,
        !pass.dry_run,
        backed(pass, world),
        report.notes_bounded(),
        !report.more_pending,
        world.held().contains(source_id(pass.target(), pass.key())),
        report == pass.report.with_present() || (report == pass.report.with_ingested()
            && pass.report.ingested < u64::MAX),
    ensures
        backed(pass.past_row(report), world),
{
    let ids = seen(pass, world.listing);
    lemma_past_row(pass, report, world.listing);
    lemma_skips_past_row(pass, report, world.listing);
    crate::backfill::pass::lemma_settled(
        crate::backfill::pass::PassView { row: pass.row + 1, report, ..pass },
    );
}

/// Every answer that agrees with the world keeps what is kept of the rows dealt with, or
/// is a skip, or ends the pass.
proof fn lemma_backed_after(
    pass: crate::backfill::pass::PassView,
    event: crate::backfill::pass::EventView,
    world: World,
)
    requires
        pass.wf(),
        !pass.dry_run,
        backed(pass, world),
        agrees(pass, event, world),
    ensures
        ({
            let after = pass.after(event);
            after.phase is Aborted || after.report.skipped > 0 || backed(after, world)
        }),
{
    let report = pass.report;
    let skipped = crate::backfill::pass::PassView {
        row: pass.row + 1,
        report: report.with_skip(),
        ..pass
    };
    match (pass.phase, event) {
        (Phase::Listing, crate::backfill::pass::EventView::Listed(_)) => {
            let keys = world.listing[pass.target().namespace];
            let listed = crate::backfill::pass::PassView { keys, row: 0, ..pass };
            crate::backfill::pass::lemma_settled(listed);
            lemma_seen_settled(listed, world.listing);
            lemma_skips_settled(listed, world.listing);
            assert(seen(listed.settled(), world.listing) =~= seen(pass, world.listing));
        },
        (Phase::Probing, crate::backfill::pass::EventView::Probed(answer)) => {
            lemma_settled_skips(skipped);
            match answer {
                Ok(Some(true)) => lemma_backed_past_row(pass, report.with_present(), world),
                Err(failure) => lemma_failed_skips(
                    pass,
                    failure,
                    ": the tree gate could not be read ("@,
                ),
                _ => {},
            }
        },
        (Phase::Reading, crate::backfill::pass::EventView::Read(answer)) => {
            lemma_settled_skips(skipped);
            if let Err(error) = answer {
                lemma_settled_skips(
                    crate::backfill::pass::PassView {
                        row: pass.row + 1,
                        report: report.with_skip().with_note(
                            pass.target().namespace + ": a document could not be read ("@ + error
                                + ")"@,
                        ),
                        ..pass
                    },
                );
            }
        },
        (Phase::Ingesting, crate::backfill::pass::EventView::Ingested(answer)) => {
            lemma_settled_skips(skipped);
            match answer {
                Ok(Some(true)) => lemma_backed_past_row(pass, report.with_present(), world),
                Ok(Some(false)) => lemma_backed_past_row(pass, report.with_ingested(), world),
                Err(failure) => lemma_failed_skips(pass, failure, ": an ingest failed ("@),
                _ => {},
            }
        },
        _ => {},
    }
}

proof fn lemma_all_backed(
    sources: Seq<MemorySourceEntry>,
    limit: Option<u64>,
    events: Seq<crate::backfill::pass::EventView>,
    world: World,
)
    requires
        all_agree(crate::backfill::pass::PassView::fresh(sources, limit, false), events, world),
    ensures
        ({
            let pass = crate::backfill::pass::PassView::fresh(sources, limit, false).after_all(
                events,
            );
            &&& pass.wf()
            &&& !pass.dry_run
            &&& pass.targets == crate::backfill::targets_of(sources)
            &&& pass.phase is Aborted || pass.report.skipped > 0 || backed(pass, world)
        }),
    decreases events.len(),
{
    let fresh = crate::backfill::pass::PassView::fresh(sources, limit, false);
    crate::backfill::pass::lemma_fresh_wf(sources, limit, false);
    if events.len() > 0 {
        let before = fresh.after_all(events.drop_last());
        lemma_all_backed(sources, limit, events.drop_last(), world);
        crate::backfill::pass::law_pass_keeps_its_bounds(before, events.last());
        crate::backfill::pass::lemma_after_keeps(before, events.last());
        lemma_after_skips(before, events.last());
        if !(before.phase is Aborted) && before.report.skipped == 0 {
            lemma_backed_after(before, events.last(), world);
        }
    }
}

/// A second pass recognises any first one that came to its end, listed every namespace
/// and skipped nothing, whatever it was answered on the way: answers may come twice or out
/// of turn, and a row may be filed by another hand between being asked about and being
/// handed over. As long as the tree holds what it said it holds, the second pass, whatever
/// its limit, writes nothing, charges nothing, does not ask to be run again, and counts as
/// already present exactly what the first filed or found.
pub proof fn law_second_pass_recognises_any_complete_first(
    sources: Seq<MemorySourceEntry>,
    first_limit: Option<u64>,
    events: Seq<crate::backfill::pass::EventView>,
    second_limit: Option<u64>,
    dry_run: bool,
    world: World,
)
    requires
        all_agree(
            crate::backfill::pass::PassView::fresh(sources, first_limit, false),
            events,
            world,
        ),
        ({
            let first = crate::backfill::pass::PassView::fresh(
                sources,
                first_limit,
                false,
            ).after_all(events);
            &&& first.phase is Finished
            &&& !first.report.more_pending
            &&& first.report.skipped == 0
        }),
    ensures
        ({
            let first = crate::backfill::pass::PassView::fresh(
                sources,
                first_limit,
                false,
            ).after_all(events);
            let second = Run::fresh(sources, second_limit, dry_run, world).end();
            let report = second.pass.report;
            &&& second.pass.phase is Finished
            &&& second.world == world
            &&& report.scanned == 0
            &&& report.ingested == 0
            &&& !report.more_pending
            &&& report.already_present == capped(
                first.report.ingested + first.report.already_present,
            )
            &&& report.skipped == 0
        }),
{
    let first = crate::backfill::pass::PassView::fresh(sources, first_limit, false).after_all(
        events,
    );
    let targets = crate::backfill::targets_of(sources);
    let limit: u64 = match second_limit {
        Some(limit) => limit,
        None => crate::backfill::DEFAULT_BACKFILL_LIMIT,
    };
    assert(Run::fresh(sources, second_limit, dry_run, world) == Run::fresh(
        sources,
        Some(limit),
        dry_run,
        world,
    ));
    lemma_all_backed(sources, first_limit, events, world);
    let shown = world.shown(targets);
    assert(seen(first, world.listing) == shown);
    assert(world.missing(targets) =~= Set::empty()) by {
        assert forall|id: Seq<char>| !world.missing(targets).contains(id) by {
            if world.missing(targets).contains(id) {
                let i = choose|i: int| 0 <= i < shown.len() && shown[i] == id;
                assert(world.held().contains(shown[i]));
            }
        }
    }
    law_nothing_is_filed_twice(sources, limit, dry_run, world);
}

proof fn lemma_targets_kept(run: Run, n: nat, start: World)
    requires
        kept(run, start),
    ensures
        run.steps(n).pass.targets == run.pass.targets,
        run.steps(n).pass.limit == run.pass.limit,
        run.steps(n).pass.dry_run == run.pass.dry_run,
    decreases n,
{
    if n > 0 {
        if !run.is_over() {
            crate::backfill::pass::lemma_after_keeps(run.pass, run.world.answer(run.todo));
            match run.pass.phase {
                Phase::Listing => lemma_next_listing(run, start),
                Phase::Probing => lemma_next_probing(run, start),
                _ => lemma_next_filing(run, start),
            }
        }
        lemma_targets_kept(run.next(), (n - 1) as nat, start);
    }
}

/// A pass over documents that the tree all holds writes nothing, charges nothing,
/// does not ask to be run again, counts every document as already present, and skips every
/// other row.
pub proof fn law_nothing_is_filed_twice(
    sources: Seq<MemorySourceEntry>,
    limit: u64,
    dry_run: bool,
    world: World,
)
    requires
        world.missing(crate::backfill::targets_of(sources)) == Set::<Seq<char>>::empty(),
    ensures
        ({
            let end = Run::fresh(sources, Some(limit), dry_run, world).end();
            let shown = world.shown(crate::backfill::targets_of(sources));
            &&& end.pass.phase is Finished
            &&& end.world == world
            &&& end.pass.report.scanned == 0
            &&& end.pass.report.ingested == 0
            &&& !end.pass.report.more_pending
            &&& end.pass.report.already_present == capped(shown.len() as int)
            &&& end.pass.report.skipped == capped(
                world.rows(crate::backfill::targets_of(sources)) - shown.len(),
            )
        }),
{
    let run = Run::fresh(sources, Some(limit), dry_run, world);
    let targets = crate::backfill::targets_of(sources);
    let end = run.end();
    lemma_fresh_kept(sources, Some(limit), dry_run, world);
    lemma_steps(run, world, work(run.pass, world.listing));
    lemma_targets_kept(run, work(run.pass, world.listing), world);
    lemma_seen_prefix(end, world);
    let shown = world.shown(targets);
    let ids = seen(end.pass, world.listing);
    assert forall|i: int| 0 <= i < shown.len() implies world.held().contains(#[trigger] shown[i]) by {
        assert(shown.to_set().contains(shown[i]));
        assert(!world.missing(targets).contains(shown[i]));
    }
    if dry_run {
        law_dry_run_previews(sources, limit, world);
        lemma_nothing_waiting(shown, world.held());
        assert(end.world.filed =~= world.filed);
    } else {
        law_pass_files_what_is_missing(sources, limit, world);
        assert(end.world.filed =~= world.filed) by {
            assert forall|id: Seq<char>| end.world.held().contains(id) implies world.held().contains(
                id,
            ) by {
                if !world.held().contains(id) {
                    assert(end.world.held().difference(world.held()).contains(id));
                    assert(world.missing(targets).contains(id));
                }
            }
        }
    }
}

proof fn lemma_nothing_waiting(ids: Seq<Seq<char>>, filed: Set<Seq<char>>)
    requires
        forall|i: int| 0 <= i < ids.len() ==> filed.contains(#[trigger] ids[i]),
    ensures
        waiting(ids, filed) == 0,
    decreases ids.len(),
{
    if ids.len() > 0 {
        let before = ids.drop_last();
        assert forall|i: int| 0 <= i < before.len() implies filed.contains(#[trigger] before[i]) by {
            assert(before[i] == ids[i]);
        }
        lemma_nothing_waiting(before, filed);
        assert(filed.contains(ids[ids.len() - 1]));
    }
}

/// A dry run changes nothing, and counts the documents that the tree misses, up to
/// its limit. Where it does not stop there, every other document is counted as already
/// present, and every other row is skipped.
pub proof fn law_dry_run_previews(sources: Seq<MemorySourceEntry>, limit: u64, world: World)
    ensures
        ({
            let end = Run::fresh(sources, Some(limit), true, world).end();
            let report = end.pass.report;
            let targets = crate::backfill::targets_of(sources);
            let count = waiting(world.shown(targets), world.held());
            &&& end.pass.phase is Finished
            &&& end.world == world
            &&& report.ingested == 0
            &&& report.scanned == if count <= limit {
                count
            } else {
                limit as nat
            }
            &&& report.more_pending <==> count > limit
            &&& !report.more_pending ==> {
                &&& report.scanned <= world.shown(targets).len()
                &&& report.already_present == capped(world.shown(targets).len() - report.scanned)
                &&& report.skipped == capped(world.rows(targets) - world.shown(targets).len())
            }
            &&& world.rows(targets) <= u64::MAX && !report.more_pending ==> report.scanned
                + report.already_present + report.skipped == world.rows(targets)
        }),
{
    let run = Run::fresh(sources, Some(limit), true, world);
    let end = run.end();
    lemma_fresh_kept(sources, Some(limit), true, world);
    lemma_steps(run, world, work(run.pass, world.listing));
    lemma_targets_kept(run, work(run.pass, world.listing), world);
    lemma_seen_prefix(end, world);
    let targets = crate::backfill::targets_of(sources);
    let shown = world.shown(targets);
    let ids = seen(end.pass, world.listing);
    assert(end.world.filed =~= world.filed) by {
        let new = end.world.held().difference(world.held());
        assert forall|id: Seq<char>| end.world.held().contains(id) implies world.held().contains(
            id,
        ) by {
            assert(!new.contains(id));
        }
    }
    lemma_shown_are_rows(targets, world.listing, targets.len());
    if end.pass.report.more_pending {
        let id = source_id(end.pass.target(), end.pass.key());
        lemma_waiting_push(ids, id, world.held());
        lemma_waiting_prefix(ids.push(id), shown, world.held());
    }
}

/// Bounded passes converge: every pass takes its limit off what the tree misses,
/// so enough of them leave nothing missing.
pub proof fn law_bounded_passes_converge(
    sources: Seq<MemorySourceEntry>,
    limit: u64,
    world: World,
    passes: nat,
)
    ensures
        ({
            let targets = crate::backfill::targets_of(sources);
            let before = world.missing(targets).len();
            let after = after_passes(sources, limit, world, passes).missing(targets).len();
            after == if passes * limit <= before {
                before - passes * limit
            } else {
                0
            }
        }),
    decreases passes,
{
    if passes > 0 {
        let next = Run::fresh(sources, Some(limit), false, world).end().world;
        law_pass_files_what_is_missing(sources, limit, world);
        law_bounded_passes_converge(sources, limit, next, (passes - 1) as nat);
        assert(passes * limit == (passes - 1) * limit + limit) by (nonlinear_arith)
            requires
                passes > 0,
        ;
        assert((passes - 1) * limit >= 0) by (nonlinear_arith)
            requires
                passes > 0,
        ;
    } else {
        assert(passes * limit == 0) by (nonlinear_arith)
            requires
                passes == 0,
        ;
    }
}

proof fn lemma_works(run: Run, start: World)
    requires
        kept(run, start),
        !run.is_over(),
    ensures
        work(run.pass, start.listing) > 0,
{
}

} // verus!
