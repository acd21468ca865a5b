//! One backfill pass, as a state machine.

use vstd::prelude::*;

use crate::backfill::{
    resolve_targets, BackfillReport, Target, DEFAULT_BACKFILL_LIMIT,
};
use crate::sources::MemorySourceEntry;
use crate::sync::{escalate_or_count, TreeFailure};
use crate::text::{joined2, joined4};

verus! {

/// What the pass waits for.
#[derive(Clone, Copy, Debug, PartialEq, Eq, Structural)]
pub enum Phase {
    /// The listing of the current namespace.
    Listing,
    /// Whether the tree holds the current document.
    Probing,
    /// The contents of the current document.
    Reading,
    /// The outcome of filing the current document.
    Ingesting,
    /// Nothing: the pass is complete.
    Finished,
    /// Nothing: the tree store is damaged.
    Aborted,
}

/// What the caller has to do next.
#[derive(Debug)]
pub enum BackfillAction {
    /// List the documents of a namespace.
    List { namespace: String },
    /// Ask the tree whether it holds an item.
    Probe { toolkit: String, connection_id: String, key: String },
    /// Read a stored document.
    Read { namespace: String, key: String },
    /// File a document into the tree.
    Ingest {
        toolkit: String,
        connection_id: String,
        key: String,
        title: String,
        content: String,
    },
    /// Nothing: the report is complete.
    Finish,
    /// Nothing: the pass ends with this failure.
    Abort(TreeFailure),
    /// The event answered no pending action.
    Ignored,
}

/// The answer to an action.
#[derive(Debug)]
pub enum BackfillEvent {
    /// The key of each row of the listing; a damaged row has none.
    Listed(Result<Vec<Option<String>>, String>),
    /// Whether the tree holds the item; `None` where it has no scope.
    Probed(Result<Option<bool>, TreeFailure>),
    /// Title and content of the document; `None` where it is gone.
    Read(Result<Option<(String, String)>, String>),
    /// Whether the tree held the document before; `None` where it has no scope.
    Ingested(Result<Option<bool>, TreeFailure>),
}

/// An action, as texts.
pub ghost enum ActionView {
    List { namespace: Seq<char> },
    Probe { toolkit: Seq<char>, connection_id: Seq<char>, key: Seq<char> },
    Read { namespace: Seq<char>, key: Seq<char> },
    Ingest {
        toolkit: Seq<char>,
        connection_id: Seq<char>,
        key: Seq<char>,
        title: Seq<char>,
        content: Seq<char>,
    },
    Finish,
    Abort(crate::sync::FailureView),
    Ignored,
}

/// An event, as texts.
pub ghost enum EventView {
    Listed(Result<Seq<Option<Seq<char>>>, Seq<char>>),
    Probed(Result<Option<bool>, crate::sync::FailureView>),
    Read(Result<Option<(Seq<char>, Seq<char>)>, Seq<char>>),
    Ingested(Result<Option<bool>, crate::sync::FailureView>),
}

impl View for BackfillAction {
    type V = ActionView;

    open spec fn view(&self) -> ActionView {
        match *self {
            BackfillAction::List { namespace } => ActionView::List { namespace: namespace@ },
            BackfillAction::Probe { toolkit, connection_id, key } => ActionView::Probe {
                toolkit: toolkit@,
                connection_id: connection_id@,
                key: key@,
            },
            BackfillAction::Read { namespace, key } => ActionView::Read {
                namespace: namespace@,
                key: key@,
            },
            BackfillAction::Ingest { toolkit, connection_id, key, title, content } =>
                ActionView::Ingest {
                toolkit: toolkit@,
                connection_id: connection_id@,
                key: key@,
                title: title@,
                content: content@,
            },
            BackfillAction::Finish => ActionView::Finish,
            BackfillAction::Abort(failure) => ActionView::Abort(failure@),
            BackfillAction::Ignored => ActionView::Ignored,
        }
    }
}

/// The keys of listed rows, as texts.
pub open spec fn key_views(keys: Seq<Option<String>>) -> Seq<Option<Seq<char>>> {
    keys.map_values(|k: Option<String>| crate::text::opt_text(k))
}

impl View for BackfillEvent {
    type V = EventView;

    open spec fn view(&self) -> EventView {
        match *self {
            BackfillEvent::Listed(Ok(keys)) => EventView::Listed(Ok(key_views(keys@))),
            BackfillEvent::Listed(Err(error)) => EventView::Listed(Err(error@)),
            BackfillEvent::Probed(Ok(held)) => EventView::Probed(Ok(held)),
            BackfillEvent::Probed(Err(failure)) => EventView::Probed(Err(failure@)),
            BackfillEvent::Read(Ok(Some(document))) => EventView::Read(
                Ok(Some((document.0@, document.1@))),
            ),
            BackfillEvent::Read(Ok(None)) => EventView::Read(Ok(None)),
            BackfillEvent::Read(Err(error)) => EventView::Read(Err(error@)),
            BackfillEvent::Ingested(Ok(held)) => EventView::Ingested(Ok(held)),
            BackfillEvent::Ingested(Err(failure)) => EventView::Ingested(Err(failure@)),
        }
    }
}

/// The state of a pass.
pub ghost struct PassView {
    /// The namespaces to sweep.
    pub targets: Seq<crate::backfill::TargetView>,
    /// The current one.
    pub at: nat,
    /// The keys of its rows, once listed.
    pub keys: Seq<Option<Seq<char>>>,
    /// The current row.
    pub row: nat,
    pub phase: Phase,
    pub limit: u64,
    pub dry_run: bool,
    pub report: crate::backfill::ReportView,
    /// Tree failures that were tolerated.
    pub failures: u32,
}

/// A pass over the connector namespaces.
#[derive(Debug)]
pub struct BackfillPass {
    targets: Vec<Target>,
    at: usize,
    keys: Vec<Option<String>>,
    row: usize,
    phase: Phase,
    limit: u64,
    dry_run: bool,
    report: BackfillReport,
    failures: u32,
}

impl View for BackfillPass {
    type V = PassView;

    closed spec fn view(&self) -> PassView {
        PassView {
            targets: crate::backfill::target_views(self.targets@),
            at: self.at as nat,
            keys: key_views(self.keys@),
            row: self.row as nat,
            phase: self.phase,
            limit: self.limit,
            dry_run: self.dry_run,
            report: self.report@,
            failures: self.failures,
        }
    }
}

impl PassView {
    /// What every pass keeps: it stands at a target and a keyed row while it
    /// waits for an answer about one, it never charges more than its limit, and
    /// only a pass that spent the limit says that more is pending.
    pub open spec fn wf(self) -> bool {
        &&& self.phase is Listing ==> self.at < self.targets.len()
        &&& (self.phase is Probing || self.phase is Reading || self.phase is Ingesting) ==> self.at
            < self.targets.len() && self.row < self.keys.len() && self.keys[self.row as int] is Some
        &&& self.report.scanned <= self.limit
        &&& self.report.ingested <= self.report.scanned
        &&& self.phase is Reading || self.phase is Ingesting ==> !self.dry_run
            && self.report.ingested < self.report.scanned
        &&& self.dry_run ==> self.report.ingested == 0
        &&& self.report.more_pending ==> self.phase is Finished && self.report.scanned == self.limit
        &&& self.report.notes_bounded()
    }

    /// The namespace being swept.
    pub open spec fn target(self) -> crate::backfill::TargetView {
        self.targets[self.at as int]
    }

    /// The key of the current row.
    pub open spec fn key(self) -> Seq<char> {
        self.keys[self.row as int]->0
    }

    /// The pass at the namespace behind the current one, if there is one.
    pub open spec fn next_target(self) -> PassView {
        PassView {
            at: self.at + 1,
            phase: if self.at + 1 < self.targets.len() {
                Phase::Listing
            } else {
                Phase::Finished
            },
            ..self
        }
    }

    /// The pass at the first row with a key, starting with the current row. Rows
    /// without a key are skipped and noted; behind the last row comes the next
    /// namespace.
    pub open spec fn settled(self) -> PassView
        decreases self.keys.len() - self.row,
    {
        if self.row >= self.keys.len() {
            self.next_target()
        } else if self.keys[self.row as int] is None {
            PassView {
                row: self.row + 1,
                report: self.report.with_skip().with_note(
                    self.target().namespace + ": a document row carries no key"@,
                ),
                ..self
            }.settled()
        } else {
            PassView { phase: Phase::Probing, ..self }
        }
    }

    /// The pass behind the current row, with a new report.
    pub open spec fn past_row(self, report: crate::backfill::ReportView) -> PassView {
        PassView { row: self.row + 1, report, ..self }.settled()
    }

    /// The pass after a tree failure about the current row: a damaged store ends
    /// it, any other failure is counted, skipped and noted.
    pub open spec fn failed(
        self,
        failure: crate::sync::FailureView,
        what: Seq<char>,
    ) -> PassView {
        if failure.corrupt {
            PassView { phase: Phase::Aborted, ..self }
        } else {
            PassView { failures: crate::sync::counted(self.failures), ..self }.past_row(
                self.report.with_skip().with_note(
                    self.target().namespace + what + failure.message + ")"@,
                ),
            )
        }
    }

    /// The pass after an event. An event that does not answer what the pass waits
    /// for changes nothing.
    pub open spec fn after(self, event: EventView) -> PassView {
        match (self.phase, event) {
            (Phase::Listing, EventView::Listed(Ok(keys))) => PassView {
                keys,
                row: 0,
                ..self
            }.settled(),
            (Phase::Listing, EventView::Listed(Err(error))) => PassView {
                report: self.report.with_note(
                    self.target().namespace + ": could not be listed ("@ + error + ")"@,
                ),
                ..self
            }.next_target(),
            (Phase::Probing, EventView::Probed(Ok(Some(true)))) => self.past_row(
                self.report.with_present(),
            ),
            (Phase::Probing, EventView::Probed(Ok(Some(false)))) => if self.report.scanned
                >= self.limit {
                PassView {
                    phase: Phase::Finished,
                    report: self.report.with_more_pending(),
                    ..self
                }
            } else if self.dry_run {
                self.past_row(self.report.with_scanned())
            } else {
                PassView { phase: Phase::Reading, report: self.report.with_scanned(), ..self }
            },
            (Phase::Probing, EventView::Probed(Ok(None))) => self.past_row(
                self.report.with_skip(),
            ),
            (Phase::Probing, EventView::Probed(Err(failure))) => self.failed(
                failure,
                ": the tree gate could not be read ("@,
            ),
            (Phase::Reading, EventView::Read(Ok(Some(_)))) => PassView {
                phase: Phase::Ingesting,
                ..self
            },
            (Phase::Reading, EventView::Read(Ok(None))) => self.past_row(self.report.with_skip()),
            (Phase::Reading, EventView::Read(Err(error))) => self.past_row(
                self.report.with_skip().with_note(
                    self.target().namespace + ": a document could not be read ("@ + error + ")"@,
                ),
            ),
            (Phase::Ingesting, EventView::Ingested(Ok(Some(true)))) => self.past_row(
                self.report.with_present(),
            ),
            (Phase::Ingesting, EventView::Ingested(Ok(Some(false)))) => self.past_row(
                self.report.with_ingested(),
            ),
            (Phase::Ingesting, EventView::Ingested(Ok(None))) => self.past_row(
                self.report.with_skip(),
            ),
            (Phase::Ingesting, EventView::Ingested(Err(failure))) => self.failed(
                failure,
                ": an ingest failed ("@,
            ),
            _ => self,
        }
    }

    /// Whether an event answers what the pass waits for.
    pub open spec fn answers(self, event: EventView) -> bool {
        match event {
            EventView::Listed(_) => self.phase is Listing,
            EventView::Probed(_) => self.phase is Probing,
            EventView::Read(_) => self.phase is Reading,
            EventView::Ingested(_) => self.phase is Ingesting,
        }
    }

    /// What has to be done where no answer is being carried over.
    pub open spec fn pending(self) -> ActionView {
        match self.phase {
            Phase::Listing => ActionView::List { namespace: self.target().namespace },
            Phase::Probing => ActionView::Probe {
                toolkit: self.target().toolkit,
                connection_id: self.target().connection_id,
                key: self.key(),
            },
            Phase::Reading => ActionView::Read {
                namespace: self.target().namespace,
                key: self.key(),
            },
            _ => ActionView::Finish,
        }
    }

    /// What has to be done after an event.
    pub open spec fn action(self, event: EventView) -> ActionView {
        if !self.answers(event) {
            ActionView::Ignored
        } else {
            match (event, self.after(event).phase) {
                (EventView::Read(Ok(Some(document))), _) => ActionView::Ingest {
                    toolkit: self.target().toolkit,
                    connection_id: self.target().connection_id,
                    key: self.key(),
                    title: document.0,
                    content: document.1,
                },
                (EventView::Probed(Err(failure)), Phase::Aborted) => ActionView::Abort(failure),
                (EventView::Ingested(Err(failure)), Phase::Aborted) => ActionView::Abort(failure),
                _ => self.after(event).pending(),
            }
        }
    }

    /// A pass before its first answer.
    pub open spec fn fresh(
        sources: Seq<MemorySourceEntry>,
        limit: Option<u64>,
        dry_run: bool,
    ) -> PassView {
        let targets = crate::backfill::targets_of(sources);
        let all = crate::backfill::connections(sources);
        PassView {
            targets,
            at: 0,
            keys: Seq::empty(),
            row: 0,
            phase: if targets.len() > 0 {
                Phase::Listing
            } else {
                Phase::Finished
            },
            limit: match limit {
                Some(limit) => limit,
                None => DEFAULT_BACKFILL_LIMIT,
            },
            dry_run,
            report: crate::backfill::ambiguity_noted(
                crate::backfill::ReportView::empty(),
                all,
                crate::backfill::toolkits(all),
            ),
            failures: 0,
        }
    }
}

proof fn lemma_ambiguity_noted(
    report: crate::backfill::ReportView,
    all: Seq<(Seq<char>, Seq<char>)>,
    names: Seq<Seq<char>>,
)
    requires
        report.notes_bounded(),
    ensures
        ({
            let after = crate::backfill::ambiguity_noted(report, all, names);
            &&& after.notes_bounded()
            &&& after == crate::backfill::ReportView { notes: after.notes, ..report }
        }),
    decreases names.len(),
{
    if names.len() > 0 {
        lemma_ambiguity_noted(report, all, names.drop_last());
        let before = crate::backfill::ambiguity_noted(report, all, names.drop_last());
        let owners = crate::backfill::connections_of(all, names.last());
        crate::backfill::law_notes_stay_bounded(
            before,
            crate::backfill::ambiguous_note(names.last(), owners.len()),
        );
    }
}

/// A pass before its first answer is well formed and has counted nothing.
pub proof fn lemma_fresh_wf(sources: Seq<MemorySourceEntry>, limit: Option<u64>, dry_run: bool)
    ensures
        ({
            let pass = PassView::fresh(sources, limit, dry_run);
            &&& pass.wf()
            &&& pass.report == crate::backfill::ReportView {
                notes: pass.report.notes,
                ..crate::backfill::ReportView::empty()
            }
        }),
{
    let all = crate::backfill::connections(sources);
    lemma_ambiguity_noted(
        crate::backfill::ReportView::empty(),
        all,
        crate::backfill::toolkits(all),
    );
}

/// A settled pass stands at a keyed row or at a new namespace, or is complete,
/// and differs from the pass before it only in where it stands and in what was
/// skipped and noted.
pub proof fn lemma_settled(pass: PassView)
    requires
        pass.at < pass.targets.len(),
        pass.report.notes_bounded(),
    ensures
        ({
            let after = pass.settled();
            &&& after.targets == pass.targets
            &&& after.keys == pass.keys
            &&& after.limit == pass.limit
            &&& after.dry_run == pass.dry_run
            &&& after.failures == pass.failures
            &&& after.report.notes_bounded()
            &&& after.report == crate::backfill::ReportView {
                skipped: after.report.skipped,
                notes: after.report.notes,
                ..pass.report
            }
            &&& match after.phase {
                Phase::Probing => after.at == pass.at && pass.row <= after.row < pass.keys.len()
                    && pass.keys[after.row as int] is Some,
                Phase::Listing => after.at == pass.at + 1 && after.at < pass.targets.len(),
                Phase::Finished => after.at == pass.at + 1 && after.at == pass.targets.len(),
                _ => false,
            }
        }),
    decreases pass.keys.len() - pass.row,
{
    if pass.row < pass.keys.len() && pass.keys[pass.row as int] is None {
        let reason = pass.target().namespace + ": a document row carries no key"@;
        crate::backfill::law_notes_stay_bounded(pass.report.with_skip(), reason);
        lemma_settled(
            PassView {
                row: pass.row + 1,
                report: pass.report.with_skip().with_note(reason),
                ..pass
            },
        );
    }
}

/// Every answer keeps what a pass keeps: in particular the limit is never
/// overspent, a dry run files nothing, and the notes stay distinct and bounded.
pub proof fn law_pass_keeps_its_bounds(pass: PassView, event: EventView)
    requires
        pass.wf(),
    ensures
        pass.after(event).wf(),
{
    if pass.answers(event) {
        let report = pass.report;
        let namespace = pass.target().namespace;
        match event {
            EventView::Listed(Ok(keys)) => {
                lemma_settled(PassView { keys, row: 0, ..pass });
            },
            EventView::Listed(Err(error)) => {
                crate::backfill::law_notes_stay_bounded(
                    report,
                    namespace + ": could not be listed ("@ + error + ")"@,
                );
            },
            EventView::Probed(answer) => {
                lemma_settled(
                    PassView { row: pass.row + 1, report: report.with_present(), ..pass },
                );
                lemma_settled(PassView { row: pass.row + 1, report: report.with_skip(), ..pass });
                lemma_settled(
                    PassView { row: pass.row + 1, report: report.with_scanned(), ..pass },
                );
                if let Err(failure) = answer {
                    lemma_failed(pass, failure, ": the tree gate could not be read ("@);
                }
            },
            EventView::Read(answer) => {
                lemma_settled(PassView { row: pass.row + 1, report: report.with_skip(), ..pass });
                if let Err(error) = answer {
                    let reason = namespace + ": a document could not be read ("@ + error + ")"@;
                    crate::backfill::law_notes_stay_bounded(report.with_skip(), reason);
                    lemma_settled(
                        PassView {
                            row: pass.row + 1,
                            report: report.with_skip().with_note(reason),
                            ..pass
                        },
                    );
                }
            },
            EventView::Ingested(answer) => {
                lemma_settled(
                    PassView { row: pass.row + 1, report: report.with_present(), ..pass },
                );
                lemma_settled(PassView { row: pass.row + 1, report: report.with_skip(), ..pass });
                lemma_settled(
                    PassView { row: pass.row + 1, report: report.with_ingested(), ..pass },
                );
                if let Err(failure) = answer {
                    lemma_failed(pass, failure, ": an ingest failed ("@);
                }
            },
        }
    }
}

impl PassView {
    /// The rows that the report accounts for: present already, skipped, or filed; on a dry
    /// run, those that would be filed.
    pub open spec fn accounted(self) -> int {
        self.report.already_present + self.report.skipped + if self.dry_run {
            self.report.scanned
        } else {
            self.report.ingested
        }
    }

    /// The listed rows that the pass has not dealt with.
    pub open spec fn remaining(self) -> int {
        match self.phase {
            Phase::Listing => 0,
            Phase::Finished => if self.report.more_pending {
                self.keys.len() - self.row
            } else {
                0
            },
            _ => self.keys.len() - self.row,
        }
    }

    /// The rows that an event lists, where the pass waits for a listing.
    pub open spec fn newly_listed(self, event: EventView) -> int {
        match event {
            EventView::Listed(Ok(keys)) if self.phase is Listing => keys.len() as int,
            _ => 0,
        }
    }

    /// The pass after some events.
    pub open spec fn after_all(self, events: Seq<EventView>) -> PassView
        decreases events.len(),
    {
        if events.len() == 0 {
            self
        } else {
            self.after_all(events.drop_last()).after(events.last())
        }
    }

    /// How many rows the pass was shown in some events.
    pub open spec fn listed(self, events: Seq<EventView>) -> int
        decreases events.len(),
    {
        if events.len() == 0 {
            0
        } else {
            self.listed(events.drop_last()) + self.after_all(events.drop_last()).newly_listed(
                events.last(),
            )
        }
    }
}

proof fn lemma_settled_accounts(pass: PassView)
    requires
        pass.row <= pass.keys.len(),
        !pass.report.more_pending,
        pass.accounted() + pass.keys.len() - pass.row <= u64::MAX,
    ensures
        pass.settled().accounted() + pass.settled().remaining() == pass.accounted()
            + pass.keys.len() - pass.row,
    decreases pass.keys.len() - pass.row,
{
    if pass.row < pass.keys.len() && pass.keys[pass.row as int] is None {
        lemma_settled_accounts(
            PassView {
                row: pass.row + 1,
                report: pass.report.with_skip().with_note(
                    pass.target().namespace + ": a document row carries no key"@,
                ),
                ..pass
            },
        );
    }
}

/// An answer moves no row out of sight: what the report accounts for and what is left
/// grow together by the rows that the answer lists, and by nothing else.
proof fn lemma_after_accounts(pass: PassView, event: EventView)
    requires
        pass.wf(),
        pass.accounted() + pass.remaining() + pass.newly_listed(event) <= u64::MAX,
    ensures
        pass.after(event).accounted() + pass.after(event).remaining() == pass.accounted()
            + pass.remaining() + pass.newly_listed(event),
{
    if pass.answers(event) {
        let report = pass.report;
        let namespace = pass.target().namespace;
        let moved = PassView { row: pass.row + 1, ..pass };
        match event {
            EventView::Listed(Ok(keys)) => {
                lemma_settled_accounts(PassView { keys, row: 0, ..pass });
            },
            EventView::Listed(Err(_)) => {},
            EventView::Probed(answer) => {
                match answer {
                    Ok(Some(true)) => lemma_settled_accounts(
                        PassView { report: report.with_present(), ..moved },
                    ),
                    Ok(Some(false)) => if report.scanned < pass.limit && pass.dry_run {
                        lemma_settled_accounts(
                            PassView { report: report.with_scanned(), ..moved },
                        );
                    },
                    Ok(None) => lemma_settled_accounts(
                        PassView { report: report.with_skip(), ..moved },
                    ),
                    Err(failure) => lemma_failed_accounts(
                        pass,
                        failure,
                        ": the tree gate could not be read ("@,
                    ),
                }
            },
            EventView::Read(answer) => {
                match answer {
                    Ok(Some(_)) => {},
                    Ok(None) => lemma_settled_accounts(
                        PassView { report: report.with_skip(), ..moved },
                    ),
                    Err(error) => lemma_settled_accounts(
                        PassView {
                            report: report.with_skip().with_note(
                                namespace + ": a document could not be read ("@ + error + ")"@,
                            ),
                            ..moved
                        },
                    ),
                }
            },
            EventView::Ingested(answer) => {
                match answer {
                    Ok(Some(true)) => lemma_settled_accounts(
                        PassView { report: report.with_present(), ..moved },
                    ),
                    Ok(Some(false)) => lemma_settled_accounts(
                        PassView { report: report.with_ingested(), ..moved },
                    ),
                    Ok(None) => lemma_settled_accounts(
                        PassView { report: report.with_skip(), ..moved },
                    ),
                    Err(failure) => lemma_failed_accounts(pass, failure, ": an ingest failed ("@),
                }
            },
        }
    }
}

proof fn lemma_failed_accounts(pass: PassView, failure: crate::sync::FailureView, what: Seq<char>)
    requires
        pass.wf(),
        pass.phase is Probing || pass.phase is Ingesting,
        pass.accounted() + pass.remaining() <= u64::MAX,
    ensures
        pass.failed(failure, what).accounted() + pass.failed(failure, what).remaining()
            == pass.accounted() + pass.remaining(),
{
    if !failure.corrupt {
        lemma_settled_accounts(
            PassView {
                row: pass.row + 1,
                report: pass.report.with_skip().with_note(
                    pass.target().namespace + what + failure.message + ")"@,
                ),
                failures: crate::sync::counted(pass.failures),
                ..pass
            },
        );
    }
}

/// Whatever is answered, every listed row is accounted for once: it is present already,
/// skipped, or filed (on a dry run, to be filed), or it is one of the rows that are left.
/// A pass that is complete and did not stop on its limit has none left.
pub proof fn law_every_row_is_accounted_for(
    sources: Seq<MemorySourceEntry>,
    limit: Option<u64>,
    dry_run: bool,
    events: Seq<EventView>,
)
    requires
        PassView::fresh(sources, limit, dry_run).listed(events) <= u64::MAX,
    ensures
        ({
            let fresh = PassView::fresh(sources, limit, dry_run);
            let pass = fresh.after_all(events);
            &&& pass.wf()
            &&& pass.dry_run == dry_run
            &&& fresh.listed(events) >= 0
            &&& pass.accounted() + pass.remaining() == fresh.listed(events)
            &&& pass.phase is Finished && !pass.report.more_pending && !dry_run
                ==> pass.report.ingested + pass.report.already_present + pass.report.skipped
                == fresh.listed(events)
            &&& pass.phase is Finished && !pass.report.more_pending && dry_run
                ==> pass.report.scanned + pass.report.already_present + pass.report.skipped
                == fresh.listed(events)
        }),
    decreases events.len(),
{
    let fresh = PassView::fresh(sources, limit, dry_run);
    lemma_fresh_wf(sources, limit, dry_run);
    lemma_listed_grows(fresh, events);
    if events.len() > 0 {
        let before = fresh.after_all(events.drop_last());
        law_every_row_is_accounted_for(sources, limit, dry_run, events.drop_last());
        law_pass_keeps_its_bounds(before, events.last());
        lemma_after_accounts(before, events.last());
        lemma_after_keeps(before, events.last());
    }
}

proof fn lemma_listed_grows(pass: PassView, events: Seq<EventView>)
    ensures
        pass.listed(events) >= 0,
        events.len() > 0 ==> pass.listed(events.drop_last()) <= pass.listed(events),
    decreases events.len(),
{
    if events.len() > 0 {
        lemma_listed_grows(pass, events.drop_last());
    }
}

/// An answer changes neither the targets, nor the limit, nor whether it is a dry run.
pub proof fn lemma_after_keeps(pass: PassView, event: EventView)
    ensures
        pass.after(event).targets == pass.targets,
        pass.after(event).limit == pass.limit,
        pass.after(event).dry_run == pass.dry_run,
{
    assert forall|p: PassView| true implies (#[trigger] p.settled()).targets == p.targets
        && p.settled().limit == p.limit && p.settled().dry_run == p.dry_run by {
        lemma_settled_keeps(p);
    }
}

proof fn lemma_settled_keeps(pass: PassView)
    ensures
        pass.settled().targets == pass.targets,
        pass.settled().limit == pass.limit,
        pass.settled().dry_run == pass.dry_run,
    decreases pass.keys.len() - pass.row,
{
    if pass.row < pass.keys.len() && pass.keys[pass.row as int] is None {
        lemma_settled_keeps(
            PassView {
                row: pass.row + 1,
                report: pass.report.with_skip().with_note(
                    pass.target().namespace + ": a document row carries no key"@,
                ),
                ..pass
            },
        );
    }
}

proof fn lemma_failed(pass: PassView, failure: crate::sync::FailureView, what: Seq<char>)
    requires
        pass.wf(),
        pass.phase is Probing || pass.phase is Ingesting,
    ensures
        pass.failed(failure, what).wf(),
        pass.failed(failure, what).phase is Aborted <==> failure.corrupt,
{
    if !failure.corrupt {
        let reason = pass.target().namespace + what + failure.message + ")"@;
        crate::backfill::law_notes_stay_bounded(pass.report.with_skip(), reason);
        lemma_settled(
            PassView {
                row: pass.row + 1,
                report: pass.report.with_skip().with_note(reason),
                failures: crate::sync::counted(pass.failures),
                ..pass
            },
        );
    }
}

/// Walks the connector namespaces, feeding stored documents into the tree: the
/// pass before its first answer, and the first thing to do.
///
/// `limit` bounds the documents that are read and filed. With `dry_run` the
/// report says what a real pass would read and file, and no document is read or
/// filed.
pub fn backfill_connector_trees(
    sources: &Vec<MemorySourceEntry>,
    limit: Option<u64>,
    dry_run: bool,
) -> (r: (BackfillPass, BackfillAction))
    ensures
        r.0@ == PassView::fresh(sources@, limit, dry_run),
        r.0@.wf(),
        r.1@ == r.0@.pending(),
{
    let mut report = BackfillReport::default();
    let targets = resolve_targets(sources, &mut report);
    proof {
        lemma_fresh_wf(sources@, limit, dry_run);
    }
    let phase = if targets.len() > 0 {
        Phase::Listing
    } else {
        Phase::Finished
    };
    let limit: u64 = match limit {
        Some(limit) => limit,
        None => DEFAULT_BACKFILL_LIMIT,
    };
    let pass = BackfillPass {
        targets,
        at: 0,
        keys: Vec::new(),
        row: 0,
        phase,
        limit,
        dry_run,
        report,
        failures: 0,
    };
    assert(pass@.keys =~= Seq::empty());
    assert(pass@.targets.len() == pass.targets.len());
    let action = pass.pending_action();
    (pass, action)
}

impl BackfillPass {
    /// What the pass has found so far.
    pub fn report(&self) -> (r: &BackfillReport)
        ensures
            r@ == self@.report,
    {
        &self.report
    }

    /// Tree failures that were tolerated so far.
    pub fn tolerated_failures(&self) -> (r: u32)
        ensures
            r == self@.failures,
    {
        self.failures
    }

    fn current_key(&self) -> (r: String)
        requires
            self@.row < self@.keys.len(),
            self@.keys[self@.row as int] is Some,
        ensures
            r@ == self@.key(),
    {
        match &self.keys[self.row] {
            Some(key) => key.clone(),
            None => String::new(),
        }
    }

    fn pending_action(&self) -> (r: BackfillAction)
        requires
            self@.wf(),
        ensures
            r@ == self@.pending(),
    {
        match self.phase {
            Phase::Listing => BackfillAction::List {
                namespace: self.targets[self.at].namespace.clone(),
            },
            Phase::Probing => BackfillAction::Probe {
                toolkit: self.targets[self.at].toolkit.clone(),
                connection_id: self.targets[self.at].connection_id.clone(),
                key: self.current_key(),
            },
            Phase::Reading => BackfillAction::Read {
                namespace: self.targets[self.at].namespace.clone(),
                key: self.current_key(),
            },
            _ => BackfillAction::Finish,
        }
    }

    fn go_to_next_target(&mut self)
        requires
            old(self)@.at < old(self)@.targets.len(),
        ensures
            final(self)@ == old(self)@.next_target(),
    {
        let count: usize = self.targets.len();
        self.at = self.at + 1;
        if self.at < count {
            self.phase = Phase::Listing;
        } else {
            self.phase = Phase::Finished;
        }
    }

    fn settle(&mut self)
        requires
            old(self)@.at < old(self)@.targets.len(),
        ensures
            final(self)@ == old(self)@.settled(),
    {
        while self.row < self.keys.len()
            invariant
                self@.at < self@.targets.len(),
                self@.settled() == old(self)@.settled(),
            decreases self@.keys.len() - self@.row,
        {
            if self.keys[self.row].is_some() {
                self.phase = Phase::Probing;
                assert(self@ == self@.settled());
                return ;
            }
            let ghost before = self@;
            self.report.skip();
            let reason = joined2(
                self.targets[self.at].namespace.as_str(),
                ": a document row carries no key",
            );
            self.report.note(reason);
            self.row = self.row + 1;
            assert(self@ == PassView {
                row: before.row + 1,
                report: before.report.with_skip().with_note(
                    before.target().namespace + ": a document row carries no key"@,
                ),
                ..before
            });
        }
        self.go_to_next_target();
    }

    fn pass_row(&mut self)
        requires
            old(self)@.at < old(self)@.targets.len(),
            old(self)@.row < old(self)@.keys.len(),
        ensures
            final(self)@ == old(self)@.past_row(old(self)@.report),
    {
        let count: usize = self.keys.len();
        assert(self.row < count);
        self.row = self.row + 1;
        self.settle();
    }

    fn skip_with(&mut self, what: &str, error: &str)
        requires
            old(self)@.at < old(self)@.targets.len(),
        ensures
            final(self)@ == (PassView {
                report: old(self)@.report.with_skip().with_note(
                    old(self)@.target().namespace + what@ + error@ + ")"@,
                ),
                ..old(self)@
            }),
    {
        self.report.skip();
        let reason = joined4(self.targets[self.at].namespace.as_str(), what, error, ")");
        self.report.note(reason);
    }

    fn fail(&mut self, failure: TreeFailure, what: &str) -> (r: BackfillAction)
        requires
            old(self)@.wf(),
            old(self)@.phase is Probing || old(self)@.phase is Ingesting,
        ensures
            final(self)@ == old(self)@.failed(failure@, what@),
            final(self)@.wf(),
            final(self)@.phase is Aborted <==> failure.corrupt,
            r@ == if failure.corrupt {
                ActionView::Abort(failure@)
            } else {
                final(self)@.pending()
            },
    {
        proof {
            lemma_failed(self@, failure@, what@);
        }
        let rendered = failure.message.clone();
        match escalate_or_count(failure, &mut self.failures) {
            Err(failure) => {
                self.phase = Phase::Aborted;
                BackfillAction::Abort(failure)
            },
            Ok(()) => {
                self.skip_with(what, rendered.as_str());
                self.pass_row();
                self.pending_action()
            },
        }
    }

    /// Takes the answer to what had to be done, and says what has to be done
    /// next.
    pub fn advance(&mut self, event: BackfillEvent) -> (r: BackfillAction)
        requires
            old(self)@.wf(),
        ensures
            final(self)@ == old(self)@.after(event@),
            final(self)@.wf(),
            r@ == old(self)@.action(event@),
    {
        proof {
            law_pass_keeps_its_bounds(self@, event@);
        }
        match (self.phase, event) {
            (Phase::Listing, BackfillEvent::Listed(Ok(keys))) => {
                self.keys = keys;
                self.row = 0;
                self.settle();
                self.pending_action()
            },
            (Phase::Listing, BackfillEvent::Listed(Err(error))) => {
                let reason = joined4(
                    self.targets[self.at].namespace.as_str(),
                    ": could not be listed (",
                    error.as_str(),
                    ")",
                );
                self.report.note(reason);
                self.go_to_next_target();
                self.pending_action()
            },
            (Phase::Probing, BackfillEvent::Probed(Ok(Some(true)))) => {
                self.report.already_present = self.report.already_present.saturating_add(1);
                self.pass_row();
                self.pending_action()
            },
            (Phase::Probing, BackfillEvent::Probed(Ok(Some(false)))) => {
                if self.report.scanned >= self.limit {
                    self.report.more_pending = true;
                    self.phase = Phase::Finished;
                    return BackfillAction::Finish;
                }
                self.report.scanned = self.report.scanned.saturating_add(1);
                if self.dry_run {
                    self.pass_row();
                } else {
                    self.phase = Phase::Reading;
                }
                self.pending_action()
            },
            (Phase::Probing, BackfillEvent::Probed(Ok(None))) => {
                self.report.skip();
                self.pass_row();
                self.pending_action()
            },
            (Phase::Probing, BackfillEvent::Probed(Err(failure))) => {
                self.fail(failure, ": the tree gate could not be read (")
            },
            (Phase::Reading, BackfillEvent::Read(Ok(Some((title, content))))) => {
                self.phase = Phase::Ingesting;
                BackfillAction::Ingest {
                    toolkit: self.targets[self.at].toolkit.clone(),
                    connection_id: self.targets[self.at].connection_id.clone(),
                    key: self.current_key(),
                    title,
                    content,
                }
            },
            (Phase::Reading, BackfillEvent::Read(Ok(None))) => {
                self.report.skip();
                self.pass_row();
                self.pending_action()
            },
            (Phase::Reading, BackfillEvent::Read(Err(error))) => {
                self.skip_with(": a document could not be read (", error.as_str());
                self.pass_row();
                self.pending_action()
            },
            (Phase::Ingesting, BackfillEvent::Ingested(Ok(Some(true)))) => {
                self.report.already_present = self.report.already_present.saturating_add(1);
                self.pass_row();
                self.pending_action()
            },
            (Phase::Ingesting, BackfillEvent::Ingested(Ok(Some(false)))) => {
                self.report.ingested = self.report.ingested.saturating_add(1);
                self.pass_row();
                self.pending_action()
            },
            (Phase::Ingesting, BackfillEvent::Ingested(Ok(None))) => {
                self.report.skip();
                self.pass_row();
                self.pending_action()
            },
            (Phase::Ingesting, BackfillEvent::Ingested(Err(failure))) => {
                self.fail(failure, ": an ingest failed (")
            },
            _ => BackfillAction::Ignored,
        }
    }
}

} // verus!
