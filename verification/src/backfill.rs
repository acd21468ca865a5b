//! Re-filing stored connector documents into the memory tree.
//!
//! A pass walks the namespaces that the source registry names and feeds each
//! stored document to the tree, under the identity the sync path gives it. The
//! tree is asked first: a document that it already holds costs one keyed lookup
//! and none of the limit. A pass that stops on its limit is therefore resumed by
//! running another one.
//!
//! The pass is a state machine. [`pass::backfill_connector_trees`] says what has to be
//! done first; the caller does it, and [`pass::BackfillPass::advance`] takes the answer
//! and says what comes next.

use vstd::prelude::*;

pub mod laws;
pub mod pass;
pub mod steps;

use crate::json::Json;
use crate::sources::{MemorySourceEntry, SourceKind};
use crate::text::{
    decimal_text, holds_text, joined2, joined3, place_text, same_text,
    to_ascii_lower, trim,
};

verus! {

/// Documents read and filed per pass when the caller names no bound.
pub const DEFAULT_BACKFILL_LIMIT: u64 = 500;

/// How many distinct skip reasons a report carries.
pub const MAX_NOTES: usize = 20;

/// What one backfill pass examined and wrote.
#[derive(Clone, Debug, PartialEq, Eq)]
pub struct BackfillReport {
    /// Documents charged against the limit: read and filed, or on a dry run
    /// those that a real pass would read and file.
    pub scanned: u64,
    /// Documents that produced new tree rows.
    pub ingested: u64,
    /// Documents that the tree already held.
    pub already_present: u64,
    /// Documents left alone.
    pub skipped: u64,
    /// Whether the pass stopped on its limit with a document still waiting.
    pub more_pending: bool,
    /// Reasons behind `skipped`, each once, at most [`MAX_NOTES`] of them.
    pub notes: Vec<String>,
}

/// A report, with its notes as texts.
pub ghost struct ReportView {
    pub scanned: u64,
    pub ingested: u64,
    pub already_present: u64,
    pub skipped: u64,
    pub more_pending: bool,
    pub notes: Seq<Seq<char>>,
}

impl View for BackfillReport {
    type V = ReportView;

    open spec fn view(&self) -> ReportView {
        ReportView {
            scanned: self.scanned,
            ingested: self.ingested,
            already_present: self.already_present,
            skipped: self.skipped,
            more_pending: self.more_pending,
            notes: crate::text::texts(self.notes@),
        }
    }
}

/// One more, up to the largest count.
pub open spec fn bumped(n: u64) -> u64 {
    if n == u64::MAX {
        n
    } else {
        (n + 1) as u64
    }
}

/// The notes after a reason is reported: it is added unless it is there already
/// or there is no room.
pub open spec fn noted(notes: Seq<Seq<char>>, reason: Seq<char>) -> Seq<Seq<char>> {
    if notes.len() < MAX_NOTES && !notes.contains(reason) {
        notes.push(reason)
    } else {
        notes
    }
}

impl ReportView {
    /// The report of a pass that has done nothing yet.
    pub open spec fn empty() -> ReportView {
        ReportView {
            scanned: 0,
            ingested: 0,
            already_present: 0,
            skipped: 0,
            more_pending: false,
            notes: Seq::empty(),
        }
    }

    /// The notes are distinct and no more than [`MAX_NOTES`].
    pub open spec fn notes_bounded(self) -> bool {
        &&& self.notes.len() <= MAX_NOTES
        &&& self.notes.no_duplicates()
    }

    pub open spec fn with_note(self, reason: Seq<char>) -> ReportView {
        ReportView { notes: noted(self.notes, reason), ..self }
    }

    pub open spec fn with_skip(self) -> ReportView {
        ReportView { skipped: bumped(self.skipped), ..self }
    }

    pub open spec fn with_present(self) -> ReportView {
        ReportView { already_present: bumped(self.already_present), ..self }
    }

    pub open spec fn with_ingested(self) -> ReportView {
        ReportView { ingested: bumped(self.ingested), ..self }
    }

    pub open spec fn with_scanned(self) -> ReportView {
        ReportView { scanned: bumped(self.scanned), ..self }
    }

    pub open spec fn with_more_pending(self) -> ReportView {
        ReportView { more_pending: true, ..self }
    }
}

impl Default for BackfillReport {
    fn default() -> (r: Self)
        ensures
            r@ == ReportView::empty(),
    {
        let r = BackfillReport {
            scanned: 0,
            ingested: 0,
            already_present: 0,
            skipped: 0,
            more_pending: false,
            notes: Vec::new(),
        };
        assert(r@.notes =~= Seq::empty());
        r
    }
}

impl BackfillReport {
    /// Adds a reason to the notes, unless it is there already or there is no
    /// room.
    pub fn note(&mut self, reason: String)
        ensures
            final(self)@ == old(self)@.with_note(reason@),
    {
        if self.notes.len() < MAX_NOTES && !holds_text(&self.notes, reason.as_str()) {
            proof {
                crate::text::lemma_texts_push(self.notes@, reason);
            }
            self.notes.push(reason);
        }
    }

    pub(crate) fn skip(&mut self)
        ensures
            final(self)@ == old(self)@.with_skip(),
    {
        self.skipped = self.skipped.saturating_add(1);
    }
}

/// However many reasons are reported, the notes stay distinct and bounded, and
/// a reason already carried is not carried twice.
pub proof fn law_notes_stay_bounded(report: ReportView, reason: Seq<char>)
    requires
        report.notes_bounded(),
    ensures
        report.with_note(reason).notes_bounded(),
        report.with_note(reason).with_note(reason) == report.with_note(reason),
        report.notes.len() < MAX_NOTES ==> report.with_note(reason).notes.contains(reason),
{
    let notes = report.with_note(reason).notes;
    if report.notes.len() < MAX_NOTES && !report.notes.contains(reason) {
        assert(notes.last() == reason);
        assert(notes.contains(reason));
    }
}

/// One namespace to sweep, and the tree scope its documents belong to.
#[derive(Debug)]
pub struct Target {
    pub namespace: String,
    pub toolkit: String,
    pub connection_id: String,
}

/// A target, as texts.
pub ghost struct TargetView {
    pub namespace: Seq<char>,
    pub toolkit: Seq<char>,
    pub connection_id: Seq<char>,
}

impl View for Target {
    type V = TargetView;

    open spec fn view(&self) -> TargetView {
        TargetView {
            namespace: self.namespace@,
            toolkit: self.toolkit@,
            connection_id: self.connection_id@,
        }
    }
}

/// The views of a sequence of targets.
pub open spec fn target_views(targets: Seq<Target>) -> Seq<TargetView> {
    targets.map_values(|t: Target| t@)
}

/// The connection a registry row stands for, in normal form: a connector row
/// that names a toolkit and a connection, neither blank.
pub open spec fn connection_of(source: MemorySourceEntry) -> Option<(Seq<char>, Seq<char>)> {
    match (source.toolkit, source.connection_id) {
        (Some(toolkit), Some(connection_id)) => {
            let toolkit = crate::sync::normal_toolkit(toolkit@);
            let connection_id = crate::sync::normal_connection(connection_id@);
            if source.kind == SourceKind::Composio && toolkit.len() > 0 && connection_id.len() > 0 {
                Some((toolkit, connection_id))
            } else {
                None
            }
        },
        _ => None,
    }
}

/// The registered connections, in registry order.
pub open spec fn connections(sources: Seq<MemorySourceEntry>) -> Seq<(Seq<char>, Seq<char>)>
    decreases sources.len(),
{
    if sources.len() == 0 {
        Seq::empty()
    } else {
        let before = connections(sources.drop_last());
        match connection_of(sources.last()) {
            Some(connection) => before.push(connection),
            None => before,
        }
    }
}

/// The toolkits of the connections, ascending, each once.
pub open spec fn toolkits(connections: Seq<(Seq<char>, Seq<char>)>) -> Seq<Seq<char>>
    decreases connections.len(),
{
    if connections.len() == 0 {
        Seq::empty()
    } else {
        crate::text::placed(toolkits(connections.drop_last()), connections.last().0)
    }
}

/// The connection ids registered for one toolkit, in registry order.
pub open spec fn connections_of(
    connections: Seq<(Seq<char>, Seq<char>)>,
    toolkit: Seq<char>,
) -> Seq<Seq<char>>
    decreases connections.len(),
{
    if connections.len() == 0 {
        Seq::empty()
    } else {
        let before = connections_of(connections.drop_last(), toolkit);
        if connections.last().0 == toolkit {
            before.push(connections.last().1)
        } else {
            before
        }
    }
}

/// The namespace that synced items of a connection are stored in.
pub open spec fn current_target(connection: (Seq<char>, Seq<char>)) -> TargetView {
    TargetView {
        namespace: "source:"@ + crate::sync::scope_of(connection.0, connection.1),
        toolkit: connection.0,
        connection_id: connection.1,
    }
}

/// The legacy namespace of a toolkit, where only one connection can own it.
pub open spec fn legacy_target(toolkit: Seq<char>, connection_id: Seq<char>) -> TargetView {
    TargetView { namespace: "skill-"@ + toolkit, toolkit, connection_id }
}

/// Why the legacy namespace of a toolkit with several connections is skipped.
pub open spec fn ambiguous_note(toolkit: Seq<char>, count: nat) -> Seq<char> {
    "skill-"@ + toolkit + ": skipped — "@ + crate::text::decimal(count)
        + " connections are registered for this toolkit and the pre-migration documents record none, so the account they belong to cannot be determined"@
}

/// The legacy targets of the first toolkits of an ascending list.
pub open spec fn legacy_targets(
    connections: Seq<(Seq<char>, Seq<char>)>,
    names: Seq<Seq<char>>,
) -> Seq<TargetView>
    decreases names.len(),
{
    if names.len() == 0 {
        Seq::empty()
    } else {
        let before = legacy_targets(connections, names.drop_last());
        let owners = connections_of(connections, names.last());
        if owners.len() == 1 {
            before.push(legacy_target(names.last(), owners[0]))
        } else {
            before
        }
    }
}

/// The report after the ambiguous ones among some toolkits have been noted.
pub open spec fn ambiguity_noted(
    report: ReportView,
    connections: Seq<(Seq<char>, Seq<char>)>,
    names: Seq<Seq<char>>,
) -> ReportView
    decreases names.len(),
{
    if names.len() == 0 {
        report
    } else {
        let before = ambiguity_noted(report, connections, names.drop_last());
        let owners = connections_of(connections, names.last());
        if owners.len() == 1 {
            before
        } else {
            before.with_note(ambiguous_note(names.last(), owners.len()))
        }
    }
}

/// The namespaces worth sweeping: the current one of every connection, in
/// registry order, and then the legacy one of every toolkit that exactly one
/// connection can own, in ascending order.
pub open spec fn targets_of(sources: Seq<MemorySourceEntry>) -> Seq<TargetView> {
    let all = connections(sources);
    all.map_values(|c: (Seq<char>, Seq<char>)| current_target(c)) + legacy_targets(
        all,
        toolkits(all),
    )
}

/// The toolkits are listed in ascending order, each once, and they are exactly
/// those that a connection names.
pub proof fn law_toolkits_ascend(all: Seq<(Seq<char>, Seq<char>)>)
    ensures
        crate::text::ascending(toolkits(all)),
        forall|t: Seq<char>|
            #[trigger] toolkits(all).contains(t) <==> exists|i: int|
                0 <= i < all.len() && (#[trigger] all[i]).0 == t,
    decreases all.len(),
{
    if all.len() > 0 {
        let before = all.drop_last();
        law_toolkits_ascend(before);
        crate::text::lemma_placed(toolkits(before), all.last().0);
        assert forall|t: Seq<char>| #[trigger]
            toolkits(all).contains(t) <==> exists|i: int|
                0 <= i < all.len() && (#[trigger] all[i]).0 == t by {
            assert(toolkits(all).contains(t) <==> toolkits(before).contains(t) || t
                == all.last().0);
            if toolkits(before).contains(t) {
                let i = choose|i: int| 0 <= i < before.len() && (#[trigger] before[i]).0 == t;
                assert(all[i].0 == t);
            }
            if t == all.last().0 {
                assert(all[all.len() - 1].0 == t);
            }
            if exists|i: int| 0 <= i < all.len() && (#[trigger] all[i]).0 == t {
                let i = choose|i: int| 0 <= i < all.len() && (#[trigger] all[i]).0 == t;
                if i < before.len() {
                    assert(before[i].0 == t);
                }
            }
        }
    }
}

proof fn lemma_connections_normal(sources: Seq<MemorySourceEntry>)
    ensures
        forall|i: int|
            0 <= i < connections(sources).len() ==> {
                let c = #[trigger] connections(sources)[i];
                &&& c.0.len() > 0
                &&& c.1.len() > 0
                &&& crate::sync::normal_toolkit(c.0) == c.0
                &&& crate::sync::normal_connection(c.1) == c.1
            },
    decreases sources.len(),
{
    if sources.len() > 0 {
        lemma_connections_normal(sources.drop_last());
        let last = sources.last();
        if connection_of(last) is Some {
            crate::sync::law_identity_of_normal_forms(
                last.toolkit->0@,
                last.connection_id->0@,
                Seq::empty(),
            );
        }
        let before = connections(sources.drop_last());
        let all = connections(sources);
        assert forall|i: int| 0 <= i < all.len() implies {
            let c = #[trigger] all[i];
            &&& c.0.len() > 0
            &&& c.1.len() > 0
            &&& crate::sync::normal_toolkit(c.0) == c.0
            &&& crate::sync::normal_connection(c.1) == c.1
        } by {
            if i < before.len() {
                assert(all[i] == before[i]);
            }
        }
    }
}

proof fn lemma_connections_of(
    all: Seq<(Seq<char>, Seq<char>)>,
    toolkit: Seq<char>,
    owner: Seq<char>,
)
    ensures
        connections_of(all, toolkit).contains(owner) <==> all.contains((toolkit, owner)),
    decreases all.len(),
{
    if all.len() > 0 {
        let before = all.drop_last();
        lemma_connections_of(before, toolkit, owner);
        let owners = connections_of(all, toolkit);
        if all.last().0 == toolkit {
            assert(owners.last() == all.last().1);
            if connections_of(before, toolkit).contains(owner) {
                let i = choose|i: int|
                    0 <= i < connections_of(before, toolkit).len() && connections_of(
                        before,
                        toolkit,
                    )[i] == owner;
                assert(owners[i] == owner);
            }
        }
        if before.contains((toolkit, owner)) {
            let i = choose|i: int| 0 <= i < before.len() && before[i] == (toolkit, owner);
            assert(all[i] == (toolkit, owner));
        }
        if all.contains((toolkit, owner)) {
            let i = choose|i: int| 0 <= i < all.len() && all[i] == (toolkit, owner);
            if i < before.len() {
                assert(before[i] == (toolkit, owner));
            } else {
                assert(owners.last() == owner);
            }
        }
    }
}

proof fn lemma_legacy_targets(
    all: Seq<(Seq<char>, Seq<char>)>,
    names: Seq<Seq<char>>,
    target: TargetView,
)
    ensures
        legacy_targets(all, names).contains(target) <==> names.contains(target.toolkit)
            && connections_of(all, target.toolkit) == seq![target.connection_id] && target
            == legacy_target(target.toolkit, target.connection_id),
    decreases names.len(),
{
    if names.len() > 0 {
        let before = names.drop_last();
        lemma_legacy_targets(all, before, target);
        let owners = connections_of(all, names.last());
        let was = legacy_targets(all, before);
        let now = legacy_targets(all, names);
        assert(names =~= before.push(names.last()));
        if names.contains(target.toolkit) {
            let i = choose|i: int| 0 <= i < names.len() && names[i] == target.toolkit;
            if i < before.len() {
                assert(before[i] == target.toolkit);
            }
        }
        if before.contains(target.toolkit) {
            let i = choose|i: int| 0 <= i < before.len() && before[i] == target.toolkit;
            assert(names[i] == target.toolkit);
        }
        if was.contains(target) {
            let i = choose|i: int| 0 <= i < was.len() && was[i] == target;
            assert(now[i] == target);
        }
        if now.contains(target) {
            let i = choose|i: int| 0 <= i < now.len() && now[i] == target;
            if i < was.len() {
                assert(was[i] == target);
            } else {
                assert(owners =~= seq![target.connection_id]);
            }
        }
        if owners.len() == 1 {
            assert(now.last() == legacy_target(names.last(), owners[0]));
            assert(now.contains(legacy_target(names.last(), owners[0])));
        }
        assert(names.last() == names[names.len() - 1]);
    }
}

/// A legacy namespace is swept exactly where one connection is registered for
/// its toolkit, and it is then filed under that connection.
pub proof fn law_legacy_namespace_needs_one_owner(
    sources: Seq<MemorySourceEntry>,
    toolkit: Seq<char>,
    connection_id: Seq<char>,
)
    ensures
        legacy_targets(connections(sources), toolkits(connections(sources))).contains(
            legacy_target(toolkit, connection_id),
        ) <==> connections_of(connections(sources), toolkit) == seq![connection_id],
{
    let all = connections(sources);
    lemma_legacy_targets(all, toolkits(all), legacy_target(toolkit, connection_id));
    law_toolkits_ascend(all);
    if connections_of(all, toolkit) == seq![connection_id] {
        assert(connections_of(all, toolkit)[0] == connection_id);
        assert(connections_of(all, toolkit).contains(connection_id));
        lemma_connections_of(all, toolkit, connection_id);
        let i = choose|i: int| 0 <= i < all.len() && all[i] == (toolkit, connection_id);
        assert(all[i].0 == toolkit);
    }
}

/// Every target carries a scope that the tree accepts, already in normal form:
/// a document filed from it gets the identity that the sync path gives the item.
pub proof fn law_targets_agree_with_the_sync_path(
    sources: Seq<MemorySourceEntry>,
    i: int,
    key: Seq<char>,
)
    requires
        0 <= i < targets_of(sources).len(),
    ensures
        ({
            let target = targets_of(sources)[i];
            let identity = crate::sync::identity_of(target.toolkit, target.connection_id, key);
            &&& identity is Some
            &&& identity->0.tree_scope == crate::sync::scope_of(
                target.toolkit,
                target.connection_id,
            )
            &&& identity->0.source_id == identity->0.tree_scope + ":"@ + key
            &&& target.namespace == "source:"@ + identity->0.tree_scope || target.namespace
                == "skill-"@ + target.toolkit
        }),
{
    let all = connections(sources);
    let target = targets_of(sources)[i];
    lemma_connections_normal(sources);
    if i < all.len() {
        assert(target == current_target(all[i]));
    } else {
        let legacy = legacy_targets(all, toolkits(all));
        assert(legacy[i - all.len()] == target);
        assert(legacy.contains(target));
        lemma_legacy_targets(all, toolkits(all), target);
        assert(connections_of(all, target.toolkit)[0] == target.connection_id);
        assert(connections_of(all, target.toolkit).contains(target.connection_id));
        lemma_connections_of(all, target.toolkit, target.connection_id);
        let k = choose|k: int|
            0 <= k < all.len() && all[k] == (target.toolkit, target.connection_id);
        assert(all[k].0 == target.toolkit);
    }
}

/// The key of each row of a document listing: the rows are the items of its
/// `documents` array, and a row whose `key` is no string has none.
pub open spec fn keys_of(listed: crate::json::JsonView) -> Seq<Option<Seq<char>>> {
    match listed.get("documents"@) {
        Some(documents) => match documents.items() {
            Some(rows) => rows.map_values(
                |row: crate::json::JsonView|
                    match row.get("key"@) {
                        Some(key) => key.text(),
                        None => None,
                    },
            ),
            None => Seq::empty(),
        },
        None => Seq::empty(),
    }
}

/// The key of each row of a document listing.
pub fn listed_keys(listed: &Json) -> (r: Vec<Option<String>>)
    ensures
        pass::key_views(r@) == keys_of(listed@),
{
    let mut keys: Vec<Option<String>> = Vec::new();
    assert(pass::key_views(keys@) =~= Seq::empty());
    let rows = match listed.get("documents") {
        Some(documents) => match documents.as_array() {
            Some(rows) => rows,
            None => {
                return keys;
            },
        },
        None => {
            return keys;
        },
    };
    let ghost all = keys_of(listed@);
    let mut i: usize = 0;
    while i < rows.len()
        invariant
            i <= rows.len(),
            all.len() == rows.len(),
            forall|j: int|
                0 <= j < rows.len() ==> #[trigger] all[j] == (match rows@[j]@.get("key"@) {
                    Some(key) => key.text(),
                    None => None,
                }),
            pass::key_views(keys@) =~= all.take(i as int),
        decreases rows.len() - i,
    {
        let key = match rows[i].get("key") {
            Some(key) => match key.as_str() {
                Some(key) => Some(key.to_owned()),
                None => None,
            },
            None => None,
        };
        assert(crate::text::opt_text(key) == all[i as int]);
        assert(pass::key_views(keys@.push(key)) =~= pass::key_views(keys@).push(all[i as int]));
        keys.push(key);
        i = i + 1;
    }
    assert(all.take(i as int) =~= all);
    keys
}

/// A connection in normal form.
struct Connection {
    toolkit: String,
    connection_id: String,
}

spec fn connection_views(connections: Seq<Connection>) -> Seq<(Seq<char>, Seq<char>)> {
    connections.map_values(|c: Connection| (c.toolkit@, c.connection_id@))
}

fn registered_connection(source: &MemorySourceEntry) -> (r: Option<Connection>)
    ensures
        match r {
            Some(c) => connection_of(*source) == Some((c.toolkit@, c.connection_id@)),
            None => connection_of(*source) is None,
        },
{
    if source.kind != SourceKind::Composio {
        return None;
    }
    match (&source.toolkit, &source.connection_id) {
        (Some(toolkit), Some(connection_id)) => {
            let toolkit = to_ascii_lower(trim(toolkit.as_str()));
            let connection_id = trim(connection_id.as_str()).to_owned();
            if toolkit.as_str().is_empty() || connection_id.as_str().is_empty() {
                None
            } else {
                Some(Connection { toolkit, connection_id })
            }
        },
        _ => None,
    }
}

/// The connection ids that some connections register for a toolkit: how many
/// there are, and the first.
fn owners_of<'a>(connections: &'a Vec<Connection>, toolkit: &str) -> (r: (usize, Option<&'a str>))
    ensures
        r.0 == connections_of(connection_views(connections@), toolkit@).len(),
        match r.1 {
            Some(first) => r.0 > 0 && first@ == connections_of(
                connection_views(connections@),
                toolkit@,
            )[0],
            None => r.0 == 0,
        },
{
    let ghost views = connection_views(connections@);
    let mut count: usize = 0;
    let mut first: Option<&'a str> = None;
    let mut i: usize = 0;
    assert(views.take(0) =~= Seq::empty());
    while i < connections.len()
        invariant
            i <= connections.len(),
            count <= i,
            views == connection_views(connections@),
            count == connections_of(views.take(i as int), toolkit@).len(),
            match first {
                Some(first) => count > 0 && first@ == connections_of(
                    views.take(i as int),
                    toolkit@,
                )[0],
                None => count == 0,
            },
        decreases connections.len() - i,
    {
        assert(views.take(i as int + 1).drop_last() =~= views.take(i as int));
        if same_text(connections[i].toolkit.as_str(), toolkit) {
            if count == 0 {
                first = Some(connections[i].connection_id.as_str());
            }
            count = count + 1;
        }
        i = i + 1;
    }
    assert(views.take(i as int) =~= views);
    (count, first)
}

/// Derives the namespaces to sweep from the source registry, noting in the
/// report each legacy namespace that is skipped because several connections
/// could own it.
pub fn resolve_targets(sources: &Vec<MemorySourceEntry>, report: &mut BackfillReport) -> (r: Vec<
    Target,
>)
    ensures
        target_views(r@) == targets_of(sources@),
        final(report)@ == ambiguity_noted(
            old(report)@,
            connections(sources@),
            toolkits(connections(sources@)),
        ),
{
    let mut targets: Vec<Target> = Vec::new();
    let mut found: Vec<Connection> = Vec::new();
    let mut names: Vec<String> = Vec::new();
    let mut i: usize = 0;
    assert(sources@.take(0) =~= Seq::empty());
    assert(connection_views(found@) =~= Seq::empty());
    assert(crate::text::texts(names@) =~= Seq::empty());
    while i < sources.len()
        invariant
            i <= sources.len(),
            connection_views(found@) == connections(sources@.take(i as int)),
            crate::text::texts(names@) == toolkits(connection_views(found@)),
            target_views(targets@) =~= connection_views(found@).map_values(
                |c: (Seq<char>, Seq<char>)| current_target(c),
            ),
        decreases sources.len() - i,
    {
        assert(sources@.take(i as int + 1).drop_last() =~= sources@.take(i as int));
        if let Some(connection) = registered_connection(&sources[i]) {
            let ghost before = connection_views(found@);
            let scope = joined3(
                connection.toolkit.as_str(),
                ":",
                connection.connection_id.as_str(),
            );
            let target = Target {
                namespace: joined2("source:", scope.as_str()),
                toolkit: connection.toolkit.clone(),
                connection_id: connection.connection_id.clone(),
            };
            let ghost pair = (connection.toolkit@, connection.connection_id@);
            assert(target@ == current_target(pair));
            assert(target_views(targets@.push(target)) =~= target_views(targets@).push(target@));
            targets.push(target);
            place_text(&mut names, connection.toolkit.as_str());
            assert(connection_views(found@.push(connection)) =~= before.push(pair));
            assert(before.push(pair).drop_last() =~= before);
            found.push(connection);
        }
        i = i + 1;
    }
    assert(sources@.take(i as int) =~= sources@);
    let ghost all = connections(sources@);
    let ghost current = target_views(targets@);
    let ghost every = crate::text::texts(names@);
    let mut k: usize = 0;
    assert(every.take(0) =~= Seq::empty());
    assert(current + legacy_targets(all, every.take(0)) =~= current);
    while k < names.len()
        invariant
            k <= names.len(),
            every == crate::text::texts(names@),
            all == connection_views(found@),
            target_views(targets@) == current + legacy_targets(all, every.take(k as int)),
            report@ == ambiguity_noted(old(report)@, all, every.take(k as int)),
        decreases names.len() - k,
    {
        assert(every.take(k as int + 1).drop_last() =~= every.take(k as int));
        let toolkit = names[k].as_str();
        let (count, first) = owners_of(&found, toolkit);
        let ghost owners = connections_of(all, toolkit@);
        match first {
            Some(only) if count == 1 => {
                let target = Target {
                    namespace: joined2("skill-", toolkit),
                    toolkit: toolkit.to_owned(),
                    connection_id: only.to_owned(),
                };
                assert(target@ == legacy_target(toolkit@, owners[0]));
                assert(target_views(targets@.push(target)) =~= target_views(targets@).push(
                    target@,
                ));
                targets.push(target);
                assert(current + legacy_targets(all, every.take(k as int)).push(target@)
                    =~= (current + legacy_targets(all, every.take(k as int))).push(target@));
            },
            _ => {
                let head = joined3("skill-", toolkit, ": skipped — ");
                let number = decimal_text(count as u64);
                report.note(
                    joined3(
                        head.as_str(),
                        number.as_str(),
                        " connections are registered for this toolkit and the pre-migration documents record none, so the account they belong to cannot be determined",
                    ),
                );
            },
        }
        k = k + 1;
    }
    assert(every.take(k as int) =~= every);
    targets
}

} // verus!
