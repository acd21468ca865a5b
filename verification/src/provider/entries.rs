//! Entries: storing, reading, listing, recalling, exporting and importing them.

use vstd::prelude::*;

use crate::documents::MemoryTaint;
use crate::outside::to_lower;
use crate::provider::RecordingProvider;
use crate::provider::types::{
    Call, ExportRecord, ImportOutcome, ImportRecord, MemoryCategory, MemoryEntry, MemoryError,
    NamespaceSummary, OwnedRecallOpts, SourceScope,
};
use crate::rows::{copy_rows, find_row, pick_rows, put_row, sort_rows, Row};
use crate::text::{
    comes_no_later, contains_text, joined3, place_text, same_text,
};

verus! {

/// The position of the entry that a namespace holds under a key.
pub open spec fn entry_at(
    entries: Seq<crate::provider::types::EntryView>,
    namespace: Seq<char>,
    key: Seq<char>,
) -> int {
    crate::rows::first_where(entries, |e: crate::provider::types::EntryView| is_entry(e, namespace, key))
}

/// Whether an entry is the one that a namespace holds under a key.
pub open spec fn is_entry(
    e: crate::provider::types::EntryView,
    namespace: Seq<char>,
    key: Seq<char>,
) -> bool {
    e.namespace == Some(namespace) && e.key == key
}

/// The entry that is kept for what was stored. Its provenance is kept as given.
pub open spec fn stored_entry(
    namespace: Seq<char>,
    key: Seq<char>,
    content: Seq<char>,
    category: crate::provider::types::CategoryView,
    session_id: Option<Seq<char>>,
    taint: MemoryTaint,
) -> crate::provider::types::EntryView {
    crate::provider::types::EntryView {
        id: namespace + "::"@ + key,
        key,
        content,
        namespace: Some(namespace),
        category,
        timestamp: "1970-01-01T00:00:00Z"@,
        session_id,
        score: None,
        taint,
    }
}

/// Entries with one more, in place of the one with its namespace and key.
pub open spec fn with_entry(
    entries: Seq<crate::provider::types::EntryView>,
    entry: crate::provider::types::EntryView,
) -> Seq<crate::provider::types::EntryView> {
    crate::rows::put_at(entries, entry_at(entries, entry.namespace->0, entry.key), entry)
}

/// Whether an entry is in a namespace, of a category and of a session, where these are
/// given.
pub open spec fn is_listed(
    e: crate::provider::types::EntryView,
    namespace: Option<Seq<char>>,
    category: Option<crate::provider::types::CategoryView>,
    session_id: Option<Seq<char>>,
) -> bool {
    &&& namespace is Some ==> e.namespace == namespace
    &&& category is Some ==> e.category == category->0
    &&& session_id is Some ==> e.session_id == session_id
}

/// The order of entries: by id.
pub open spec fn by_entry_id() -> spec_fn(
    crate::provider::types::EntryView,
    crate::provider::types::EntryView,
) -> bool {
    |a: crate::provider::types::EntryView, b: crate::provider::types::EntryView|
        crate::text::text_le(a.id, b.id)
}

/// Entries sorted by id.
pub open spec fn by_id(entries: Seq<crate::provider::types::EntryView>) -> Seq<
    crate::provider::types::EntryView,
> {
    crate::rows::sorted_by(entries, by_entry_id())
}

/// The namespaces of some entries, ascending, each once.
pub open spec fn entry_namespaces(entries: Seq<crate::provider::types::EntryView>) -> Seq<Seq<char>>
    decreases entries.len(),
{
    if entries.len() == 0 {
        Seq::empty()
    } else {
        let before = entry_namespaces(entries.drop_last());
        match entries.last().namespace {
            Some(namespace) => crate::text::placed(before, namespace),
            None => before,
        }
    }
}

/// How many entries a namespace has.
pub open spec fn entry_count(
    entries: Seq<crate::provider::types::EntryView>,
    namespace: Seq<char>,
) -> nat
    decreases entries.len(),
{
    if entries.len() == 0 {
        0
    } else {
        entry_count(entries.drop_last(), namespace) + if entries.last().namespace == Some(
            namespace,
        ) {
            1nat
        } else {
            0nat
        }
    }
}

/// What is known of a namespace: how many entries it has.
pub open spec fn counted(
    entries: Seq<crate::provider::types::EntryView>,
    namespace: Seq<char>,
) -> crate::provider::types::SummaryView {
    crate::provider::types::SummaryView {
        namespace,
        count: entry_count(entries, namespace) as usize,
        last_updated: None,
    }
}

/// The entries that a recall matches, in the order they are kept: those it is not
/// narrowed away from whose content, in lower case, holds the query in lower case.
/// `contents` are the contents in lower case.
pub open spec fn matches(
    entries: Seq<crate::provider::types::EntryView>,
    contents: Seq<Seq<char>>,
    needle: Seq<char>,
    opts: OptsView,
) -> Seq<crate::provider::types::EntryView>
    decreases entries.len(),
{
    if entries.len() == 0 {
        Seq::empty()
    } else {
        let before = matches(entries.drop_last(), contents.drop_last(), needle, opts);
        if is_listed(entries.last(), opts.namespace, opts.category, opts.session_id)
            && crate::text::has_infix(contents.last(), needle) {
            before.push(entries.last())
        } else {
            before
        }
    }
}

/// How a recall is narrowed, as texts. The least score plays no part: this provider does
/// not rank.
pub ghost struct OptsView {
    pub namespace: Option<Seq<char>>,
    pub category: Option<crate::provider::types::CategoryView>,
    pub session_id: Option<Seq<char>>,
}

impl View for OwnedRecallOpts {
    type V = OptsView;

    open spec fn view(&self) -> OptsView {
        OptsView {
            namespace: crate::text::opt_text(self.namespace),
            category: match self.category {
                Some(category) => Some(category@),
                None => None,
            },
            session_id: crate::text::opt_text(self.session_id),
        }
    }
}

/// The contents of some entries, in lower case.
pub open spec fn lowered_contents(entries: Seq<crate::provider::types::EntryView>) -> Seq<Seq<char>> {
    entries.map_values(|e: crate::provider::types::EntryView| crate::outside::lowered(e.content))
}

/// What a recall answers: the set answer where there is one; nothing where the scope
/// allows nothing; else what matches, sorted by id, at most so many.
pub open spec fn recalled(
    provider: crate::provider::ProviderView,
    contents: Seq<Seq<char>>,
    needle: Seq<char>,
    limit: usize,
    opts: OptsView,
    scope: Option<SourceScope>,
) -> Seq<crate::provider::types::EntryView> {
    if provider.recall_result.len() > 0 {
        provider.recall_result
    } else if scope is Some && scope->0.allow@.len() == 0 {
        Seq::empty()
    } else {
        crate::rows::at_most(by_id(matches(provider.entries, contents, needle, opts)), limit)
    }
}

/// The call that a recall logs.
pub open spec fn recall_call(
    query: Seq<char>,
    scoped: bool,
) -> crate::provider::types::CallView {
    crate::provider::types::CallView {
        method: "recall.recall"@,
        content: Some(query),
        taint: None,
        scoped: Some(scoped),
    }
}

/// The entry that a decoded record is kept as: its provenance is the record's.
pub open spec fn imported_entry(record: ImportRecord) -> crate::provider::types::EntryView {
    let decoded = record.decoded->0;
    stored_entry(
        decoded.namespace@,
        decoded.key@,
        decoded.content@,
        decoded.category@,
        crate::text::opt_text(decoded.session_id),
        record.record.taint,
    )
}

/// The entries after an import.
pub open spec fn with_imported(
    entries: Seq<crate::provider::types::EntryView>,
    records: Seq<ImportRecord>,
) -> Seq<crate::provider::types::EntryView>
    decreases records.len(),
{
    if records.len() == 0 {
        entries
    } else {
        let before = with_imported(entries, records.drop_last());
        if records.last().decoded is Some {
            with_entry(before, imported_entry(records.last()))
        } else {
            before
        }
    }
}

/// What is said of the records that do not decode.
pub open spec fn import_errors(records: Seq<ImportRecord>) -> Seq<Seq<char>>
    decreases records.len(),
{
    if records.len() == 0 {
        Seq::empty()
    } else {
        let before = import_errors(records.drop_last());
        if records.last().decoded is Some {
            before
        } else {
            before.push(
                "record "@ + records.last().record.id@ + " lacks a namespace or key"@,
            )
        }
    }
}

fn opt_same(text: &Option<String>, other: &str) -> (r: bool)
    ensures
        r == (crate::text::opt_text(*text) == Some(other@)),
{
    match text {
        Some(text) => same_text(text.as_str(), other),
        None => false,
    }
}

impl MemoryEntry {
    fn is_listed(
        &self,
        namespace: Option<&str>,
        category: Option<&MemoryCategory>,
        session_id: Option<&str>,
    ) -> (r: bool)
        ensures
            r == is_listed(
                self@,
                crate::documents::scope::opt_str(namespace),
                match category {
                    Some(category) => Some(category@),
                    None => None,
                },
                crate::documents::scope::opt_str(session_id),
            ),
    {
        let namespace_fits = match namespace {
            Some(namespace) => opt_same(&self.namespace, namespace),
            None => true,
        };
        let category_fits = match category {
            Some(category) => self.category.is_same(category),
            None => true,
        };
        let session_fits = match session_id {
            Some(session_id) => opt_same(&self.session_id, session_id),
            None => true,
        };
        namespace_fits && category_fits && session_fits
    }
}

fn sort_entries(entries: Vec<MemoryEntry>) -> (r: Vec<MemoryEntry>)
    ensures
        crate::rows::row_views(r@) == by_id(crate::rows::row_views(entries@)),
{
    let precedes = |a: &MemoryEntry, b: &MemoryEntry| -> (r: bool)
        ensures
            r == crate::text::text_le(a@.id, b@.id),
    {
        comes_no_later(a.id.as_str(), b.id.as_str())
    };
    sort_rows(entries, precedes, Ghost(by_entry_id()))
}

/// An entry kept for what was stored.
fn new_entry(
    namespace: &str,
    key: &str,
    content: &str,
    category: MemoryCategory,
    session_id: Option<String>,
    taint: MemoryTaint,
) -> (r: MemoryEntry)
    ensures
        r@ == stored_entry(
            namespace@,
            key@,
            content@,
            category@,
            crate::text::opt_text(session_id),
            taint,
        ),
{
    MemoryEntry {
        id: joined3(namespace, "::", key),
        key: key.to_owned(),
        content: content.to_owned(),
        namespace: Some(namespace.to_owned()),
        category,
        timestamp: "1970-01-01T00:00:00Z".to_owned(),
        session_id,
        score: None,
        taint,
    }
}

impl RecordingProvider {
    fn find_entry(&self, namespace: &str, key: &str) -> (r: Option<usize>)
        ensures
            match r {
                Some(i) => i < self@.entries.len() && i == entry_at(
                    self@.entries,
                    namespace@,
                    key@,
                ),
                None => entry_at(self@.entries, namespace@, key@) == self@.entries.len(),
            },
    {
        let fits = |e: &MemoryEntry| -> (b: bool)
            ensures
                b == is_entry(e@, namespace@, key@),
        {
            opt_same(&e.namespace, namespace) && same_text(e.key.as_str(), key)
        };
        find_row(
            &self.entries,
            fits,
            Ghost(|e: crate::provider::types::EntryView| is_entry(e, namespace@, key@)),
        )
    }

    fn keep_entry(&mut self, namespace: &str, key: &str, entry: MemoryEntry)
        requires
            entry@.namespace == Some(namespace@),
            entry@.key == key@,
        ensures
            final(self)@ == (crate::provider::ProviderView {
                entries: with_entry(old(self)@.entries, entry@),
                ..old(self)@
            }),
            old(self)@.wf() ==> final(self)@.wf(),
    {
        proof {
            if old(self)@.wf() {
                crate::provider::laws::lemma_with_entry_stays_keyed(old(self)@.entries, entry@);
            }
        }
        let at = self.find_entry(namespace, key);
        put_row(&mut self.entries, at, entry);
    }

    /// Stores an entry under a namespace and key.
    pub fn store(
        &mut self,
        namespace: &str,
        key: &str,
        content: &str,
        category: MemoryCategory,
        session_id: Option<String>,
        taint: MemoryTaint,
    ) -> (r: Result<(), MemoryError>)
        ensures
            r is Ok,
            final(self)@ == (crate::provider::ProviderView {
                entries: with_entry(
                    old(self)@.entries,
                    stored_entry(
                        namespace@,
                        key@,
                        content@,
                        category@,
                        crate::text::opt_text(session_id),
                        taint,
                    ),
                ),
                ..old(self)@.logged(
                    crate::provider::tainted_call("core.store"@, Some(content@), Some(taint)),
                )
            }),
            old(self)@.wf() ==> final(self)@.wf(),
    {
        self.record(
            Call {
                method: "core.store".to_owned(),
                content: Some(content.to_owned()),
                taint: Some(taint),
                scoped: None,
            },
        );
        let entry = new_entry(namespace, key, content, category, session_id, taint);
        self.keep_entry(namespace, key, entry);
        Ok(())
    }

    /// The entry that a namespace holds under a key.
    pub fn get(&mut self, namespace: &str, key: &str) -> (r: Result<
        Option<MemoryEntry>,
        MemoryError,
    >)
        ensures
            final(self)@ == old(self)@.logged(crate::provider::plain_call("core.get"@)),
            r is Ok,
            ({
                let entries = old(self)@.entries;
                let at = entry_at(entries, namespace@, key@);
                match r->Ok_0 {
                    Some(entry) => at < entries.len() && entry@ == entries[at],
                    None => at == entries.len(),
                }
            }),
    {
        self.record(Call::plain("core.get"));
        match self.find_entry(namespace, key) {
            Some(i) => Ok(Some(self.entries[i].copied())),
            None => Ok(None),
        }
    }

    /// Forgets the entry that a namespace holds under a key, and says whether there was
    /// one.
    pub fn forget(&mut self, namespace: &str, key: &str) -> (r: Result<bool, MemoryError>)
        ensures
            ({
                let entries = old(self)@.entries;
                let at = entry_at(entries, namespace@, key@);
                &&& r == Ok::<bool, MemoryError>(at < entries.len())
                &&& final(self)@ == (crate::provider::ProviderView {
                    entries: if at < entries.len() {
                        entries.remove(at)
                    } else {
                        entries
                    },
                    ..old(self)@.logged(crate::provider::plain_call("core.forget"@))
                })
            }),
            old(self)@.wf() ==> final(self)@.wf(),
    {
        proof {
            if old(self)@.wf() {
                let at = entry_at(self@.entries, namespace@, key@);
                crate::rows::lemma_first_where(
                    self@.entries,
                    |e: crate::provider::types::EntryView| is_entry(e, namespace@, key@),
                );
                if at < self@.entries.len() {
                    crate::rows::lemma_removed_stays_apart(
                        self@.entries,
                        crate::provider::laws::same_entry(),
                        at,
                    );
                }
            }
        }
        self.record(Call::plain("core.forget"));
        let ghost before = self@.entries;
        match self.find_entry(namespace, key) {
            Some(i) => {
                self.entries.remove(i);
                assert(self@.entries =~= before.remove(i as int));
                Ok(true)
            },
            None => Ok(false),
        }
    }

    /// The entries of a namespace, category and session, where these are given, sorted by
    /// id.
    pub fn list(
        &mut self,
        namespace: Option<&str>,
        category: Option<&MemoryCategory>,
        session_id: Option<&str>,
    ) -> (r: Result<Vec<MemoryEntry>, MemoryError>)
        ensures
            final(self)@ == old(self)@.logged(crate::provider::plain_call("core.list"@)),
            r is Ok,
            crate::rows::row_views(r->Ok_0@) == by_id(
                old(self)@.entries.filter(
                    |e: crate::provider::types::EntryView|
                        is_listed(
                            e,
                            crate::documents::scope::opt_str(namespace),
                            match category {
                                Some(category) => Some(category@),
                                None => None,
                            },
                            crate::documents::scope::opt_str(session_id),
                        ),
                ),
            ),
    {
        self.record(Call::plain("core.list"));
        let ghost keep = |e: crate::provider::types::EntryView|
            is_listed(
                e,
                crate::documents::scope::opt_str(namespace),
                match category {
                    Some(category) => Some(category@),
                    None => None,
                },
                crate::documents::scope::opt_str(session_id),
            );
        let keeps = |e: &MemoryEntry| -> (b: bool)
            ensures
                b == keep(e@),
        {
            e.is_listed(namespace, category, session_id)
        };
        let rows = pick_rows(&self.entries, keeps, Ghost(keep));
        Ok(sort_entries(rows))
    }

    /// The namespaces: the set answer where there is one, else the namespaces of the
    /// entries with their counts, ascending.
    pub fn namespaces(&mut self) -> (r: Result<Vec<NamespaceSummary>, MemoryError>)
        ensures
            final(self)@ == old(self)@.logged(crate::provider::plain_call("core.namespaces"@)),
            r is Ok,
            crate::rows::row_views(r->Ok_0@) == if old(self)@.namespace_summaries.len() > 0 {
                old(self)@.namespace_summaries
            } else {
                entry_namespaces(old(self)@.entries).map_values(
                    |n: Seq<char>| counted(old(self)@.entries, n),
                )
            },
    {
        self.record(Call::plain("core.namespaces"));
        if self.namespace_summaries.len() > 0 {
            return Ok(copy_rows(&self.namespace_summaries));
        }
        let ghost entries = self@.entries;
        let mut names: Vec<String> = Vec::new();
        let mut i: usize = 0;
        assert(entries.take(0) =~= Seq::empty());
        assert(crate::text::texts(names@) =~= Seq::empty());
        while i < self.entries.len()
            invariant
                i <= self.entries.len(),
                entries == crate::rows::row_views(self.entries@),
                crate::text::texts(names@) == entry_namespaces(entries.take(i as int)),
            decreases self.entries.len() - i,
        {
            assert(entries.take(i as int + 1).drop_last() =~= entries.take(i as int));
            assert(entries[i as int] == self.entries@[i as int]@);
            if let Some(namespace) = &self.entries[i].namespace {
                place_text(&mut names, namespace.as_str());
            }
            i = i + 1;
        }
        assert(entries.take(i as int) =~= entries);
        let ghost all = entry_namespaces(entries);
        let mut summaries: Vec<NamespaceSummary> = Vec::new();
        let mut k: usize = 0;
        while k < names.len()
            invariant
                k <= names.len(),
                summaries.len() == k,
                all == crate::text::texts(names@),
                entries == self@.entries,
                forall|j: int| 0 <= j < k ==> (#[trigger] summaries@[j])@ == counted(entries, all[j]),
            decreases names.len() - k,
        {
            let count: usize = self.count_entries(names[k].as_str());
            assert(all[k as int] == names@[k as int]@);
            summaries.push(
                NamespaceSummary { namespace: names[k].clone(), count, last_updated: None },
            );
            k = k + 1;
        }
        assert(crate::rows::row_views(summaries@) =~= all.map_values(
            |n: Seq<char>| counted(entries, n),
        ));
        Ok(summaries)
    }

    fn count_entries(&self, namespace: &str) -> (r: usize)
        ensures
            r == entry_count(self@.entries, namespace@),
    {
        let ghost entries = self@.entries;
        let mut count: usize = 0;
        let mut i: usize = 0;
        assert(entries.take(0) =~= Seq::empty());
        while i < self.entries.len()
            invariant
                i <= self.entries.len(),
                count <= i,
                entries == crate::rows::row_views(self.entries@),
                count == entry_count(entries.take(i as int), namespace@),
            decreases self.entries.len() - i,
        {
            assert(entries.take(i as int + 1).drop_last() =~= entries.take(i as int));
            assert(entries[i as int] == self.entries@[i as int]@);
            if opt_same(&self.entries[i].namespace, namespace) {
                count = count + 1;
            }
            i = i + 1;
        }
        assert(entries.take(i as int) =~= entries);
        count
    }

    /// What a recall answers, given the query and the contents of the entries in lower
    /// case.
    pub fn recall_lowered(
        &self,
        needle: &str,
        contents: &Vec<String>,
        limit: usize,
        opts: &OwnedRecallOpts,
        scope: Option<&SourceScope>,
    ) -> (r: Vec<MemoryEntry>)
        requires
            contents@.len() == self@.entries.len(),
        ensures
            crate::rows::row_views(r@) == recalled(
                self@,
                crate::text::texts(contents@),
                needle@,
                limit,
                opts@,
                match scope {
                    Some(scope) => Some(*scope),
                    None => None,
                },
            ),
    {
        if self.recall_result.len() > 0 {
            return copy_rows(&self.recall_result);
        }
        let mut hits: Vec<MemoryEntry> = Vec::new();
        assert(crate::rows::row_views(hits@) =~= Seq::empty());
        if let Some(scope) = scope {
            if scope.is_empty() {
                return hits;
            }
        }
        let ghost entries = self@.entries;
        let ghost texts = crate::text::texts(contents@);
        let mut i: usize = 0;
        assert(entries.take(0) =~= Seq::empty());
        while i < self.entries.len()
            invariant
                i <= self.entries.len(),
                contents@.len() == self.entries@.len(),
                entries == crate::rows::row_views(self.entries@),
                texts == crate::text::texts(contents@),
                crate::rows::row_views(hits@) == matches(
                    entries.take(i as int),
                    texts.take(i as int),
                    needle@,
                    opts@,
                ),
            decreases self.entries.len() - i,
        {
            assert(entries.take(i as int + 1).drop_last() =~= entries.take(i as int));
            assert(texts.take(i as int + 1).drop_last() =~= texts.take(i as int));
            assert(entries[i as int] == self.entries@[i as int]@);
            assert(texts[i as int] == contents@[i as int]@);
            let namespace = match &opts.namespace {
                Some(namespace) => Some(namespace.as_str()),
                None => None,
            };
            let category = match &opts.category {
                Some(category) => Some(category),
                None => None,
            };
            let session_id = match &opts.session_id {
                Some(session_id) => Some(session_id.as_str()),
                None => None,
            };
            if self.entries[i].is_listed(namespace, category, session_id) && contains_text(
                contents[i].as_str(),
                needle,
            ) {
                let hit = self.entries[i].copied();
                proof {
                    crate::rows::lemma_row_views_push(hits@, hit);
                }
                hits.push(hit);
            }
            i = i + 1;
        }
        assert(entries.take(i as int) =~= entries);
        assert(texts.take(i as int) =~= texts);
        let mut hits = sort_entries(hits);
        let ghost sorted = hits@;
        hits.truncate(limit);
        assert(crate::rows::row_views(hits@) =~= crate::rows::at_most(
            crate::rows::row_views(sorted),
            limit,
        ));
        hits
    }

    /// Recalls the entries whose content holds a query, whatever the case of the letters.
    pub fn recall(
        &mut self,
        query: &str,
        limit: usize,
        opts: &OwnedRecallOpts,
        scope: Option<&SourceScope>,
    ) -> (r: Result<Vec<MemoryEntry>, MemoryError>)
        ensures
            final(self)@ == old(self)@.logged(recall_call(query@, scope is Some)),
            r is Ok,
            crate::rows::row_views(r->Ok_0@) == recalled(
                old(self)@,
                lowered_contents(old(self)@.entries),
                crate::outside::lowered(query@),
                limit,
                opts@,
                match scope {
                    Some(scope) => Some(*scope),
                    None => None,
                },
            ),
    {
        self.record(
            Call {
                method: "recall.recall".to_owned(),
                content: Some(query.to_owned()),
                taint: None,
                scoped: Some(scope.is_some()),
            },
        );
        let needle = to_lower(query);
        let mut contents: Vec<String> = Vec::new();
        let mut i: usize = 0;
        while i < self.entries.len()
            invariant
                i <= self.entries.len(),
                contents.len() == i,
                forall|j: int|
                    0 <= j < i ==> (#[trigger] contents@[j])@ == crate::outside::lowered(
                        self.entries@[j].content@,
                    ),
            decreases self.entries.len() - i,
        {
            contents.push(to_lower(self.entries[i].content.as_str()));
            i = i + 1;
        }
        assert(crate::text::texts(contents@) =~= lowered_contents(self@.entries));
        Ok(self.recall_lowered(needle.as_str(), &contents, limit, opts, scope))
    }

    /// The rows of an export, sorted by id.
    pub fn export_page(&mut self) -> (r: Result<Vec<MemoryEntry>, MemoryError>)
        ensures
            final(self)@ == old(self)@.logged(
                crate::provider::plain_call("portability.export_page"@),
            ),
            r is Ok,
            crate::rows::row_views(r->Ok_0@) == by_id(old(self)@.entries),
    {
        self.record(Call::plain("portability.export_page"));
        let rows = copy_rows(&self.entries);
        Ok(sort_entries(rows))
    }

    /// Imports the records that decode, and reports those that do not.
    pub fn import_records(&mut self, records: Vec<ImportRecord>) -> (r: Result<
        ImportOutcome,
        MemoryError,
    >)
        ensures
            final(self)@ == (crate::provider::ProviderView {
                entries: with_imported(old(self)@.entries, records@),
                ..old(self)@.logged(
                    crate::provider::tainted_call(
                        "portability.import_records"@,
                        None,
                        if records@.len() > 0 {
                            Some(records@[0].record.taint)
                        } else {
                            None
                        },
                    ),
                )
            }),
            r is Ok,
            crate::text::texts(r->Ok_0.errors@) == import_errors(records@),
            r->Ok_0.failed == import_errors(records@).len(),
            r->Ok_0.imported + r->Ok_0.failed == records@.len(),
            old(self)@.wf() ==> final(self)@.wf(),
    {
        proof {
            if old(self)@.wf() {
                crate::provider::laws::lemma_import_stays_keyed(old(self)@.entries, records@);
            }
        }
        let taint: Option<MemoryTaint> = if records.len() > 0 {
            Some(records[0].record.taint)
        } else {
            None
        };
        self.record(
            Call {
                method: "portability.import_records".to_owned(),
                content: None,
                taint,
                scoped: None,
            },
        );
        let ghost before = self@;
        let mut imported: u64 = 0;
        let mut failed: u64 = 0;
        let mut errors: Vec<String> = Vec::new();
        let mut i: usize = 0;
        assert(records@.take(0) =~= Seq::empty());
        assert(crate::text::texts(errors@) =~= Seq::empty());
        while i < records.len()
            invariant
                i <= records.len(),
                imported + failed == i,
                failed == errors@.len(),
                crate::text::texts(errors@) == import_errors(records@.take(i as int)),
                self@ == (crate::provider::ProviderView {
                    entries: with_imported(before.entries, records@.take(i as int)),
                    ..before
                }),
            decreases records.len() - i,
        {
            assert(records@.take(i as int + 1).drop_last() =~= records@.take(i as int));
            match &records[i].decoded {
                Some(decoded) => {
                    let entry = new_entry(
                        decoded.namespace.as_str(),
                        decoded.key.as_str(),
                        decoded.content.as_str(),
                        decoded.category.copied(),
                        crate::text::copy_opt(&decoded.session_id),
                        records[i].record.taint,
                    );
                    self.keep_entry(decoded.namespace.as_str(), decoded.key.as_str(), entry);
                    imported = imported + 1;
                },
                None => {
                    let error = joined3(
                        "record ",
                        records[i].record.id.as_str(),
                        " lacks a namespace or key",
                    );
                    proof {
                        crate::text::lemma_texts_push(errors@, error);
                    }
                    errors.push(error);
                    failed = failed + 1;
                },
            }
            i = i + 1;
        }
        assert(records@.take(i as int) =~= records@);
        Ok(ImportOutcome { imported, failed, errors })
    }
}

/// A record of an entry, for tests of imports.
pub fn export_record(taint: MemoryTaint) -> (r: ExportRecord)
    ensures
        r@ == (crate::provider::types::RecordView {
            kind: "entry"@,
            id: "r1"@,
            namespace: Some("ns"@),
            taint,
            payload: "null"@,
        }),
{
    ExportRecord {
        kind: "entry".to_owned(),
        id: "r1".to_owned(),
        namespace: Some("ns".to_owned()),
        taint,
        payload: "null".to_owned(),
    }
}

/// An entry with some content, for tests.
pub fn entry(content: &str) -> (r: MemoryEntry)
    ensures
        r@ == (crate::provider::types::EntryView {
            id: "id"@,
            key: "key"@,
            content: content@,
            namespace: Some("ns"@),
            category: crate::provider::types::CategoryView::Core,
            timestamp: "2026-01-01T00:00:00Z"@,
            session_id: None,
            score: None,
            taint: MemoryTaint::Internal,
        }),
{
    MemoryEntry {
        id: "id".to_owned(),
        key: "key".to_owned(),
        content: content.to_owned(),
        namespace: Some("ns".to_owned()),
        category: MemoryCategory::Core,
        timestamp: "2026-01-01T00:00:00Z".to_owned(),
        session_id: None,
        score: None,
        taint: MemoryTaint::Internal,
    }
}

/// A summary saying how many entries a namespace holds, for tests.
pub fn namespace_summary(namespace: &str, count: usize) -> (r: NamespaceSummary)
    ensures
        r@ == (crate::provider::types::SummaryView {
            namespace: namespace@,
            count,
            last_updated: None,
        }),
{
    NamespaceSummary { namespace: namespace.to_owned(), count, last_updated: None }
}

} // verus!
