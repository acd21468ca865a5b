//! What holds of the recording provider's operations together.

use vstd::prelude::*;

use crate::documents::MemoryTaint;
use crate::provider::types::SourceScope;

verus! {

/// Whether two entries are under the same namespace and key.
pub open spec fn same_entry() -> spec_fn(
    crate::provider::types::EntryView,
    crate::provider::types::EntryView,
) -> bool {
    |a: crate::provider::types::EntryView, b: crate::provider::types::EntryView|
        a.namespace == b.namespace && a.key == b.key
}

/// Whether two documents are under the same namespace and key.
pub open spec fn same_document() -> spec_fn(
    crate::documents::read::StoredView,
    crate::documents::read::StoredView,
) -> bool {
    |a: crate::documents::read::StoredView, b: crate::documents::read::StoredView|
        a.namespace == b.namespace && a.key == b.key
}

/// Whether two key-value rows are under the same namespace, or none, and key.
pub open spec fn same_kv() -> spec_fn(
    crate::provider::types::KvRecordView,
    crate::provider::types::KvRecordView,
) -> bool {
    |a: crate::provider::types::KvRecordView, b: crate::provider::types::KvRecordView|
        a.namespace == b.namespace && a.key == b.key
}

/// Whether two relations assert the same.
pub open spec fn same_relation() -> spec_fn(
    crate::provider::types::RelationView,
    crate::provider::types::RelationView,
) -> bool {
    |a: crate::provider::types::RelationView, b: crate::provider::types::RelationView|
        crate::provider::graph::is_same_relation(a, b)
}

/// Whether two tool rules have the same id.
pub open spec fn same_rule() -> spec_fn(
    crate::provider::types::RuleView,
    crate::provider::types::RuleView,
) -> bool {
    |a: crate::provider::types::RuleView, b: crate::provider::types::RuleView| a.id == b.id
}

impl crate::provider::ProviderView {
    /// What every provider keeps: no table holds two rows with the same key.
    pub open spec fn wf(self) -> bool {
        &&& crate::rows::all_apart(self.entries, same_entry())
        &&& crate::rows::all_apart(self.documents, same_document())
        &&& crate::rows::all_apart(self.kv, same_kv())
        &&& crate::rows::all_apart(self.relations, same_relation())
        &&& crate::rows::all_apart(self.tool_rules, same_rule())
    }
}

/// A provider that has been handed nothing keeps its tables keyed.
pub proof fn law_empty_provider_is_keyed()
    ensures
        crate::provider::ProviderView::empty().wf(),
{
}

/// What is stored comes back, with its content, its session and its provenance as they
/// were given; what every other namespace and key holds stays; and a stored key is held
/// once.
pub proof fn law_store_then_get(
    provider: crate::provider::ProviderView,
    namespace: Seq<char>,
    key: Seq<char>,
    content: Seq<char>,
    category: crate::provider::types::CategoryView,
    session_id: Option<Seq<char>>,
    taint: MemoryTaint,
    other_namespace: Seq<char>,
    other_key: Seq<char>,
)
    requires
        provider.wf(),
        other_namespace != namespace || other_key != key,
    ensures
        ({
            let entry = crate::provider::entries::stored_entry(
                namespace,
                key,
                content,
                category,
                session_id,
                taint,
            );
            let after = crate::provider::entries::with_entry(provider.entries, entry);
            let at = crate::provider::entries::entry_at(after, namespace, key);
            let was = crate::provider::entries::entry_at(
                provider.entries,
                other_namespace,
                other_key,
            );
            let is = crate::provider::entries::entry_at(after, other_namespace, other_key);
            &&& crate::rows::all_apart(after, same_entry())
            &&& 0 <= at < after.len()
            &&& after[at] == entry
            &&& after[at].content == content
            &&& after[at].taint == taint
            &&& after[at].session_id == session_id
            &&& after[at].category == category
            &&& was < provider.entries.len() <==> is < after.len()
            &&& was < provider.entries.len() ==> after[is] == provider.entries[was]
        }),
{
    let entry = crate::provider::entries::stored_entry(
        namespace,
        key,
        content,
        category,
        session_id,
        taint,
    );
    let by_key = |e: crate::provider::types::EntryView|
        crate::provider::entries::is_entry(e, namespace, key);
    let by_same = |e: crate::provider::types::EntryView| same_entry()(e, entry);
    assert(by_key =~= by_same);
    let other = |e: crate::provider::types::EntryView|
        crate::provider::entries::is_entry(e, other_namespace, other_key);
    crate::rows::lemma_upserted(provider.entries, same_entry(), entry);
    crate::rows::lemma_upserted_others(provider.entries, same_entry(), entry, other);
}

/// A forgotten entry is gone, forgetting it again finds nothing, and what every other
/// namespace and key holds stays.
pub proof fn law_forget_removes(
    provider: crate::provider::ProviderView,
    namespace: Seq<char>,
    key: Seq<char>,
    other_namespace: Seq<char>,
    other_key: Seq<char>,
)
    requires
        provider.wf(),
        other_namespace != namespace || other_key != key,
        crate::provider::entries::entry_at(provider.entries, namespace, key)
            < provider.entries.len(),
    ensures
        ({
            let after = provider.entries.remove(
                crate::provider::entries::entry_at(provider.entries, namespace, key),
            );
            let was = crate::provider::entries::entry_at(
                provider.entries,
                other_namespace,
                other_key,
            );
            let is = crate::provider::entries::entry_at(after, other_namespace, other_key);
            &&& crate::rows::all_apart(after, same_entry())
            &&& crate::provider::entries::entry_at(after, namespace, key) == after.len()
            &&& was < provider.entries.len() <==> is < after.len()
            &&& was < provider.entries.len() ==> after[is] == provider.entries[was]
        }),
{
    crate::rows::lemma_removed(
        provider.entries,
        same_entry(),
        |e: crate::provider::types::EntryView|
            crate::provider::entries::is_entry(e, namespace, key),
        |e: crate::provider::types::EntryView|
            crate::provider::entries::is_entry(e, other_namespace, other_key),
    );
}

/// Whether a record is imported under a namespace and key.
pub open spec fn is_imported_under(
    record: crate::provider::types::ImportRecord,
    namespace: Seq<char>,
    key: Seq<char>,
) -> bool {
    record.decoded is Some && record.decoded->0.namespace@ == namespace && record.decoded->0.key@
        == key
}

/// An import keeps the tables keyed, and keeps the provenance of what it takes in: every
/// record that no later one replaces is held, with its content and the record's own taint.
pub proof fn law_import_keeps_provenance(
    entries: Seq<crate::provider::types::EntryView>,
    records: Seq<crate::provider::types::ImportRecord>,
    which: int,
)
    requires
        crate::rows::all_apart(entries, same_entry()),
        0 <= which < records.len(),
        records[which].decoded is Some,
        forall|j: int|
            which < j < records.len() ==> !is_imported_under(
                #[trigger] records[j],
                records[which].decoded->0.namespace@,
                records[which].decoded->0.key@,
            ),
    ensures
        ({
            let after = crate::provider::entries::with_imported(entries, records);
            let decoded = records[which].decoded->0;
            let at = crate::provider::entries::entry_at(
                after,
                decoded.namespace@,
                decoded.key@,
            );
            &&& crate::rows::all_apart(after, same_entry())
            &&& 0 <= at < after.len()
            &&& after[at] == crate::provider::entries::imported_entry(records[which])
            &&& after[at].taint == records[which].record.taint
            &&& after[at].content == decoded.content@
        }),
    decreases records.len(),
{
    let fewer = records.drop_last();
    let before = crate::provider::entries::with_imported(entries, fewer);
    let after = crate::provider::entries::with_imported(entries, records);
    let namespace = records[which].decoded->0.namespace@;
    let key = records[which].decoded->0.key@;
    lemma_import_stays_keyed(entries, records);
    lemma_import_stays_keyed(entries, fewer);
    let wanted = |e: crate::provider::types::EntryView|
        crate::provider::entries::is_entry(e, namespace, key);
    if which < fewer.len() {
        assert forall|j: int| which < j < fewer.len() implies !is_imported_under(
            #[trigger] fewer[j],
            namespace,
            key,
        ) by {
            assert(fewer[j] == records[j]);
        }
        assert(fewer[which] == records[which]);
        law_import_keeps_provenance(entries, fewer, which);
        crate::rows::lemma_first_where(after, wanted);
        assert(!is_imported_under(records[records.len() - 1], namespace, key));
        if records.last().decoded is Some {
            let entry = crate::provider::entries::imported_entry(records.last());
            lemma_with_entry_upserts(before, entry);
            crate::rows::lemma_upserted_others(before, same_entry(), entry, wanted);
        }
    } else {
        let entry = crate::provider::entries::imported_entry(records.last());
        lemma_with_entry_upserts(before, entry);
        crate::rows::lemma_upserted(before, same_entry(), entry);
        let by_same = |e: crate::provider::types::EntryView| same_entry()(e, entry);
        assert(wanted =~= by_same);
    }
}

/// Keeping an entry keeps the entries keyed.
pub(crate) proof fn lemma_with_entry_stays_keyed(
    entries: Seq<crate::provider::types::EntryView>,
    entry: crate::provider::types::EntryView,
)
    requires
        entry.namespace is Some,
        crate::rows::all_apart(entries, same_entry()),
    ensures
        crate::rows::all_apart(
            crate::provider::entries::with_entry(entries, entry),
            same_entry(),
        ),
{
    lemma_with_entry_upserts(entries, entry);
    crate::rows::lemma_upserted(entries, same_entry(), entry);
}

/// Keeping an entry puts it in place of the one with its key.
proof fn lemma_with_entry_upserts(
    entries: Seq<crate::provider::types::EntryView>,
    entry: crate::provider::types::EntryView,
)
    requires
        entry.namespace is Some,
    ensures
        crate::provider::entries::with_entry(entries, entry) == crate::rows::upserted(
            entries,
            same_entry(),
            entry,
        ),
{
    let by_key = |e: crate::provider::types::EntryView|
        crate::provider::entries::is_entry(e, entry.namespace->0, entry.key);
    let by_same = |e: crate::provider::types::EntryView| same_entry()(e, entry);
    assert(by_key =~= by_same);
}

/// Importing keeps the entries keyed.
pub(crate) proof fn lemma_import_stays_keyed(
    entries: Seq<crate::provider::types::EntryView>,
    records: Seq<crate::provider::types::ImportRecord>,
)
    requires
        crate::rows::all_apart(entries, same_entry()),
    ensures
        crate::rows::all_apart(
            crate::provider::entries::with_imported(entries, records),
            same_entry(),
        ),
    decreases records.len(),
{
    if records.len() > 0 {
        let before = crate::provider::entries::with_imported(entries, records.drop_last());
        lemma_import_stays_keyed(entries, records.drop_last());
        if records.last().decoded is Some {
            let entry = crate::provider::entries::imported_entry(records.last());
            lemma_with_entry_upserts(before, entry);
            crate::rows::lemma_upserted(before, same_entry(), entry);
        }
    }
}

/// The namespaces of the entries are listed in ascending order, each once, and they are
/// exactly those that an entry is in.
pub proof fn law_entry_namespaces_are_listed_once(
    entries: Seq<crate::provider::types::EntryView>,
)
    ensures
        crate::text::ascending(crate::provider::entries::entry_namespaces(entries)),
        forall|n: Seq<char>|
            #[trigger] crate::provider::entries::entry_namespaces(entries).contains(n)
                <==> exists|i: int|
                0 <= i < entries.len() && (#[trigger] entries[i]).namespace == Some(n),
    decreases entries.len(),
{
    if entries.len() > 0 {
        let before = entries.drop_last();
        let last = entries.last().namespace;
        law_entry_namespaces_are_listed_once(before);
        let was = crate::provider::entries::entry_namespaces(before);
        let now = crate::provider::entries::entry_namespaces(entries);
        if last is Some {
            crate::text::lemma_placed(was, last->0);
        }
        assert forall|n: Seq<char>| #[trigger]
            now.contains(n) <==> exists|i: int|
                0 <= i < entries.len() && (#[trigger] entries[i]).namespace == Some(n) by {
            assert(now.contains(n) <==> was.contains(n) || last == Some(n));
            if was.contains(n) {
                let i = choose|i: int| 0 <= i < before.len() && (#[trigger] before[i]).namespace
                    == Some(n);
                assert(entries[i].namespace == Some(n));
            }
            if last == Some(n) {
                assert(entries[entries.len() - 1].namespace == Some(n));
            }
            if exists|i: int|
                0 <= i < entries.len() && (#[trigger] entries[i]).namespace == Some(n) {
                let i = choose|i: int|
                    0 <= i < entries.len() && (#[trigger] entries[i]).namespace == Some(n);
                if i < before.len() {
                    assert(before[i].namespace == Some(n));
                }
            }
        }
    }
}

proof fn lemma_matches_contain(
    entries: Seq<crate::provider::types::EntryView>,
    contents: Seq<Seq<char>>,
    needle: Seq<char>,
    opts: crate::provider::entries::OptsView,
    at: int,
)
    requires
        contents.len() == entries.len(),
        0 <= at < entries.len(),
        crate::provider::entries::is_listed(
            entries[at],
            opts.namespace,
            opts.category,
            opts.session_id,
        ),
        crate::text::has_infix(contents[at], needle),
    ensures
        crate::provider::entries::matches(entries, contents, needle, opts).contains(entries[at]),
        crate::provider::entries::matches(entries, contents, needle, opts).len() <= entries.len(),
    decreases entries.len(),
{
    lemma_matches_len(entries, contents, needle, opts);
    let before = entries.drop_last();
    let all = crate::provider::entries::matches(entries, contents, needle, opts);
    if at < before.len() {
        assert(before[at] == entries[at]);
        assert(contents.drop_last()[at] == contents[at]);
        lemma_matches_contain(before, contents.drop_last(), needle, opts, at);
        let fewer = crate::provider::entries::matches(before, contents.drop_last(), needle, opts);
        let k = choose|k: int| 0 <= k < fewer.len() && fewer[k] == entries[at];
        assert(all[k] == entries[at]);
    } else {
        assert(all.last() == entries[at]);
    }
}

proof fn lemma_matches_len(
    entries: Seq<crate::provider::types::EntryView>,
    contents: Seq<Seq<char>>,
    needle: Seq<char>,
    opts: crate::provider::entries::OptsView,
)
    ensures
        crate::provider::entries::matches(entries, contents, needle, opts).len() <= entries.len(),
    decreases entries.len(),
{
    if entries.len() > 0 {
        lemma_matches_len(entries.drop_last(), contents.drop_last(), needle, opts);
    }
}

/// What is held is recalled by its own content, whatever the case of its letters, as long
/// as no other answer is set, the scope allows something, the recall is not narrowed away
/// from it, and the limit leaves room.
pub proof fn law_held_entries_are_recalled(
    provider: crate::provider::ProviderView,
    at: int,
    limit: usize,
    opts: crate::provider::entries::OptsView,
    scope: Option<SourceScope>,
)
    requires
        0 <= at < provider.entries.len() <= limit,
        provider.recall_result.len() == 0,
        scope is Some ==> scope->0.allow@.len() > 0,
        crate::provider::entries::is_listed(
            provider.entries[at],
            opts.namespace,
            opts.category,
            opts.session_id,
        ),
    ensures
        crate::provider::entries::recalled(
            provider,
            crate::provider::entries::lowered_contents(provider.entries),
            crate::outside::lowered(provider.entries[at].content),
            limit,
            opts,
            scope,
        ).contains(provider.entries[at]),
{
    let contents = crate::provider::entries::lowered_contents(provider.entries);
    let needle = crate::outside::lowered(provider.entries[at].content);
    assert(contents[at] == needle);
    let from = 0int;
    assert(contents[at].subrange(from, from + needle.len()) =~= needle);
    lemma_matches_contain(provider.entries, contents, needle, opts, at);
    let hits = crate::provider::entries::matches(provider.entries, contents, needle, opts);
    crate::rows::lemma_sorted_contains(
        hits,
        crate::provider::entries::by_entry_id(),
        provider.entries[at],
    );
    crate::rows::lemma_sorted_len(hits, crate::provider::entries::by_entry_id());
}

/// A scope that allows nothing recalls nothing, unless another answer is set.
pub proof fn law_empty_scope_recalls_nothing(
    provider: crate::provider::ProviderView,
    contents: Seq<Seq<char>>,
    needle: Seq<char>,
    limit: usize,
    opts: crate::provider::entries::OptsView,
    scope: SourceScope,
)
    requires
        provider.recall_result.len() == 0,
        scope.allow@.len() == 0,
    ensures
        crate::provider::entries::recalled(
            provider,
            contents,
            needle,
            limit,
            opts,
            Some(scope),
        ).len() == 0,
{
}

/// A document that was put comes back with its content and provenance, in place of the one
/// that its key held; what every other namespace and key holds stays.
pub proof fn law_put_document_then_get(
    provider: crate::provider::ProviderView,
    input: crate::documents::write::InputView,
    now: i64,
    other_namespace: Seq<char>,
    other_key: Seq<char>,
)
    requires
        provider.wf(),
        other_namespace != input.namespace || other_key != input.key,
    ensures
        ({
            let after = crate::provider::documents::after_put(provider, input, now);
            let at = crate::provider::documents::document_at(
                after.documents,
                input.namespace,
                input.key,
            );
            let was = crate::provider::documents::document_at(
                provider.documents,
                other_namespace,
                other_key,
            );
            let is = crate::provider::documents::document_at(
                after.documents,
                other_namespace,
                other_key,
            );
            &&& after.wf()
            &&& 0 <= at < after.documents.len()
            &&& after.documents[at] == crate::provider::documents::kept_document(input, now)
            &&& after.documents[at].content == input.content
            &&& after.documents[at].taint == input.taint
            &&& was < provider.documents.len() <==> is < after.documents.len()
            &&& was < provider.documents.len() ==> after.documents[is] == provider.documents[was]
        }),
{
    let document = crate::provider::documents::kept_document(input, now);
    let by_key = |d: crate::documents::read::StoredView|
        crate::provider::documents::is_document(d, input.namespace, input.key);
    let by_same = |d: crate::documents::read::StoredView| same_document()(d, document);
    assert(by_key =~= by_same);
    let other = |d: crate::documents::read::StoredView|
        crate::provider::documents::is_document(d, other_namespace, other_key);
    crate::rows::lemma_upserted(provider.documents, same_document(), document);
    crate::rows::lemma_upserted_others(provider.documents, same_document(), document, other);
}

/// Deleting a document leaves the documents keyed.
pub proof fn law_deleted_documents_stay_keyed(
    provider: crate::provider::ProviderView,
    at: int,
)
    requires
        provider.wf(),
        0 <= at < provider.documents.len(),
    ensures
        crate::rows::all_apart(provider.documents.remove(at), same_document()),
{
    crate::rows::lemma_removed_stays_apart(provider.documents, same_document(), at);
}

/// Clearing a namespace leaves none of its documents and no fewer of any other.
pub proof fn law_cleared_namespace_is_empty(
    documents: Seq<crate::documents::read::StoredView>,
    namespace: Seq<char>,
    other: Seq<char>,
)
    requires
        other != namespace,
    ensures
        ({
            let after = documents.filter(
                |d: crate::documents::read::StoredView| d.namespace != namespace,
            );
            &&& crate::provider::documents::documents_in(after, Some(namespace)).len() == 0
            &&& crate::provider::documents::documents_in(after, Some(other))
                == crate::provider::documents::documents_in(documents, Some(other))
        }),
    decreases documents.len(),
{
    reveal(Seq::filter);
    let keep = |d: crate::documents::read::StoredView| d.namespace != namespace;
    let scope = Some(namespace);
    let elsewhere = Some(other);
    let own = |d: crate::documents::read::StoredView| scope is Some ==> d.namespace == scope->0;
    let theirs = |d: crate::documents::read::StoredView|
        elsewhere is Some ==> d.namespace == elsewhere->0;
    if documents.len() > 0 {
        let before = documents.drop_last();
        law_cleared_namespace_is_empty(before, namespace, other);
        let kept = before.filter(keep);
        let last = documents.last();
        if keep(last) {
            assert(kept.push(last).drop_last() =~= kept);
        }
    }
}

/// A key-value row that was put comes back, a deleted one does not, and what every other
/// namespace and key holds stays.
pub proof fn law_kv_rows_come_back(
    provider: crate::provider::ProviderView,
    row: crate::provider::types::KvRecordView,
    other_namespace: Option<Seq<char>>,
    other_key: Seq<char>,
)
    requires
        provider.wf(),
        other_namespace != row.namespace || other_key != row.key,
    ensures
        ({
            let after = crate::provider::graph::with_kv(provider.kv, row);
            let at = crate::provider::graph::kv_at(after, row.namespace, row.key);
            let was = crate::provider::graph::kv_at(provider.kv, other_namespace, other_key);
            let is = crate::provider::graph::kv_at(after, other_namespace, other_key);
            let gone = after.remove(at);
            &&& crate::rows::all_apart(after, same_kv())
            &&& 0 <= at < after.len()
            &&& after[at] == row
            &&& was < provider.kv.len() <==> is < after.len()
            &&& was < provider.kv.len() ==> after[is] == provider.kv[was]
            &&& crate::rows::all_apart(gone, same_kv())
            &&& crate::provider::graph::kv_at(gone, row.namespace, row.key) == gone.len()
        }),
{
    let meets = |r: crate::provider::types::KvRecordView|
        crate::provider::graph::is_kv(r, row.namespace, row.key);
    let by_same = |r: crate::provider::types::KvRecordView| same_kv()(r, row);
    assert(meets =~= by_same);
    let other = |r: crate::provider::types::KvRecordView|
        crate::provider::graph::is_kv(r, other_namespace, other_key);
    crate::rows::lemma_upserted(provider.kv, same_kv(), row);
    crate::rows::lemma_upserted_others(provider.kv, same_kv(), row, other);
    let after = crate::provider::graph::with_kv(provider.kv, row);
    crate::rows::lemma_removed(after, same_kv(), meets, other);
}

/// A relation that was put is held once, with the evidence that it was put with.
pub proof fn law_relations_are_upserted(
    provider: crate::provider::ProviderView,
    relation: crate::provider::types::RelationView,
)
    requires
        provider.wf(),
    ensures
        ({
            let after = crate::provider::graph::with_relation(provider.relations, relation);
            &&& crate::rows::all_apart(after, same_relation())
            &&& after.contains(relation)
        }),
{
    let meets = |r: crate::provider::types::RelationView|
        crate::provider::graph::is_same_relation(r, relation);
    let by_same = |r: crate::provider::types::RelationView| same_relation()(r, relation);
    assert(meets =~= by_same);
    crate::rows::lemma_upserted(provider.relations, same_relation(), relation);
    let after = crate::provider::graph::with_relation(provider.relations, relation);
    let at = crate::rows::first_where(after, by_same);
    assert(after[at] == relation);
}

/// A tool rule that was put is found under its id and is held once. Deleting it under
/// another tool's name misses it.
pub proof fn law_tool_rules_are_upserted(
    provider: crate::provider::ProviderView,
    rule: crate::provider::types::RuleView,
    tool_name: Seq<char>,
)
    requires
        provider.wf(),
        tool_name != rule.tool_name,
    ensures
        ({
            let after = crate::rows::put_at(
                provider.tool_rules,
                crate::provider::graph::rule_at(provider.tool_rules, rule.id),
                rule,
            );
            let at = crate::provider::graph::rule_at(after, rule.id);
            &&& crate::rows::all_apart(after, same_rule())
            &&& 0 <= at < after.len()
            &&& after[at] == rule
            &&& !(after[at].tool_name == tool_name)
        }),
{
    let meets = |r: crate::provider::types::RuleView| r.id == rule.id;
    let by_same = |r: crate::provider::types::RuleView| same_rule()(r, rule);
    assert(meets =~= by_same);
    crate::rows::lemma_upserted(provider.tool_rules, same_rule(), rule);
}

/// The order of a listing compares any two documents, and is transitive.
proof fn lemma_listing_order()
    ensures
        crate::rows::is_order(crate::provider::documents::listing_order()),
{
    let order = crate::provider::documents::listing_order();
    assert forall|a: crate::documents::read::StoredView, b: crate::documents::read::StoredView|
        #[trigger] order(a, b) || order(b, a) by {
        crate::text::lemma_text_le_total(a.key, b.key);
    }
    assert forall|
        a: crate::documents::read::StoredView,
        b: crate::documents::read::StoredView,
        c: crate::documents::read::StoredView,
    | #[trigger] order(a, b) && #[trigger] order(b, c) implies order(a, c) by {
        if a.updated_at == b.updated_at && b.updated_at == c.updated_at {
            crate::text::lemma_text_le_transitive(a.key, b.key, c.key);
        }
    }
}

/// The order of a recall compares any two documents, and is transitive.
proof fn lemma_recall_order()
    ensures
        crate::rows::is_order(crate::provider::documents::recall_order()),
{
    let order = crate::provider::documents::recall_order();
    assert forall|a: crate::documents::read::StoredView, b: crate::documents::read::StoredView|
        #[trigger] order(a, b) || order(b, a) by {
        crate::text::lemma_text_le_total(a.key, b.key);
        crate::text::lemma_text_le_total(a.priority, b.priority);
    }
    assert forall|
        a: crate::documents::read::StoredView,
        b: crate::documents::read::StoredView,
        c: crate::documents::read::StoredView,
    | #[trigger] order(a, b) && #[trigger] order(b, c) implies order(a, c) by {
        if a.updated_at == b.updated_at && b.updated_at == c.updated_at {
            if a.priority == b.priority && b.priority == c.priority {
                crate::text::lemma_text_le_transitive(a.key, b.key, c.key);
            } else if a.priority != b.priority && b.priority != c.priority {
                crate::text::lemma_text_le_transitive(a.priority, b.priority, c.priority);
                if a.priority == c.priority {
                    crate::text::lemma_text_le_antisymmetric(a.priority, b.priority);
                }
            }
        }
    }
}

/// Listings and recalls of documents come with the newest first; they neither add nor lose
/// a document, and the count of a listing is how many documents it lists.
pub proof fn law_documents_come_newest_first(documents: Seq<crate::documents::read::StoredView>)
    ensures
        ({
            let listed = crate::rows::sorted_by(
                documents,
                crate::provider::documents::listing_order(),
            );
            let recalled = crate::rows::sorted_by(
                documents,
                crate::provider::documents::recall_order(),
            );
            &&& listed.len() == documents.len()
            &&& listed.to_multiset() == documents.to_multiset()
            &&& recalled.to_multiset() == documents.to_multiset()
            &&& forall|i: int, j: int|
                0 <= i < j < documents.len() ==> (#[trigger] listed[i]).updated_at >= (
                #[trigger] listed[j]).updated_at
            &&& forall|i: int, j: int|
                0 <= i < j < documents.len() ==> (#[trigger] recalled[i]).updated_at >= (
                #[trigger] recalled[j]).updated_at
        }),
{
    let by_listing = crate::provider::documents::listing_order();
    let by_recall = crate::provider::documents::recall_order();
    lemma_listing_order();
    lemma_recall_order();
    crate::rows::lemma_sorted_by(documents, by_listing);
    crate::rows::lemma_sorted_by(documents, by_recall);
    let listed = crate::rows::sorted_by(documents, by_listing);
    let recalled = crate::rows::sorted_by(documents, by_recall);
    assert forall|i: int, j: int| 0 <= i < j < documents.len() implies (
    #[trigger] listed[i]).updated_at >= (#[trigger] listed[j]).updated_at by {
        assert(by_listing(listed[i], listed[j]));
    }
    assert forall|i: int, j: int| 0 <= i < j < documents.len() implies (
    #[trigger] recalled[i]).updated_at >= (#[trigger] recalled[j]).updated_at by {
        assert(by_recall(recalled[i], recalled[j]));
    }
}

/// Entries come sorted by id; sorting neither adds nor loses one.
pub proof fn law_entries_come_by_id(entries: Seq<crate::provider::types::EntryView>)
    ensures
        ({
            let sorted = crate::provider::entries::by_id(entries);
            &&& sorted.to_multiset() == entries.to_multiset()
            &&& forall|i: int, j: int|
                0 <= i < j < entries.len() ==> crate::text::text_le(
                    (#[trigger] sorted[i]).id,
                    (#[trigger] sorted[j]).id,
                )
        }),
{
    let order = crate::provider::entries::by_entry_id();
    assert(crate::rows::is_order(order)) by {
        assert forall|a: crate::provider::types::EntryView, b: crate::provider::types::EntryView|
            #[trigger] order(a, b) || order(b, a) by {
            crate::text::lemma_text_le_total(a.id, b.id);
        }
        assert forall|
            a: crate::provider::types::EntryView,
            b: crate::provider::types::EntryView,
            c: crate::provider::types::EntryView,
        | #[trigger] order(a, b) && #[trigger] order(b, c) implies order(a, c) by {
            crate::text::lemma_text_le_transitive(a.id, b.id, c.id);
        }
    }
    crate::rows::lemma_sorted_by(entries, order);
    let sorted = crate::provider::entries::by_id(entries);
    assert forall|i: int, j: int| 0 <= i < j < entries.len() implies crate::text::text_le(
        (#[trigger] sorted[i]).id,
        (#[trigger] sorted[j]).id,
    ) by {
        assert(order(sorted[i], sorted[j]));
    }
}

} // verus!
