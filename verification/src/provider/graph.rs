//! Key-value rows, relations, goals, tool rules, source items and retrieval.

use vstd::prelude::*;

use crate::documents::MemoryTaint;
use crate::provider::answers::{
    CoverWindowQuery, EntityMatch, FastRetrieveQuery, SourceItem, SourceRetrievalQuery,
};
use crate::provider::scope::scoped_call;
use crate::provider::RecordingProvider;
use crate::provider::types::{
    Call, GoalsDoc, GraphRelationRecord, IngestOutcome, MemoryError, MemoryKvRecord,
    NamespaceMemoryHit, RetrievalHit, RetrievalResponse, SourceScope, ToolMemoryRule,
};
use crate::rows::{find_row, pick_rows, put_row, sort_rows, Row};
use crate::text::{
    comes_no_later, decimal_text, has_prefix, joined2, joined4, same_text,
};

verus! {

/// Whether two optional strings hold the same text.
fn same_opt(a: &Option<String>, b: &Option<String>) -> (r: bool)
    ensures
        r == (crate::text::opt_text(*a) == crate::text::opt_text(*b)),
{
    match (a, b) {
        (Some(a), Some(b)) => same_text(a.as_str(), b.as_str()),
        (None, None) => true,
        _ => false,
    }
}

fn own_opt(text: Option<&str>) -> (r: Option<String>)
    ensures
        crate::text::opt_text(r) == crate::documents::scope::opt_str(text),
{
    match text {
        Some(text) => Some(text.to_owned()),
        None => None,
    }
}

/// Whether a key-value row is the one under a namespace, or none, and a key.
pub open spec fn is_kv(
    row: crate::provider::types::KvRecordView,
    namespace: Option<Seq<char>>,
    key: Seq<char>,
) -> bool {
    row.namespace == namespace && row.key == key
}

/// The position of the key-value row under a namespace, or none, and a key.
pub open spec fn kv_at(
    kv: Seq<crate::provider::types::KvRecordView>,
    namespace: Option<Seq<char>>,
    key: Seq<char>,
) -> int {
    crate::rows::first_where(
        kv,
        |row: crate::provider::types::KvRecordView| is_kv(row, namespace, key),
    )
}

/// The key-value rows with one more, in place of the one under its namespace and key.
pub open spec fn with_kv(
    kv: Seq<crate::provider::types::KvRecordView>,
    row: crate::provider::types::KvRecordView,
) -> Seq<crate::provider::types::KvRecordView> {
    crate::rows::put_at(kv, kv_at(kv, row.namespace, row.key), row)
}

/// The order of key-value rows: by key.
pub open spec fn kv_order() -> spec_fn(
    crate::provider::types::KvRecordView,
    crate::provider::types::KvRecordView,
) -> bool {
    |a: crate::provider::types::KvRecordView, b: crate::provider::types::KvRecordView|
        crate::text::text_le(a.key, b.key)
}

/// Whether a key-value row is under a namespace, or none, with a key that starts in a
/// given way.
pub open spec fn is_kv_listed(
    row: crate::provider::types::KvRecordView,
    namespace: Option<Seq<char>>,
    prefix: Option<Seq<char>>,
) -> bool {
    row.namespace == namespace && (prefix is Some ==> prefix->0.is_prefix_of(row.key))
}

/// Whether two relations assert the same in the same namespace.
pub open spec fn is_same_relation(
    a: crate::provider::types::RelationView,
    b: crate::provider::types::RelationView,
) -> bool {
    a.namespace == b.namespace && a.subject == b.subject && a.predicate == b.predicate && a.object
        == b.object
}

/// The relations with one more, in place of the one that asserts the same.
pub open spec fn with_relation(
    relations: Seq<crate::provider::types::RelationView>,
    relation: crate::provider::types::RelationView,
) -> Seq<crate::provider::types::RelationView> {
    crate::rows::put_at(
        relations,
        crate::rows::first_where(
            relations,
            |r: crate::provider::types::RelationView| is_same_relation(r, relation),
        ),
        relation,
    )
}

/// Whether a relation is of a namespace, a subject and a predicate, where these are given.
pub open spec fn is_relation_listed(
    r: crate::provider::types::RelationView,
    namespace: Option<Seq<char>>,
    subject: Option<Seq<char>>,
    predicate: Option<Seq<char>>,
) -> bool {
    &&& namespace is Some ==> r.namespace == namespace
    &&& subject is Some ==> r.subject == subject->0
    &&& predicate is Some ==> r.predicate == predicate->0
}

/// The order of relations: by subject, then by predicate, then by object.
pub open spec fn relation_order() -> spec_fn(
    crate::provider::types::RelationView,
    crate::provider::types::RelationView,
) -> bool {
    |a: crate::provider::types::RelationView, b: crate::provider::types::RelationView|
        if a.subject != b.subject {
            crate::text::text_le(a.subject, b.subject)
        } else if a.predicate != b.predicate {
            crate::text::text_le(a.predicate, b.predicate)
        } else {
            crate::text::text_le(a.object, b.object)
        }
}

/// The position of the tool rule with an id.
pub open spec fn rule_at(rules: Seq<crate::provider::types::RuleView>, id: Seq<char>) -> int {
    crate::rows::first_where(rules, |r: crate::provider::types::RuleView| r.id == id)
}

/// The order of tool rules: by id.
pub open spec fn rule_order() -> spec_fn(
    crate::provider::types::RuleView,
    crate::provider::types::RuleView,
) -> bool {
    |a: crate::provider::types::RuleView, b: crate::provider::types::RuleView|
        crate::text::text_le(a.id, b.id)
}

/// Whether a kind of entity can be asked for.
pub open spec fn is_known_kind(kind: Seq<char>) -> bool {
    ||| kind == "email"@
    ||| kind == "url"@
    ||| kind == "handle"@
    ||| kind == "hashtag"@
    ||| kind == "person"@
    ||| kind == "organization"@
    ||| kind == "location"@
    ||| kind == "event"@
    ||| kind == "product"@
    ||| kind == "datetime"@
    ||| kind == "technology"@
    ||| kind == "artifact"@
    ||| kind == "quantity"@
    ||| kind == "misc"@
    ||| kind == "topic"@
}

/// The position of the first kind that cannot be asked for.
pub open spec fn unknown_at(kinds: Seq<Seq<char>>) -> int {
    crate::rows::first_where(kinds, |kind: Seq<char>| !is_known_kind(kind))
}

/// The set hits of a namespace, at most so many.
pub open spec fn scored_hits(
    hits: Seq<crate::provider::types::HitView>,
    namespace: Seq<char>,
    limit: usize,
) -> Seq<crate::provider::types::HitView> {
    crate::rows::at_most(
        hits.filter(|hit: crate::provider::types::HitView| hit.namespace == namespace),
        limit,
    )
}

fn known_kind(kind: &str) -> (r: bool)
    ensures
        r == is_known_kind(kind@),
{
    same_text(kind, "email") || same_text(kind, "url") || same_text(kind, "handle") || same_text(
        kind,
        "hashtag",
    ) || same_text(kind, "person") || same_text(kind, "organization") || same_text(
        kind,
        "location",
    ) || same_text(kind, "event") || same_text(kind, "product") || same_text(kind, "datetime")
        || same_text(kind, "technology") || same_text(kind, "artifact") || same_text(
        kind,
        "quantity",
    ) || same_text(kind, "misc") || same_text(kind, "topic")
}

/// Key-value rows and relations.
impl RecordingProvider {
    fn find_kv(&self, namespace: &Option<String>, key: &str) -> (r: Option<usize>)
        ensures
            match r {
                Some(i) => i < self@.kv.len() && i == kv_at(
                    self@.kv,
                    crate::text::opt_text(*namespace),
                    key@,
                ),
                None => kv_at(self@.kv, crate::text::opt_text(*namespace), key@) == self@.kv.len(),
            },
    {
        let fits = |row: &MemoryKvRecord| -> (b: bool)
            ensures
                b == is_kv(row@, crate::text::opt_text(*namespace), key@),
        {
            same_opt(&row.namespace, namespace) && same_text(row.key.as_str(), key)
        };
        find_row(
            &self.kv,
            fits,
            Ghost(
                |row: crate::provider::types::KvRecordView|
                    is_kv(row, crate::text::opt_text(*namespace), key@),
            ),
        )
    }

    /// The row under a namespace, or none, and a key.
    pub fn kv_get(&mut self, namespace: Option<&str>, key: &str) -> (r: Result<
        Option<MemoryKvRecord>,
        MemoryError,
    >)
        ensures
            final(self)@ == old(self)@.logged(crate::provider::plain_call("graph.kv_get"@)),
            r is Ok,
            ({
                let kv = old(self)@.kv;
                let at = kv_at(kv, crate::documents::scope::opt_str(namespace), key@);
                match r->Ok_0 {
                    Some(row) => at < kv.len() && row@ == kv[at],
                    None => at == kv.len(),
                }
            }),
    {
        self.record(Call::plain("graph.kv_get"));
        let namespace = own_opt(namespace);
        match self.find_kv(&namespace, key) {
            Some(i) => Ok(Some(self.kv[i].copied())),
            None => Ok(None),
        }
    }

    /// Puts a value, given as JSON text, under a namespace, or none, and a key.
    pub fn kv_put(&mut self, namespace: Option<&str>, key: &str, value: String) -> (r: Result<
        (),
        MemoryError,
    >)
        ensures
            r is Ok,
            final(self)@ == (crate::provider::ProviderView {
                kv: with_kv(
                    old(self)@.kv,
                    (crate::provider::types::KvRecordView {
                        namespace: crate::documents::scope::opt_str(namespace),
                        key: key@,
                        value: value@,
                        updated_at: 0,
                    }),
                ),
                ..old(self)@.logged(crate::provider::content_call("graph.kv_put"@, value@))
            }),
            old(self)@.wf() ==> final(self)@.wf(),
    {
        proof {
            if old(self)@.wf() {
                let row = crate::provider::types::KvRecordView {
                    namespace: crate::documents::scope::opt_str(namespace),
                    key: key@,
                    value: value@,
                    updated_at: 0,
                };
                crate::rows::lemma_put_stays_apart(
                    self@.kv,
                    crate::provider::laws::same_kv(),
                    row,
                    |r: crate::provider::types::KvRecordView| is_kv(r, row.namespace, row.key),
                );
            }
        }
        self.record(Call::with_content("graph.kv_put", value.as_str()));
        let namespace = own_opt(namespace);
        let at = self.find_kv(&namespace, key);
        let row = MemoryKvRecord { namespace, key: key.to_owned(), value, updated_at: 0 };
        put_row(&mut self.kv, at, row);
        Ok(())
    }

    /// Deletes the row under a namespace, or none, and a key, and says whether there was
    /// one.
    pub fn kv_delete(&mut self, namespace: Option<&str>, key: &str) -> (r: Result<
        bool,
        MemoryError,
    >)
        ensures
            ({
                let kv = old(self)@.kv;
                let at = kv_at(kv, crate::documents::scope::opt_str(namespace), key@);
                &&& r == Ok::<bool, MemoryError>(at < kv.len())
                &&& final(self)@ == (crate::provider::ProviderView {
                    kv: if at < kv.len() {
                        kv.remove(at)
                    } else {
                        kv
                    },
                    ..old(self)@.logged(crate::provider::plain_call("graph.kv_delete"@))
                })
            }),
            old(self)@.wf() ==> final(self)@.wf(),
    {
        proof {
            if old(self)@.wf() {
                let under = crate::documents::scope::opt_str(namespace);
                let at = kv_at(self@.kv, under, key@);
                crate::rows::lemma_first_where(
                    self@.kv,
                    |r: crate::provider::types::KvRecordView| is_kv(r, under, key@),
                );
                if at < self@.kv.len() {
                    crate::rows::lemma_removed_stays_apart(self@.kv, crate::provider::laws::same_kv(), at);
                }
            }
        }
        self.record(Call::plain("graph.kv_delete"));
        let ghost before = self@.kv;
        let namespace = own_opt(namespace);
        match self.find_kv(&namespace, key) {
            Some(i) => {
                self.kv.remove(i);
                assert(self@.kv =~= before.remove(i as int));
                Ok(true)
            },
            None => Ok(false),
        }
    }

    /// The rows under a namespace, or none, whose keys start in a given way, by key, at
    /// most so many.
    pub fn kv_list(
        &mut self,
        namespace: Option<&str>,
        prefix: Option<&str>,
        limit: usize,
    ) -> (r: Result<Vec<MemoryKvRecord>, MemoryError>)
        ensures
            final(self)@ == old(self)@.logged(crate::provider::plain_call("graph.kv_list"@)),
            r is Ok,
            crate::rows::row_views(r->Ok_0@) == crate::rows::at_most(
                crate::rows::sorted_by(
                    old(self)@.kv.filter(
                        |row: crate::provider::types::KvRecordView|
                            is_kv_listed(
                                row,
                                crate::documents::scope::opt_str(namespace),
                                crate::documents::scope::opt_str(prefix),
                            ),
                    ),
                    kv_order(),
                ),
                limit,
            ),
    {
        self.record(Call::plain("graph.kv_list"));
        let wanted = own_opt(namespace);
        let ghost keep = |row: crate::provider::types::KvRecordView|
            is_kv_listed(
                row,
                crate::documents::scope::opt_str(namespace),
                crate::documents::scope::opt_str(prefix),
            );
        let keeps = |row: &MemoryKvRecord| -> (b: bool)
            ensures
                b == keep(row@),
        {
            same_opt(&row.namespace, &wanted) && match prefix {
                Some(prefix) => has_prefix(row.key.as_str(), prefix),
                None => true,
            }
        };
        let rows = pick_rows(&self.kv, keeps, Ghost(keep));
        let precedes = |a: &MemoryKvRecord, b: &MemoryKvRecord| -> (r: bool)
            ensures
                r == kv_order()(a@, b@),
        {
            comes_no_later(a.key.as_str(), b.key.as_str())
        };
        let mut rows = sort_rows(rows, precedes, Ghost(kv_order()));
        let ghost sorted = crate::rows::row_views(rows@);
        rows.truncate(limit);
        assert(crate::rows::row_views(rows@) =~= crate::rows::at_most(sorted, limit));
        Ok(rows)
    }

    /// The relations of a namespace, a subject and a predicate, where these are given, in
    /// order, at most so many.
    pub fn relations(
        &mut self,
        namespace: Option<&str>,
        subject: Option<&str>,
        predicate: Option<&str>,
        limit: usize,
    ) -> (r: Result<Vec<GraphRelationRecord>, MemoryError>)
        ensures
            final(self)@ == old(self)@.logged(crate::provider::plain_call("graph.relations"@)),
            r is Ok,
            crate::rows::row_views(r->Ok_0@) == crate::rows::at_most(
                crate::rows::sorted_by(
                    old(self)@.relations.filter(
                        |row: crate::provider::types::RelationView|
                            is_relation_listed(
                                row,
                                crate::documents::scope::opt_str(namespace),
                                crate::documents::scope::opt_str(subject),
                                crate::documents::scope::opt_str(predicate),
                            ),
                    ),
                    relation_order(),
                ),
                limit,
            ),
    {
        self.record(Call::plain("graph.relations"));
        let wanted = own_opt(namespace);
        let ghost keep = |row: crate::provider::types::RelationView|
            is_relation_listed(
                row,
                crate::documents::scope::opt_str(namespace),
                crate::documents::scope::opt_str(subject),
                crate::documents::scope::opt_str(predicate),
            );
        let keeps = |row: &GraphRelationRecord| -> (b: bool)
            ensures
                b == keep(row@),
        {
            let namespace_fits = wanted.is_none() || same_opt(&row.namespace, &wanted);
            let subject_fits = match subject {
                Some(subject) => same_text(row.subject.as_str(), subject),
                None => true,
            };
            let predicate_fits = match predicate {
                Some(predicate) => same_text(row.predicate.as_str(), predicate),
                None => true,
            };
            namespace_fits && subject_fits && predicate_fits
        };
        let rows = pick_rows(&self.relations, keeps, Ghost(keep));
        let precedes = |a: &GraphRelationRecord, b: &GraphRelationRecord| -> (r: bool)
            ensures
                r == relation_order()(a@, b@),
        {
            if !same_text(a.subject.as_str(), b.subject.as_str()) {
                comes_no_later(a.subject.as_str(), b.subject.as_str())
            } else if !same_text(a.predicate.as_str(), b.predicate.as_str()) {
                comes_no_later(a.predicate.as_str(), b.predicate.as_str())
            } else {
                comes_no_later(a.object.as_str(), b.object.as_str())
            }
        };
        let mut rows = sort_rows(rows, precedes, Ghost(relation_order()));
        let ghost sorted = crate::rows::row_views(rows@);
        rows.truncate(limit);
        assert(crate::rows::row_views(rows@) =~= crate::rows::at_most(sorted, limit));
        Ok(rows)
    }

    /// Puts a relation, in place of the one that asserts the same.
    pub fn put_relation(&mut self, relation: GraphRelationRecord) -> (r: Result<(), MemoryError>)
        ensures
            r is Ok,
            final(self)@ == (crate::provider::ProviderView {
                relations: with_relation(old(self)@.relations, relation@),
                ..old(self)@.logged(crate::provider::plain_call("graph.put_relation"@))
            }),
            old(self)@.wf() ==> final(self)@.wf(),
    {
        proof {
            if old(self)@.wf() {
                crate::rows::lemma_put_stays_apart(
                    self@.relations,
                    crate::provider::laws::same_relation(),
                    relation@,
                    |r: crate::provider::types::RelationView| is_same_relation(r, relation@),
                );
            }
        }
        self.record(Call::plain("graph.put_relation"));
        let fits = |row: &GraphRelationRecord| -> (b: bool)
            ensures
                b == is_same_relation(row@, relation@),
        {
            same_opt(&row.namespace, &relation.namespace) && same_text(
                row.subject.as_str(),
                relation.subject.as_str(),
            ) && same_text(row.predicate.as_str(), relation.predicate.as_str()) && same_text(
                row.object.as_str(),
                relation.object.as_str(),
            )
        };
        let at = find_row(
            &self.relations,
            fits,
            Ghost(
                |r: crate::provider::types::RelationView| is_same_relation(r, relation@),
            ),
        );
        put_row(&mut self.relations, at, relation);
        Ok(())
    }
}

/// Goals and tool rules.
impl RecordingProvider {
    /// The goals; none where none were set.
    pub fn goals(&mut self) -> (r: Result<GoalsDoc, MemoryError>)
        ensures
            final(self)@ == old(self)@.logged(crate::provider::plain_call("goals.goals"@)),
            r is Ok,
            r->Ok_0@ == match old(self)@.goals {
                Some(goals) => goals,
                None => (crate::provider::types::GoalsView { items: Seq::empty() }),
            },
    {
        self.record(Call::plain("goals.goals"));
        match &self.goals {
            Some(goals) => Ok(goals.copied()),
            None => Ok(GoalsDoc::default()),
        }
    }

    /// Sets the goals.
    pub fn set_goals(&mut self, goals: GoalsDoc) -> (r: Result<(), MemoryError>)
        ensures
            r is Ok,
            final(self)@ == (crate::provider::ProviderView {
                goals: Some(goals@),
                ..old(self)@.logged(crate::provider::plain_call("goals.set_goals"@))
            }),
            old(self)@.wf() ==> final(self)@.wf(),
    {
        self.record(Call::plain("goals.set_goals"));
        self.goals = Some(goals);
        Ok(())
    }

    fn find_rule(&self, id: &str) -> (r: Option<usize>)
        ensures
            match r {
                Some(i) => i < self@.tool_rules.len() && i == rule_at(self@.tool_rules, id@),
                None => rule_at(self@.tool_rules, id@) == self@.tool_rules.len(),
            },
    {
        let fits = |row: &ToolMemoryRule| -> (b: bool)
            ensures
                b == (row@.id == id@),
        {
            same_text(row.id.as_str(), id)
        };
        find_row(
            &self.tool_rules,
            fits,
            Ghost(|r: crate::provider::types::RuleView| r.id == id@),
        )
    }

    /// The rules of a tool, by id.
    pub fn tool_rules(&mut self, tool_name: &str) -> (r: Result<
        Vec<ToolMemoryRule>,
        MemoryError,
    >)
        ensures
            final(self)@ == old(self)@.logged(
                crate::provider::plain_call("tool_memory.tool_rules"@),
            ),
            r is Ok,
            crate::rows::row_views(r->Ok_0@) == crate::rows::sorted_by(
                old(self)@.tool_rules.filter(
                    |row: crate::provider::types::RuleView| row.tool_name == tool_name@,
                ),
                rule_order(),
            ),
    {
        self.record(Call::plain("tool_memory.tool_rules"));
        let keeps = |row: &ToolMemoryRule| -> (b: bool)
            ensures
                b == (row@.tool_name == tool_name@),
        {
            same_text(row.tool_name.as_str(), tool_name)
        };
        let rows = pick_rows(
            &self.tool_rules,
            keeps,
            Ghost(|row: crate::provider::types::RuleView| row.tool_name == tool_name@),
        );
        let precedes = |a: &ToolMemoryRule, b: &ToolMemoryRule| -> (r: bool)
            ensures
                r == rule_order()(a@, b@),
        {
            comes_no_later(a.id.as_str(), b.id.as_str())
        };
        Ok(sort_rows(rows, precedes, Ghost(rule_order())))
    }

    /// Puts a rule, in place of the one with its id.
    pub fn put_tool_rule(&mut self, rule: ToolMemoryRule) -> (r: Result<(), MemoryError>)
        ensures
            r is Ok,
            final(self)@ == (crate::provider::ProviderView {
                tool_rules: crate::rows::put_at(
                    old(self)@.tool_rules,
                    rule_at(old(self)@.tool_rules, rule@.id),
                    rule@,
                ),
                ..old(self)@.logged(crate::provider::plain_call("tool_memory.put_tool_rule"@))
            }),
            old(self)@.wf() ==> final(self)@.wf(),
    {
        proof {
            if old(self)@.wf() {
                crate::rows::lemma_put_stays_apart(
                    self@.tool_rules,
                    crate::provider::laws::same_rule(),
                    rule@,
                    |r: crate::provider::types::RuleView| r.id == rule@.id,
                );
            }
        }
        self.record(Call::plain("tool_memory.put_tool_rule"));
        let at = self.find_rule(rule.id.as_str());
        put_row(&mut self.tool_rules, at, rule);
        Ok(())
    }

    /// Deletes the rule with an id, if it is a rule of the tool, and says whether it was.
    pub fn delete_tool_rule(&mut self, tool_name: &str, rule_id: &str) -> (r: Result<
        bool,
        MemoryError,
    >)
        ensures
            ({
                let rules = old(self)@.tool_rules;
                let at = rule_at(rules, rule_id@);
                let hit = at < rules.len() && rules[at].tool_name == tool_name@;
                &&& r == Ok::<bool, MemoryError>(hit)
                &&& final(self)@ == (crate::provider::ProviderView {
                    tool_rules: if hit {
                        rules.remove(at)
                    } else {
                        rules
                    },
                    ..old(self)@.logged(
                        crate::provider::plain_call("tool_memory.delete_tool_rule"@),
                    )
                })
            }),
            old(self)@.wf() ==> final(self)@.wf(),
    {
        proof {
            if old(self)@.wf() {
                let at = rule_at(self@.tool_rules, rule_id@);
                crate::rows::lemma_first_where(
                    self@.tool_rules,
                    |r: crate::provider::types::RuleView| r.id == rule_id@,
                );
                if at < self@.tool_rules.len() {
                    crate::rows::lemma_removed_stays_apart(
                        self@.tool_rules,
                        crate::provider::laws::same_rule(),
                        at,
                    );
                }
            }
        }
        self.record(Call::plain("tool_memory.delete_tool_rule"));
        let ghost before = self@.tool_rules;
        match self.find_rule(rule_id) {
            Some(i) => {
                if same_text(self.tool_rules[i].tool_name.as_str(), tool_name) {
                    self.tool_rules.remove(i);
                    assert(self@.tool_rules =~= before.remove(i as int));
                    Ok(true)
                } else {
                    Ok(false)
                }
            },
            None => Ok(false),
        }
    }
}

/// Items that sources hand over.
impl RecordingProvider {
    /// Accepts items of a source. The first one is logged.
    pub fn accept_source_items(
        &mut self,
        _source_id: &str,
        _source_kind: &str,
        items: Vec<SourceItem>,
        taint: MemoryTaint,
    ) -> (r: Result<IngestOutcome, MemoryError>)
        ensures
            final(self)@ == old(self)@.logged(
                crate::provider::tainted_call(
                    "sources.accept_source_items"@,
                    if items@.len() > 0 {
                        Some(items@[0].content@)
                    } else {
                        None
                    },
                    Some(taint),
                ),
            ),
            r == Ok::<IngestOutcome, MemoryError>(IngestOutcome::none()),
    {
        let content: Option<String> = if items.len() > 0 {
            Some(items[0].content.clone())
        } else {
            None
        };
        self.record(
            Call {
                method: "sources.accept_source_items".to_owned(),
                content,
                taint: Some(taint),
                scoped: None,
            },
        );
        Ok(IngestOutcome::default())
    }

    /// Forgets a source, and says how much of it there was.
    pub fn forget_source(&mut self, _source_id: &str) -> (r: Result<u64, MemoryError>)
        ensures
            final(self)@ == old(self)@.logged(
                crate::provider::plain_call("sources.forget_source"@),
            ),
            r == Ok::<u64, MemoryError>(0),
    {
        self.record(Call::plain("sources.forget_source"));
        Ok(0)
    }
}

/// Retrieval.
impl RecordingProvider {
    /// Retrieves fast, within a scope: the set answer.
    pub fn fast_retrieve(
        &mut self,
        _query: &str,
        _options: FastRetrieveQuery,
        scope: Option<&SourceScope>,
    ) -> (r: Result<RetrievalResponse, MemoryError>)
        ensures
            final(self)@ == old(self)@.logged(
                crate::provider::scope::scope_call("retrieval.fast_retrieve"@, scope),
            ),
            r is Ok,
            r->Ok_0@ == old(self)@.fast_retrieve_result,
    {
        self.record(scoped_call("retrieval.fast_retrieve", scope));
        Ok(self.fast_retrieve_result.copied())
    }

    /// Covers a time window, within a scope.
    pub fn cover_window(&mut self, _window: &CoverWindowQuery, scope: Option<&SourceScope>) -> (r:
        Result<RetrievalResponse, MemoryError>)
        ensures
            final(self)@ == old(self)@.logged(
                crate::provider::scope::scope_call("retrieval.cover_window"@, scope),
            ),
            r is Ok,
            r->Ok_0@ == RetrievalResponse::empty_view(),
    {
        self.record(scoped_call("retrieval.cover_window", scope));
        Ok(RetrievalResponse::default())
    }

    /// Retrieves from a source, within a scope.
    pub fn retrieve_source(
        &mut self,
        _query: &SourceRetrievalQuery,
        scope: Option<&SourceScope>,
    ) -> (r: Result<RetrievalResponse, MemoryError>)
        ensures
            final(self)@ == old(self)@.logged(
                crate::provider::scope::scope_call("retrieval.retrieve_source"@, scope),
            ),
            r is Ok,
            r->Ok_0@ == RetrievalResponse::empty_view(),
    {
        self.record(scoped_call("retrieval.retrieve_source", scope));
        Ok(RetrievalResponse::default())
    }

    /// The children of a node, within a scope.
    pub fn retrieve_children(
        &mut self,
        _node_id: &str,
        _max_depth: u32,
        _query: Option<&str>,
        _limit: Option<usize>,
        scope: Option<&SourceScope>,
    ) -> (r: Result<Vec<RetrievalHit>, MemoryError>)
        ensures
            final(self)@ == old(self)@.logged(
                crate::provider::scope::scope_call("retrieval.retrieve_children"@, scope),
            ),
            r is Ok,
            r->Ok_0@.len() == 0,
    {
        self.record(scoped_call("retrieval.retrieve_children", scope));
        Ok(Vec::new())
    }

    /// Some leaves, within a scope.
    pub fn retrieve_leaves(&mut self, _chunk_ids: &Vec<String>, scope: Option<&SourceScope>) -> (r:
        Result<Vec<RetrievalHit>, MemoryError>)
        ensures
            final(self)@ == old(self)@.logged(
                crate::provider::scope::scope_call("retrieval.retrieve_leaves"@, scope),
            ),
            r is Ok,
            r->Ok_0@.len() == 0,
    {
        self.record(scoped_call("retrieval.retrieve_leaves", scope));
        Ok(Vec::new())
    }

    /// The set hits of a namespace, at most so many. What was asked for is logged.
    pub fn recall_namespace_scored(
        &mut self,
        namespace: &str,
        _query: &str,
        limit: usize,
        _exclude_session_id: Option<&str>,
    ) -> (r: Result<Vec<NamespaceMemoryHit>, MemoryError>)
        ensures
            final(self)@ == old(self)@.logged(
                crate::provider::content_call(
                    "retrieval.recall_namespace_scored"@,
                    "namespace="@ + namespace@ + " limit="@ + crate::text::decimal(limit as nat),
                ),
            ),
            r is Ok,
            crate::rows::row_views(r->Ok_0@) == crate::rows::at_most(
                old(self)@.namespace_hits.filter(
                    |hit: crate::provider::types::HitView| hit.namespace == namespace@,
                ),
                limit,
            ),
            crate::rows::row_views(r->Ok_0@) == scored_hits(
                old(self)@.namespace_hits,
                namespace@,
                limit,
            ),
    {
        let number = decimal_text(limit as u64);
        let asked = joined4("namespace=", namespace, " limit=", number.as_str());
        self.record(Call::with_content("retrieval.recall_namespace_scored", asked.as_str()));
        let keeps = |hit: &NamespaceMemoryHit| -> (b: bool)
            ensures
                b == (hit@.namespace == namespace@),
        {
            same_text(hit.namespace.as_str(), namespace)
        };
        let mut hits = pick_rows(
            &self.namespace_hits,
            keeps,
            Ghost(|hit: crate::provider::types::HitView| hit.namespace == namespace@),
        );
        let ghost picked = crate::rows::row_views(hits@);
        hits.truncate(limit);
        assert(crate::rows::row_views(hits@) =~= crate::rows::at_most(picked, limit));
        Ok(hits)
    }

    /// The newest of a namespace.
    pub fn recall_namespace_recent(&mut self, _namespace: &str, _limit: usize) -> (r: Result<
        Vec<NamespaceMemoryHit>,
        MemoryError,
    >)
        ensures
            final(self)@ == old(self)@.logged(
                crate::provider::plain_call("retrieval.recall_namespace_recent"@),
            ),
            r is Ok,
            r->Ok_0@.len() == 0,
    {
        self.record(Call::plain("retrieval.recall_namespace_recent"));
        Ok(Vec::new())
    }

    /// Searches entities. A kind that is not known is refused: matching nothing would look
    /// like an honest miss.
    pub fn search_entities(
        &mut self,
        _query: &str,
        kinds: Option<&Vec<String>>,
        _limit: usize,
    ) -> (r: Result<Vec<EntityMatch>, MemoryError>)
        ensures
            final(self)@ == old(self)@.logged(
                crate::provider::plain_call("retrieval.search_entities"@),
            ),
            ({
                let asked = match kinds {
                    Some(kinds) => crate::text::texts(kinds@),
                    None => Seq::empty(),
                };
                let at = unknown_at(asked);
                match r {
                    Ok(matches) => at == asked.len() && matches@.len() == 0,
                    Err(error) => at < asked.len() && error is Invalid && error->Invalid_0@
                        == "unknown entity kind: "@ + asked[at],
                }
            }),
    {
        self.record(Call::plain("retrieval.search_entities"));
        if let Some(kinds) = kinds {
            let unknown = |kind: &String| -> (b: bool)
                ensures
                    b == !is_known_kind(kind@),
            {
                !known_kind(kind.as_str())
            };
            let ghost asked = crate::text::texts(kinds@);
            assert(crate::rows::row_views(kinds@) =~= asked);
            match find_row(kinds, unknown, Ghost(|kind: Seq<char>| !is_known_kind(kind))) {
                Some(i) => {
                    return Err(
                        MemoryError::Invalid(
                            joined2("unknown entity kind: ", kinds[i].as_str()),
                        ),
                    );
                },
                None => {},
            }
        }
        Ok(Vec::new())
    }
}

} // verus!
