//! A memory provider that keeps a log of every call.
//!
//! It serves every family of operations. Entries, documents, key-value rows, relations,
//! tool rules and goals that it is handed are kept and come back; everything else is
//! logged and answered with nothing.

use vstd::prelude::*;

pub mod answers;
pub mod contents;
pub mod documents;
pub mod entries;
pub mod families;
pub mod graph;
pub mod laws;
pub mod scope;
pub mod tree;
pub mod types;

use crate::documents::read::StoredMemoryDocument;
use crate::documents::MemoryTaint;
use crate::provider::types::{
    Call, GoalsDoc, GraphRelationRecord, MemoryEntry, MemoryKvRecord, NamespaceMemoryHit,
    NamespaceSummary, RetrievalResponse, ToolMemoryRule,
};
use crate::rows::{copy_rows, Row};

verus! {

/// The id that the driver binds under.
pub const FULL_DRIVER_ID: &'static str = "recording";

/// A provider that logs its calls.
#[derive(Debug)]
pub struct RecordingProvider {
    calls: Vec<Call>,
    /// What a recall answers, where that is set.
    recall_result: Vec<MemoryEntry>,
    /// What a fast retrieval answers.
    fast_retrieve_result: RetrievalResponse,
    /// What a scored recall of a namespace picks from.
    namespace_hits: Vec<NamespaceMemoryHit>,
    /// What the namespaces are, where that is set.
    namespace_summaries: Vec<NamespaceSummary>,
    documents: Vec<StoredMemoryDocument>,
    kv: Vec<MemoryKvRecord>,
    relations: Vec<GraphRelationRecord>,
    tool_rules: Vec<ToolMemoryRule>,
    goals: Option<GoalsDoc>,
    entries: Vec<MemoryEntry>,
}

/// The provider's log and tables, as texts.
pub ghost struct ProviderView {
    pub calls: Seq<crate::provider::types::CallView>,
    pub recall_result: Seq<crate::provider::types::EntryView>,
    pub fast_retrieve_result: crate::provider::types::ResponseView,
    pub namespace_hits: Seq<crate::provider::types::HitView>,
    pub namespace_summaries: Seq<crate::provider::types::SummaryView>,
    pub documents: Seq<crate::documents::read::StoredView>,
    pub kv: Seq<crate::provider::types::KvRecordView>,
    pub relations: Seq<crate::provider::types::RelationView>,
    pub tool_rules: Seq<crate::provider::types::RuleView>,
    pub goals: Option<crate::provider::types::GoalsView>,
    pub entries: Seq<crate::provider::types::EntryView>,
}

impl View for RecordingProvider {
    type V = ProviderView;

    closed spec fn view(&self) -> ProviderView {
        ProviderView {
            calls: crate::rows::row_views(self.calls@),
            recall_result: crate::rows::row_views(self.recall_result@),
            fast_retrieve_result: self.fast_retrieve_result@,
            namespace_hits: crate::rows::row_views(self.namespace_hits@),
            namespace_summaries: crate::rows::row_views(self.namespace_summaries@),
            documents: crate::rows::row_views(self.documents@),
            kv: crate::rows::row_views(self.kv@),
            relations: crate::rows::row_views(self.relations@),
            tool_rules: crate::rows::row_views(self.tool_rules@),
            goals: match self.goals {
                Some(goals) => Some(goals@),
                None => None,
            },
            entries: crate::rows::row_views(self.entries@),
        }
    }
}

/// A call that carries nothing but its method.
pub open spec fn plain_call(method: Seq<char>) -> crate::provider::types::CallView {
    crate::provider::types::CallView { method, content: None, taint: None, scoped: None }
}

/// A call that carries content.
pub open spec fn content_call(
    method: Seq<char>,
    content: Seq<char>,
) -> crate::provider::types::CallView {
    crate::provider::types::CallView {
        method,
        content: Some(content),
        taint: None,
        scoped: None,
    }
}

/// A call that carries content and its provenance.
pub open spec fn tainted_call(
    method: Seq<char>,
    content: Option<Seq<char>>,
    taint: Option<MemoryTaint>,
) -> crate::provider::types::CallView {
    crate::provider::types::CallView { method, content, taint, scoped: None }
}

impl ProviderView {
    /// A provider that has been handed nothing.
    pub open spec fn empty() -> ProviderView {
        ProviderView {
            calls: Seq::empty(),
            recall_result: Seq::empty(),
            fast_retrieve_result: RetrievalResponse::empty_view(),
            namespace_hits: Seq::empty(),
            namespace_summaries: Seq::empty(),
            documents: Seq::empty(),
            kv: Seq::empty(),
            relations: Seq::empty(),
            tool_rules: Seq::empty(),
            goals: None,
            entries: Seq::empty(),
        }
    }

    /// The provider with one more call in its log.
    pub open spec fn logged(self, call: crate::provider::types::CallView) -> ProviderView {
        ProviderView { calls: self.calls.push(call), ..self }
    }
}

impl Call {
    /// A call that carries nothing but its method.
    pub fn plain(method: &str) -> (r: Self)
        ensures
            r@ == plain_call(method@),
    {
        Call { method: method.to_owned(), content: None, taint: None, scoped: None }
    }

    /// A call that carries content.
    pub fn with_content(method: &str, content: &str) -> (r: Self)
        ensures
            r@ == content_call(method@, content@),
    {
        Call {
            method: method.to_owned(),
            content: Some(content.to_owned()),
            taint: None,
            scoped: None,
        }
    }
}

impl Default for RecordingProvider {
    fn default() -> (r: Self)
        ensures
            r@ == ProviderView::empty(),
            r@.wf(),
    {
        RecordingProvider::new()
    }
}

impl RecordingProvider {
    /// A provider with an empty log and empty answers.
    pub fn new() -> (r: Self)
        ensures
            r@ == ProviderView::empty(),
            r@.wf(),
    {
        let r = RecordingProvider {
            calls: Vec::new(),
            recall_result: Vec::new(),
            fast_retrieve_result: RetrievalResponse::default(),
            namespace_hits: Vec::new(),
            namespace_summaries: Vec::new(),
            documents: Vec::new(),
            kv: Vec::new(),
            relations: Vec::new(),
            tool_rules: Vec::new(),
            goals: None,
            entries: Vec::new(),
        };
        assert(r@.calls =~= Seq::empty());
        assert(r@.recall_result =~= Seq::empty());
        assert(r@.namespace_hits =~= Seq::empty());
        assert(r@.namespace_summaries =~= Seq::empty());
        assert(r@.documents =~= Seq::empty());
        assert(r@.kv =~= Seq::empty());
        assert(r@.relations =~= Seq::empty());
        assert(r@.tool_rules =~= Seq::empty());
        assert(r@.entries =~= Seq::empty());
        r
    }

    /// Sets what a recall answers.
    pub fn with_recall_result(self, entries: Vec<MemoryEntry>) -> (r: Self)
        ensures
            r@ == (ProviderView {
                recall_result: crate::rows::row_views(entries@),
                ..self@
            }),
    {
        let mut r = self;
        r.recall_result = entries;
        r
    }

    /// Sets what a fast retrieval answers.
    pub fn with_fast_retrieve_result(self, response: RetrievalResponse) -> (r: Self)
        ensures
            r@ == (ProviderView { fast_retrieve_result: response@, ..self@ }),
    {
        let mut r = self;
        r.fast_retrieve_result = response;
        r
    }

    /// Sets what a scored recall of a namespace picks from.
    pub fn with_namespace_hits(self, hits: Vec<NamespaceMemoryHit>) -> (r: Self)
        ensures
            r@ == (ProviderView {
                namespace_hits: crate::rows::row_views(hits@),
                ..self@
            }),
    {
        let mut r = self;
        r.namespace_hits = hits;
        r
    }

    /// Sets what the namespaces are.
    pub fn with_namespace_summaries(self, summaries: Vec<NamespaceSummary>) -> (r: Self)
        ensures
            r@ == (ProviderView {
                namespace_summaries: crate::rows::row_views(summaries@),
                ..self@
            }),
    {
        let mut r = self;
        r.namespace_summaries = summaries;
        r
    }

    fn record(&mut self, call: Call)
        ensures
            final(self)@ == old(self)@.logged(call@),
    {
        proof {
            crate::rows::lemma_row_views_push(self.calls@, call);
        }
        self.calls.push(call);
    }

    /// Every call, in order.
    pub fn calls(&self) -> (r: Vec<Call>)
        ensures
            crate::rows::row_views(r@) == self@.calls,
    {
        copy_rows(&self.calls)
    }

    /// How many calls there were.
    pub fn call_count(&self) -> (r: usize)
        ensures
            r == self@.calls.len(),
    {
        self.calls.len()
    }

    /// The single call there was.
    pub fn only_call(&self) -> (r: Call)
        requires
            self@.calls.len() == 1,
        ensures
            r@ == self@.calls[0],
    {
        self.calls[0].copied()
    }
}

} // verus!
