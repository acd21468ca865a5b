//! Bulk ingestion, and the summary tree.

use vstd::prelude::*;

use crate::documents::MemoryTaint;
use crate::provider::answers::{
    Chunk, IngestRequest, QueryResult, RootSummary, SummaryContext, SummaryForest, TreeLeaf,
    TreeNode,
};
use crate::provider::scope::scoped_call;
use crate::provider::RecordingProvider;
use crate::provider::types::{
    Call, Capability, IngestItem, IngestOutcome, MemoryError, SourceScope, TreeStatus,
};
use crate::summarise::{SummaryInput, SummaryOutput};
use crate::text::join_texts;

verus! {

/// Bulk ingestion: the provider splits, embeds and indexes what it is handed.
pub trait MemoryIngest: Sized {
    /// Ingests one document.
    fn ingest_document(&mut self, item: IngestItem) -> Result<IngestOutcome, MemoryError>;

    /// Ingests a run of chat messages of one conversation, in order.
    fn ingest_chat(&mut self, messages: Vec<IngestItem>) -> Result<IngestOutcome, MemoryError>;

    /// Ingests one email thread, in order. A provider need not serve it.
    fn ingest_email(&mut self, _messages: Vec<IngestItem>) -> (r: Result<
        IngestOutcome,
        MemoryError,
    >)
        default_ensures
            r == Err::<IngestOutcome, MemoryError>(MemoryError::Unsupported(Capability::Ingest)),
            *final(self) == *old(self),
    {
        Err(MemoryError::unsupported(Capability::Ingest))
    }
}

/// The summary tree: leaves are buffered, and rolled up when asked.
pub trait MemoryTree: Sized {
    /// Appends content to the ingestion buffer.
    fn append(&mut self, request: IngestRequest) -> Result<(), MemoryError>;

    /// The chunks of a source, within a scope.
    fn query_source(
        &mut self,
        namespace: &str,
        source_id: &str,
        limit: usize,
        scope: Option<&SourceScope>,
    ) -> Result<Vec<Chunk>, MemoryError>;

    /// A node and its direct children.
    fn drill_down(&mut self, namespace: &str, node_id: &str) -> Result<QueryResult, MemoryError>;

    /// Seals the buffer of a namespace.
    fn seal(&mut self, namespace: &str) -> Result<TreeStatus, MemoryError>;

    /// Cascades the summaries of a namespace.
    fn cascade(&mut self, namespace: &str) -> Result<TreeStatus, MemoryError>;

    /// The trees there are, within a scope. A provider need not serve it.
    fn summary_forest(
        &mut self,
        _limit: usize,
        _scope: Option<&SourceScope>,
    ) -> (r: Result<SummaryForest, MemoryError>)
        default_ensures
            r == Err::<SummaryForest, MemoryError>(MemoryError::Unsupported(Capability::Tree)),
            *final(self) == *old(self),
    {
        Err(MemoryError::unsupported(Capability::Tree))
    }

    /// The newest leaves, within a scope. A provider need not serve it.
    fn recent_leaves(
        &mut self,
        _limit: usize,
        _scope: Option<&SourceScope>,
    ) -> (r: Result<Vec<TreeLeaf>, MemoryError>)
        default_ensures
            r == Err::<Vec<TreeLeaf>, MemoryError>(MemoryError::Unsupported(Capability::Tree)),
            *final(self) == *old(self),
    {
        Err(MemoryError::unsupported(Capability::Tree))
    }

    /// Flushes the tree of a source. A provider need not serve it.
    fn flush_source_tree(&mut self, _source_scope: &str) -> (r: Result<u64, MemoryError>)
        default_ensures
            r == Err::<u64, MemoryError>(MemoryError::Unsupported(Capability::Tree)),
            *final(self) == *old(self),
    {
        Err(MemoryError::unsupported(Capability::Tree))
    }

    /// Summarises inputs. A provider need not serve it.
    fn summarise(
        &mut self,
        _inputs: &Vec<SummaryInput>,
        _context: &SummaryContext,
    ) -> (r: Result<SummaryOutput, MemoryError>)
        default_ensures
            r == Err::<SummaryOutput, MemoryError>(MemoryError::Unsupported(Capability::Tree)),
            *final(self) == *old(self),
    {
        Err(MemoryError::unsupported(Capability::Tree))
    }

    /// The summaries of the roots, within caps. A provider need not serve it.
    fn root_summaries_with_caps(
        &mut self,
        _per_namespace_cap: usize,
        _total_cap: usize,
    ) -> (r: Result<Vec<RootSummary>, MemoryError>)
        default_ensures
            r == Err::<Vec<RootSummary>, MemoryError>(MemoryError::Unsupported(Capability::Tree)),
            *final(self) == *old(self),
    {
        Err(MemoryError::unsupported(Capability::Tree))
    }

    /// Buffers content, and says where it landed. A provider need not serve it.
    fn runtime_buffer_write(
        &mut self,
        _namespace: &str,
        _content: &str,
        _timestamp: i64,
        _metadata: Option<String>,
    ) -> (r: Result<String, MemoryError>)
        default_ensures
            r == Err::<String, MemoryError>(MemoryError::Unsupported(Capability::Tree)),
            *final(self) == *old(self),
    {
        Err(MemoryError::unsupported(Capability::Tree))
    }

    /// One node. A provider need not serve it.
    fn runtime_read_node(
        &mut self,
        _namespace: &str,
        _node_id: &str,
    ) -> (r: Result<Option<TreeNode>, MemoryError>)
        default_ensures
            r == Err::<Option<TreeNode>, MemoryError>(MemoryError::Unsupported(Capability::Tree)),
            *final(self) == *old(self),
    {
        Err(MemoryError::unsupported(Capability::Tree))
    }

    /// The children of a node. A provider need not serve it.
    fn runtime_read_children(
        &mut self,
        _namespace: &str,
        _parent_id: &str,
    ) -> (r: Result<Vec<TreeNode>, MemoryError>)
        default_ensures
            r == Err::<Vec<TreeNode>, MemoryError>(MemoryError::Unsupported(Capability::Tree)),
            *final(self) == *old(self),
    {
        Err(MemoryError::unsupported(Capability::Tree))
    }

    /// The state of a namespace's tree. A provider need not serve it.
    fn runtime_tree_status(&mut self, _namespace: &str) -> (r: Result<TreeStatus, MemoryError>)
        default_ensures
            r == Err::<TreeStatus, MemoryError>(MemoryError::Unsupported(Capability::Tree)),
            *final(self) == *old(self),
    {
        Err(MemoryError::unsupported(Capability::Tree))
    }

    /// Summarises what is buffered. A provider need not serve it.
    fn runtime_summarize(
        &mut self,
        _namespace: &str,
        _timestamp: i64,
    ) -> (r: Result<Option<TreeNode>, MemoryError>)
        default_ensures
            r == Err::<Option<TreeNode>, MemoryError>(MemoryError::Unsupported(Capability::Tree)),
            *final(self) == *old(self),
    {
        Err(MemoryError::unsupported(Capability::Tree))
    }

    /// Rebuilds the tree of a namespace. A provider need not serve it.
    fn runtime_rebuild(&mut self, _namespace: &str) -> (r: Result<TreeStatus, MemoryError>)
        default_ensures
            r == Err::<TreeStatus, MemoryError>(MemoryError::Unsupported(Capability::Tree)),
            *final(self) == *old(self),
    {
        Err(MemoryError::unsupported(Capability::Tree))
    }

    /// The flavour of a scope. A provider need not serve it.
    fn flavour_profile(&mut self, _scope: &str) -> (r: Result<Option<String>, MemoryError>)
        default_ensures
            r == Err::<Option<String>, MemoryError>(MemoryError::Unsupported(Capability::Tree)),
            *final(self) == *old(self),
    {
        Err(MemoryError::unsupported(Capability::Tree))
    }
}

/// The call that an ingestion of several items logs: it carries the first item.
pub open spec fn first_item_call(
    method: Seq<char>,
    items: Seq<IngestItem>,
) -> crate::provider::types::CallView {
    if items.len() > 0 {
        crate::provider::tainted_call(method, Some(items[0].content@), Some(items[0].taint))
    } else {
        crate::provider::plain_call(method)
    }
}

/// The status of an empty tree.
fn tree_status(namespace: &str) -> (r: TreeStatus)
    ensures
        r.is_empty_tree(namespace@),
{
    TreeStatus {
        namespace: namespace.to_owned(),
        total_nodes: 0,
        depth: 0,
        oldest_entry: None,
        newest_entry: None,
        last_run_at: None,
    }
}

impl MemoryIngest for RecordingProvider {
    fn ingest_document(&mut self, item: IngestItem) -> (r: Result<IngestOutcome, MemoryError>)
        ensures
            final(self)@ == old(self)@.logged(crate::provider::tainted_call(
                    "ingest.ingest_document"@,
                    Some(item.content@),
                    Some(item.taint),
                )),
            r == Ok::<IngestOutcome, MemoryError>(IngestOutcome::none()),
    {
        self.record(
            Call {
                method: "ingest.ingest_document".to_owned(),
                content: Some(item.content),
                taint: Some(item.taint),
                scoped: None,
            },
        );
        Ok(IngestOutcome::default())
    }

    fn ingest_chat(&mut self, messages: Vec<IngestItem>) -> (r: Result<
        IngestOutcome,
        MemoryError,
    >)
        ensures
            final(self)@ == old(self)@.logged(
                first_item_call("ingest.ingest_chat"@, messages@),
            ),
            r == Ok::<IngestOutcome, MemoryError>(IngestOutcome::none()),
    {
        let (content, taint): (Option<String>, Option<MemoryTaint>) = if messages.len() > 0 {
            (Some(messages[0].content.clone()), Some(messages[0].taint))
        } else {
            (None, None)
        };
        self.record(
            Call { method: "ingest.ingest_chat".to_owned(), content, taint, scoped: None },
        );
        Ok(IngestOutcome::default())
    }
}

impl MemoryTree for RecordingProvider {
    fn append(&mut self, request: IngestRequest) -> (r: Result<(), MemoryError>)
        ensures
            final(self)@ == old(self)@.logged(
                crate::provider::content_call("tree.append"@, request.content@),
            ),
            r is Ok,
    {
        self.record(Call::with_content("tree.append", request.content.as_str()));
        Ok(())
    }

    fn query_source(
        &mut self,
        _namespace: &str,
        _source_id: &str,
        _limit: usize,
        scope: Option<&SourceScope>,
    ) -> (r: Result<Vec<Chunk>, MemoryError>)
        ensures
            final(self)@ == old(self)@.logged(
                crate::provider::scope::scope_call("tree.query_source"@, scope),
            ),
            r is Ok,
            r->Ok_0@.len() == 0,
    {
        self.record(scoped_call("tree.query_source", scope));
        Ok(Vec::new())
    }

    fn drill_down(
        &mut self,
        _namespace: &str,
        _node_id: &str,
    ) -> (r: Result<QueryResult, MemoryError>)
        ensures
            final(self)@ == old(self)@.logged(crate::provider::plain_call("tree.drill_down"@)),
            r is Err,
            r->Err_0 is NotFound,
            r->Err_0->NotFound_0@ == "node"@,
    {
        self.record(Call::plain("tree.drill_down"));
        Err(MemoryError::NotFound("node".to_owned()))
    }

    fn seal(&mut self, namespace: &str) -> (r: Result<TreeStatus, MemoryError>)
        ensures
            final(self)@ == old(self)@.logged(crate::provider::plain_call("tree.seal"@)),
            r is Ok,
            r->Ok_0.is_empty_tree(namespace@),
    {
        self.record(Call::plain("tree.seal"));
        Ok(tree_status(namespace))
    }

    fn cascade(&mut self, namespace: &str) -> (r: Result<TreeStatus, MemoryError>)
        ensures
            final(self)@ == old(self)@.logged(crate::provider::plain_call("tree.cascade"@)),
            r is Ok,
            r->Ok_0.is_empty_tree(namespace@),
    {
        self.record(Call::plain("tree.cascade"));
        Ok(tree_status(namespace))
    }

    /// Logs the folded bodies as one text.
    fn summarise(&mut self, inputs: &Vec<SummaryInput>, _context: &SummaryContext) -> (r: Result<
        SummaryOutput,
        MemoryError,
    >)
        ensures
            final(self)@ == old(self)@.logged(
                crate::provider::content_call(
                    "tree.summarise"@,
                    crate::text::join(
                        inputs@.map_values(|i: SummaryInput| i.content@),
                        "|"@,
                    ),
                ),
            ),
            r is Ok,
            r->Ok_0@ == crate::summarise::OutputView::empty(),
    {
        let mut contents: Vec<String> = Vec::new();
        let mut i: usize = 0;
        while i < inputs.len()
            invariant
                i <= inputs.len(),
                contents.len() == i,
                forall|j: int| 0 <= j < i ==> (#[trigger] contents@[j])@ == inputs@[j].content@,
            decreases inputs.len() - i,
        {
            contents.push(inputs[i].content.clone());
            i = i + 1;
        }
        assert(crate::text::texts(contents@) =~= inputs@.map_values(
            |i: SummaryInput| i.content@,
        ));
        let joined = join_texts(&contents, "|");
        self.record(Call::with_content("tree.summarise", joined.as_str()));
        Ok(SummaryOutput::default())
    }

    fn root_summaries_with_caps(
        &mut self,
        _per_namespace_cap: usize,
        _total_cap: usize,
    ) -> (r: Result<Vec<RootSummary>, MemoryError>)
        ensures
            final(self)@ == old(self)@.logged(
                crate::provider::plain_call("tree.root_summaries_with_caps"@),
            ),
            r is Ok,
            r->Ok_0@.len() == 0,
    {
        self.record(Call::plain("tree.root_summaries_with_caps"));
        Ok(Vec::new())
    }

    fn runtime_buffer_write(
        &mut self,
        _namespace: &str,
        content: &str,
        _timestamp: i64,
        _metadata: Option<String>,
    ) -> (r: Result<String, MemoryError>)
        ensures
            final(self)@ == old(self)@.logged(
                crate::provider::content_call("tree.runtime_buffer_write"@, content@),
            ),
            r is Ok,
            r->Ok_0@ == "/buffer/2026/01/01/00.md"@,
    {
        self.record(Call::with_content("tree.runtime_buffer_write", content));
        Ok("/buffer/2026/01/01/00.md".to_owned())
    }

    fn runtime_read_node(
        &mut self,
        _namespace: &str,
        _node_id: &str,
    ) -> (r: Result<Option<TreeNode>, MemoryError>)
        ensures
            final(self)@ == old(self)@.logged(
                crate::provider::plain_call("tree.runtime_read_node"@),
            ),
            r == Ok::<Option<TreeNode>, MemoryError>(None),
    {
        self.record(Call::plain("tree.runtime_read_node"));
        Ok(None)
    }

    fn runtime_read_children(
        &mut self,
        _namespace: &str,
        _parent_id: &str,
    ) -> (r: Result<Vec<TreeNode>, MemoryError>)
        ensures
            final(self)@ == old(self)@.logged(
                crate::provider::plain_call("tree.runtime_read_children"@),
            ),
            r is Ok,
            r->Ok_0@.len() == 0,
    {
        self.record(Call::plain("tree.runtime_read_children"));
        Ok(Vec::new())
    }

    fn runtime_tree_status(&mut self, namespace: &str) -> (r: Result<TreeStatus, MemoryError>)
        ensures
            final(self)@ == old(self)@.logged(
                crate::provider::plain_call("tree.runtime_tree_status"@),
            ),
            r is Ok,
            r->Ok_0.is_empty_tree(namespace@),
    {
        self.record(Call::plain("tree.runtime_tree_status"));
        Ok(tree_status(namespace))
    }

    fn runtime_summarize(
        &mut self,
        _namespace: &str,
        _timestamp: i64,
    ) -> (r: Result<Option<TreeNode>, MemoryError>)
        ensures
            final(self)@ == old(self)@.logged(
                crate::provider::plain_call("tree.runtime_summarize"@),
            ),
            r == Ok::<Option<TreeNode>, MemoryError>(None),
    {
        self.record(Call::plain("tree.runtime_summarize"));
        Ok(None)
    }

    fn runtime_rebuild(&mut self, namespace: &str) -> (r: Result<TreeStatus, MemoryError>)
        ensures
            final(self)@ == old(self)@.logged(crate::provider::plain_call("tree.runtime_rebuild"@)),
            r is Ok,
            r->Ok_0.is_empty_tree(namespace@),
    {
        self.record(Call::plain("tree.runtime_rebuild"));
        Ok(tree_status(namespace))
    }

    fn flavour_profile(&mut self, _scope: &str) -> (r: Result<Option<String>, MemoryError>)
        ensures
            final(self)@ == old(self)@.logged(crate::provider::plain_call("tree.flavour_profile"@)),
            r == Ok::<Option<String>, MemoryError>(None),
    {
        self.record(Call::plain("tree.flavour_profile"));
        Ok(None)
    }
}

} // verus!
