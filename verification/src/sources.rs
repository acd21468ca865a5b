//! The registry of memory sources.

use vstd::prelude::*;

verus! {

/// What a registered memory source reads from.
#[derive(Clone, Copy, Debug, PartialEq, Eq, Structural)]
pub enum SourceKind {
    Composio,
    Conversation,
    Folder,
    GithubRepo,
    TwitterQuery,
    RssFeed,
    WebPage,
}

impl SourceKind {
    /// The name of the kind.
    pub open spec fn named(self) -> Seq<char> {
        match self {
            SourceKind::Composio => "Composio"@,
            SourceKind::Conversation => "Conversation"@,
            SourceKind::Folder => "Folder"@,
            SourceKind::GithubRepo => "GithubRepo"@,
            SourceKind::TwitterQuery => "TwitterQuery"@,
            SourceKind::RssFeed => "RssFeed"@,
            SourceKind::WebPage => "WebPage"@,
        }
    }

    /// The name of the kind.
    pub fn name(self) -> (r: &'static str)
        ensures
            r@ == self.named(),
    {
        match self {
            SourceKind::Composio => "Composio",
            SourceKind::Conversation => "Conversation",
            SourceKind::Folder => "Folder",
            SourceKind::GithubRepo => "GithubRepo",
            SourceKind::TwitterQuery => "TwitterQuery",
            SourceKind::RssFeed => "RssFeed",
            SourceKind::WebPage => "WebPage",
        }
    }
}

/// What one sync of a source may spend.
#[derive(Clone, Copy, Debug, PartialEq, Eq, Structural)]
pub struct SyncBudget {
    pub max_items: Option<u32>,
    pub max_tokens_per_sync: Option<u64>,
    /// Dollars, a double-precision number by its bit pattern.
    pub max_cost_per_sync_usd: Option<u64>,
    pub sync_depth_days: Option<u32>,
}

/// A row of the source registry.
#[derive(Clone, Debug)]
pub struct MemorySourceEntry {
    pub id: String,
    pub kind: SourceKind,
    pub label: String,
    pub enabled: bool,
    /// Toolkit slug of a connector source.
    pub toolkit: Option<String>,
    /// Connection id of a connector source.
    pub connection_id: Option<String>,
    /// What one sync of the source may spend.
    pub budget: SyncBudget,
}

} // verus!
