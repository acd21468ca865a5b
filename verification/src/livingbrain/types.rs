//! Request and response values of the LivingBrain API.

use vstd::prelude::*;

use crate::json::{add_text, add_value, Json};
use crate::text::trim;

verus! {

/// A kind of content LivingBrain can capture.
#[derive(Clone, Copy, Debug, PartialEq, Eq, Structural)]
pub enum CaptureKind {
    /// A text note.
    Note,
    /// Arbitrary text content.
    Text,
    /// A remote or uploaded file.
    File,
    /// A web URL.
    Url,
    /// An audio or textual transcript.
    Transcript,
    /// An agent or user chat turn.
    ChatTurn,
    /// Content received from an integration.
    Integration,
}

impl CaptureKind {
    /// The name on the wire.
    pub open spec fn wire(self) -> Seq<char> {
        match self {
            CaptureKind::Note => "note"@,
            CaptureKind::Text => "text"@,
            CaptureKind::File => "file"@,
            CaptureKind::Url => "url"@,
            CaptureKind::Transcript => "transcript"@,
            CaptureKind::ChatTurn => "chat_turn"@,
            CaptureKind::Integration => "integration"@,
        }
    }

    /// The name on the wire.
    pub fn as_str(self) -> (r: &'static str)
        ensures
            r@ == self.wire(),
    {
        match self {
            CaptureKind::Note => "note",
            CaptureKind::Text => "text",
            CaptureKind::File => "file",
            CaptureKind::Url => "url",
            CaptureKind::Transcript => "transcript",
            CaptureKind::ChatTurn => "chat_turn",
            CaptureKind::Integration => "integration",
        }
    }
}

/// A capture submitted to LivingBrain.
#[derive(Clone, Debug, PartialEq, Eq)]
pub struct Capture {
    /// The source-content kind.
    pub kind: CaptureKind,
    /// Inline textual content, mutually exclusive with `fetch_url`.
    pub content: Option<String>,
    /// A URL that LivingBrain should fetch, mutually exclusive with `content`.
    pub fetch_url: Option<String>,
    /// Stable host event id used by LivingBrain for deduplication.
    pub origin_ref: Option<String>,
    /// Host provenance kept by LivingBrain with the capture.
    pub source: Option<String>,
    /// An optional display label.
    pub label: Option<String>,
}

/// Who wrote a conversation turn.
#[derive(Clone, Copy, Debug, PartialEq, Eq, Structural)]
pub enum ChatSender {
    /// The end user.
    User,
    /// An agent.
    Agent,
}

impl ChatSender {
    /// The name on the wire.
    pub open spec fn wire(self) -> Seq<char> {
        match self {
            ChatSender::User => "user"@,
            ChatSender::Agent => "agent"@,
        }
    }

    /// The name on the wire.
    pub fn as_str(self) -> (r: &'static str)
        ensures
            r@ == self.wire(),
    {
        match self {
            ChatSender::User => "user",
            ChatSender::Agent => "agent",
        }
    }
}

/// A conversation turn submitted for optional capture.
#[derive(Clone, Debug, PartialEq, Eq)]
pub struct ChatTurn {
    /// Text spoken in the turn.
    pub text: String,
    /// Who wrote the turn.
    pub sender: ChatSender,
    /// Stable host event id used for deduplication when the turn is captured.
    pub origin_ref: Option<String>,
    /// Optional name of the responding agent.
    pub agent_name: Option<String>,
}

/// LivingBrain's decision about a submitted conversation turn.
#[derive(Clone, Debug, PartialEq, Eq)]
pub struct ChatTurnReceipt {
    /// Whether LivingBrain accepted the turn for capture.
    pub worthy: bool,
    /// The service's explanation for the decision.
    pub reason: String,
    /// The ingest-source id when the turn was accepted.
    pub source_id: Option<String>,
}

/// A source created or accepted by LivingBrain capture ingestion.
#[derive(Clone, Debug, PartialEq, Eq)]
pub struct CaptureReceipt {
    /// Service-assigned ingest-source id.
    pub id: String,
    /// Native ingestion status, when returned.
    pub status: Option<String>,
}

/// Per-source outcomes of a batch capture submission.
#[derive(Clone, Debug, PartialEq, Eq)]
pub struct CaptureBatchReceipt {
    /// The individual sources accepted or rejected by the service.
    pub items: Vec<CaptureReceipt>,
}

/// A captured source and its current ingestion state.
#[derive(Clone, Debug, PartialEq, Eq)]
pub struct CaptureSource {
    /// Service-assigned ingest-source id.
    pub id: String,
    /// Native ingestion status, when returned.
    pub status: Option<String>,
}

/// One result of LivingBrain's page search.
#[derive(Clone, Debug, PartialEq, Eq)]
pub struct LivingBrainSearchResult {
    /// Stable page id.
    pub page_id: String,
    /// URL-safe page identifier.
    pub slug: String,
    /// Page title.
    pub title: String,
    /// Search-result summary.
    pub summary: String,
    /// LivingBrain's page type.
    pub page_type: String,
    /// Current page state.
    pub status: String,
    /// Native similarity score, a double-precision number by its bit pattern.
    pub similarity: u64,
}

/// LivingBrain's markdown export.
#[derive(Clone, Debug, PartialEq, Eq)]
pub struct LivingBrainExport {
    /// The brain represented by this export.
    pub brain_id: String,
    /// The complete markdown bundle.
    pub markdown: String,
}

/// A capture, as texts.
pub ghost struct CaptureView {
    pub kind: CaptureKind,
    pub content: Option<Seq<char>>,
    pub fetch_url: Option<Seq<char>>,
    pub origin_ref: Option<Seq<char>>,
    pub source: Option<Seq<char>>,
    pub label: Option<Seq<char>>,
}

impl View for Capture {
    type V = CaptureView;

    open spec fn view(&self) -> CaptureView {
        CaptureView {
            kind: self.kind,
            content: crate::text::opt_text(self.content),
            fetch_url: crate::text::opt_text(self.fetch_url),
            origin_ref: crate::text::opt_text(self.origin_ref),
            source: crate::text::opt_text(self.source),
            label: crate::text::opt_text(self.label),
        }
    }
}

/// A conversation turn, as texts.
pub ghost struct TurnView {
    pub text: Seq<char>,
    pub sender: ChatSender,
    pub origin_ref: Option<Seq<char>>,
    pub agent_name: Option<Seq<char>>,
}

impl View for ChatTurn {
    type V = TurnView;

    open spec fn view(&self) -> TurnView {
        TurnView {
            text: self.text@,
            sender: self.sender,
            origin_ref: crate::text::opt_text(self.origin_ref),
            agent_name: crate::text::opt_text(self.agent_name),
        }
    }
}

/// Whether a text is there and is not blank.
pub open spec fn is_given(text: Option<Seq<char>>) -> bool {
    text is Some && !crate::text::is_blank(text->0)
}

/// Whether a text is there but blank.
pub open spec fn is_hollow(text: Option<Seq<char>>) -> bool {
    text is Some && crate::text::is_blank(text->0)
}

/// An optional text as JSON.
pub open spec fn opt_json(text: Option<Seq<char>>) -> crate::json::JsonView {
    match text {
        Some(text) => crate::json::JsonView::Text(text),
        None => crate::json::JsonView::Null,
    }
}

impl CaptureView {
    /// What is wrong with a capture, if anything: it has to give exactly one of
    /// content and URL, and neither its reference nor its source may be blank.
    pub open spec fn fault(self) -> Option<Seq<char>> {
        if is_given(self.content) == is_given(self.fetch_url) {
            Some("LivingBrain capture needs exactly one of content or fetch_url"@)
        } else if is_hollow(self.origin_ref) {
            Some("LivingBrain origin_ref must not be empty"@)
        } else if is_hollow(self.source) {
            Some("LivingBrain source must not be empty"@)
        } else {
            None
        }
    }

    /// The capture on the wire.
    pub open spec fn json(self) -> crate::json::JsonView {
        crate::json::JsonView::Object(
            seq![
                ("kind"@, crate::json::JsonView::Text(self.kind.wire())),
                ("content"@, opt_json(self.content)),
                ("fetchUrl"@, opt_json(self.fetch_url)),
                ("originRef"@, opt_json(self.origin_ref)),
                ("source"@, opt_json(self.source)),
                ("label"@, opt_json(self.label)),
            ],
        )
    }
}

impl TurnView {
    /// What is wrong with a turn, if anything: neither its text nor its reference may
    /// be blank.
    pub open spec fn fault(self) -> Option<Seq<char>> {
        if crate::text::is_blank(self.text) {
            Some("LivingBrain chat turn text must not be empty"@)
        } else if is_hollow(self.origin_ref) {
            Some("LivingBrain chat turn origin_ref must not be empty"@)
        } else {
            None
        }
    }

    /// The turn on the wire.
    pub open spec fn json(self) -> crate::json::JsonView {
        crate::json::JsonView::Object(
            seq![
                ("text"@, crate::json::JsonView::Text(self.text)),
                ("sender"@, crate::json::JsonView::Text(self.sender.wire())),
                ("originRef"@, opt_json(self.origin_ref)),
                ("agentName"@, opt_json(self.agent_name)),
            ],
        )
    }
}

/// Whether a result says what is wrong, where something is.
pub open spec fn faulted(r: Result<(), String>, fault: Option<Seq<char>>) -> bool {
    match r {
        Ok(()) => fault is None,
        Err(error) => fault == Some(error@),
    }
}

fn given(text: &Option<String>) -> (r: bool)
    ensures
        r == is_given(crate::text::opt_text(*text)),
{
    match text {
        Some(text) => !trim(text.as_str()).is_empty(),
        None => false,
    }
}

fn hollow(text: &Option<String>) -> (r: bool)
    ensures
        r == is_hollow(crate::text::opt_text(*text)),
{
    match text {
        Some(text) => trim(text.as_str()).is_empty(),
        None => false,
    }
}

fn add_opt(fields: &mut Vec<(String, Json)>, name: &str, text: &Option<String>)
    ensures
        crate::json::field_views(final(fields)@) == crate::json::field_views(old(fields)@).push(
            (name@, opt_json(crate::text::opt_text(*text))),
        ),
{
    match text {
        Some(text) => add_text(fields, name, text.as_str()),
        None => add_value(fields, name, Json::Null),
    }
}

impl Capture {
    /// Checks the shape of the capture.
    pub fn validate(&self) -> (r: Result<(), String>)
        ensures
            faulted(r, self@.fault()),
    {
        if given(&self.content) == given(&self.fetch_url) {
            return Err(
                "LivingBrain capture needs exactly one of content or fetch_url".to_owned(),
            );
        }
        if hollow(&self.origin_ref) {
            return Err("LivingBrain origin_ref must not be empty".to_owned());
        }
        if hollow(&self.source) {
            return Err("LivingBrain source must not be empty".to_owned());
        }
        Ok(())
    }

    /// The capture on the wire.
    pub fn to_json(&self) -> (r: Json)
        ensures
            r@ == self@.json(),
    {
        let mut fields: Vec<(String, Json)> = Vec::new();
        assert(crate::json::field_views(fields@) =~= Seq::empty());
        add_text(&mut fields, "kind", self.kind.as_str());
        add_opt(&mut fields, "content", &self.content);
        add_opt(&mut fields, "fetchUrl", &self.fetch_url);
        add_opt(&mut fields, "originRef", &self.origin_ref);
        add_opt(&mut fields, "source", &self.source);
        add_opt(&mut fields, "label", &self.label);
        proof {
            crate::json::lemma_object_view(fields);
            assert(crate::json::field_views(fields@) =~= self@.json()->Object_0);
        }
        Json::Object(fields)
    }
}

impl ChatTurn {
    /// Checks the turn.
    pub fn validate(&self) -> (r: Result<(), String>)
        ensures
            faulted(r, self@.fault()),
    {
        if trim(self.text.as_str()).is_empty() {
            return Err("LivingBrain chat turn text must not be empty".to_owned());
        }
        if hollow(&self.origin_ref) {
            return Err("LivingBrain chat turn origin_ref must not be empty".to_owned());
        }
        Ok(())
    }

    /// The turn on the wire.
    pub fn to_json(&self) -> (r: Json)
        ensures
            r@ == self@.json(),
    {
        let mut fields: Vec<(String, Json)> = Vec::new();
        assert(crate::json::field_views(fields@) =~= Seq::empty());
        add_text(&mut fields, "text", self.text.as_str());
        add_text(&mut fields, "sender", self.sender.as_str());
        add_opt(&mut fields, "originRef", &self.origin_ref);
        add_opt(&mut fields, "agentName", &self.agent_name);
        proof {
            crate::json::lemma_object_view(fields);
            assert(crate::json::field_views(fields@) =~= self@.json()->Object_0);
        }
        Json::Object(fields)
    }
}

} // verus!
