//! A client of LivingBrain's hosted Brain API, scoped to one brain.
//!
//! LivingBrain takes captures in asynchronously and exposes compiled pages; it is no
//! store of exact records. Every operation checks its input and says which request to
//! send. The credentials stay with whoever sends the requests.

use vstd::prelude::*;

pub mod laws;
pub mod session;
pub mod types;

use crate::json::{add_text, add_value, Json};
use crate::livingbrain::types::{Capture, ChatTurn};
use crate::outside::{is_header_value, url_scheme};
use crate::text::{chars_of, code_point, joined2, joined3, same_text, trim};

verus! {

/// Public base URL of LivingBrain's hosted API.
pub const LIVINGBRAIN_API_ENDPOINT: &'static str = "https://api.livingbrain.com";

/// Upper bound on the captures of one batch.
pub const MAX_BATCH_SIZE: usize = 100;

/// How a request is made.
#[derive(Clone, Copy, Debug, PartialEq, Eq, Structural)]
pub enum HttpMethod {
    Get,
    Post,
    Delete,
}

/// Whether a request may be sent again.
#[derive(Clone, Copy, Debug, PartialEq, Eq, Structural)]
pub enum Attempts {
    /// It is sent once.
    Once,
    /// It is sent again after a transient failure.
    RetryTransient,
}

/// A request to be sent, relative to the endpoint.
#[derive(Debug)]
pub struct BrainRequest {
    pub method: HttpMethod,
    pub path: String,
    pub body: Option<Json>,
    pub attempts: Attempts,
}

/// A request, as texts.
pub ghost struct RequestView {
    pub method: HttpMethod,
    pub path: Seq<char>,
    pub body: Option<crate::json::JsonView>,
    pub attempts: Attempts,
}

impl View for BrainRequest {
    type V = RequestView;

    open spec fn view(&self) -> RequestView {
        RequestView {
            method: self.method,
            path: self.path@,
            body: match self.body {
                Some(body) => Some(body@),
                None => None,
            },
            attempts: self.attempts,
        }
    }
}

/// A client of one brain.
#[derive(Debug)]
pub struct LivingBrain {
    endpoint: String,
    brain_id: String,
    /// The deadline of a request, where it is not the sender's own.
    timeout_millis: Option<u64>,
}

/// A client, as texts.
pub ghost struct BrainView {
    pub endpoint: Seq<char>,
    pub brain_id: Seq<char>,
    pub timeout_millis: Option<u64>,
}

impl View for LivingBrain {
    type V = BrainView;

    closed spec fn view(&self) -> BrainView {
        BrainView {
            endpoint: self.endpoint@,
            brain_id: self.brain_id@,
            timeout_millis: self.timeout_millis,
        }
    }
}

/// A character that a path segment may hold.
pub open spec fn is_url_safe(c: char) -> bool {
    ||| '0' <= c <= '9'
    ||| 'A' <= c <= 'Z'
    ||| 'a' <= c <= 'z'
    ||| c == '-'
    ||| c == '_'
    ||| c == '.'
}

/// What is wrong with a path segment, if anything.
pub open spec fn segment_fault(value: Seq<char>, name: Seq<char>) -> Option<Seq<char>> {
    if crate::text::is_blank(value) {
        Some(name + " must not be empty"@)
    } else if value == "."@ || value == ".."@ {
        Some(name + " must not be a dot path segment"@)
    } else if exists|i: int| 0 <= i < value.len() && !is_url_safe(#[trigger] value[i]) {
        Some(name + " must be a URL-safe identifier"@)
    } else {
        None
    }
}

/// Whether an endpoint's scheme is one that requests can be sent over.
pub open spec fn is_http(scheme: Option<Seq<char>>) -> bool {
    scheme == Some("http"@) || scheme == Some("https"@)
}

/// What is wrong with connection fields, if anything, where `scheme` is the scheme of
/// the endpoint.
pub open spec fn connection_fault(
    scheme: Option<Seq<char>>,
    api_key: Seq<char>,
    subject_id: Seq<char>,
    brain_id: Seq<char>,
) -> Option<Seq<char>> {
    if crate::text::is_blank(api_key) {
        Some("LivingBrain API key must not be empty"@)
    } else if crate::text::is_blank(subject_id) {
        Some("LivingBrain subject id must not be empty"@)
    } else if crate::text::is_blank(brain_id) {
        Some("LivingBrain brain id must not be empty"@)
    } else if segment_fault(brain_id, "LivingBrain brain id"@) is Some {
        segment_fault(brain_id, "LivingBrain brain id"@)
    } else if !is_http(scheme) {
        Some("LivingBrain endpoint must be an HTTP(S) URL"@)
    } else if exists|i: int|
        0 <= i < subject_id.len() && !crate::outside::header_char(#[trigger] subject_id[i]) {
        Some("LivingBrain subject id must be encodable as an HTTP header"@)
    } else {
        None
    }
}

/// Whether a double-precision number, by its bit pattern, lies between zero and one,
/// both included. Negative zero counts as zero.
pub open spec fn in_unit_interval(bits: u64) -> bool {
    bits <= 0x3ff0_0000_0000_0000 || bits == 0x8000_0000_0000_0000
}

/// What is wrong with a search, if anything.
pub open spec fn search_fault(
    query: Seq<char>,
    top_k: usize,
    min_similarity: Option<u64>,
) -> Option<Seq<char>> {
    if crate::text::is_blank(query) {
        Some("LivingBrain search query must not be empty"@)
    } else if top_k == 0 {
        Some("LivingBrain search top_k must be positive"@)
    } else if min_similarity is Some && !in_unit_interval(min_similarity->0) {
        Some("LivingBrain minimum similarity must be between zero and one"@)
    } else {
        None
    }
}

/// A search on the wire.
pub open spec fn search_json(
    query: Seq<char>,
    top_k: usize,
    min_similarity: Option<u64>,
) -> crate::json::JsonView {
    crate::json::JsonView::Object(
        seq![
            ("query"@, crate::json::JsonView::Text(query)),
            ("topK"@, crate::json::JsonView::Number(top_k as u64)),
            (
                "minSimilarity"@,
                match min_similarity {
                    Some(bits) => crate::json::JsonView::Fraction(bits),
                    None => crate::json::JsonView::Null,
                },
            ),
        ],
    )
}

/// Only a capture with a reference may be sent again.
pub open spec fn capture_attempts(capture: crate::livingbrain::types::CaptureView) -> Attempts {
    if capture.origin_ref is Some {
        Attempts::RetryTransient
    } else {
        Attempts::Once
    }
}

/// The first thing wrong with a list of captures, each of which needs a reference.
pub open spec fn captures_fault(captures: Seq<crate::livingbrain::types::CaptureView>) -> Option<
    Seq<char>,
>
    decreases captures.len(),
{
    if captures.len() == 0 {
        None
    } else if captures[0].fault() is Some {
        captures[0].fault()
    } else if captures[0].origin_ref is None {
        Some("LivingBrain batch captures require an origin_ref"@)
    } else {
        captures_fault(captures.drop_first())
    }
}

/// What is wrong with a batch, if anything.
pub open spec fn batch_fault(captures: Seq<crate::livingbrain::types::CaptureView>) -> Option<
    Seq<char>,
> {
    if captures.len() == 0 {
        Some("LivingBrain capture batch must not be empty"@)
    } else if captures.len() > MAX_BATCH_SIZE {
        Some("LivingBrain capture batch must contain at most 100 captures"@)
    } else {
        captures_fault(captures)
    }
}

/// A batch on the wire.
pub open spec fn batch_json(
    captures: Seq<crate::livingbrain::types::CaptureView>,
) -> crate::json::JsonView {
    crate::json::JsonView::Object(
        seq![
            (
                "captures"@,
                crate::json::JsonView::Array(
                    captures.map_values(
                        |c: crate::livingbrain::types::CaptureView| c.json(),
                    ),
                ),
            ),
        ],
    )
}

impl BrainView {
    /// What a client keeps: its brain id is a safe path segment.
    pub open spec fn wf(self) -> bool {
        segment_fault(self.brain_id, "LivingBrain brain id"@) is None
    }

    /// The path of an operation on the brain.
    pub open spec fn path(self, operation: Seq<char>) -> Seq<char> {
        "v1/brains/"@ + self.brain_id + operation
    }
}

impl BrainView {
    /// A request that only reads.
    pub open spec fn reading(self, operation: Seq<char>) -> RequestView {
        RequestView {
            method: HttpMethod::Get,
            path: self.path(operation),
            body: None,
            attempts: Attempts::RetryTransient,
        }
    }

    /// A request that hands something over.
    pub open spec fn posting(
        self,
        operation: Seq<char>,
        body: crate::json::JsonView,
        attempts: Attempts,
    ) -> RequestView {
        RequestView {
            method: HttpMethod::Post,
            path: self.path(operation),
            body: Some(body),
            attempts,
        }
    }

    /// The request for one capture.
    pub open spec fn capture_request(
        self,
        capture: crate::livingbrain::types::CaptureView,
    ) -> RequestView {
        self.posting("/captures"@, capture.json(), capture_attempts(capture))
    }

    /// The request for a batch of captures.
    pub open spec fn batch_request(
        self,
        captures: Seq<crate::livingbrain::types::CaptureView>,
    ) -> RequestView {
        self.posting("/captures/batch"@, batch_json(captures), Attempts::RetryTransient)
    }

    /// The request for a conversation turn.
    pub open spec fn turn_request(self, turn: crate::livingbrain::types::TurnView) -> RequestView {
        self.posting("/captures/chat-turn"@, turn.json(), Attempts::Once)
    }

    /// The request for a search.
    pub open spec fn search_request(
        self,
        query: Seq<char>,
        top_k: usize,
        min_similarity: Option<u64>,
    ) -> RequestView {
        self.posting(
            "/search"@,
            search_json(query, top_k, min_similarity),
            Attempts::RetryTransient,
        )
    }

    /// The request to delete an ingest source.
    pub open spec fn removal_request(self, source_id: Seq<char>) -> RequestView {
        RequestView {
            method: HttpMethod::Delete,
            path: self.path("/sources/"@ + source_id),
            body: None,
            attempts: Attempts::Once,
        }
    }
}

/// Whether a result is a request, or says what is wrong.
pub open spec fn answers(
    r: Result<BrainRequest, String>,
    fault: Option<Seq<char>>,
    request: RequestView,
) -> bool {
    match r {
        Ok(sent) => fault is None && sent@ == request,
        Err(error) => fault == Some(error@),
    }
}

/// How an attempt to send a request failed.
#[derive(Clone, Copy, Debug, PartialEq, Eq, Structural)]
pub enum SendFailure {
    /// The service answered with a status.
    Status(u16),
    /// No answer came in time.
    Timeout,
    /// Anything else.
    Other,
}

/// Whether a failure is transient.
pub open spec fn is_transient(failure: SendFailure) -> bool {
    ||| failure == SendFailure::Status(429)
    ||| failure == SendFailure::Status(502)
    ||| failure == SendFailure::Status(503)
    ||| failure == SendFailure::Status(504)
    ||| failure == SendFailure::Timeout
}

/// Whether a request may be sent again after a failure: the failure has to be
/// transient and the request one that may be repeated.
pub fn may_resend(attempts: Attempts, failure: SendFailure) -> (r: bool)
    ensures
        r == is_resent(attempts, failure),
{
    let transient = match failure {
        SendFailure::Status(status) => status == 429 || status == 502 || status == 503 || status
            == 504,
        SendFailure::Timeout => true,
        SendFailure::Other => false,
    };
    attempts == Attempts::RetryTransient && transient
}

/// Refuses what could change the shape of a path: a blank segment, a dot segment, and
/// any character that is not URL-safe.
pub fn validate_path_segment(value: &str, name: &str) -> (r: Result<(), String>)
    ensures
        crate::livingbrain::types::faulted(r, segment_fault(value@, name@)),
{
    if trim(value).is_empty() {
        return Err(joined2(name, " must not be empty"));
    }
    if same_text(value, ".") || same_text(value, "..") {
        return Err(joined2(name, " must not be a dot path segment"));
    }
    let chars = chars_of(value);
    let mut i: usize = 0;
    while i < chars.len()
        invariant
            i <= chars.len(),
            chars@ == value@,
            !crate::text::is_blank(value@),
            value@ != "."@,
            value@ != ".."@,
            forall|j: int| 0 <= j < i ==> is_url_safe(#[trigger] value@[j]),
        decreases chars.len() - i,
    {
        let n: u32 = code_point(chars[i]);
        let safe = (48 <= n && n <= 57) || (65 <= n && n <= 90) || (97 <= n && n <= 122) || n == 45
            || n == 95 || n == 46;
        if !safe {
            assert(!is_url_safe(value@[i as int]));
            return Err(joined2(name, " must be a URL-safe identifier"));
        }
        i = i + 1;
    }
    Ok(())
}

/// Checks connection fields, given the scheme of the endpoint.
pub fn check_connection(
    scheme: Option<String>,
    api_key: &str,
    subject_id: &str,
    brain_id: &str,
) -> (r: Result<(), String>)
    ensures
        crate::livingbrain::types::faulted(
            r,
            connection_fault(crate::text::opt_text(scheme), api_key@, subject_id@, brain_id@),
        ),
{
    if trim(api_key).is_empty() {
        return Err("LivingBrain API key must not be empty".to_owned());
    }
    if trim(subject_id).is_empty() {
        return Err("LivingBrain subject id must not be empty".to_owned());
    }
    if trim(brain_id).is_empty() {
        return Err("LivingBrain brain id must not be empty".to_owned());
    }
    match validate_path_segment(brain_id, "LivingBrain brain id") {
        Ok(()) => {},
        Err(error) => {
            return Err(error);
        },
    }
    let http = match &scheme {
        Some(scheme) => same_text(scheme.as_str(), "http") || same_text(scheme.as_str(), "https"),
        None => false,
    };
    if !http {
        return Err("LivingBrain endpoint must be an HTTP(S) URL".to_owned());
    }
    if !is_header_value(subject_id) {
        return Err("LivingBrain subject id must be encodable as an HTTP header".to_owned());
    }
    Ok(())
}

/// The headers that every request carries, by name and value.
pub open spec fn headers_of(api_key: Seq<char>, subject_id: Seq<char>) -> Seq<
    (Seq<char>, Seq<char>),
> {
    seq![("authorization"@, "Bearer "@ + api_key), ("x-subject-id"@, subject_id)]
}

/// The names and values of some headers.
pub open spec fn header_views(headers: Seq<(String, String)>) -> Seq<(Seq<char>, Seq<char>)> {
    headers.map_values(|h: (String, String)| (h.0@, h.1@))
}

/// The headers that every request of a client carries: the API key as a bearer credential,
/// and the subject. Whoever sends the requests keeps them; a client holds neither.
pub fn request_headers(api_key: &str, subject_id: &str) -> (r: Vec<(String, String)>)
    ensures
        header_views(r@) == headers_of(api_key@, subject_id@),
        r@.len() == 2,
        r@[0].0@ == "authorization"@,
        r@[0].1@ == "Bearer "@ + api_key@,
        r@[1].0@ == "x-subject-id"@,
        r@[1].1@ == subject_id@,
{
    let mut headers: Vec<(String, String)> = Vec::new();
    headers.push(("authorization".to_owned(), joined2("Bearer ", api_key)));
    headers.push(("x-subject-id".to_owned(), subject_id.to_owned()));
    assert(header_views(headers@) =~= headers_of(api_key@, subject_id@));
    headers
}

impl LivingBrain {
    /// A client of one brain behind an endpoint. The API key and the subject id are
    /// checked and not kept.
    pub fn new(endpoint: &str, api_key: &str, subject_id: &str, brain_id: &str) -> (r: Result<
        Self,
        String,
    >)
        ensures
            match r {
                Ok(brain) => connection_fault(
                    crate::outside::scheme_of(endpoint@),
                    api_key@,
                    subject_id@,
                    brain_id@,
                ) is None && brain@.wf() && brain@ == (BrainView {
                    endpoint: endpoint@,
                    brain_id: brain_id@,
                    timeout_millis: None,
                }),
                Err(error) => connection_fault(
                    crate::outside::scheme_of(endpoint@),
                    api_key@,
                    subject_id@,
                    brain_id@,
                ) == Some(error@),
            },
    {
        let scheme = url_scheme(endpoint);
        match check_connection(scheme, api_key, subject_id, brain_id) {
            Ok(()) => Ok(
                LivingBrain {
                    endpoint: endpoint.to_owned(),
                    brain_id: brain_id.to_owned(),
                    timeout_millis: None,
                },
            ),
            Err(error) => Err(error),
        }
    }

    /// A client of one brain of the hosted API.
    pub fn cloud(api_key: &str, subject_id: &str, brain_id: &str) -> (r: Result<Self, String>)
        ensures
            match r {
                Ok(brain) => connection_fault(
                    crate::outside::scheme_of(LIVINGBRAIN_API_ENDPOINT@),
                    api_key@,
                    subject_id@,
                    brain_id@,
                ) is None && brain@.wf() && brain@ == (BrainView {
                    endpoint: LIVINGBRAIN_API_ENDPOINT@,
                    brain_id: brain_id@,
                    timeout_millis: None,
                }),
                Err(error) => connection_fault(
                    crate::outside::scheme_of(LIVINGBRAIN_API_ENDPOINT@),
                    api_key@,
                    subject_id@,
                    brain_id@,
                ) == Some(error@),
            },
    {
        LivingBrain::new(LIVINGBRAIN_API_ENDPOINT, api_key, subject_id, brain_id)
    }

    /// The client with another deadline per request.
    pub fn with_request_timeout(self, timeout_millis: u64) -> (r: Self)
        ensures
            r@ == (BrainView { timeout_millis: Some(timeout_millis), ..self@ }),
    {
        LivingBrain {
            endpoint: self.endpoint,
            brain_id: self.brain_id,
            timeout_millis: Some(timeout_millis),
        }
    }

    /// The base URL that requests are relative to.
    pub fn endpoint(&self) -> (r: &str)
        ensures
            r@ == self@.endpoint,
    {
        self.endpoint.as_str()
    }

    /// The deadline of a request, where it is not the sender's own.
    pub fn request_timeout_millis(&self) -> (r: Option<u64>)
        ensures
            r == self@.timeout_millis,
    {
        self.timeout_millis
    }

    fn path(&self, operation: &str) -> (r: String)
        ensures
            r@ == self@.path(operation@),
    {
        joined3("v1/brains/", self.brain_id.as_str(), operation)
    }

    fn read(&self, operation: &str) -> (r: BrainRequest)
        ensures
            r@ == (RequestView {
                method: HttpMethod::Get,
                path: self@.path(operation@),
                body: None,
                attempts: Attempts::RetryTransient,
            }),
    {
        BrainRequest {
            method: HttpMethod::Get,
            path: self.path(operation),
            body: None,
            attempts: Attempts::RetryTransient,
        }
    }

    /// Submits one capture for asynchronous ingestion. Only a capture with a reference
    /// may be sent again.
    pub fn capture(&self, capture: &Capture) -> (r: Result<BrainRequest, String>)
        ensures
            answers(
                r,
                capture@.fault(),
                (RequestView {
                    method: HttpMethod::Post,
                    path: self@.path("/captures"@),
                    body: Some(capture@.json()),
                    attempts: capture_attempts(capture@),
                }),
            ),
            answers(r, capture@.fault(), self@.capture_request(capture@)),
    {
        match capture.validate() {
            Ok(()) => {},
            Err(error) => {
                return Err(error);
            },
        }
        let attempts = if capture.origin_ref.is_some() {
            Attempts::RetryTransient
        } else {
            Attempts::Once
        };
        Ok(
            BrainRequest {
                method: HttpMethod::Post,
                path: self.path("/captures"),
                body: Some(capture.to_json()),
                attempts,
            },
        )
    }

    /// Submits a bounded batch of captures, each with a reference.
    pub fn capture_batch(&self, captures: &Vec<Capture>) -> (r: Result<BrainRequest, String>)
        ensures
            answers(
                r,
                batch_fault(captures@.map_values(|c: Capture| c@)),
                (RequestView {
                    method: HttpMethod::Post,
                    path: self@.path("/captures/batch"@),
                    body: Some(batch_json(captures@.map_values(|c: Capture| c@))),
                    attempts: Attempts::RetryTransient,
                }),
            ),
            answers(
                r,
                batch_fault(captures@.map_values(|c: Capture| c@)),
                self@.batch_request(captures@.map_values(|c: Capture| c@)),
            ),
    {
        let ghost views = captures@.map_values(|c: Capture| c@);
        if captures.len() == 0 {
            return Err("LivingBrain capture batch must not be empty".to_owned());
        }
        if captures.len() > MAX_BATCH_SIZE {
            return Err("LivingBrain capture batch must contain at most 100 captures".to_owned());
        }
        let mut items: Vec<Json> = Vec::new();
        let mut i: usize = 0;
        assert(views.skip(0) =~= views);
        while i < captures.len()
            invariant
                i <= captures.len(),
                0 < captures.len() <= MAX_BATCH_SIZE,
                items.len() == i,
                views == captures@.map_values(|c: Capture| c@),
                captures_fault(views) == captures_fault(views.skip(i as int)),
                forall|j: int| 0 <= j < i ==> (#[trigger] items@[j])@ == views[j].json(),
            decreases captures.len() - i,
        {
            assert(views.skip(i as int).drop_first() =~= views.skip(i as int + 1));
            assert(views.skip(i as int)[0] == captures@[i as int]@);
            match captures[i].validate() {
                Ok(()) => {},
                Err(error) => {
                    return Err(error);
                },
            }
            if captures[i].origin_ref.is_none() {
                return Err("LivingBrain batch captures require an origin_ref".to_owned());
            }
            items.push(captures[i].to_json());
            i = i + 1;
        }
        proof {
            crate::json::lemma_array_view(items);
            assert(items@.map_values(|j: Json| j@) =~= views.map_values(
                |c: crate::livingbrain::types::CaptureView| c.json(),
            ));
        }
        let mut fields: Vec<(String, Json)> = Vec::new();
        assert(crate::json::field_views(fields@) =~= Seq::empty());
        add_value(&mut fields, "captures", Json::Array(items));
        proof {
            crate::json::lemma_object_view(fields);
            assert(crate::json::field_views(fields@) =~= batch_json(views)->Object_0);
        }
        Ok(
            BrainRequest {
                method: HttpMethod::Post,
                path: self.path("/captures/batch"),
                body: Some(Json::Object(fields)),
                attempts: Attempts::RetryTransient,
            },
        )
    }

    /// Submits one conversation turn for optional capture. It is sent once.
    pub fn capture_chat_turn(&self, turn: &ChatTurn) -> (r: Result<BrainRequest, String>)
        ensures
            answers(
                r,
                turn@.fault(),
                (RequestView {
                    method: HttpMethod::Post,
                    path: self@.path("/captures/chat-turn"@),
                    body: Some(turn@.json()),
                    attempts: Attempts::Once,
                }),
            ),
            answers(r, turn@.fault(), self@.turn_request(turn@)),
    {
        match turn.validate() {
            Ok(()) => {},
            Err(error) => {
                return Err(error);
            },
        }
        Ok(
            BrainRequest {
                method: HttpMethod::Post,
                path: self.path("/captures/chat-turn"),
                body: Some(turn.to_json()),
                attempts: Attempts::Once,
            },
        )
    }

    /// Searches the compiled pages. The least similarity is a double-precision number
    /// by its bit pattern.
    pub fn search(&self, query: &str, top_k: usize, min_similarity: Option<u64>) -> (r: Result<
        BrainRequest,
        String,
    >)
        ensures
            answers(
                r,
                search_fault(query@, top_k, min_similarity),
                (RequestView {
                    method: HttpMethod::Post,
                    path: self@.path("/search"@),
                    body: Some(search_json(query@, top_k, min_similarity)),
                    attempts: Attempts::RetryTransient,
                }),
            ),
            answers(
                r,
                search_fault(query@, top_k, min_similarity),
                self@.search_request(query@, top_k, min_similarity),
            ),
    {
        if trim(query).is_empty() {
            return Err("LivingBrain search query must not be empty".to_owned());
        }
        if top_k == 0 {
            return Err("LivingBrain search top_k must be positive".to_owned());
        }
        let similarity = match min_similarity {
            Some(bits) => {
                if !(bits <= 0x3ff0_0000_0000_0000 || bits == 0x8000_0000_0000_0000) {
                    return Err(
                        "LivingBrain minimum similarity must be between zero and one".to_owned(),
                    );
                }
                Json::Fraction(bits)
            },
            None => Json::Null,
        };
        let mut fields: Vec<(String, Json)> = Vec::new();
        assert(crate::json::field_views(fields@) =~= Seq::empty());
        add_text(&mut fields, "query", query);
        add_value(&mut fields, "topK", Json::Number(top_k as u64));
        add_value(&mut fields, "minSimilarity", similarity);
        proof {
            crate::json::lemma_object_view(fields);
            assert(crate::json::field_views(fields@) =~= search_json(
                query@,
                top_k,
                min_similarity,
            )->Object_0);
        }
        Ok(
            BrainRequest {
                method: HttpMethod::Post,
                path: self.path("/search"),
                body: Some(Json::Object(fields)),
                attempts: Attempts::RetryTransient,
            },
        )
    }

    /// Reads one page by slug.
    pub fn page(&self, slug: &str) -> (r: Result<BrainRequest, String>)
        ensures
            answers(
                r,
                segment_fault(slug@, "LivingBrain page slug"@),
                (RequestView {
                    method: HttpMethod::Get,
                    path: self@.path("/pages/"@ + slug@),
                    body: None,
                    attempts: Attempts::RetryTransient,
                }),
            ),
            answers(
                r,
                segment_fault(slug@, "LivingBrain page slug"@),
                self@.reading("/pages/"@ + slug@),
            ),
    {
        match validate_path_segment(slug, "LivingBrain page slug") {
            Ok(()) => {},
            Err(error) => {
                return Err(error);
            },
        }
        let operation = joined2("/pages/", slug);
        Ok(self.read(operation.as_str()))
    }

    /// Lists the pages.
    pub fn pages(&self) -> (r: BrainRequest)
        ensures
            r@ == (RequestView {
                method: HttpMethod::Get,
                path: self@.path("/pages"@),
                body: None,
                attempts: Attempts::RetryTransient,
            }),
            r@ == self@.reading("/pages"@),
    {
        self.read("/pages")
    }

    /// Reads the graph.
    pub fn graph(&self) -> (r: BrainRequest)
        ensures
            r@ == (RequestView {
                method: HttpMethod::Get,
                path: self@.path("/graph"@),
                body: None,
                attempts: Attempts::RetryTransient,
            }),
            r@ == self@.reading("/graph"@),
    {
        self.read("/graph")
    }

    /// Lists the ingestion status of the sources.
    pub fn sources(&self) -> (r: BrainRequest)
        ensures
            r@ == (RequestView {
                method: HttpMethod::Get,
                path: self@.path("/sources"@),
                body: None,
                attempts: Attempts::RetryTransient,
            }),
            r@ == self@.reading("/sources"@),
    {
        self.read("/sources")
    }

    /// Deletes one ingest source. It is sent once.
    pub fn remove_source(&self, source_id: &str) -> (r: Result<BrainRequest, String>)
        ensures
            answers(
                r,
                segment_fault(source_id@, "LivingBrain source id"@),
                (RequestView {
                    method: HttpMethod::Delete,
                    path: self@.path("/sources/"@ + source_id@),
                    body: None,
                    attempts: Attempts::Once,
                }),
            ),
            answers(
                r,
                segment_fault(source_id@, "LivingBrain source id"@),
                self@.removal_request(source_id@),
            ),
    {
        match validate_path_segment(source_id, "LivingBrain source id") {
            Ok(()) => {},
            Err(error) => {
                return Err(error);
            },
        }
        let operation = joined2("/sources/", source_id);
        Ok(
            BrainRequest {
                method: HttpMethod::Delete,
                path: self.path(operation.as_str()),
                body: None,
                attempts: Attempts::Once,
            },
        )
    }

    /// Exports the brain as a markdown bundle.
    pub fn export_markdown(&self) -> (r: BrainRequest)
        ensures
            r@ == (RequestView {
                method: HttpMethod::Get,
                path: self@.path("/export/markdown"@),
                body: None,
                attempts: Attempts::RetryTransient,
            }),
            r@ == self@.reading("/export/markdown"@),
    {
        self.read("/export/markdown")
    }
}

/// Whether a failed request is sent again.
pub open spec fn is_resent(attempts: Attempts, failure: SendFailure) -> bool {
    attempts is RetryTransient && is_transient(failure)
}

/// An accepted capture gives exactly one of content and URL, and it is sent again only
/// where it carries a reference, which is then not blank: a repeated capture keeps the
/// key that the service deduplicates by.
pub proof fn law_captures_are_repeated_by_reference(
    capture: crate::livingbrain::types::CaptureView,
    failure: SendFailure,
)
    requires
        capture.fault() is None,
    ensures
        crate::livingbrain::types::is_given(capture.content)
            != crate::livingbrain::types::is_given(capture.fetch_url),
        is_resent(capture_attempts(capture), failure) ==> crate::livingbrain::types::is_given(
            capture.origin_ref,
        ),
        capture.source is Some ==> crate::livingbrain::types::is_given(capture.source),
{
}

/// Requests that the service refused are not sent again, and neither is any request
/// that is sent once.
pub proof fn law_refusals_are_final(attempts: Attempts, failure: SendFailure)
    ensures
        failure == SendFailure::Status(400) || failure == SendFailure::Status(401) || failure
            == SendFailure::Status(403) || failure == SendFailure::Status(404) ==> !is_resent(
            attempts,
            failure,
        ),
        attempts is Once ==> !is_resent(attempts, failure),
{
}

/// An accepted batch holds between one and a hundred captures, each of them accepted on
/// its own and with a reference that is not blank.
pub proof fn law_batches_are_bounded(captures: Seq<crate::livingbrain::types::CaptureView>)
    requires
        batch_fault(captures) is None,
    ensures
        1 <= captures.len() <= MAX_BATCH_SIZE,
        forall|i: int|
            0 <= i < captures.len() ==> (#[trigger] captures[i]).fault() is None
                && crate::livingbrain::types::is_given(captures[i].origin_ref),
{
    lemma_captures_accepted(captures);
}

proof fn lemma_captures_accepted(captures: Seq<crate::livingbrain::types::CaptureView>)
    requires
        captures_fault(captures) is None,
    ensures
        forall|i: int|
            0 <= i < captures.len() ==> (#[trigger] captures[i]).fault() is None
                && crate::livingbrain::types::is_given(captures[i].origin_ref),
    decreases captures.len(),
{
    if captures.len() > 0 {
        let rest = captures.drop_first();
        lemma_captures_accepted(rest);
        assert forall|i: int| 0 <= i < captures.len() implies (#[trigger] captures[i]).fault()
            is None && crate::livingbrain::types::is_given(captures[i].origin_ref) by {
            if i > 0 {
                assert(captures[i] == rest[i - 1]);
            }
        }
    }
}

/// An accepted path segment cannot change the shape of a path: it is not empty, it is no
/// dot segment, and it holds no separator, query, fragment or escape character.
pub proof fn law_segments_keep_the_path(value: Seq<char>, name: Seq<char>)
    requires
        segment_fault(value, name) is None,
    ensures
        value.len() > 0,
        value != "."@,
        value != ".."@,
        forall|i: int|
            0 <= i < value.len() ==> {
                let c = #[trigger] value[i];
                &&& c != '/'
                &&& c != '?'
                &&& c != '#'
                &&& c != '%'
                &&& (c as int) < 128
            },
{
    if value.len() == 0 {
        assert(crate::text::is_blank(value));
    }
    assert forall|i: int| 0 <= i < value.len() implies {
        let c = #[trigger] value[i];
        &&& c != '/'
        &&& c != '?'
        &&& c != '#'
        &&& c != '%'
        &&& (c as int) < 128
    } by {
        assert(is_url_safe(value[i]));
    }
}

} // verus!
