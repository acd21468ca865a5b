//! A client together with the credentials that its requests carry.

use vstd::prelude::*;

use crate::livingbrain::{request_headers, BrainRequest, LivingBrain};

verus! {

/// A client and the headers of its requests. It holds the API key, and has no printed form.
pub struct Session {
    brain: LivingBrain,
    headers: Vec<(String, String)>,
}

/// A session, as texts.
pub ghost struct SessionView {
    pub brain: crate::livingbrain::BrainView,
    pub headers: Seq<(Seq<char>, Seq<char>)>,
}

impl View for Session {
    type V = SessionView;

    closed spec fn view(&self) -> SessionView {
        SessionView {
            brain: self.brain@,
            headers: crate::livingbrain::header_views(self.headers@),
        }
    }
}

/// A request and the headers it carries.
pub struct OutgoingRequest {
    pub request: BrainRequest,
    pub headers: Vec<(String, String)>,
}

impl Session {
    /// Opens a session with one brain behind an endpoint. What is refused is what
    /// [`LivingBrain::new`] refuses.
    pub fn open(endpoint: &str, api_key: &str, subject_id: &str, brain_id: &str) -> (r: Result<
        Self,
        String,
    >)
        ensures
            match r {
                Ok(session) => crate::livingbrain::connection_fault(
                    crate::outside::scheme_of(endpoint@),
                    api_key@,
                    subject_id@,
                    brain_id@,
                ) is None && session@.brain.wf() && session@ == (SessionView {
                    brain: (crate::livingbrain::BrainView {
                        endpoint: endpoint@,
                        brain_id: brain_id@,
                        timeout_millis: None,
                    }),
                    headers: crate::livingbrain::headers_of(api_key@, subject_id@),
                }),
                Err(error) => crate::livingbrain::connection_fault(
                    crate::outside::scheme_of(endpoint@),
                    api_key@,
                    subject_id@,
                    brain_id@,
                ) == Some(error@),
            },
    {
        match LivingBrain::new(endpoint, api_key, subject_id, brain_id) {
            Ok(brain) => Ok(Session { brain, headers: request_headers(api_key, subject_id) }),
            Err(error) => Err(error),
        }
    }

    /// The session with another deadline per request.
    pub fn with_request_timeout(self, timeout_millis: u64) -> (r: Self)
        ensures
            r@ == (SessionView {
                brain: (crate::livingbrain::BrainView {
                    timeout_millis: Some(timeout_millis),
                    ..self@.brain
                }),
                ..self@
            }),
    {
        Session { brain: self.brain.with_request_timeout(timeout_millis), headers: self.headers }
    }

    /// The client of the session.
    pub fn brain(&self) -> (r: &LivingBrain)
        ensures
            r@ == self@.brain,
    {
        &self.brain
    }

    /// A request as it is sent: with the headers of the session, and no others.
    pub fn outgoing(&self, request: BrainRequest) -> (r: OutgoingRequest)
        ensures
            r.request == request,
            crate::livingbrain::header_views(r.headers@) == self@.headers,
    {
        let mut headers: Vec<(String, String)> = Vec::new();
        let mut i: usize = 0;
        while i < self.headers.len()
            invariant
                i <= self.headers.len(),
                headers.len() == i,
                forall|j: int|
                    0 <= j < i ==> (#[trigger] headers@[j]).0@ == self.headers@[j].0@
                        && headers@[j].1@ == self.headers@[j].1@,
            decreases self.headers.len() - i,
        {
            headers.push((self.headers[i].0.clone(), self.headers[i].1.clone()));
            i = i + 1;
        }
        assert(crate::livingbrain::header_views(headers@) =~= self@.headers);
        OutgoingRequest { request, headers }
    }
}

} // verus!
