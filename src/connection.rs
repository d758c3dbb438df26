use vstd::prelude::*;

use crate::http::{Request, RequestView, Response};

verus! {

/// A connection that replays canned responses in order and records every
/// request it is handed.
pub struct ScriptedConnection {
    /// The pairs not yet used: the request expected next, and the response to give.
    pub script: Vec<(Request, Response)>,
    /// The expected requests of the pairs already used, in order.
    pub expected: Vec<Request>,
    /// Every request handed to the connection, in order.
    pub requests: Vec<Request>,
}

pub open spec fn requests_view(requests: Seq<Request>) -> Seq<RequestView> {
    requests.map_values(|r: Request| r@)
}

/// Two requests that a script counts as the same: same target, same body.
pub open spec fn same_request(a: RequestView, b: RequestView) -> bool {
    a.uri == b.uri && a.body == b.body
}

fn bytes_equal(a: &Vec<u8>, b: &Vec<u8>) -> (r: bool)
    ensures
        r == (a@ == b@),
{
    if a.len() != b.len() {
        return false;
    }
    let mut i: usize = 0;
    while i < a.len()
        invariant
            a@.len() == b@.len(),
            i <= a@.len(),
            forall|j: int| 0 <= j < i ==> a@[j] == b@[j],
        decreases a@.len() - i,
    {
        if a[i] != b[i] {
            return false;
        }
        i = i + 1;
    }
    assert(a@ =~= b@);
    true
}

impl ScriptedConnection {
    /// A connection that will answer with `script`'s responses, in order.
    pub fn new(script: Vec<(Request, Response)>) -> (r: ScriptedConnection)
        ensures
            r.script@ == script@,
            r.expected@.len() == 0,
            r.requests@.len() == 0,
    {
        ScriptedConnection { script, expected: Vec::new(), requests: Vec::new() }
    }

    /// Records `request` and answers with the next canned response; `None`
    /// once the script is used up.
    pub fn send(&mut self, request: Request) -> (r: Option<Response>)
        ensures
            final(self).requests@ == old(self).requests@.push(request),
            old(self).script@.len() == 0 ==> {
                &&& r is None
                &&& final(self).script@ == old(self).script@
                &&& final(self).expected@ == old(self).expected@
            },
            old(self).script@.len() > 0 ==> {
                &&& r == Some(old(self).script@[0].1)
                &&& final(self).script@ == old(self).script@.drop_first()
                &&& final(self).expected@ == old(self).expected@.push(old(self).script@[0].0)
            },
    {
        self.requests.push(request);
        if self.script.len() == 0 {
            return None;
        }
        let (expected, response) = self.script.remove(0);
        self.expected.push(expected);
        assert(old(self).script@.remove(0) =~= old(self).script@.drop_first());
        Some(response)
    }

    /// The requests handed to the connection so far, in order.
    pub fn requests(&self) -> (r: &Vec<Request>)
        ensures
            r == &self.requests,
    {
        &self.requests
    }

    /// Whether every request sent so far matches the one its script pair expected.
    pub fn matches_script(&self) -> (r: bool)
        ensures
            r == (self.requests@.len() == self.expected@.len() && forall|i: int|
                0 <= i < self.requests@.len() ==> same_request(
                    #[trigger] self.requests@[i]@,
                    self.expected@[i]@,
                )),
    {
        if self.requests.len() != self.expected.len() {
            return false;
        }
        let mut i: usize = 0;
        while i < self.requests.len()
            invariant
                self.requests@.len() == self.expected@.len(),
                i <= self.requests@.len(),
                forall|j: int|
                    0 <= j < i ==> same_request(#[trigger] self.requests@[j]@, self.expected@[j]@),
            decreases self.requests@.len() - i,
        {
            let a = &self.requests[i];
            let b = &self.expected[i];
            if !(a.uri == b.uri && bytes_equal(&a.body, &b.body)) {
                assert(!same_request(self.requests@[i as int]@, self.expected@[i as int]@));
                return false;
            }
            i = i + 1;
        }
        true
    }
}

} // verus!
