use vstd::prelude::*;

use crate::connection::{requests_view, ScriptedConnection};
use crate::dispatch::{
    attempt_at, finish, run_from, spec_finish, spec_run, total_wait, Attempt, RetryState, SdkError,
    Step,
};
use crate::http::{Request, RequestView, Response};
use crate::retry::{classify, ErrorKind, RetryConfig, RetryKind};

verus! {

/// A clock that moves only when something sleeps on it.
pub struct VirtualClock {
    pub now_ms: u64,
}

pub open spec fn saturating_add(a: int, b: int) -> int {
    if a + b > u64::MAX {
        u64::MAX as int
    } else {
        a + b
    }
}

impl VirtualClock {
    pub fn new() -> (r: VirtualClock)
        ensures
            r.now_ms == 0,
    {
        VirtualClock { now_ms: 0 }
    }

    /// Waits `ms` milliseconds: the clock moves on by exactly that much,
    /// stopping at its largest value.
    pub fn sleep(&mut self, ms: u64)
        ensures
            final(self).now_ms == saturating_add(old(self).now_ms as int, ms as int),
    {
        self.now_ms = self.now_ms.saturating_add(ms);
    }
}

/// The error of an operation's failed attempt: the raw response, and the
/// retryable kind that the operation's modeled errors carry, if any.
pub type ModeledError = (Response, Option<ErrorKind>);

/// An operation to call: the request to send, and the retryable kind of the
/// errors it models (`None`: its errors are never retried).
pub struct ScriptedOperation {
    pub request: Request,
    pub error_kind: Option<ErrorKind>,
}

/// What an attempt comes to when `response` arrives: a success status parses
/// to the body, any other to the operation's modeled error.
pub open spec fn parsed_attempt(response: Response, kind: Option<ErrorKind>) -> Attempt<
    Vec<u8>,
    ModeledError,
> {
    if response.spec_is_success() {
        Attempt::Parsed { result: Ok(response.body), verdict: RetryKind::Unnecessary }
    } else {
        Attempt::Parsed {
            result: Err((response, kind)),
            verdict: match kind {
                Some(k) => RetryKind::Error(k),
                None => RetryKind::UnretryableFailure,
            },
        }
    }
}

/// The attempts that a scripted connection's remaining responses make.
pub open spec fn script_attempts(script: Seq<(Request, Response)>, kind: Option<ErrorKind>) -> Seq<
    Attempt<Vec<u8>, ModeledError>,
> {
    Seq::new(script.len(), |i: int| parsed_attempt(script[i].1, kind))
}

/// Parses a response and classifies the result.
pub fn parse_response(response: Response, kind: Option<ErrorKind>) -> (r: Attempt<
    Vec<u8>,
    ModeledError,
>)
    ensures
        r == parsed_attempt(response, kind),
{
    let result: Result<Vec<u8>, ModeledError> = if response.is_success() {
        Ok(response.body)
    } else {
        Err((response, kind))
    };
    let verdict = classify(&result);
    Attempt::Parsed { result, verdict }
}

/// A client over a scripted connection and a virtual clock.
pub struct Client {
    pub config: RetryConfig,
    pub connection: ScriptedConnection,
    pub clock: VirtualClock,
}

impl Client {
    pub open spec fn wf(&self) -> bool {
        self.config.wf()
    }

    pub fn new(config: RetryConfig, connection: ScriptedConnection) -> (r: Client)
        requires
            config.wf(),
        ensures
            r.wf(),
            r.config == config,
            r.connection == connection,
            r.clock.now_ms == 0,
    {
        Client { config, connection, clock: VirtualClock::new() }
    }

    /// Calls `operation`: sends it, parses and classifies each response, and
    /// retries with backoff until an attempt stops the call.
    pub fn call(&mut self, operation: &ScriptedOperation) -> (r: Result<
        Vec<u8>,
        SdkError<ModeledError>,
    >)
        requires
            old(self).wf(),
        ensures
            final(self).wf(),
            final(self).config == old(self).config,
            ({
                let run = spec_run(
                    old(self).config,
                    script_attempts(old(self).connection.script@, operation.error_kind),
                );
                &&& r == run.2
                &&& requests_view(final(self).connection.requests@) == requests_view(
                    old(self).connection.requests@,
                ) + Seq::new(
                    run.0,
                    |i: int| RequestView { attempt: (i + 1) as u32, ..operation.request@ },
                )
                &&& final(self).connection.script@ == old(self).connection.script@.skip(
                    if run.0 <= old(self).connection.script@.len() {
                        run.0 as int
                    } else {
                        old(self).connection.script@.len() as int
                    },
                )
                &&& final(self).clock.now_ms == saturating_add(
                    old(self).clock.now_ms as int,
                    total_wait(run.1),
                )
            }),
    {
        let ghost cfg = self.config;
        let ghost s0 = self.connection.script@;
        let ghost req0 = requests_view(self.connection.requests@);
        let ghost c0 = self.clock.now_ms as int;
        let ghost atts = script_attempts(s0, operation.error_kind);
        let ghost mut waits: Seq<u64> = Seq::empty();
        let mut state = RetryState::new(self.config);
        loop
            invariant
                self.wf(),
                self.config == cfg,
                cfg == old(self).config,
                s0 == old(self).connection.script@,
                req0 == requests_view(old(self).connection.requests@),
                c0 == old(self).clock.now_ms as int,
                state.wf(),
                state.config == cfg,
                atts == script_attempts(s0, operation.error_kind),
                state.attempt - 1 <= s0.len(),
                self.connection.script@ == s0.skip(state.attempt - 1),
                requests_view(self.connection.requests@) == req0 + Seq::new(
                    (state.attempt - 1) as nat,
                    |i: int| RequestView { attempt: (i + 1) as u32, ..operation.request@ },
                ),
                self.clock.now_ms == saturating_add(c0, total_wait(waits)),
                spec_run(cfg, atts).0 == run_from(cfg, atts, state.attempt as nat).0,
                spec_run(cfg, atts).1 == waits + run_from(cfg, atts, state.attempt as nat).1,
                spec_run(cfg, atts).2 == run_from(cfg, atts, state.attempt as nat).2,
            decreases cfg.max_attempts - state.attempt,
        {
            let n = state.attempt;
            let ghost before = self.connection.requests@;
            let request = operation.request.for_attempt(n);
            let response = self.connection.send(request);
            assert(requests_view(self.connection.requests@) =~= req0 + Seq::new(
                n as nat,
                |i: int| RequestView { attempt: (i + 1) as u32, ..operation.request@ },
            )) by {
                assert(requests_view(before.push(request)) =~= requests_view(before).push(
                    request@,
                ));
            }
            let outcome = match response {
                Some(resp) => parse_response(resp, operation.error_kind),
                None => Attempt::DispatchFailed { transient: false },
            };
            assert(outcome == attempt_at(atts, n as nat)) by {
                if (n as int) - 1 < s0.len() {
                    assert(s0.skip(n - 1)[0] == s0[n - 1]);
                }
            }
            let step = state.on_outcome(&outcome);
            match step {
                Step::Retry { delay_ms } => {
                    let ghost rest = run_from(cfg, atts, (n + 1) as nat).1;
                    assert(run_from(cfg, atts, n as nat).1 == seq![delay_ms].add(rest));
                    self.clock.sleep(delay_ms);
                    proof {
                        let old_waits = waits;
                        waits = waits.push(delay_ms);
                        assert(waits.drop_last() =~= old_waits);
                        assert(old_waits + seq![delay_ms].add(rest) =~= waits + rest);
                    }
                    assert(s0.skip(n - 1).drop_first() =~= s0.skip(n as int));
                },
                Step::Stop => {
                    assert(run_from(cfg, atts, n as nat) == (
                        n as nat,
                        Seq::<u64>::empty(),
                        spec_finish(outcome),
                    ));
                    assert(waits + Seq::<u64>::empty() =~= waits);
                    proof {
                        if (n as int) - 1 < s0.len() {
                            assert(s0.skip(n - 1).drop_first() =~= s0.skip(n as int));
                        }
                    }
                    return finish(outcome);
                },
            }
        }
    }
}

} // verus!
