use vstd::prelude::*;

use crate::retry::{
    grown_backoff, lemma_unit_base_constant, RetryConfig, RetryKind, BASE_UNIT, MAX_BACKOFF_MS,
};

verus! {

/// What one attempt of a call came to.
pub enum Attempt<T, E> {
    /// The request could not be built.
    ConstructionFailed,
    /// No response was obtained; `transient` when the transport says a resend may work.
    DispatchFailed { transient: bool },
    /// No response within the time bound.
    TimedOut,
    /// A response came but could not be parsed.
    Unparseable,
    /// The response was parsed, and the classifier gave its verdict on it.
    Parsed { result: Result<T, E>, verdict: RetryKind },
}

/// The terminal failure of a call: exactly one variant per failed call.
#[derive(Debug)]
pub enum SdkError<E> {
    ConstructionFailure,
    DispatchFailure,
    ResponseError,
    ServiceError(E),
    TimeoutError,
}

/// What the loop does after an attempt.
#[derive(Clone, Copy, Debug, PartialEq, Eq, Structural)]
pub enum Step {
    /// Wait this many milliseconds, then send the next attempt.
    Retry { delay_ms: u64 },
    /// Return the attempt's result to the caller.
    Stop,
}

/// The wait before the next attempt, if attempt `n` is to be followed by one.
pub open spec fn retry_delay<T, E>(cfg: RetryConfig, n: nat, a: Attempt<T, E>) -> Option<nat> {
    if n >= cfg.max_attempts {
        None
    } else {
        match a {
            Attempt::Parsed { verdict: RetryKind::Error(_), .. } => Some(cfg.delay_before(n + 1)),
            Attempt::Parsed { verdict: RetryKind::Explicit(d), .. } => Some(d as nat),
            Attempt::DispatchFailed { transient: true } => Some(cfg.delay_before(n + 1)),
            Attempt::TimedOut => Some(cfg.delay_before(n + 1)),
            _ => None,
        }
    }
}

pub open spec fn spec_step<T, E>(cfg: RetryConfig, n: nat, a: Attempt<T, E>) -> Step {
    match retry_delay(cfg, n, a) {
        Some(d) => Step::Retry { delay_ms: d as u64 },
        None => Step::Stop,
    }
}

/// What a call returns when it stops on attempt `a`.
pub open spec fn spec_finish<T, E>(a: Attempt<T, E>) -> Result<T, SdkError<E>> {
    match a {
        Attempt::ConstructionFailed => Err(SdkError::ConstructionFailure),
        Attempt::DispatchFailed { .. } => Err(SdkError::DispatchFailure),
        Attempt::TimedOut => Err(SdkError::TimeoutError),
        Attempt::Unparseable => Err(SdkError::ResponseError),
        Attempt::Parsed { result: Ok(t), .. } => Ok(t),
        Attempt::Parsed { result: Err(e), .. } => Err(SdkError::ServiceError(e)),
    }
}

/// The outcome of attempt `n` (counted from 1) in a script; a script that has
/// run out yields a dispatch failure that no resend can mend.
pub open spec fn attempt_at<T, E>(script: Seq<Attempt<T, E>>, n: nat) -> Attempt<T, E> {
    if 1 <= n <= script.len() {
        script[n - 1]
    } else {
        Attempt::DispatchFailed { transient: false }
    }
}

/// A call that has reached attempt `n`: how many sends it makes in all, the
/// waits from here on, and what it returns.
pub open spec fn run_from<T, E>(cfg: RetryConfig, script: Seq<Attempt<T, E>>, n: nat) -> (
    nat,
    Seq<u64>,
    Result<T, SdkError<E>>,
)
    decreases cfg.max_attempts - n,
{
    let a = attempt_at(script, n);
    match retry_delay(cfg, n, a) {
        Some(d) => if n < cfg.max_attempts {
            let rest = run_from(cfg, script, n + 1);
            (rest.0, seq![d as u64].add(rest.1), rest.2)
        } else {
            (n, Seq::empty(), spec_finish(a))
        },
        None => (n, Seq::empty(), spec_finish(a)),
    }
}

/// A whole call: sends, waits in order, and result.
pub open spec fn spec_run<T, E>(cfg: RetryConfig, script: Seq<Attempt<T, E>>) -> (
    nat,
    Seq<u64>,
    Result<T, SdkError<E>>,
) {
    run_from(cfg, script, 1)
}

/// Decides what follows attempt `attempt` of a call.
pub fn next_step<T, E>(config: &RetryConfig, attempt: u32, outcome: &Attempt<T, E>) -> (r: Step)
    requires
        config.wf(),
        1 <= attempt <= config.max_attempts,
    ensures
        r == spec_step(*config, attempt as nat, *outcome),
{
    if attempt >= config.max_attempts {
        return Step::Stop;
    }
    match outcome {
        Attempt::Parsed { verdict: RetryKind::Error(_), .. } => Step::Retry {
            delay_ms: config.backoff_ms(attempt + 1),
        },
        Attempt::Parsed { verdict: RetryKind::Explicit(d), .. } => Step::Retry { delay_ms: *d },
        Attempt::DispatchFailed { transient: true } => Step::Retry {
            delay_ms: config.backoff_ms(attempt + 1),
        },
        Attempt::TimedOut => Step::Retry { delay_ms: config.backoff_ms(attempt + 1) },
        _ => Step::Stop,
    }
}

/// Turns the attempt that ended a call into the call's result.
pub fn finish<T, E>(outcome: Attempt<T, E>) -> (r: Result<T, SdkError<E>>)
    ensures
        r == spec_finish(outcome),
{
    match outcome {
        Attempt::ConstructionFailed => Err(SdkError::ConstructionFailure),
        Attempt::DispatchFailed { .. } => Err(SdkError::DispatchFailure),
        Attempt::TimedOut => Err(SdkError::TimeoutError),
        Attempt::Unparseable => Err(SdkError::ResponseError),
        Attempt::Parsed { result: Ok(t), .. } => Ok(t),
        Attempt::Parsed { result: Err(e), .. } => Err(SdkError::ServiceError(e)),
    }
}

/// The attempt counter of one call in progress.
pub struct RetryState {
    pub config: RetryConfig,
    pub attempt: u32,
}

impl RetryState {
    pub open spec fn wf(&self) -> bool {
        &&& self.config.wf()
        &&& 1 <= self.attempt <= self.config.max_attempts
    }

    /// A call about to send its first attempt.
    pub fn new(config: RetryConfig) -> (r: RetryState)
        requires
            config.wf(),
        ensures
            r.wf(),
            r.config == config,
            r.attempt == 1,
    {
        RetryState { config, attempt: 1 }
    }

    /// Records the outcome of the current attempt and says what follows;
    /// after a retry the state stands at the next attempt.
    pub fn on_outcome<T, E>(&mut self, outcome: &Attempt<T, E>) -> (r: Step)
        requires
            old(self).wf(),
        ensures
            final(self).wf(),
            final(self).config == old(self).config,
            r == spec_step(old(self).config, old(self).attempt as nat, *outcome),
            final(self).attempt == match r {
                Step::Retry { .. } => old(self).attempt + 1,
                Step::Stop => old(self).attempt as int,
            },
    {
        let r = next_step(&self.config, self.attempt, outcome);
        if let Step::Retry { .. } = r {
            self.attempt = self.attempt + 1;
        }
        r
    }
}

/// The record of a call run against a script of attempt outcomes.
pub struct CallReport<T, E> {
    /// Requests handed to the connection.
    pub sends: u32,
    /// Waits between sends, in order, in milliseconds.
    pub waits: Vec<u64>,
    pub result: Result<T, SdkError<E>>,
}

/// Runs one call whose attempt `n` comes to `script[n - 1]`; a script that
/// runs out ends the call with a dispatch failure.
pub fn run_scripted<T, E>(config: &RetryConfig, script: Vec<Attempt<T, E>>) -> (r: CallReport<
    T,
    E,
>)
    requires
        config.wf(),
    ensures
        r.sends as nat == spec_run(*config, script@).0,
        r.waits@ == spec_run(*config, script@).1,
        r.result == spec_run(*config, script@).2,
{
    let ghost s = script@;
    let mut pending = script;
    let mut state = RetryState::new(*config);
    let mut waits: Vec<u64> = Vec::new();
    loop
        invariant
            state.wf(),
            state.config == *config,
            pending@ == s,
            s == script@,
            spec_run(*config, s).0 == run_from(*config, s, state.attempt as nat).0,
            spec_run(*config, s).1 == waits@ + run_from(*config, s, state.attempt as nat).1,
            spec_run(*config, s).2 == run_from(*config, s, state.attempt as nat).2,
        decreases config.max_attempts - state.attempt,
    {
        let n = state.attempt;
        let len = pending.len();
        let step = if (n as usize) <= len {
            state.on_outcome(&pending[n as usize - 1])
        } else {
            state.on_outcome(&Attempt::<T, E>::DispatchFailed { transient: false })
        };
        match step {
            Step::Retry { delay_ms } => {
                let ghost before = waits@;
                let ghost rest = run_from(*config, s, (n + 1) as nat).1;
                assert(run_from(*config, s, n as nat).1 == seq![delay_ms].add(rest));
                waits.push(delay_ms);
                assert(before + seq![delay_ms].add(rest) =~= waits@ + rest);
            },
            Step::Stop => {
                assert(run_from(*config, s, n as nat) == (
                    n as nat,
                    Seq::<u64>::empty(),
                    spec_finish(attempt_at(s, n as nat)),
                ));
                let result = if (n as usize) <= len {
                    finish(pending.remove(n as usize - 1))
                } else {
                    Err(SdkError::DispatchFailure)
                };
                assert(waits@ + Seq::<u64>::empty() =~= waits@);
                assert(result == spec_finish(attempt_at(s, n as nat)));
                return CallReport { sends: n, waits, result };
            },
        }
    }
}

/// An attempt whose response parsed to an error that the classifier marked retryable.
pub open spec fn is_retryable_failure<T, E>(a: Attempt<T, E>) -> bool {
    a matches Attempt::Parsed { result: Err(_), verdict: RetryKind::Error(_) }
}

/// The backoff waits before attempts `2 ..= k + 1`, in order.
pub open spec fn schedule(cfg: RetryConfig, k: nat) -> Seq<u64> {
    Seq::new(k, |i: int| cfg.delay_before((i + 2) as nat) as u64)
}

/// The sum of the waits before attempts `2 ..= k + 1`.
pub open spec fn backoff_total(cfg: RetryConfig, k: nat) -> int
    decreases k,
{
    if k == 0 {
        0
    } else {
        backoff_total(cfg, (k - 1) as nat) + cfg.delay_before(k + 1)
    }
}

/// Total time spent waiting over a sequence of waits.
pub open spec fn total_wait(waits: Seq<u64>) -> int
    decreases waits.len(),
{
    if waits.len() == 0 {
        0
    } else {
        total_wait(waits.drop_last()) + waits.last()
    }
}

proof fn lemma_grown_backoff_bounded(initial: nat, base_millis: nat, k: nat)
    requires
        initial <= MAX_BACKOFF_MS,
    ensures
        grown_backoff(initial, base_millis, k) <= MAX_BACKOFF_MS,
    decreases k,
{
    if k > 0 {
        lemma_grown_backoff_bounded(initial, base_millis, (k - 1) as nat);
    }
}

proof fn lemma_schedule_total(cfg: RetryConfig, k: nat)
    ensures
        total_wait(schedule(cfg, k)) == backoff_total(cfg, k),
    decreases k,
{
    if k > 0 {
        lemma_schedule_total(cfg, (k - 1) as nat);
        assert(schedule(cfg, k).drop_last() =~= schedule(cfg, (k - 1) as nat));
        lemma_grown_backoff_bounded(cfg.initial_backoff_ms as nat, cfg.base_millis as nat, (k - 1) as nat);
    }
}

/// Attempts `n .. k` that all fail retryably are sent one after another, each
/// after its scheduled wait.
proof fn lemma_retrying_run<T, E>(cfg: RetryConfig, script: Seq<Attempt<T, E>>, n: nat, k: nat)
    requires
        cfg.wf(),
        1 <= n <= k <= cfg.max_attempts,
        forall|i: nat| n <= i < k ==> #[trigger] is_retryable_failure(attempt_at(script, i)),
    ensures
        run_from(cfg, script, n).0 == run_from(cfg, script, k).0,
        run_from(cfg, script, n).1 == Seq::new(
            (k - n) as nat,
            |j: int| cfg.delay_before((n + j + 1) as nat) as u64,
        ) + run_from(cfg, script, k).1,
        run_from(cfg, script, n).2 == run_from(cfg, script, k).2,
    decreases k - n,
{
    if n < k {
        assert(is_retryable_failure(attempt_at(script, n)));
        lemma_retrying_run(cfg, script, n + 1, k);
        let d = cfg.delay_before(n + 1) as u64;
        assert(seq![d] + Seq::new(
            (k - (n + 1)) as nat,
            |j: int| cfg.delay_before((n + 1 + j + 1) as nat) as u64,
        ) =~= Seq::new((k - n) as nat, |j: int| cfg.delay_before((n + j + 1) as nat) as u64));
        assert(seq![d].add(run_from(cfg, script, n + 1).1) =~= seq![d] + Seq::new(
            (k - (n + 1)) as nat,
            |j: int| cfg.delay_before((n + 1 + j + 1) as nat) as u64,
        ) + run_from(cfg, script, k).1);
    } else {
        assert(Seq::new(0, |j: int| cfg.delay_before((n + j + 1) as nat) as u64) + run_from(
            cfg,
            script,
            k,
        ).1 =~= run_from(cfg, script, k).1);
    }
}

/// When every attempt fails with a retryable error, a call sends exactly
/// `max_attempts` requests, waits `B, B*base, ..., B*base^(max_attempts-2)`
/// in that order, and fails with a service error that carries the last
/// attempt's error.
pub proof fn lemma_always_retryable<T, E>(cfg: RetryConfig, script: Seq<Attempt<T, E>>)
    requires
        cfg.wf(),
        script.len() >= cfg.max_attempts,
        forall|i: int| 0 <= i < cfg.max_attempts ==> #[trigger] is_retryable_failure(script[i]),
    ensures
        spec_run(cfg, script).0 == cfg.max_attempts,
        spec_run(cfg, script).1 == schedule(cfg, (cfg.max_attempts - 1) as nat),
        total_wait(spec_run(cfg, script).1) == backoff_total(cfg, (cfg.max_attempts - 1) as nat),
        spec_run(cfg, script).2 == match script[cfg.max_attempts - 1] {
            Attempt::Parsed { result: Err(e), .. } => Err::<T, SdkError<E>>(SdkError::ServiceError(e)),
            _ => arbitrary(),
        },
{
    let m = cfg.max_attempts as nat;
    assert forall|i: nat| 1 <= i < m implies #[trigger] is_retryable_failure(attempt_at(script, i)) by {
        assert(is_retryable_failure(script[i - 1]));
    }
    lemma_retrying_run(cfg, script, 1, m);
    assert(is_retryable_failure(script[m - 1]));
    assert(attempt_at(script, m) == script[m - 1]);
    assert(run_from(cfg, script, m).1 =~= Seq::<u64>::empty());
    assert(Seq::new((m - 1) as nat, |j: int| cfg.delay_before((1 + j + 1) as nat) as u64) + Seq::<
        u64,
    >::empty() =~= schedule(cfg, (m - 1) as nat));
    lemma_schedule_total(cfg, (m - 1) as nat);
}

/// When the first `k` attempts fail retryably and attempt `k + 1` succeeds,
/// with `k < max_attempts`, a call sends exactly `k + 1` requests, waits the
/// first `k` backoff terms in order, and returns that attempt's value.
pub proof fn lemma_success_after_retries<T, E>(cfg: RetryConfig, script: Seq<Attempt<T, E>>, k: nat)
    requires
        cfg.wf(),
        k < cfg.max_attempts,
        k < script.len(),
        forall|i: int| 0 <= i < k ==> #[trigger] is_retryable_failure(script[i]),
        script[k as int] matches Attempt::Parsed { result: Ok(_), verdict: RetryKind::Unnecessary },
    ensures
        spec_run(cfg, script).0 == k + 1,
        spec_run(cfg, script).1 == schedule(cfg, k),
        total_wait(spec_run(cfg, script).1) == backoff_total(cfg, k),
        spec_run(cfg, script).2 == match script[k as int] {
            Attempt::Parsed { result: Ok(t), .. } => Ok::<T, SdkError<E>>(t),
            _ => arbitrary(),
        },
{
    assert forall|i: nat| 1 <= i < k + 1 implies #[trigger] is_retryable_failure(attempt_at(script, i)) by {
        assert(is_retryable_failure(script[i - 1]));
    }
    lemma_retrying_run(cfg, script, 1, k + 1);
    assert(run_from(cfg, script, k + 1).1 =~= Seq::<u64>::empty());
    assert(Seq::new(k, |j: int| cfg.delay_before((1 + j + 1) as nat) as u64) + Seq::<u64>::empty()
        =~= schedule(cfg, k));
    lemma_schedule_total(cfg, k);
}

/// With base `1.0` the first `k` waits add up to `k` times the initial backoff.
pub proof fn lemma_unit_base_total(cfg: RetryConfig, k: nat)
    requires
        cfg.base_millis == BASE_UNIT,
    ensures
        backoff_total(cfg, k) == k * cfg.initial_backoff_ms,
    decreases k,
{
    if k > 0 {
        lemma_unit_base_total(cfg, (k - 1) as nat);
        lemma_unit_base_constant(cfg.initial_backoff_ms as nat, (k - 1) as nat);
        assert(cfg.delay_before(k + 1) == grown_backoff(
            cfg.initial_backoff_ms as nat,
            BASE_UNIT as nat,
            (k - 1) as nat,
        ));
        let km1 = (k - 1) as nat;
        let b = cfg.initial_backoff_ms as int;
        assert(k * b == km1 * b + b) by (nonlinear_arith)
            requires
                km1 == k - 1,
        ;
        assert(backoff_total(cfg, k) == backoff_total(cfg, km1) + cfg.delay_before(k + 1));
    } else {
        assert(0 * cfg.initial_backoff_ms == 0);
    }
}

/// A first attempt that the classifier finds needs no retry: one send, no wait.
pub proof fn lemma_first_attempt_unnecessary<T, E>(cfg: RetryConfig, script: Seq<Attempt<T, E>>)
    requires
        cfg.wf(),
        script.len() >= 1,
        script[0] matches Attempt::Parsed { verdict: RetryKind::Unnecessary, .. },
    ensures
        spec_run(cfg, script).0 == 1,
        spec_run(cfg, script).1 == Seq::<u64>::empty(),
        spec_run(cfg, script).2 == spec_finish(script[0]),
{
}

} // verus!
