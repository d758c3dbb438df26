use vstd::arithmetic::power::pow;
use vstd::prelude::*;

verus! {

/// Largest delay that a backoff can reach, in milliseconds: growth saturates here.
pub const MAX_BACKOFF_MS: u64 = 0xffff_ffff_ffff_ffff;

/// A base of `1.0` expressed in thousandths.
pub const BASE_UNIT: u64 = 1000;

/// Attempts made by a default configuration.
pub const DEFAULT_MAX_ATTEMPTS: u32 = 3;

/// Delay before the second attempt of a default configuration (one second).
pub const DEFAULT_INITIAL_BACKOFF_MS: u64 = 1000;

/// Exponential multiplier of a default configuration (`2.0`).
pub const DEFAULT_BASE_MILLIS: u64 = 2000;

/// The kind that a retryable error carries.
#[derive(Clone, Copy, Debug, PartialEq, Eq, Structural)]
pub enum ErrorKind {
    TransientError,
    ThrottlingError,
    ClientError,
    ServerError,
}

/// The verdict of a retry classifier on one completed attempt.
#[derive(Clone, Copy, Debug, PartialEq, Eq, Structural)]
pub enum RetryKind {
    /// Retry after exactly this many milliseconds.
    Explicit(u64),
    /// Retry on the shared backoff schedule.
    Error(ErrorKind),
    /// Stop with the failure.
    UnretryableFailure,
    /// Stop: the attempt succeeded.
    Unnecessary,
}

/// How many attempts a call makes and how long it waits between them.
///
/// The exponential base is held in thousandths (`2000` is `2.0`), so that
/// every delay is an exact number of milliseconds.
#[derive(Clone, Copy, Debug, PartialEq, Eq, Structural)]
pub struct RetryConfig {
    pub max_attempts: u32,
    pub initial_backoff_ms: u64,
    pub base_millis: u64,
}

/// Delay after `k` growth steps from `initial`: each step multiplies by
/// `base_millis / 1000`, rounds down to a millisecond and saturates at
/// `MAX_BACKOFF_MS`.
pub open spec fn grown_backoff(initial: nat, base_millis: nat, k: nat) -> nat
    decreases k,
{
    if k == 0 {
        initial
    } else {
        let prev = grown_backoff(initial, base_millis, (k - 1) as nat);
        let next = prev * base_millis / (BASE_UNIT as nat);
        if next > MAX_BACKOFF_MS as nat {
            MAX_BACKOFF_MS as nat
        } else {
            next
        }
    }
}

impl RetryConfig {
    pub open spec fn wf(&self) -> bool {
        &&& self.max_attempts >= 1
        &&& self.base_millis >= BASE_UNIT
    }

    /// The wait before attempt `attempt` (counted from 1): none before the
    /// first, `initial_backoff * base^(attempt - 2)` before each later one.
    pub open spec fn delay_before(&self, attempt: nat) -> nat {
        if attempt <= 1 {
            0
        } else {
            grown_backoff(
                self.initial_backoff_ms as nat,
                self.base_millis as nat,
                (attempt - 2) as nat,
            )
        }
    }

    /// The default configuration: three attempts, one second, base `2.0`.
    pub fn standard() -> (r: RetryConfig)
        ensures
            r.wf(),
            r.max_attempts == DEFAULT_MAX_ATTEMPTS,
            r.initial_backoff_ms == DEFAULT_INITIAL_BACKOFF_MS,
            r.base_millis == DEFAULT_BASE_MILLIS,
    {
        RetryConfig {
            max_attempts: DEFAULT_MAX_ATTEMPTS,
            initial_backoff_ms: DEFAULT_INITIAL_BACKOFF_MS,
            base_millis: DEFAULT_BASE_MILLIS,
        }
    }

    pub fn with_max_attempts(self, max_attempts: u32) -> (r: RetryConfig)
        requires
            max_attempts >= 1,
        ensures
            r == (RetryConfig { max_attempts, ..self }),
    {
        RetryConfig { max_attempts, ..self }
    }

    pub fn with_initial_backoff(self, initial_backoff_ms: u64) -> (r: RetryConfig)
        ensures
            r == (RetryConfig { initial_backoff_ms, ..self }),
    {
        RetryConfig { initial_backoff_ms, ..self }
    }

    /// Sets the exponential base, in thousandths (`1000` keeps delays constant).
    pub fn with_base(self, base_millis: u64) -> (r: RetryConfig)
        requires
            base_millis >= BASE_UNIT,
        ensures
            r == (RetryConfig { base_millis, ..self }),
    {
        RetryConfig { base_millis, ..self }
    }

    /// The wait, in milliseconds, before attempt `attempt` is sent.
    pub fn backoff_ms(&self, attempt: u32) -> (r: u64)
        ensures
            r as nat == self.delay_before(attempt as nat),
    {
        if attempt <= 1 {
            return 0;
        }
        let steps: u32 = attempt - 2;
        let mut delay: u64 = self.initial_backoff_ms;
        let mut k: u32 = 0;
        while k < steps
            invariant
                k <= steps,
                delay as nat == grown_backoff(
                    self.initial_backoff_ms as nat,
                    self.base_millis as nat,
                    k as nat,
                ),
            decreases steps - k,
        {
            let d: u128 = delay as u128;
            let b: u128 = self.base_millis as u128;
            assert(d * b <= 0xffff_ffff_ffff_ffff * 0xffff_ffff_ffff_ffff) by (nonlinear_arith)
                requires
                    d <= 0xffff_ffff_ffff_ffff,
                    b <= 0xffff_ffff_ffff_ffff,
            ;
            let wide: u128 = d * b / (BASE_UNIT as u128);
            delay = if wide > MAX_BACKOFF_MS as u128 {
                MAX_BACKOFF_MS
            } else {
                wide as u64
            };
            k = k + 1;
        }
        delay
    }
}

/// With base `1.0` every wait equals the initial backoff.
pub proof fn lemma_unit_base_constant(initial: nat, k: nat)
    requires
        initial <= MAX_BACKOFF_MS,
    ensures
        grown_backoff(initial, BASE_UNIT as nat, k) == initial,
    decreases k,
{
    if k > 0 {
        lemma_unit_base_constant(initial, (k - 1) as nat);
    }
}

/// With a whole-number base `m` the waits are `initial * m^k`, saturated.
pub proof fn lemma_whole_base_power(initial: nat, m: nat, k: nat)
    requires
        initial <= MAX_BACKOFF_MS,
        m >= 1,
    ensures
        grown_backoff(initial, (m * BASE_UNIT) as nat, k) == if initial * pow(m as int, k) > MAX_BACKOFF_MS {
            MAX_BACKOFF_MS as int
        } else {
            initial * pow(m as int, k)
        },
    decreases k,
{
    reveal(pow);
    if k > 0 {
        let km1 = (k - 1) as nat;
        lemma_whole_base_power(initial, m, km1);
        let p = pow(m as int, km1);
        vstd::arithmetic::power::lemma_pow_positive(m as int, km1);
        assert(pow(m as int, k) == m * p);
        let prev = grown_backoff(initial, (m * BASE_UNIT) as nat, km1);
        assert((prev * (m * BASE_UNIT)) as int / (BASE_UNIT as int) == prev * m) by (nonlinear_arith)
            requires
                BASE_UNIT == 1000,
        ;
        assert(initial * (m * p) == (initial * p) * m) by (nonlinear_arith);
        if initial * p > MAX_BACKOFF_MS {
            assert((initial * p) * m > MAX_BACKOFF_MS) by (nonlinear_arith)
                requires
                    initial * p > MAX_BACKOFF_MS,
                    m >= 1,
            ;
            assert(prev * m >= prev) by (nonlinear_arith)
                requires
                    m >= 1,
            ;
        }
    }
}

/// The standard verdict on a completed attempt: success needs no retry, an
/// error that carries a retryable kind is retried on the backoff schedule,
/// any other error is final.
pub fn classify<T, E>(result: &Result<T, (E, Option<ErrorKind>)>) -> (r: RetryKind)
    ensures
        r == match result {
            Ok(_) => RetryKind::Unnecessary,
            Err((_, Some(kind))) => RetryKind::Error(*kind),
            Err((_, None)) => RetryKind::UnretryableFailure,
        },
{
    match result {
        Ok(_) => RetryKind::Unnecessary,
        Err((_, Some(kind))) => RetryKind::Error(*kind),
        Err((_, None)) => RetryKind::UnretryableFailure,
    }
}

} // verus!
