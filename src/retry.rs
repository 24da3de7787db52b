//! Retry on transport failure with bounded exponential backoff, as a policy
//! that the caller consults after each failed attempt.
use vstd::prelude::*;
use crate::bytes::to_vec;
use crate::message::{Request, RequestView};

verus! {

pub open spec fn pow2(k: nat) -> nat
    decreases k,
{
    if k == 0 {
        1
    } else {
        2 * pow2((k - 1) as nat)
    }
}

/// The pause before the retry that follows failure number `attempt`:
/// `min(min_delay * 2^(attempt - 1), max_delay)`.
pub open spec fn backoff(min_delay: u64, max_delay: u64, attempt: nat) -> int {
    let d = min_delay * pow2((attempt - 1) as nat);
    if d < max_delay {
        d
    } else {
        max_delay as int
    }
}

/// What to do after a failed attempt.
#[derive(Clone, Copy, Debug, PartialEq, Eq, Structural)]
pub enum RetryStep {
    /// Return the error.
    GiveUp,
    /// Sleep this many milliseconds, then send the request again.
    RetryAfter(u64),
}

pub open spec fn retry_step(max_retries: usize, min_delay: u64, max_delay: u64, attempt: nat) -> RetryStep {
    if attempt > max_retries {
        RetryStep::GiveUp
    } else {
        RetryStep::RetryAfter(backoff(min_delay, max_delay, attempt) as u64)
    }
}

/// Retry configuration; delays are in milliseconds.
#[derive(Clone, Copy, Debug)]
pub struct Retry {
    max_retries: usize,
    min_delay: u64,
    max_delay: u64,
}

proof fn lemma_pow2_monotone(a: nat, b: nat)
    requires
        a <= b,
    ensures
        pow2(a) <= pow2(b),
    decreases b,
{
    if a < b {
        lemma_pow2_monotone(a, (b - 1) as nat);
    }
}

impl Retry {
    /// Retries up to `max_retries` times, waiting 100 ms at first and at most 5 s.
    pub fn new(max_retries: usize) -> (r: Retry)
        ensures
            r.max_retries() == max_retries,
            r.min_delay_ms() == 100,
            r.max_delay_ms() == 5000,
    {
        Retry { max_retries, min_delay: 100, max_delay: 5000 }
    }

    pub closed spec fn max_retries(&self) -> usize {
        self.max_retries
    }

    pub closed spec fn min_delay_ms(&self) -> u64 {
        self.min_delay
    }

    pub closed spec fn max_delay_ms(&self) -> u64 {
        self.max_delay
    }

    /// Sets the first delay.
    pub fn min_delay(self, delay_ms: u64) -> (r: Retry)
        ensures
            r.min_delay_ms() == delay_ms,
            r.max_delay_ms() == self.max_delay_ms(),
            r.max_retries() == self.max_retries(),
    {
        Retry { min_delay: delay_ms, ..self }
    }

    /// Sets the longest delay.
    pub fn max_delay(self, delay_ms: u64) -> (r: Retry)
        ensures
            r.max_delay_ms() == delay_ms,
            r.min_delay_ms() == self.min_delay_ms(),
            r.max_retries() == self.max_retries(),
    {
        Retry { max_delay: delay_ms, ..self }
    }

    /// The pause after failure number `attempt`.
    pub fn delay_for(&self, attempt: usize) -> (r: u64)
        requires
            attempt >= 1,
        ensures
            r == backoff(self.min_delay_ms(), self.max_delay_ms(), attempt as nat),
    {
        let max = self.max_delay;
        let mut d: u64 = self.min_delay;
        let mut j: usize = 0;
        let k: usize = attempt - 1;
        assert(pow2(0) == 1);
        while j < k
            invariant
                j <= k,
                k == attempt - 1,
                d == self.min_delay * pow2(j as nat),
                max == self.max_delay,
            decreases k - j,
        {
            if d >= max || d >= max - d {
                proof {
                    lemma_pow2_monotone(j as nat, k as nat);
                    lemma_pow2_monotone((j + 1) as nat, k as nat);
                    assert(self.min_delay * pow2(j as nat) <= self.min_delay * pow2(k as nat))
                        by (nonlinear_arith)
                        requires
                            pow2(j as nat) <= pow2(k as nat),
                    ;
                    if d < max {
                        assert(self.min_delay * pow2((j + 1) as nat) == 2 * d) by (nonlinear_arith)
                            requires
                                d == self.min_delay * pow2(j as nat),
                                pow2((j + 1) as nat) == 2 * pow2(j as nat),
                        ;
                        assert(self.min_delay * pow2((j + 1) as nat) <= self.min_delay * pow2(
                            k as nat,
                        )) by (nonlinear_arith)
                            requires
                                pow2((j + 1) as nat) <= pow2(k as nat),
                        ;
                    }
                }
                return max;
            }
            proof {
                assert(self.min_delay * pow2((j + 1) as nat) == 2 * d) by (nonlinear_arith)
                    requires
                        d == self.min_delay * pow2(j as nat),
                        pow2((j + 1) as nat) == 2 * pow2(j as nat),
                ;
            }
            d = d + d;
            j = j + 1;
        }
        if d < max {
            d
        } else {
            max
        }
    }

    /// The decision after failure number `attempt` (counting from one): give
    /// up once more than `max_retries` attempts have failed, else wait and retry.
    pub fn on_failure(&self, attempt: usize) -> (r: RetryStep)
        requires
            attempt >= 1,
        ensures
            r == retry_step(self.max_retries(), self.min_delay_ms(), self.max_delay_ms(), attempt as nat),
    {
        if attempt > self.max_retries {
            RetryStep::GiveUp
        } else {
            RetryStep::RetryAfter(self.delay_for(attempt))
        }
    }
}

/// The number of attempts a backend sees when its first `n` attempts fail and
/// the next one succeeds, with `k` failures behind.
pub open spec fn attempts_seen(max_retries: usize, n: nat, k: nat) -> nat
    decreases n - k,
{
    if k >= n {
        1
    } else {
        match retry_step(max_retries, 0, 0, k + 1) {
            RetryStep::GiveUp => 1,
            RetryStep::RetryAfter(_) => 1 + attempts_seen(max_retries, n, k + 1),
        }
    }
}

/// For `n` transport failures followed by a success, the backend sees
/// `n + 1` attempts when `max_retries >= n`, and `max_retries + 1` attempts
/// (the last one failing) when `max_retries < n`.
pub proof fn lemma_retry_attempt_count(max_retries: usize, n: nat)
    ensures
        max_retries >= n ==> attempts_seen(max_retries, n, 0) == n + 1,
        max_retries < n ==> attempts_seen(max_retries, n, 0) == max_retries + 1,
{
    lemma_attempts_from(max_retries, n, 0);
}

proof fn lemma_attempts_from(max_retries: usize, n: nat, k: nat)
    requires
        k <= n,
        k <= max_retries,
    ensures
        max_retries >= n ==> attempts_seen(max_retries, n, k) == n + 1 - k,
        max_retries < n ==> attempts_seen(max_retries, n, k) == max_retries + 1 - k,
    decreases n - k,
{
    if k < n && k + 1 <= max_retries {
        lemma_attempts_from(max_retries, n, k + 1);
    }
}

/// The request as captured before the first attempt, rebuilt for each attempt.
pub struct RetrySnapshot {
    request: Request,
}

impl View for RetrySnapshot {
    type V = RequestView;

    closed spec fn view(&self) -> RequestView {
        self.request@
    }
}

impl RetrySnapshot {
    /// Captures a request, its body read into memory.
    pub fn capture(request: Request) -> (r: RetrySnapshot)
        ensures
            r@ == request@,
    {
        RetrySnapshot { request }
    }

    /// A fresh copy of the captured request: same method, URI, headers and body bytes.
    pub fn build(&self) -> (r: Request)
        ensures
            r@ == self@,
    {
        Request {
            method: self.request.method,
            uri: self.request.uri.clone(),
            headers: self.request.headers.duplicate(),
            body: to_vec(self.request.body.as_slice()),
        }
    }
}

} // verus!
