use vstd::prelude::*;
use vstd::arithmetic::power2::{pow2, lemma_pow2_unfold, lemma_pow2_pos};
use vstd::arithmetic::power::lemma_pow0;
use rand::Rng;

verus! {

/// The attempt budget and backoff bounds of the write retry loop, in
/// milliseconds.
#[derive(Debug, Clone, Copy, PartialEq, Eq, Structural)]
pub struct RetryPolicy {
    /// Number of write attempts allowed for one group, the first included.
    pub max_attempts: u32,
    /// Nominal delay after the first attempt.
    pub base_delay_ms: u64,
    /// Ceiling of the nominal delay.
    pub max_delay_ms: u64,
    /// Least delay actually slept.
    pub min_delay_ms: u64,
}

/// The nominal delay after attempt `n` failed: `base * 2^(n-1)`, capped at
/// `cap`.
pub open spec fn nominal_delay(base: nat, cap: nat, n: nat) -> nat
    recommends
        n >= 1,
{
    let d = base * pow2((n - 1) as nat);
    if d <= cap {
        d
    } else {
        cap
    }
}

/// Relies on `rand::Rng::random_range` over `lo..=hi` with the thread-local
/// generator: a value drawn from the inclusive range; it panics on an empty
/// range, which `lo <= hi` rules out.
#[verifier::external_body]
fn draw_between(lo: u64, hi: u64) -> (r: u64)
    requires
        lo <= hi,
    ensures
        lo <= r <= hi,
{
    rand::rng().random_range(lo..=hi)
}

impl RetryPolicy {
    pub open spec fn wf(&self) -> bool {
        &&& self.max_attempts >= 1
        &&& 1 <= self.min_delay_ms <= self.base_delay_ms <= self.max_delay_ms
    }

    pub open spec fn nominal_after(&self, n: nat) -> nat {
        nominal_delay(self.base_delay_ms as nat, self.max_delay_ms as nat, n)
    }

    /// Eight attempts; 100 ms base, 4000 ms ceiling, 100 ms floor.
    pub fn standard() -> (r: RetryPolicy)
        ensures
            r.wf(),
            r == (RetryPolicy {
                max_attempts: 8,
                base_delay_ms: 100,
                max_delay_ms: 4000,
                min_delay_ms: 100,
            }),
    {
        RetryPolicy { max_attempts: 8, base_delay_ms: 100, max_delay_ms: 4000, min_delay_ms: 100 }
    }

    /// The nominal delay after attempt `attempt` failed.
    pub fn nominal_delay_after(&self, attempt: u32) -> (r: u64)
        requires
            self.wf(),
            attempt >= 1,
        ensures
            r == self.nominal_after(attempt as nat),
            self.base_delay_ms <= r <= self.max_delay_ms,
    {
        let base = self.base_delay_ms;
        let cap = self.max_delay_ms;
        let mut d: u64 = base;
        let mut k: u32 = 1;
        proof {
            lemma_pow0(2);
            assert(pow2(0) == 1);
            assert(base * pow2(0) == base);
        }
        while k < attempt
            invariant
                1 <= k <= attempt,
                base == self.base_delay_ms,
                cap == self.max_delay_ms,
                self.wf(),
                d == nominal_delay(base as nat, cap as nat, k as nat),
                base <= d <= cap,
            decreases attempt - k,
        {
            proof {
                lemma_pow2_unfold(k as nat);
                lemma_pow2_pos((k - 1) as nat);
                let p = pow2((k - 1) as nat);
                assert(base * pow2(k as nat) == 2 * (base * p)) by (nonlinear_arith)
                    requires pow2(k as nat) == 2 * p;
                assert(base * p >= base) by (nonlinear_arith)
                    requires p >= 1;
            }
            if d >= cap - d {
                d = cap;
            } else {
                d = 2 * d;
            }
            k = k + 1;
        }
        d
    }

    /// The delay to sleep after attempt `attempt` failed: drawn at random
    /// between the floor and the nominal delay.
    pub fn backoff_delay(&self, attempt: u32) -> (r: u64)
        requires
            self.wf(),
            attempt >= 1,
        ensures
            self.min_delay_ms <= r <= self.nominal_after(attempt as nat),
    {
        let nominal = self.nominal_delay_after(attempt);
        draw_between(self.min_delay_ms, nominal)
    }
}

/// The nominal delay never shrinks from one attempt to the next, and never
/// passes the ceiling.
pub proof fn lemma_backoff_monotone(p: RetryPolicy, n: nat)
    requires
        p.wf(),
        n >= 1,
    ensures
        p.nominal_after(n) <= p.nominal_after(n + 1),
        p.nominal_after(n + 1) <= p.max_delay_ms,
{
    lemma_pow2_unfold(n);
    let q = pow2((n - 1) as nat);
    let b = p.base_delay_ms as nat;
    assert(b * pow2(n) == 2 * (b * q)) by (nonlinear_arith)
        requires pow2(n) == 2 * q;
}

/// One write group in the retry loop: the attempt about to be made and the
/// records that are still to be written.
#[derive(Debug, Clone, PartialEq, Eq)]
pub struct RetryState<T> {
    /// The attempt that writes `remainder`, counted from 1.
    pub attempt: u32,
    /// The records not yet accepted by the store.
    pub remainder: Vec<T>,
}

/// What follows one write attempt.
#[derive(Debug, Clone, PartialEq, Eq)]
pub enum RetryStep<T> {
    /// The store accepted everything.
    Done,
    /// The budget is spent and `leftover` records were never accepted.
    Exhausted { leftover: usize },
    /// Sleep about `nominal_delay_ms`, then write `next.remainder`.
    Retry { next: RetryState<T>, nominal_delay_ms: u64 },
}

/// Every item of `sub` is an item of `sup`.
pub open spec fn within<T>(sub: Seq<T>, sup: Seq<T>) -> bool {
    forall|i: int| 0 <= i < sub.len() ==> sup.contains(#[trigger] sub[i])
}

impl<T> RetryState<T> {
    /// The first attempt, on the whole group.
    pub fn new(group: Vec<T>) -> (r: RetryState<T>)
        ensures
            r.attempt == 1,
            r.remainder@ == group@,
    {
        RetryState { attempt: 1, remainder: group }
    }

    /// Decides what follows the current attempt, given what the store left
    /// unprocessed (a part of the remainder that was sent).
    ///
    /// Nothing left: done. Something left at the last allowed attempt:
    /// exhausted, with the count of what is left. Otherwise the next attempt
    /// writes exactly what was left, after the nominal backoff of this attempt.
    pub fn advance(self, unprocessed: Vec<T>, policy: &RetryPolicy) -> (r: RetryStep<T>)
        requires
            policy.wf(),
            1 <= self.attempt <= policy.max_attempts,
            within(unprocessed@, self.remainder@),
        ensures
            unprocessed@.len() == 0 <==> r is Done,
            r is Exhausted <==> (unprocessed@.len() > 0 && self.attempt == policy.max_attempts),
            r matches RetryStep::Exhausted { leftover } ==> leftover == unprocessed@.len(),
            r matches RetryStep::Retry { next, nominal_delay_ms } ==> {
                &&& next.attempt == self.attempt + 1
                &&& next.attempt <= policy.max_attempts
                &&& next.remainder@ == unprocessed@
                &&& within(next.remainder@, self.remainder@)
                &&& nominal_delay_ms == policy.nominal_after(self.attempt as nat)
            },
    {
        if unprocessed.len() == 0 {
            RetryStep::Done
        } else if self.attempt >= policy.max_attempts {
            RetryStep::Exhausted { leftover: unprocessed.len() }
        } else {
            let d = policy.nominal_delay_after(self.attempt);
            RetryStep::Retry {
                next: RetryState { attempt: self.attempt + 1, remainder: unprocessed },
                nominal_delay_ms: d,
            }
        }
    }
}

} // verus!
