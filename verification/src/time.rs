//! Spans of time, counted in nanoseconds.
use vstd::prelude::*;
use vstd::arithmetic::power2::{lemma2_to64, lemma_pow2_unfold, pow2};

verus! {

/// The longest span: `u64::MAX` seconds and 999 999 999 nanoseconds.
pub const MAX_NANOS: u128 = 18_446_744_073_709_551_615_999_999_999;

const NANOS_PER_SEC: u128 = 1_000_000_000;

const NANOS_PER_MILLI: u128 = 1_000_000;

/// The smaller of two numbers.
pub open spec fn least(a: nat, b: nat) -> nat {
    if a <= b {
        a
    } else {
        b
    }
}

/// A span of time. Its view is its length in nanoseconds.
#[derive(Debug, Clone, Copy, PartialEq, Eq, Structural)]
pub struct Duration {
    nanos: u128,
}

impl View for Duration {
    type V = nat;

    closed spec fn view(&self) -> nat {
        self.nanos as nat
    }
}

impl Duration {
    #[verifier::type_invariant]
    spec fn within_range(self) -> bool {
        self.nanos <= MAX_NANOS
    }

    /// The span of `nanos` nanoseconds.
    pub closed spec fn of_nanos(nanos: nat) -> Duration {
        Duration { nanos: nanos as u128 }
    }

    /// The span of `nanos` nanoseconds, if that is no longer than the longest
    /// span.
    pub fn from_nanos(nanos: u128) -> (d: Option<Duration>)
        ensures
            d is Some <==> nanos <= MAX_NANOS,
            d matches Some(span) ==> span@ == nanos,
    {
        if nanos <= MAX_NANOS {
            Some(Duration { nanos })
        } else {
            None
        }
    }

    pub fn from_millis(millis: u64) -> (d: Duration)
        ensures
            d@ == millis * 1_000_000,
    {
        Duration { nanos: millis as u128 * NANOS_PER_MILLI }
    }

    pub fn from_secs(secs: u64) -> (d: Duration)
        ensures
            d@ == secs * 1_000_000_000,
    {
        Duration { nanos: secs as u128 * NANOS_PER_SEC }
    }

    /// The length in nanoseconds.
    pub fn as_nanos(&self) -> (nanos: u128)
        ensures
            nanos == self@,
    {
        self.nanos
    }

    /// Whether this span is at least as long as the other.
    pub fn at_least(&self, other: &Duration) -> (b: bool)
        ensures
            b == (self@ >= other@),
    {
        self.nanos >= other.nanos
    }

    /// `factor` times the span, or the longest span where that is shorter.
    pub fn saturating_mul(&self, factor: u32) -> (d: Duration)
        ensures
            d@ == least(self@ * factor as nat, MAX_NANOS as nat),
            self@ * factor <= MAX_NANOS ==> d@ == self@ * factor,
            self@ * factor > MAX_NANOS ==> d@ == MAX_NANOS,
    {
        match self.nanos.checked_mul(factor as u128) {
            Some(nanos) => {
                if nanos <= MAX_NANOS {
                    Duration { nanos }
                } else {
                    Duration { nanos: MAX_NANOS }
                }
            },
            None => Duration { nanos: MAX_NANOS },
        }
    }
}

/// How long a supervisor waits before restart number `restarts`, in
/// nanoseconds: the shortest wait, doubled once for each earlier restart, and
/// never more than the longest wait.
pub open spec fn backoff_nanos(restarts: nat, min_backoff: nat, max_backoff: nat) -> nat {
    least(least(min_backoff * pow2((restarts - 1) as nat), MAX_NANOS as nat), max_backoff)
}

/// How long to wait before restart number `restarts`.
pub fn backoff(restarts: usize, min_backoff: Duration, max_backoff: Duration) -> (d: Duration)
    requires
        restarts >= 1,
    ensures
        d@ == backoff_nanos(restarts as nat, min_backoff@, max_backoff@),
        d == Duration::of_nanos(d@),
{
    let mut wait = min_backoff;
    let mut i: usize = 1;
    proof {
        use_type_invariant(min_backoff);
        lemma2_to64();
        assert(min_backoff@ * pow2(0) == min_backoff@) by (nonlinear_arith)
            requires
                pow2(0) == 1,
        ;
    }
    while i < restarts
        invariant
            1 <= i <= restarts,
            wait@ == least(min_backoff@ * pow2((i - 1) as nat), MAX_NANOS as nat),
        decreases restarts - i,
    {
        let ghost before = wait@;
        wait = wait.saturating_mul(2);
        proof {
            let p = pow2((i - 1) as nat);
            lemma_pow2_unfold(i as nat);
            assert(min_backoff@ * pow2(i as nat) == 2 * (min_backoff@ * p)) by (nonlinear_arith)
                requires
                    pow2(i as nat) == 2 * p,
            ;
        }
        i = i + 1;
    }
    if !max_backoff.at_least(&wait) {
        max_backoff
    } else {
        wait
    }
}

/// A span is known by its length.
pub proof fn law_of_nanos(nanos: nat)
    requires
        nanos <= MAX_NANOS,
    ensures
        Duration::of_nanos(nanos)@ == nanos,
{
}

/// A wait is never longer than the longest wait, and each is twice the one
/// before it until that is reached: waits never get shorter.
pub proof fn law_backoff_doubles(restarts: nat, min_backoff: nat, max_backoff: nat)
    requires
        restarts >= 1,
        max_backoff <= MAX_NANOS,
    ensures
        backoff_nanos(restarts, min_backoff, max_backoff) <= max_backoff,
        backoff_nanos(1, min_backoff, max_backoff) == least(min_backoff, max_backoff),
        backoff_nanos(restarts + 1, min_backoff, max_backoff) == least(
            2 * backoff_nanos(restarts, min_backoff, max_backoff),
            max_backoff,
        ),
        backoff_nanos(restarts, min_backoff, max_backoff) <= backoff_nanos(
            restarts + 1,
            min_backoff,
            max_backoff,
        ),
{
    lemma2_to64();
    let p = pow2((restarts - 1) as nat);
    lemma_pow2_unfold(restarts);
    assert(min_backoff * pow2(0) == min_backoff) by (nonlinear_arith)
        requires
            pow2(0) == 1,
    ;
    assert(min_backoff * pow2(restarts) == 2 * (min_backoff * p)) by (nonlinear_arith)
        requires
            pow2(restarts) == 2 * p,
    ;
}

/// The smaller of two numbers is one of them, and no greater than either.
pub proof fn law_least(a: nat, b: nat)
    ensures
        least(a, b) <= a,
        least(a, b) <= b,
        least(a, b) == a || least(a, b) == b,
{
}

/// The first wait is the shortest wait, and each that follows is twice the one
/// before it; but for the longest wait, which stands in for all that would be
/// longer.
pub proof fn law_backoff_from_one_restart_to_the_next(
    restarts: nat,
    min_backoff: nat,
    max_backoff: nat,
)
    requires
        restarts >= 1,
        max_backoff <= MAX_NANOS,
    ensures
        min_backoff <= max_backoff ==> backoff_nanos(1, min_backoff, max_backoff) == min_backoff,
        min_backoff > max_backoff ==> backoff_nanos(1, min_backoff, max_backoff) == max_backoff,
        ({
            let wait = backoff_nanos(restarts, min_backoff, max_backoff);
            let next = backoff_nanos(restarts + 1, min_backoff, max_backoff);
            &&& wait <= max_backoff
            &&& 2 * wait <= max_backoff ==> next == 2 * wait
            &&& 2 * wait > max_backoff ==> next == max_backoff
        }),
{
    law_backoff_doubles(restarts, min_backoff, max_backoff);
}

} // verus!
