//! Invocation rates and the periods they stand for.
use vstd::prelude::*;

verus! {

/// Nanoseconds between two beats of a rate of one millihertz.
pub const MILLIHERTZ_PERIOD: u64 = 1_000_000_000_000;

/// The latest instant at which a period can still be added without leaving `u64`.
pub const HORIZON: u64 = 18_446_743_073_709_551_615;

/// Why a rate was refused.
#[derive(Clone, Copy, Debug, PartialEq, Eq, Structural)]
pub enum RateError {
    /// The rate was zero or negative, so it has no period.
    NegativeOrZeroRate,
}

/// The period in nanoseconds of a rate given in millihertz: the whole part
/// of `10^12 / millihertz`, and never less than the clock's resolution of
/// one nanosecond.
pub open spec fn period_of(millihertz: nat) -> nat {
    if millihertz == 0 || millihertz > MILLIHERTZ_PERIOD as nat {
        1
    } else {
        MILLIHERTZ_PERIOD as nat / millihertz
    }
}

/// A strictly positive invocation rate, held in millihertz.
#[derive(Clone, Copy, Debug, PartialEq, Eq, Structural)]
pub struct Rate {
    millihertz: u64,
}

impl Rate {
    #[verifier::type_invariant]
    spec fn positive(self) -> bool {
        self.millihertz > 0
    }

    /// The rate in millihertz.
    pub closed spec fn view(&self) -> nat {
        self.millihertz as nat
    }

    /// The time between two beats of this rate, in nanoseconds.
    pub open spec fn spec_period(&self) -> nat {
        period_of(self@)
    }

    /// A rate of `millihertz` thousandths of a hertz. Zero and negative
    /// rates are refused.
    pub fn new(millihertz: i64) -> (made: Result<Rate, RateError>)
        ensures
            millihertz <= 0 ==> made == Err::<Rate, RateError>(RateError::NegativeOrZeroRate),
            millihertz > 0 ==> made.is_ok() && made.unwrap()@ == millihertz,
    {
        if millihertz <= 0 {
            Err(RateError::NegativeOrZeroRate)
        } else {
            Ok(Rate { millihertz: millihertz as u64 })
        }
    }

    /// The rate in millihertz.
    pub fn millihertz(&self) -> (m: u64)
        ensures
            m == self@,
            m > 0,
    {
        proof {
            use_type_invariant(self);
        }
        self.millihertz
    }

    /// The time between two beats of this rate, in nanoseconds.
    pub fn period(&self) -> (p: u64)
        ensures
            p == self.spec_period(),
            1 <= p <= MILLIHERTZ_PERIOD,
    {
        proof {
            use_type_invariant(self);
        }
        let whole: u64 = MILLIHERTZ_PERIOD / self.millihertz;
        proof {
            let m = self.millihertz as int;
            let n = MILLIHERTZ_PERIOD as int;
            assert(0 <= n / m <= n && (n / m == 0 <==> m > n)) by (nonlinear_arith)
                requires
                    1 <= m,
                    0 < n,
            ;
        }
        if whole == 0 {
            1
        } else {
            whole
        }
    }
}

/// Every rate, valid or not, has a period of at least one nanosecond and at
/// most `MILLIHERTZ_PERIOD`.
pub proof fn lemma_period_bounds(millihertz: nat)
    ensures
        1 <= period_of(millihertz) <= MILLIHERTZ_PERIOD,
{
    if !(millihertz == 0 || millihertz > MILLIHERTZ_PERIOD as nat) {
        let m = millihertz as int;
        let n = MILLIHERTZ_PERIOD as int;
        assert(1 <= n / m <= n) by (nonlinear_arith)
            requires
                1 <= m <= n,
        ;
    }
}

/// The period of a rate of up to one gigahertz is the whole part of the exact
/// time between two beats: `period` beats take no longer than the exact
/// time, and one nanosecond more on each would take longer.
pub proof fn lemma_period_is_whole_part(millihertz: nat)
    requires
        0 < millihertz <= MILLIHERTZ_PERIOD,
    ensures
        period_of(millihertz) * millihertz <= MILLIHERTZ_PERIOD,
        MILLIHERTZ_PERIOD < (period_of(millihertz) + 1) * millihertz,
{
    let m = millihertz as int;
    let n = MILLIHERTZ_PERIOD as int;
    assert((n / m) * m <= n < (n / m + 1) * m) by (nonlinear_arith)
        requires
            0 < m,
            0 <= n,
    ;
}

/// A faster rate never has a longer period.
pub proof fn lemma_period_monotonic(slower: nat, faster: nat)
    requires
        0 < slower <= faster,
    ensures
        period_of(faster) <= period_of(slower),
{
    lemma_period_bounds(slower);
    lemma_period_bounds(faster);
    if faster <= MILLIHERTZ_PERIOD as nat {
        let a = slower as int;
        let b = faster as int;
        let n = MILLIHERTZ_PERIOD as int;
        vstd::arithmetic::div_mod::lemma_div_is_ordered_by_denominator(n, a, b);
    }
}

/// Beats follow the rate. Beat number `k` of a rate of up to one gigahertz
/// comes no later than `k` exact periods after the start, and less than `k`
/// nanoseconds before that: `k * period` nanoseconds, against
/// `k * 10^12 / millihertz`.
pub proof fn lemma_beat_tracks_rate(millihertz: nat, k: nat)
    requires
        0 < millihertz <= MILLIHERTZ_PERIOD,
    ensures
        k * period_of(millihertz) * millihertz <= k * MILLIHERTZ_PERIOD,
        k > 0 ==> k * MILLIHERTZ_PERIOD < (k * period_of(millihertz) + k) * millihertz,
{
    lemma_period_is_whole_part(millihertz);
    let p = period_of(millihertz) as int;
    let m = millihertz as int;
    let n = MILLIHERTZ_PERIOD as int;
    let k = k as int;
    assert(k * p * m <= k * n) by (nonlinear_arith)
        requires
            p * m <= n,
            k >= 0,
    ;
    if k > 0 {
        assert(k * n < (k * p + k) * m) by (nonlinear_arith)
            requires
                n < (p + 1) * m,
                k > 0,
        ;
    }
}

} // verus!
