//! The live level meter: accumulates sample energy inside the capture
//! callback and, once per throttle window, turns it into a normalized,
//! noise-gated, exponentially smoothed level. Levels are fixed-point with
//! `LEVEL_FULL_SCALE` standing for full scale (1.0).

use vstd::prelude::*;
use vstd::arithmetic::div_mod::lemma_fundamental_div_mod;

verus! {

/// A level of `LEVEL_FULL_SCALE` stands for full scale.
pub const LEVEL_FULL_SCALE: u16 = 32767;

/// Sum of squares of the samples.
pub open spec fn sum_squares(s: Seq<i16>) -> int
    decreases s.len(),
{
    if s.len() == 0 {
        0
    } else {
        sum_squares(s.drop_last()) + s.last() * s.last()
    }
}

/// Floor of the square root.
pub open spec fn isqrt_spec(n: nat) -> nat
    decreases n,
{
    if n == 0 {
        0
    } else {
        let r = isqrt_spec((n - 1) as nat);
        if (r + 1) * (r + 1) <= n {
            r + 1
        } else {
            r
        }
    }
}

pub proof fn lemma_isqrt_spec(n: nat)
    ensures
        isqrt_spec(n) * isqrt_spec(n) <= n,
        n < (isqrt_spec(n) + 1) * (isqrt_spec(n) + 1),
    decreases n,
{
    if n > 0 {
        lemma_isqrt_spec((n - 1) as nat);
        let r = isqrt_spec((n - 1) as nat);
        if (r + 1) * (r + 1) <= n {
            assert(isqrt_spec(n) == r + 1);
            assert(n < ((r + 1) + 1) * ((r + 1) + 1)) by (nonlinear_arith)
                requires
                    n - 1 < (r + 1) * (r + 1),
                    r >= 0,
            ;
            assert(isqrt_spec(n) * isqrt_spec(n) <= n);
            assert(n < (isqrt_spec(n) + 1) * (isqrt_spec(n) + 1));
        } else {
            assert(isqrt_spec(n) == r);
            assert(r * r <= n - 1);
            assert(n < (r + 1) * (r + 1));
            assert(isqrt_spec(n) * isqrt_spec(n) <= n);
            assert(n < (isqrt_spec(n) + 1) * (isqrt_spec(n) + 1));
        }
    } else {
        assert(n == 0);
        assert(isqrt_spec(n) == 0);
        assert((isqrt_spec(n) + 1) * (isqrt_spec(n) + 1) == 1) by (nonlinear_arith)
            requires
                isqrt_spec(n) == 0,
        ;
    }
}

/// Two floor square roots of the same number agree.
proof fn lemma_isqrt_unique(n: nat, a: nat, b: nat)
    requires
        a * a <= n < (a + 1) * (a + 1),
        b * b <= n < (b + 1) * (b + 1),
    ensures
        a == b,
{
    assert(a == b) by (nonlinear_arith)
        requires
            a * a <= n < (a + 1) * (a + 1),
            b * b <= n < (b + 1) * (b + 1),
            a >= 0,
            b >= 0,
    ;
}

/// Floor square root by binary search.
pub fn isqrt_u64(n: u64) -> (r: u64)
    requires
        n <= 0xFFFF_FFFF,
    ensures
        r == isqrt_spec(n as nat),
        r <= 0xFFFF,
{
    let mut lo: u64 = 0;
    let mut hi: u64 = 0x1_0000;
    proof {
        assert(0x1_0000u64 * 0x1_0000u64 > n) by (nonlinear_arith)
            requires
                n <= 0xFFFF_FFFF,
        ;
    }
    while lo + 1 < hi
        invariant
            lo < hi <= 0x1_0000,
            lo * lo <= n,
            hi * hi > n,
        decreases hi - lo,
    {
        let mid = lo + (hi - lo) / 2;
        assert(lo < mid < hi);
        proof {
            assert(mid * mid <= 0x1_0000u64 * 0x1_0000u64) by (nonlinear_arith)
                requires
                    mid <= 0x1_0000,
            ;
        }
        if mid * mid <= n {
            lo = mid;
        } else {
            hi = mid;
        }
    }
    proof {
        assert(hi == lo + 1);
        lemma_isqrt_spec(n as nat);
        lemma_isqrt_unique(n as nat, lo as nat, isqrt_spec(n as nat));
    }
    lo
}

/// The RMS level scaled by 3/2 and clamped to full scale.
pub open spec fn scaled_level(rms: int) -> int {
    let x = (rms * 3) / 2;
    if x > 32767 {
        32767
    } else {
        x
    }
}

/// The noise gate: levels below 2% of full scale are forced to zero.
pub open spec fn gated_level(level: int) -> int {
    if 50 * level < 32767 {
        0
    } else {
        level
    }
}

/// Exponential moving average with a smoothing factor of 0.35.
pub open spec fn ema_next(prev: int, level: int) -> int {
    (35 * level + 65 * prev) / 100
}

/// The level a window with accumulated energy `acc` over `count` samples
/// contributes before smoothing.
pub open spec fn window_level_spec(acc: int, count: int) -> int {
    gated_level(scaled_level(isqrt_spec((acc / count) as nat) as int))
}

/// Running level-meter state, mutated only between capture callbacks.
pub struct LevelMeter {
    /// Sum of squared samples since the last emission window.
    pub acc_sum_squares: u64,
    /// Number of samples since the last emission window.
    pub acc_count: u64,
    /// Smoothed level last emitted.
    pub ema_level: u16,
}

impl LevelMeter {
    /// The meter's internal invariant: the accumulator never outgrows what
    /// its sample count allows, so the mean always fits.
    pub open spec fn wf(self) -> bool {
        &&& self.acc_count <= 0xFFFF_FFFF
        &&& self.acc_sum_squares <= self.acc_count * 0x4000_0000
        &&& self.ema_level <= 32767
    }

    pub fn new() -> (m: LevelMeter)
        ensures
            m.wf(),
            m.acc_sum_squares == 0,
            m.acc_count == 0,
            m.ema_level == 0,
    {
        LevelMeter { acc_sum_squares: 0, acc_count: 0, ema_level: 0 }
    }

    /// Add one callback's worth of mono samples to the running accumulators.
    pub fn accumulate(&mut self, samples: &Vec<i16>)
        requires
            old(self).wf(),
            old(self).acc_count + samples@.len() <= 0xFFFF_FFFF,
        ensures
            final(self).wf(),
            final(self).acc_sum_squares == old(self).acc_sum_squares + sum_squares(samples@),
            final(self).acc_count == old(self).acc_count + samples@.len(),
            final(self).ema_level == old(self).ema_level,
    {
        let n = samples.len();
        let mut i: usize = 0;
        proof {
            assert(samples@.subrange(0, 0) =~= Seq::<i16>::empty());
        }
        while i < n
            invariant
                n == samples@.len(),
                i <= n,
                old(self).acc_count + n <= 0xFFFF_FFFF,
                self.acc_count == old(self).acc_count + i,
                self.acc_sum_squares == old(self).acc_sum_squares + sum_squares(
                    samples@.subrange(0, i as int),
                ),
                self.acc_sum_squares <= self.acc_count * 0x4000_0000,
                self.ema_level == old(self).ema_level,
            decreases n - i,
        {
            let s = samples[i];
            proof {
                assert(0 <= (s as int) * (s as int) <= 0x4000_0000) by (nonlinear_arith)
                    requires
                        -0x8000 <= s as int <= 0x7FFF,
                ;
            }
            let sq: u64 = ((s as i64) * (s as i64)) as u64;
            proof {
                assert(self.acc_count * 0x4000_0000 <= 0xFFFF_FFFFu64 * 0x4000_0000)
                    by (nonlinear_arith)
                    requires
                        self.acc_count <= 0xFFFF_FFFF,
                ;
                assert((self.acc_count + 1) * 0x4000_0000 == self.acc_count * 0x4000_0000
                    + 0x4000_0000) by (nonlinear_arith);
                let sub = samples@.subrange(0, i + 1);
                assert(sub.drop_last() =~= samples@.subrange(0, i as int));
                assert(sub.last() == samples@[i as int]);
            }
            self.acc_sum_squares = self.acc_sum_squares + sq;
            self.acc_count = self.acc_count + 1;
            i = i + 1;
        }
        proof {
            assert(samples@.subrange(0, n as int) =~= samples@);
        }
    }

    /// Close an emission window: compute the level to emit, fold it into the
    /// moving average, and reset the accumulators. A window that saw no
    /// samples emits 0 and leaves the smoothing history untouched.
    pub fn window_level(&mut self) -> (level: u16)
        requires
            old(self).wf(),
        ensures
            final(self).wf(),
            final(self).acc_sum_squares == 0,
            final(self).acc_count == 0,
            level <= LEVEL_FULL_SCALE,
            old(self).acc_count == 0 ==> level == 0 && final(self).ema_level == old(
                self,
            ).ema_level,
            old(self).acc_count > 0 ==> {
                &&& final(self).ema_level == ema_next(
                    old(self).ema_level as int,
                    window_level_spec(
                        old(self).acc_sum_squares as int,
                        old(self).acc_count as int,
                    ),
                )
                &&& level == final(self).ema_level
            },
    {
        if self.acc_count == 0 {
            self.acc_sum_squares = 0;
            return 0;
        }
        let mean: u64 = self.acc_sum_squares / self.acc_count;
        proof {
            lemma_fundamental_div_mod(self.acc_sum_squares as int, self.acc_count as int);
            assert(mean <= 0x4000_0000) by (nonlinear_arith)
                requires
                    self.acc_count >= 1,
                    self.acc_sum_squares <= self.acc_count * 0x4000_0000,
                    self.acc_sum_squares as int == self.acc_count * (mean as int) + (
                    self.acc_sum_squares as int) % (self.acc_count as int),
                    0 <= (self.acc_sum_squares as int) % (self.acc_count as int),
            ;
        }
        let rms: u64 = isqrt_u64(mean);
        let scaled: u64 = rms * 3 / 2;
        let lvl: u64 = if scaled > 32767 {
            32767
        } else {
            scaled
        };
        let gated: u64 = if 50 * lvl < 32767 {
            0
        } else {
            lvl
        };
        let ema: u64 = (35 * gated + 65 * (self.ema_level as u64)) / 100;
        assert(ema <= 32767);
        self.ema_level = ema as u16;
        self.acc_sum_squares = 0;
        self.acc_count = 0;
        ema as u16
    }
}

/// A silent window (every sample zero, so no accumulated energy) emits a
/// level of exactly 0 when the smoothing history is empty.
pub proof fn lemma_silent_window_emits_zero(count: int)
    requires
        count > 0,
    ensures
        ema_next(0, window_level_spec(0, count)) == 0,
{
    assert(0int / count == 0) by (nonlinear_arith)
        requires
            count > 0,
    ;
}

/// A window whose scaled level falls below the 2% noise gate emits exactly 0
/// when the smoothing history is empty.
pub proof fn lemma_gated_window_emits_zero(acc: int, count: int)
    requires
        count > 0,
        50 * scaled_level(isqrt_spec((acc / count) as nat) as int) < 32767,
    ensures
        ema_next(0, window_level_spec(acc, count)) == 0,
{
}

} // verus!
