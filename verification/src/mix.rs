//! Sample arithmetic of the playback path: per-speaker volume scaling and
//! additive, clamped mixing.
//!
//! Volume is a fixed-point gain: 256 is unity, 1024 the four-fold maximum
//! the interface offers, 0 silence. A scaled sample is the floor of
//! `raw * volume / 256`, clamped into the 16-bit range. Mixing sums one
//! sample of every active speaker and clamps the sum once — summation then
//! clamp, not averaging, so many simultaneous loud speakers saturate rather
//! than scale down.

use vstd::prelude::*;

use vstd::arithmetic::div_mod::{lemma_fundamental_div_mod, lemma_fundamental_div_mod_converse};

verus! {

/// Unity gain of the fixed-point volume scale.
pub const VOLUME_UNITY: u16 = 256;

/// Largest volume the interface offers: a four-fold amplification.
pub const VOLUME_MAX: u16 = 1024;

/// Clamp into the 16-bit sample range.
pub open spec fn clamp_i16(x: int) -> int {
    if x < i16::MIN as int {
        i16::MIN as int
    } else if x > i16::MAX as int {
        i16::MAX as int
    } else {
        x
    }
}

/// A volume-scaled sample: floor of `raw * vol / 256`, clamped.
pub open spec fn scale_spec(raw: int, vol: int) -> int {
    clamp_i16((raw * vol) / 256)
}

/// `scale_spec` as a 16-bit value.
pub open spec fn scale_i16(raw: i16, vol: u16) -> i16 {
    scale_spec(raw as int, vol as int) as i16
}

/// A whole frame scaled sample by sample.
pub open spec fn scaled(s: Seq<i16>, vol: u16) -> Seq<i16> {
    s.map(|j: int, x: i16| scale_i16(x, vol))
}

/// The sum of a sequence of samples, as an unbounded integer.
pub open spec fn sum_seq(s: Seq<i16>) -> int
    decreases s.len(),
{
    if s.len() == 0 {
        0
    } else {
        sum_seq(s.drop_last()) + s.last()
    }
}

/// Negating a nonnegative dividend turns floor division by 256 into
/// negated ceiling division.
proof fn lemma_neg_div_256(m: int)
    requires
        m >= 0,
    ensures
        (-m) / 256 == -((m + 255) / 256),
{
    let q = m / 256;
    let r = m % 256;
    lemma_fundamental_div_mod(m, 256);
    if r == 0 {
        lemma_fundamental_div_mod_converse(-m, 256, -q, 0);
        lemma_fundamental_div_mod_converse(m + 255, 256, q, 255);
    } else {
        lemma_fundamental_div_mod_converse(-m, 256, -q - 1, 256 - r);
        lemma_fundamental_div_mod_converse(m + 255, 256, q + 1, r - 1);
    }
}

/// Clamp a widened mixing accumulator back into the 16-bit sample range.
pub fn clamp_sample(x: i64) -> (r: i16)
    ensures
        r as int == clamp_i16(x as int),
{
    if x < i16::MIN as i64 {
        i16::MIN
    } else if x > i16::MAX as i64 {
        i16::MAX
    } else {
        x as i16
    }
}

/// Scale one decoded sample by a speaker's volume.
pub fn scale_sample(raw: i16, vol: u16) -> (r: i16)
    ensures
        r == scale_i16(raw, vol),
        r as int == scale_spec(raw as int, vol as int),
{
    if raw >= 0 {
        proof {
            assert(raw * vol <= 32767 * 65535) by (nonlinear_arith)
                requires
                    0 <= raw <= 32767,
                    0 <= vol <= 65535,
            ;
            assert(raw * vol >= 0) by (nonlinear_arith)
                requires
                    raw >= 0,
                    vol >= 0,
            ;
        }
        let p: u32 = (raw as u32) * (vol as u32);
        let q: u32 = p / 256;
        if q > i16::MAX as u32 {
            i16::MAX
        } else {
            q as i16
        }
    } else {
        let mag: i32 = -(raw as i32);
        proof {
            assert(mag * vol <= 32768 * 65535) by (nonlinear_arith)
                requires
                    0 <= mag <= 32768,
                    0 <= vol <= 65535,
            ;
            assert(mag * vol >= 0) by (nonlinear_arith)
                requires
                    mag >= 0,
                    vol >= 0,
            ;
            assert(raw * vol == -(mag * vol)) by (nonlinear_arith)
                requires
                    mag == -raw,
            ;
            lemma_neg_div_256(mag * vol);
        }
        let m: u32 = (mag as u32) * (vol as u32);
        let q: u32 = (m + 255) / 256;
        if q > 32768 {
            i16::MIN
        } else {
            let neg: i32 = -(q as i32);
            neg as i16
        }
    }
}

/// One mixed output sample: the clamped sum of one sample from each active
/// speaker. `vals` holds what each speaker's ring yielded for this slot.
pub fn mix_values(vals: &[i16]) -> (r: i16)
    requires
        vals@.len() <= 0x1_0000_0000,
    ensures
        r as int == clamp_i16(sum_seq(vals@)),
{
    let mut acc: i64 = 0;
    let mut i: usize = 0;
    while i < vals.len()
        invariant
            i <= vals@.len() <= 0x1_0000_0000,
            acc == sum_seq(vals@.take(i as int)),
            -0x8000_0000_0000 <= acc <= 0x8000_0000_0000,
        decreases vals@.len() - i,
    {
        proof {
            assert(vals@.take(i + 1).drop_last() =~= vals@.take(i as int));
            assert(vals@.take(i + 1).last() == vals@[i as int]);
            assert(sum_seq(vals@.take(i as int)) >= -0x8000 * (i as int)
                && sum_seq(vals@.take(i as int)) <= 0x7fff * (i as int)) by {
                lemma_sum_seq_bounds(vals@.take(i as int));
            }
        }
        acc = acc + (vals[i] as i64);
        i = i + 1;
    }
    proof {
        assert(vals@.take(vals@.len() as int) =~= vals@);
    }
    clamp_sample(acc)
}

/// The sum of `n` samples lies between `n` times the smallest and `n` times
/// the largest sample value.
pub proof fn lemma_sum_seq_bounds(s: Seq<i16>)
    ensures
        -0x8000 * s.len() <= sum_seq(s) <= 0x7fff * s.len(),
    decreases s.len(),
{
    if s.len() > 0 {
        lemma_sum_seq_bounds(s.drop_last());
    }
}

} // verus!
