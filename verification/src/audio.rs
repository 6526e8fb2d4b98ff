//! Sample-stream preparation: downmixing interleaved multi-channel PCM to
//! mono and linear-interpolation resampling between sample rates. Samples are
//! 16-bit signed PCM, the format the capture sink writes to disk.

use vstd::prelude::*;
use vstd::arithmetic::div_mod::{lemma_fundamental_div_mod, lemma_div_nonincreasing};

verus! {

/// Sum of the samples of a frame.
pub open spec fn frame_sum(s: Seq<i16>) -> int
    decreases s.len(),
{
    if s.len() == 0 {
        0
    } else {
        frame_sum(s.drop_last()) + s.last()
    }
}

/// Integer division truncating toward zero, the rounding executable `/` uses.
pub open spec fn div_trunc(a: int, b: int) -> int {
    if a >= 0 {
        a / b
    } else {
        -((-a) / b)
    }
}

/// The mono sample for frame `i`: the truncated average of its channels.
pub open spec fn mono_frame(s: Seq<i16>, ch: int, i: int) -> int {
    div_trunc(frame_sum(s.subrange(i * ch, i * ch + ch)), ch)
}

/// The mono track of the interleaved samples `s`: one averaged sample per
/// complete frame of `ch` channels; a trailing partial frame is dropped.
pub open spec fn downmix_spec(s: Seq<i16>, ch: int) -> Seq<i16> {
    Seq::new((s.len() as int / ch) as nat, |i: int| mono_frame(s, ch, i) as i16)
}

/// Downmix interleaved `channels`-channel samples to mono by averaging each
/// frame.
pub fn downmix(samples: &Vec<i16>, channels: usize) -> (mono: Vec<i16>)
    requires
        1 <= channels <= 0xFFFF,
    ensures
        mono@ == downmix_spec(samples@, channels as int),
        mono@.len() == samples@.len() as int / channels as int,
{
    let n = samples.len();
    let frames = n / channels;
    let mut mono: Vec<i16> = Vec::new();
    let mut f: usize = 0;
    proof {
        lemma_fundamental_div_mod(n as int, channels as int);
    }
    while f < frames
        invariant
            n == samples@.len(),
            1 <= channels <= 0xFFFF,
            frames == n as int / channels as int,
            frames * channels <= n,
            f <= frames,
            mono@.len() == f,
            forall|j: int|
                0 <= j < f ==> mono@[j] == mono_frame(samples@, channels as int, j) as i16,
        decreases frames - f,
    {
        proof {
            assert((f + 1) * (channels as int) <= frames * (channels as int)) by (nonlinear_arith)
                requires
                    f + 1 <= frames,
                    channels >= 1,
            ;
            assert((f + 1) * (channels as int) == f * (channels as int) + channels)
                by (nonlinear_arith);
        }
        let base = f * channels;
        let mut sum: i64 = 0;
        let mut k: usize = 0;
        while k < channels
            invariant
                n == samples@.len(),
                1 <= channels <= 0xFFFF,
                base == f * channels,
                base + channels <= n,
                k <= channels,
                sum == frame_sum(samples@.subrange(base as int, base + k)),
                -32768 * (k as int) <= sum <= 32767 * (k as int),
            decreases channels - k,
        {
            let s = samples[base + k];
            proof {
                let sub = samples@.subrange(base as int, base + k + 1);
                assert(sub.drop_last() =~= samples@.subrange(base as int, base + k));
                assert(sub.last() == samples@[base + k]);
            }
            sum = sum + s as i64;
            k = k + 1;
        }
        let avg: i64 = if sum >= 0 {
            ((sum as u64) / (channels as u64)) as i64
        } else {
            -((((-sum) as u64) / (channels as u64)) as i64)
        };
        proof {
            let fs = frame_sum(samples@.subrange(f * (channels as int), f * (channels as int)
                + channels));
            assert(avg == div_trunc(fs, channels as int));
            assert(-32768 * (channels as int) <= fs <= 32767 * (channels as int));
            if fs >= 0 {
                lemma_div_nonincreasing(fs, channels as int);
                assert(fs / (channels as int) <= 32767) by (nonlinear_arith)
                    requires
                        fs <= 32767 * (channels as int),
                        channels >= 1,
                ;
                assert(avg <= 32767);
            } else {
                lemma_div_nonincreasing(-fs, channels as int);
                assert((-fs) / (channels as int) <= 32768) by (nonlinear_arith)
                    requires
                        -fs <= 32768 * (channels as int),
                        channels >= 1,
                ;
                assert(avg >= -32768);
            }
        }
        mono.push(avg as i16);
        f = f + 1;
    }
    proof {
        assert(mono@ =~= downmix_spec(samples@, channels as int));
    }
    mono
}

/// Linear interpolation between `a` and `b` with fractional weight
/// `num / den`, truncated toward the earlier sample.
pub open spec fn lerp(a: int, b: int, num: int, den: int) -> int {
    if b >= a {
        a + ((b - a) * num) / den
    } else {
        a - ((a - b) * num) / den
    }
}

/// Number of output samples: `ceil(len * dst / src)`.
pub open spec fn resample_len(len: int, src: int, dst: int) -> int {
    (len * dst + src - 1) / src
}

/// The value of output sample `i`: the input is read at position
/// `i * src / dst`, interpolating toward the next sample (clamped to the
/// last valid index).
pub open spec fn resampled_at(s: Seq<i16>, src: int, dst: int, i: int) -> int {
    let idx = (i * src) / dst;
    let rem = (i * src) % dst;
    let j = if idx + 1 < s.len() {
        idx + 1
    } else {
        s.len() - 1
    };
    lerp(s[idx] as int, s[j] as int, rem, dst)
}

/// The stream `s` resampled from `src` Hz to `dst` Hz by linear
/// interpolation.
pub open spec fn resample_spec(s: Seq<i16>, src: int, dst: int) -> Seq<i16> {
    Seq::new(resample_len(s.len() as int, src, dst) as nat, |i: int| resampled_at(s, src, dst, i) as i16)
}

/// An interpolated sample lies between its two neighbouring input samples.
pub proof fn lemma_lerp_bounds(a: int, b: int, num: int, den: int)
    requires
        0 <= num < den,
    ensures
        a <= b ==> a <= lerp(a, b, num, den) <= b,
        b <= a ==> b <= lerp(a, b, num, den) <= a,
{
    if b >= a {
        let d = b - a;
        lemma_fundamental_div_mod(d * num, den);
        assert(0 <= (d * num) / den <= d) by (nonlinear_arith)
            requires
                d >= 0,
                0 <= num < den,
                d * num == den * ((d * num) / den) + (d * num) % den,
                0 <= (d * num) % den < den,
        ;
    } else {
        let d = a - b;
        lemma_fundamental_div_mod(d * num, den);
        assert(0 <= (d * num) / den <= d) by (nonlinear_arith)
            requires
                d >= 0,
                0 <= num < den,
                d * num == den * ((d * num) / den) + (d * num) % den,
                0 <= (d * num) % den < den,
        ;
    }
}

/// Resample `input` from `src_hz` to `dst_hz` by linear interpolation.
/// An empty input or a zero rate yields an empty stream; equal rates return
/// the input unchanged.
pub fn resample_linear(input: &Vec<i16>, src_hz: usize, dst_hz: usize) -> (r: Vec<i16>)
    requires
        input@.len() * dst_hz + src_hz <= usize::MAX,
    ensures
        (input@.len() == 0 || src_hz == 0 || dst_hz == 0) ==> r@ == Seq::<i16>::empty(),
        (input@.len() > 0 && src_hz > 0 && src_hz == dst_hz) ==> r@ == input@,
        (input@.len() > 0 && src_hz > 0 && dst_hz > 0 && src_hz != dst_hz) ==> r@
            == resample_spec(input@, src_hz as int, dst_hz as int),
{
    if input.len() == 0 || src_hz == 0 || dst_hz == 0 {
        return Vec::new();
    }
    let n = input.len();
    if src_hz == dst_hz {
        let mut out: Vec<i16> = Vec::new();
        let mut i: usize = 0;
        while i < n
            invariant
                n == input@.len(),
                i <= n,
                out@ == input@.subrange(0, i as int),
            decreases n - i,
        {
            out.push(input[i]);
            i = i + 1;
            assert(out@ =~= input@.subrange(0, i as int));
        }
        assert(out@ =~= input@);
        return out;
    }
    let ghost src = src_hz as int;
    let ghost dst = dst_hz as int;
    proof {
        assert((n as u128) * (dst_hz as u128) <= u128::MAX) by (nonlinear_arith)
            requires
                n as int <= 0xFFFF_FFFF_FFFF_FFFF,
                dst_hz as int <= 0xFFFF_FFFF_FFFF_FFFF,
        ;
    }
    let numer: u128 = (n as u128) * (dst_hz as u128) + (src_hz as u128) - 1;
    let out_len128: u128 = numer / (src_hz as u128);
    proof {
        assert(numer as int == n * dst + src - 1);
        lemma_fundamental_div_mod(numer as int, src);
        assert(out_len128 as int == resample_len(n as int, src, dst));
        assert(src * (out_len128 as int) <= numer as int);
        assert(out_len128 as int <= numer as int) by (nonlinear_arith)
            requires
                src >= 1,
                src * (out_len128 as int) <= numer as int,
                out_len128 as int >= 0,
        ;
    }
    let out_len: usize = out_len128 as usize;
    let mut out: Vec<i16> = Vec::new();
    let mut i: usize = 0;
    while i < out_len
        invariant
            n == input@.len(),
            n >= 1,
            src == src_hz as int,
            dst == dst_hz as int,
            src_hz >= 1,
            dst_hz >= 1,
            out_len == resample_len(n as int, src, dst),
            src * out_len <= n * dst + src - 1,
            i <= out_len,
            out@.len() == i,
            forall|j: int| 0 <= j < i ==> out@[j] == resampled_at(input@, src, dst, j) as i16,
        decreases out_len - i,
    {
        proof {
            assert((i as u128) * (src_hz as u128) <= u128::MAX) by (nonlinear_arith)
                requires
                    i as int <= 0xFFFF_FFFF_FFFF_FFFF,
                    src_hz as int <= 0xFFFF_FFFF_FFFF_FFFF,
            ;
        }
        let pos: u128 = (i as u128) * (src_hz as u128);
        let idx128: u128 = pos / (dst_hz as u128);
        let rem128: u128 = pos % (dst_hz as u128);
        proof {
            assert(pos as int == i as int * src);
            lemma_fundamental_div_mod(pos as int, dst);
            // i < out_len means the source position lies before the end of
            // the input: i * src <= n * dst - 1.
            assert((i + 1) * src <= out_len * src) by (nonlinear_arith)
                requires
                    i + 1 <= out_len,
                    src >= 1,
            ;
            assert((i + 1) * src == i as int * src + src) by (nonlinear_arith);
            assert(pos as int <= n * dst - 1);
            // hence the floor index stays below n
            assert(idx128 as int == (i as int * src) / dst);
            assert(rem128 as int == (i as int * src) % dst);
            assert(0 <= (rem128 as int) < dst);
            if idx128 as int >= n {
                assert(dst * (idx128 as int) >= dst * n) by (nonlinear_arith)
                    requires
                        idx128 as int >= n,
                        dst >= 1,
                ;
                assert(false);
            }
        }
        let idx: usize = idx128 as usize;
        let j: usize = if idx + 1 < n {
            idx + 1
        } else {
            n - 1
        };
        let a = input[idx];
        let b = input[j];
        let val: i16 = if b >= a {
            let d: u128 = ((b as i32) - (a as i32)) as u128;
            proof {
                assert((d as int) * (rem128 as int) <= 0xFFFF_0000_0000_0000_0000)
                    by (nonlinear_arith)
                    requires
                        0 <= (d as int) <= 0xFFFF,
                        0 <= (rem128 as int) <= 0xFFFF_FFFF_FFFF_FFFF,
                ;
            }
            let q: u128 = (d * rem128) / (dst_hz as u128);
            proof {
                lemma_fundamental_div_mod((d * rem128) as int, dst);
                assert(q as int <= d as int) by (nonlinear_arith)
                    requires
                        dst >= 1,
                        0 <= (rem128 as int) < dst,
                        (d as int) * (rem128 as int) == dst * (q as int) + ((d as int) * (
                        rem128 as int)) % dst,
                        0 <= ((d as int) * (rem128 as int)) % dst < dst,
                        q as int >= 0,
                ;
                assert(q as int == ((b - a) * (rem128 as int)) / dst);
            }
            (a as i32 + q as i32) as i16
        } else {
            let d: u128 = ((a as i32) - (b as i32)) as u128;
            proof {
                assert((d as int) * (rem128 as int) <= 0xFFFF_0000_0000_0000_0000)
                    by (nonlinear_arith)
                    requires
                        0 <= (d as int) <= 0xFFFF,
                        0 <= (rem128 as int) <= 0xFFFF_FFFF_FFFF_FFFF,
                ;
            }
            let q: u128 = (d * rem128) / (dst_hz as u128);
            proof {
                lemma_fundamental_div_mod((d * rem128) as int, dst);
                assert(q as int <= d as int) by (nonlinear_arith)
                    requires
                        dst >= 1,
                        0 <= (rem128 as int) < dst,
                        (d as int) * (rem128 as int) == dst * (q as int) + ((d as int) * (
                        rem128 as int)) % dst,
                        0 <= ((d as int) * (rem128 as int)) % dst < dst,
                        q as int >= 0,
                ;
                assert(q as int == ((a - b) * (rem128 as int)) / dst);
            }
            (a as i32 - q as i32) as i16
        };
        proof {
            assert(val == resampled_at(input@, src, dst, i as int) as i16);
        }
        out.push(val);
        i = i + 1;
    }
    proof {
        assert(out@ =~= resample_spec(input@, src, dst));
    }
    out
}

/// For a stereo frame the mono sample is the truncated mean of its two
/// channels.
pub proof fn lemma_downmix_stereo(a: i16, b: i16)
    ensures
        mono_frame(seq![a, b], 2, 0) == div_trunc(a + b, 2),
{
    let s = seq![a, b];
    assert(s.subrange(0, 2) =~= s);
    assert(s.drop_last() =~= seq![a]);
    assert(seq![a].drop_last() =~= Seq::<i16>::empty());
    assert(frame_sum(Seq::<i16>::empty()) == 0);
    assert(frame_sum(seq![a]) == a);
    assert(s.last() == b && s.drop_last() == seq![a]);
    assert(frame_sum(s) == a + b);
}

/// Every resampled value lies between its two neighbouring input samples.
pub proof fn lemma_resampled_between(s: Seq<i16>, src: int, dst: int, i: int)
    requires
        s.len() > 0,
        src > 0,
        dst > 0,
        0 <= i < resample_len(s.len() as int, src, dst),
    ensures
        ({
            let idx = (i * src) / dst;
            let j = if idx + 1 < s.len() {
                idx + 1
            } else {
                s.len() - 1
            };
            &&& 0 <= idx < s.len()
            &&& (s[idx] <= s[j] ==> s[idx] <= resampled_at(s, src, dst, i) <= s[j])
            &&& (s[j] <= s[idx] ==> s[j] <= resampled_at(s, src, dst, i) <= s[idx])
        }),
{
    let len = s.len() as int;
    let numer = len * dst + src - 1;
    let out_len = numer / src;
    lemma_fundamental_div_mod(numer, src);
    assert((i + 1) * src <= out_len * src) by (nonlinear_arith)
        requires
            i + 1 <= out_len,
            src >= 1,
    ;
    assert((i + 1) * src == i * src + src) by (nonlinear_arith);
    assert(i * src <= len * dst - 1);
    lemma_fundamental_div_mod(i * src, dst);
    let idx = (i * src) / dst;
    let rem = (i * src) % dst;
    assert(i * src >= 0) by (nonlinear_arith)
        requires
            i >= 0,
            src >= 0,
    ;
    assert(idx >= 0) by (nonlinear_arith)
        requires
            dst * idx + rem == i * src,
            i * src >= 0,
            0 <= rem < dst,
            dst > 0,
    ;
    if idx >= len {
        assert(dst * idx >= dst * len) by (nonlinear_arith)
            requires
                idx >= len,
                dst >= 1,
        ;
        assert(dst * len == len * dst) by (nonlinear_arith);
        assert(false);
    }
    let j = if idx + 1 < s.len() {
        idx + 1
    } else {
        s.len() - 1
    };
    lemma_lerp_bounds(s[idx] as int, s[j] as int, rem, dst);
}

/// The samples handed to the transcription engine: the interleaved capture
/// downmixed to mono, then resampled to 16 kHz unless already there.
pub open spec fn prepared_spec(s: Seq<i16>, ch: int, rate: int) -> Seq<i16> {
    let mono = downmix_spec(s, ch);
    if rate == 16000 || rate == 0 || mono.len() == 0 {
        mono
    } else {
        resample_spec(mono, rate, 16000)
    }
}

/// Prepare raw interleaved samples for transcription: downmix to mono and
/// resample to 16 kHz.
pub fn prepare_for_transcription(samples: &Vec<i16>, channels: usize, sample_rate: usize) -> (r:
    Vec<i16>)
    requires
        1 <= channels <= 0xFFFF,
        samples@.len() * 16000 + sample_rate <= usize::MAX,
        sample_rate <= usize::MAX - 16000,
    ensures
        r@ == prepared_spec(samples@, channels as int, sample_rate as int),
{
    let mono = downmix(samples, channels);
    proof {
        lemma_div_nonincreasing(samples@.len() as int, channels as int);
        assert(mono@.len() * 16000 <= samples@.len() * 16000) by (nonlinear_arith)
            requires
                mono@.len() <= samples@.len(),
        ;
    }
    if sample_rate == 16000 || sample_rate == 0 || mono.len() == 0 {
        return mono;
    }
    resample_linear(&mono, sample_rate, 16000)
}

} // verus!
