//! Sample handling between the microphone and the 16 kHz WAV: keeping the first
//! channel of interleaved frames and linear-interpolation resampling.

use vstd::prelude::*;

verus! {

/// The sample rate of the WAV that goes to speech-to-text.
pub const TARGET_SAMPLE_RATE: u32 = 16_000;

/// `num / den` rounded to the nearest integer, halves away from zero (`f32::round`).
pub open spec fn round_div(num: int, den: int) -> int {
    if num >= 0 {
        (2 * num + den) / (2 * den)
    } else {
        -((2 * (-num) + den) / (2 * den))
    }
}

/// Number of output samples when `n` samples go from `from` Hz to `to` Hz.
pub open spec fn resampled_len(n: nat, from: nat, to: nat) -> nat {
    (n * to) / from
}

/// Output sample `i`: the input position is `i * from / to`; the value lies on the
/// straight line between the sample at the integer part of that position and the
/// next one (the last sample repeats at the end), rounded to the nearest integer.
pub open spec fn interpolated(s: Seq<i16>, from: nat, to: nat, i: nat) -> int {
    let pos = i * from;
    let idx = (pos / to) as int;
    let frac = (pos % to) as int;
    let next = if idx + 1 < s.len() {
        idx + 1
    } else {
        s.len() - 1
    };
    let s0 = s[idx] as int;
    let s1 = s[next] as int;
    round_div(s0 * to + (s1 - s0) * frac, to as int)
}

/// The first channel of interleaved `channels`-sample frames (the last frame may be short).
pub open spec fn first_channel_spec(data: Seq<i16>, channels: nat) -> Seq<i16> {
    Seq::new(
        ((data.len() + channels - 1) / (channels as int)) as nat,
        |k: int| data[k * channels],
    )
}

/// Keeps the first sample of every frame of `channels` interleaved samples.
pub fn first_channel(data: &[i16], channels: usize) -> (out: Vec<i16>)
    requires
        channels >= 1,
    ensures
        out@ == first_channel_spec(data@, channels as nat),
{
    let n = data.len();
    proof {
        let c = channels as int;
        let nn = n as int;
        assert(nn % c != 0 ==> nn / c < nn) by (nonlinear_arith)
            requires
                c >= 1,
                nn >= 0,
        ;
    }
    let frames = if n % channels == 0 {
        n / channels
    } else {
        n / channels + 1
    };
    proof {
        let c = channels as int;
        let nn = n as int;
        assert(frames == (nn + c - 1) / c) by (nonlinear_arith)
            requires
                c >= 1,
                nn >= 0,
                frames == (if nn % c == 0 {
                    nn / c
                } else {
                    nn / c + 1
                }),
        ;
    }
    let mut out: Vec<i16> = Vec::new();
    let mut k: usize = 0;
    while k < frames
        invariant
            channels >= 1,
            n == data@.len(),
            frames == (n + channels - 1) / (channels as int),
            k <= frames,
            out@ =~= first_channel_spec(data@, channels as nat).subrange(0, k as int),
        decreases frames - k,
    {
        proof {
            let c = channels as int;
            let kk = k as int;
            let nn = n as int;
            assert(kk * c < nn) by (nonlinear_arith)
                requires
                    kk < (nn + c - 1) / c,
                    c >= 1,
                    kk >= 0,
            ;
        }
        out.push(data[k * channels]);
        k = k + 1;
    }
    out
}

proof fn lemma_round_div_between(num: int, den: int, lo: int, hi: int)
    requires
        den > 0,
        lo * den <= num <= hi * den,
    ensures
        lo <= round_div(num, den) <= hi,
{
    if num >= 0 {
        let q = (2 * num + den) / (2 * den);
        assert(q * (2 * den) <= 2 * num + den < (q + 1) * (2 * den)) by (nonlinear_arith)
            requires
                q == (2 * num + den) / (2 * den),
                den > 0,
        ;
        assert(lo <= q) by (nonlinear_arith)
            requires
                q * (2 * den) <= 2 * num + den < (q + 1) * (2 * den),
                lo * den <= num,
                den > 0,
        ;
        assert(q <= hi) by (nonlinear_arith)
            requires
                q * (2 * den) <= 2 * num + den,
                num <= hi * den,
                den > 0,
        ;
    } else {
        let m = -num;
        let q = (2 * m + den) / (2 * den);
        assert(q * (2 * den) <= 2 * m + den < (q + 1) * (2 * den)) by (nonlinear_arith)
            requires
                q == (2 * m + den) / (2 * den),
                den > 0,
        ;
        assert(-hi <= q) by (nonlinear_arith)
            requires
                q * (2 * den) <= 2 * m + den < (q + 1) * (2 * den),
                -(hi * den) <= m,
                den > 0,
        ;
        assert(q <= -lo) by (nonlinear_arith)
            requires
                q * (2 * den) <= 2 * m + den,
                m <= -(lo * den),
                den > 0,
        ;
    }
}

/// Linear-interpolation resampler from `from_rate` to `to_rate` (speech to 16 kHz).
/// An empty input, or equal rates, give the input back unchanged.
pub fn resample_linear(samples: &[i16], from_rate: u32, to_rate: u32) -> (out: Vec<i16>)
    requires
        samples@.len() > 0 && from_rate != to_rate ==> from_rate > 0,
        samples@.len() * to_rate <= u64::MAX,
        from_rate > 0 ==> resampled_len(samples@.len(), from_rate as nat, to_rate as nat)
            <= usize::MAX,
    ensures
        samples@.len() == 0 || from_rate == to_rate ==> out@ == samples@,
        samples@.len() > 0 && from_rate != to_rate ==> {
            &&& out@.len() == resampled_len(samples@.len(), from_rate as nat, to_rate as nat)
            &&& forall|i: int|
                0 <= i < out@.len() ==> out@[i] as int == interpolated(
                    samples@,
                    from_rate as nat,
                    to_rate as nat,
                    i as nat,
                )
        },
{
    if samples.len() == 0 || from_rate == to_rate {
        let mut copy: Vec<i16> = Vec::new();
        let mut j: usize = 0;
        while j < samples.len()
            invariant
                j <= samples.len(),
                copy@ =~= samples@.subrange(0, j as int),
            decreases samples.len() - j,
        {
            copy.push(samples[j]);
            j = j + 1;
        }
        assert(copy@ =~= samples@);
        return copy;
    }
    let n = samples.len();
    let from = from_rate as u128;
    let to = to_rate as u128;
    let out_len = ((n as u128) * to / from) as usize;
    let last = n - 1;
    let mut out: Vec<i16> = Vec::new();
    let mut i: usize = 0;
    while i < out_len
        invariant
            n == samples@.len(),
            n > 0,
            last == n - 1,
            from == from_rate as u128,
            to == to_rate as u128,
            from > 0,
            n * to <= u64::MAX,
            out_len == resampled_len(n as nat, from as nat, to as nat),
            i <= out_len,
            out@.len() == i,
            forall|k: int|
                0 <= k < i ==> out@[k] as int == interpolated(
                    samples@,
                    from as nat,
                    to as nat,
                    k as nat,
                ),
        decreases out_len - i,
    {
        proof {
            let ii = i as int;
            let f = from as int;
            let t = to as int;
            let nn = n as int;
            assert((ii + 1) * f <= nn * t) by (nonlinear_arith)
                requires
                    ii + 1 <= (nn * t) / f,
                    f > 0,
                    nn >= 0,
                    t >= 0,
            ;
            assert(t > 0) by (nonlinear_arith)
                requires
                    (ii + 1) * f <= nn * t,
                    f > 0,
                    ii >= 0,
                    t >= 0,
            ;
            assert((ii * f) / t < nn) by (nonlinear_arith)
                requires
                    (ii + 1) * f <= nn * t,
                    f > 0,
                    t > 0,
                    ii >= 0,
            ;
            assert(ii * f <= nn * t) by (nonlinear_arith)
                requires
                    (ii + 1) * f <= nn * t,
                    f > 0,
            ;
        }
        let pos: u128 = (i as u128) * from;
        let idx = (pos / to) as usize;
        let frac = pos % to;
        let next = if idx + 1 < n {
            idx + 1
        } else {
            last
        };
        let s0 = samples[idx] as i128;
        let s1 = samples[next] as i128;
        let den = to as i128;
        proof {
            assert(0 <= frac < to);
            assert(-32768 <= s0 <= 32767);
            assert(-32768 <= s1 <= 32767);
            assert(den <= 0xffff_ffff);
            assert(-32768 * den <= s0 * den <= 32767 * den) by (nonlinear_arith)
                requires
                    -32768 <= s0 <= 32767,
                    den > 0,
            ;
            assert(-65535 * den <= (s1 - s0) * (frac as int) <= 65535 * den) by (nonlinear_arith)
                requires
                    -65535 <= s1 - s0 <= 65535,
                    0 <= frac < den,
            ;
        }
        let num: i128 = s0 * den + (s1 - s0) * (frac as i128);
        let v: i128 = if num >= 0 {
            (2 * num + den) / (2 * den)
        } else {
            -((2 * (-num) + den) / (2 * den))
        };
        proof {
            let lo = if s0 <= s1 {
                s0 as int
            } else {
                s1 as int
            };
            let hi = if s0 <= s1 {
                s1 as int
            } else {
                s0 as int
            };
            let fr = frac as int;
            let d = den as int;
            assert(lo * d <= num <= hi * d) by (nonlinear_arith)
                requires
                    num == s0 * d + (s1 - s0) * fr,
                    0 <= fr < d,
                    lo == (if s0 <= s1 {
                        s0 as int
                    } else {
                        s1 as int
                    }),
                    hi == (if s0 <= s1 {
                        s1 as int
                    } else {
                        s0 as int
                    }),
            ;
            lemma_round_div_between(num as int, d, lo, hi);
            assert(v == round_div(num as int, d));
        }
        out.push(v as i16);
        i = i + 1;
    }
    out
}

} // verus!
