//! Integer signal processing on 16-bit PCM frames: the RMS energy metric
//! the voice-activity detector compares against its thresholds, and the
//! down-mix step that feeds recognition backends.
//!
//! Samples are 16-bit PCM, so a frame's RMS energy lands in the same
//! integer unit as the configured thresholds whatever the capture device's
//! native format was.

use vstd::prelude::*;

verus! {

/// The sum of the squares of the samples.
pub open spec fn spec_sum_sq(s: Seq<i16>) -> int
    decreases s.len(),
{
    if s.len() == 0 {
        0
    } else {
        spec_sum_sq(s.drop_last()) + s.last() * s.last()
    }
}

/// The integer square root: the greatest `r` with `r * r <= x`.
pub open spec fn spec_isqrt(x: int) -> int {
    choose|r: int| 0 <= r && #[trigger] (r * r) <= x && x < (r + 1) * (r + 1)
}

/// Any `r` with `r * r <= x < (r + 1) * (r + 1)` is the integer square
/// root of `x`.
pub proof fn lemma_isqrt_unique(x: int, r: int)
    requires
        0 <= r,
        r * r <= x,
        x < (r + 1) * (r + 1),
    ensures
        spec_isqrt(x) == r,
{
    assert(exists|c: int| 0 <= c && #[trigger] (c * c) <= x && x < (c + 1) * (c + 1)) by {
        assert(0 <= r && r * r <= x && x < (r + 1) * (r + 1));
    }
    let c = spec_isqrt(x);
    assert(0 <= c && c * c <= x && x < (c + 1) * (c + 1));
    if c < r {
        assert((c + 1) * (c + 1) <= r * r) by (nonlinear_arith)
            requires
                0 <= c,
                c < r,
        ;
    }
    if r < c {
        assert((r + 1) * (r + 1) <= c * c) by (nonlinear_arith)
            requires
                0 <= r,
                r < c,
        ;
    }
}

/// The integer square root, by binary search.
pub fn isqrt_u64(x: u64) -> (r: u64)
    ensures
        r == spec_isqrt(x as int),
        r * r <= x,
        x < (r + 1) * (r + 1),
{
    let mut lo: u64 = 0;
    let mut hi: u64 = 0x1_0000_0000;
    assert((hi * hi) > x) by (nonlinear_arith)
        requires
            hi == 0x1_0000_0000,
            x <= 0xffff_ffff_ffff_ffff,
    ;
    while lo + 1 < hi
        invariant
            lo < hi <= 0x1_0000_0000,
            lo * lo <= x,
            x < hi * hi,
        decreases hi - lo,
    {
        let mid = lo + (hi - lo) / 2;
        assert(lo < mid < hi);
        assert(mid * mid <= 0xffff_fffe_0000_0001) by (nonlinear_arith)
            requires
                0 < mid <= 0xffff_ffff,
        ;
        if mid * mid <= x {
            lo = mid;
        } else {
            hi = mid;
        }
    }
    proof {
        assert(hi == lo + 1);
        lemma_isqrt_unique(x as int, lo as int);
    }
    lo
}

/// The RMS energy of a frame in 16-bit sample units: the integer square
/// root of the mean of the squared samples.
pub open spec fn spec_energy(s: Seq<i16>) -> int {
    spec_isqrt(spec_sum_sq(s) / s.len() as int)
}

/// Every sample's square is at most `2^30`, so the sum of squares is at
/// most `2^30` per sample.
proof fn lemma_sum_sq_bound(s: Seq<i16>)
    ensures
        0 <= spec_sum_sq(s) <= s.len() * 0x4000_0000,
    decreases s.len(),
{
    if s.len() > 0 {
        lemma_sum_sq_bound(s.drop_last());
        let v = s.last() as int;
        assert(0 <= v * v <= 0x4000_0000) by (nonlinear_arith)
            requires
                -0x8000 <= v <= 0x7fff,
        ;
        assert((s.len() - 1) * 0x4000_0000 + 0x4000_0000 == s.len() * 0x4000_0000) by (nonlinear_arith);
    }
}

/// The RMS energy of one frame, scaled into 16-bit sample units.
pub fn frame_energy(frame: &Vec<i16>) -> (r: u32)
    requires
        1 <= frame@.len() <= 0x1_0000_0000,
    ensures
        r == spec_energy(frame@),
{
    let n = frame.len();
    let mut acc: u64 = 0;
    let mut i: usize = 0;
    proof {
        lemma_sum_sq_bound(frame@);
        assert(frame@.subrange(0, 0) =~= Seq::<i16>::empty());
    }
    while i < n
        invariant
            i <= n,
            n == frame@.len(),
            n <= 0x1_0000_0000,
            acc == spec_sum_sq(frame@.subrange(0, i as int)),
            acc <= i * 0x4000_0000,
        decreases n - i,
    {
        let v: i32 = frame[i] as i32;
        assert(0 <= v * v <= 0x4000_0000) by (nonlinear_arith)
            requires
                -0x8000 <= v <= 0x7fff,
        ;
        let sq: u64 = (v * v) as u64;
        proof {
            assert(i * 0x4000_0000 + 0x4000_0000 == (i + 1) * 0x4000_0000) by (nonlinear_arith);
            assert((i + 1) * 0x4000_0000 <= 0x1_0000_0000 * 0x4000_0000) by (nonlinear_arith)
                requires
                    i + 1 <= 0x1_0000_0000,
            ;
            assert(frame@.subrange(0, i + 1).drop_last() =~= frame@.subrange(0, i as int));
        }
        acc = acc + sq;
        i = i + 1;
    }
    proof {
        assert(frame@.subrange(0, n as int) =~= frame@);
    }
    let mean: u64 = acc / (n as u64);
    let root = isqrt_u64(mean);
    proof {
        lemma_sum_sq_bound(frame@);
        assert(mean <= 0x4000_0000) by {
            assert(spec_sum_sq(frame@) <= n * 0x4000_0000);
            vstd::arithmetic::div_mod::lemma_div_is_ordered(
                spec_sum_sq(frame@),
                n * 0x4000_0000,
                n as int,
            );
            assert(n * 0x4000_0000 / (n as int) == 0x4000_0000) by (nonlinear_arith)
                requires
                    n >= 1,
            ;
        }
        assert(root <= 0xffff_ffff) by {
            if root > 0xffff_ffff {
                assert(root * root > 0x4000_0000) by (nonlinear_arith)
                    requires
                        root > 0xffff_ffff,
                ;
            }
        }
    }
    root as u32
}

/// The truncating average of one interleaved chunk: sum divided by the
/// channel count, rounded toward zero as the hardware path does.
pub open spec fn spec_chunk_avg(s: Seq<i16>, lo: int, channels: int) -> int {
    let total = spec_chunk_sum(s, lo, channels);
    if total >= 0 {
        total / channels
    } else {
        -((-total) / channels)
    }
}

/// The sum of `channels` consecutive samples starting at `lo`.
pub open spec fn spec_chunk_sum(s: Seq<i16>, lo: int, channels: int) -> int
    decreases channels,
{
    if channels <= 0 {
        0
    } else {
        s[lo] + spec_chunk_sum(s, lo + 1, channels - 1)
    }
}

proof fn lemma_chunk_sum_bound(s: Seq<i16>, lo: int, channels: int)
    requires
        0 <= lo,
        0 <= channels,
        lo + channels <= s.len(),
    ensures
        -0x8000 * channels <= spec_chunk_sum(s, lo, channels) <= 0x7fff * channels,
    decreases channels,
{
    if channels > 0 {
        lemma_chunk_sum_bound(s, lo + 1, channels - 1);
    }
}

/// Down-mix interleaved multi-channel samples to mono by averaging each
/// chunk of `channels` consecutive samples (trailing samples that do not
/// fill a chunk are dropped).
pub fn downmix_mono(samples: &Vec<i16>, channels: usize) -> (out: Vec<i16>)
    requires
        1 <= channels,
        samples@.len() <= 0x1000_0000_0000,
    ensures
        out@.len() == samples@.len() as int / channels as int,
        forall|k: int|
            0 <= k < out@.len() ==> out@[k] == spec_chunk_avg(
                samples@,
                k * channels,
                channels as int,
            ),
{
    let n = samples.len() / channels;
    proof {
        vstd::arithmetic::div_mod::lemma_fundamental_div_mod(
            samples@.len() as int,
            channels as int,
        );
        vstd::arithmetic::div_mod::lemma_mod_division_less_than_divisor(
            samples@.len() as int,
            channels as int,
        );
    }
    let mut out: Vec<i16> = Vec::new();
    let mut k: usize = 0;
    while k < n
        invariant
            k <= n,
            1 <= channels,
            samples@.len() <= 0x1000_0000_0000,
            samples@.len() <= usize::MAX,
            n == samples@.len() as int / channels as int,
            n * channels <= samples@.len(),
            out@.len() == k,
            forall|j: int|
                0 <= j < k ==> out@[j] == spec_chunk_avg(samples@, j * channels, channels as int),
        decreases n - k,
    {
        proof {
            assert((k + 1) * channels <= n * channels) by (nonlinear_arith)
                requires
                    k + 1 <= n,
                    channels >= 1,
            ;
            assert(k * channels + channels == (k + 1) * channels) by (nonlinear_arith);
            assert(k * channels >= 0) by (nonlinear_arith)
                requires
                    k >= 0,
                    channels >= 0,
            ;
        }
        let lo = k * channels;
        let mut total: i64 = 0;
        let mut c: usize = 0;
        while c < channels
            invariant
                c <= channels,
                lo == k * channels,
                lo + channels <= samples@.len(),
                samples@.len() <= usize::MAX,
                total == spec_chunk_sum_prefix(samples@, lo as int, c as int),
                -0x8000 * (c as int) <= total <= 0x7fff * (c as int),
                channels <= 0x1000_0000_0000,
            decreases channels - c,
        {
            let v = samples[lo + c];
            proof {
                assert(-0x8000 * (c + 1) <= total + v <= 0x7fff * (c + 1)) by (nonlinear_arith)
                    requires
                        -0x8000 * (c as int) <= total <= 0x7fff * (c as int),
                        -0x8000 <= v <= 0x7fff,
                ;
            }
            total = total + v as i64;
            c = c + 1;
        }
        proof {
            lemma_chunk_prefix_full(samples@, lo as int, channels as int);
        }
        let avg: i64 = if total >= 0 {
            total / channels as i64
        } else {
            -((-total) / channels as i64)
        };
        proof {
            lemma_chunk_sum_bound(samples@, lo as int, channels as int);
            if total >= 0 {
                vstd::arithmetic::div_mod::lemma_div_is_ordered(
                    total as int,
                    0x7fff * channels,
                    channels as int,
                );
                assert(0x7fff * channels / (channels as int) == 0x7fff) by (nonlinear_arith)
                    requires
                        channels >= 1,
                ;
            } else {
                vstd::arithmetic::div_mod::lemma_div_is_ordered(
                    (-total) as int,
                    0x8000 * channels,
                    channels as int,
                );
                assert(0x8000 * channels / (channels as int) == 0x8000) by (nonlinear_arith)
                    requires
                        channels >= 1,
                ;
            }
        }
        out.push(avg as i16);
        k = k + 1;
    }
    out
}

/// The sum of the first `c` samples of a chunk starting at `lo`.
pub open spec fn spec_chunk_sum_prefix(s: Seq<i16>, lo: int, c: int) -> int
    decreases c,
{
    if c <= 0 {
        0
    } else {
        spec_chunk_sum_prefix(s, lo, c - 1) + s[lo + c - 1]
    }
}

proof fn lemma_chunk_prefix_full(s: Seq<i16>, lo: int, channels: int)
    requires
        0 <= channels,
    ensures
        spec_chunk_sum_prefix(s, lo, channels) == spec_chunk_sum(s, lo, channels),
    decreases channels,
{
    if channels > 0 {
        lemma_chunk_prefix_full(s, lo + 1, channels - 1);
        lemma_chunk_sum_prefix_step(s, lo, channels);
    }
}

proof fn lemma_chunk_sum_prefix_step(s: Seq<i16>, lo: int, c: int)
    requires
        1 <= c,
    ensures
        spec_chunk_sum_prefix(s, lo, c) == s[lo] + spec_chunk_sum_prefix(s, lo + 1, c - 1),
    decreases c,
{
    if c > 1 {
        lemma_chunk_sum_prefix_step(s, lo, c - 1);
        assert(spec_chunk_sum_prefix(s, lo + 1, c - 1) == spec_chunk_sum_prefix(s, lo + 1, c - 2)
            + s[lo + c - 1]);
    } else {
        assert(spec_chunk_sum_prefix(s, lo, 1) == spec_chunk_sum_prefix(s, lo, 0) + s[lo]);
        assert(spec_chunk_sum_prefix(s, lo, 0) == 0);
        assert(spec_chunk_sum_prefix(s, lo + 1, 0) == 0);
    }
}

} // verus!
