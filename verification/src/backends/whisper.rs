//! The whisper recognition backend's verified side: the linear-
//! interpolation resampling that brings captured audio to the model's
//! required rate. Loading the model and running inference happen outside
//! the library over the samples this code produces.

use vstd::prelude::*;

verus! {

/// The whisper speech-to-text backend: a native inference engine over a
/// model file, configured with a language (empty or `auto` means
/// detection).
pub struct WhisperBackend {
    pub model_path: String,
    pub language: String,
}

/// The value linear interpolation gives at output position `i` when
/// resampling `s` from `from_rate` to `to_rate`: between the two source
/// samples around `i * from_rate / to_rate`, weighted by the remainder,
/// rounded toward zero; the last source sample is carried as is, and
/// positions past the input are silent.
pub open spec fn spec_resampled(s: Seq<i16>, from_rate: u32, to_rate: u32, i: int) -> int {
    let num = i * from_rate;
    let idx = num / to_rate as int;
    let rem = num % to_rate as int;
    if idx + 1 < s.len() {
        let a = s[idx] as int;
        let b = s[idx + 1] as int;
        a + spec_scale_toward_zero(b - a, rem, to_rate as int)
    } else if idx < s.len() {
        s[idx] as int
    } else {
        0
    }
}

/// `d * rem / to`, rounded toward zero.
pub open spec fn spec_scale_toward_zero(d: int, rem: int, to: int) -> int {
    if d >= 0 {
        d * rem / to
    } else {
        -((-d) * rem / to)
    }
}

/// Scaling a difference of two 16-bit samples by `rem / to` with
/// `0 <= rem < to` keeps the result between zero and the difference.
proof fn lemma_scale_bounds(d: int, rem: int, to: int)
    requires
        0 <= rem < to,
        -0x10000 <= d <= 0x10000,
    ensures
        d >= 0 ==> 0 <= spec_scale_toward_zero(d, rem, to) <= d,
        d < 0 ==> d <= spec_scale_toward_zero(d, rem, to) <= 0,
{
    if d >= 0 {
        assert(d * rem <= d * to) by (nonlinear_arith)
            requires
                0 <= rem < to,
                d >= 0,
        ;
        vstd::arithmetic::div_mod::lemma_div_is_ordered(d * rem, d * to, to);
        assert(d * to / to == d) by (nonlinear_arith)
            requires
                to > 0,
        ;
        assert(d * rem >= 0) by (nonlinear_arith)
            requires
                d >= 0,
                rem >= 0,
        ;
        assert(d * rem / to >= 0) by {
            vstd::arithmetic::div_mod::lemma_div_is_ordered(0, d * rem, to);
        }
    } else {
        let nd = -d;
        assert(nd * rem <= nd * to) by (nonlinear_arith)
            requires
                0 <= rem < to,
                nd >= 0,
        ;
        vstd::arithmetic::div_mod::lemma_div_is_ordered(nd * rem, nd * to, to);
        assert(nd * to / to == nd) by (nonlinear_arith)
            requires
                to > 0,
        ;
        assert(nd * rem >= 0) by (nonlinear_arith)
            requires
                nd >= 0,
                rem >= 0,
        ;
        assert(nd * rem / to >= 0) by {
            vstd::arithmetic::div_mod::lemma_div_is_ordered(0, nd * rem, to);
        }
    }
}

impl WhisperBackend {
    /// A whisper backend over the given model file and language.
    pub fn new(model_path: &str, language: &str) -> (r: WhisperBackend)
        ensures
            r.model_path@ == model_path@,
            r.language@ == language@,
    {
        WhisperBackend { model_path: model_path.to_owned(), language: language.to_owned() }
    }

    /// Resample by linear interpolation. The output carries
    /// `len * to_rate / from_rate` samples, each the interpolation of the
    /// two source samples around its position.
    pub fn resample(&self, input: &Vec<i16>, from_rate: u32, to_rate: u32) -> (out: Vec<i16>)
        requires
            1 <= from_rate,
            1 <= to_rate,
            input@.len() * to_rate as int / from_rate as int <= usize::MAX,
            input@.len() <= 0x1000_0000,
        ensures
            out@.len() == input@.len() * to_rate as int / from_rate as int,
            forall|i: int|
                0 <= i < out@.len() ==> #[trigger] out@[i] as int == spec_resampled(
                    input@,
                    from_rate,
                    to_rate,
                    i,
                ),
    {
        let in_len: u64 = input.len() as u64;
        proof {
            assert(in_len * to_rate <= 0x1000_0000 * 0x1_0000_0000) by (nonlinear_arith)
                requires
                    in_len <= 0x1000_0000,
                    to_rate <= 0xffff_ffff,
            ;
            assert(in_len * to_rate >= 0) by (nonlinear_arith)
                requires
                    in_len >= 0,
                    to_rate >= 0,
            ;
        }
        let out_len_wide: u64 = in_len * to_rate as u64 / from_rate as u64;
        let out_len: usize = out_len_wide as usize;
        let mut out: Vec<i16> = Vec::new();
        let mut i: usize = 0;
        while i < out_len
            invariant
                i <= out_len,
                out_len == input@.len() * to_rate as int / from_rate as int,
                out_len <= usize::MAX,
                input@.len() <= 0x1000_0000,
                1 <= from_rate,
                1 <= to_rate,
                out@.len() == i,
                forall|k: int|
                    0 <= k < i ==> #[trigger] out@[k] as int == spec_resampled(
                        input@,
                        from_rate,
                        to_rate,
                        k,
                    ),
            decreases out_len - i,
        {
            proof {
                assert(i * from_rate <= out_len * from_rate) by (nonlinear_arith)
                    requires
                        0 <= i <= out_len,
                        from_rate >= 0,
                ;
                assert(out_len * from_rate <= usize::MAX * 0x1_0000_0000) by (nonlinear_arith)
                    requires
                        out_len <= usize::MAX,
                        from_rate <= 0xffff_ffff,
                ;
            }
            let num: u128 = i as u128 * from_rate as u128;
            let idx_wide: u128 = num / to_rate as u128;
            let rem_wide: u128 = num % to_rate as u128;
            proof {
                vstd::arithmetic::div_mod::lemma_mod_division_less_than_divisor(
                    num as int,
                    to_rate as int,
                );
                vstd::arithmetic::div_mod::lemma_div_is_ordered(0, num as int, to_rate as int);
            }
            let rem: u32 = rem_wide as u32;
            let sample: i16 = if idx_wide as u128 + 1 < input.len() as u128 {
                let idx = idx_wide as usize;
                let a: i32 = input[idx] as i32;
                let b: i32 = input[idx + 1] as i32;
                let d: i32 = b - a;
                proof {
                    lemma_scale_bounds(d as int, rem as int, to_rate as int);
                    assert(-0x1_0000_0000_0000 <= d as int * rem <= 0x1_0000_0000_0000)
                        by (nonlinear_arith)
                        requires
                            -0x10000 <= d <= 0x10000,
                            0 <= rem <= 0xffff_ffff,
                    ;
                    assert(-0x1_0000_0000_0000 <= (-(d as int)) * rem <= 0x1_0000_0000_0000)
                        by (nonlinear_arith)
                        requires
                            -0x10000 <= d <= 0x10000,
                            0 <= rem <= 0xffff_ffff,
                    ;
                }
                let adj: i64 = if d >= 0 {
                    (d as i64 * rem as i64) / to_rate as i64
                } else {
                    -(((-d) as i64 * rem as i64) / to_rate as i64)
                };
                (a as i64 + adj) as i16
            } else if (idx_wide as u128) < input.len() as u128 {
                input[idx_wide as usize]
            } else {
                0
            };
            out.push(sample);
            i = i + 1;
        }
        out
    }
}

} // verus!
