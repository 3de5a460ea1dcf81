//! Gradient tables: piecewise linear interpolation between parsed
//! color stops, one table entry per escape-iteration count.
//!
//! Entry `t` of a table over `n` stops sits at fractional position
//! `t * (n - 1) / max_iters`; the entry interpolates between the stop
//! at the floor of that position and the next stop, each channel
//! truncated to an integer. The fraction is handled exactly, as the
//! pair `num / den` with `num = (t * (n - 1)) % max_iters` and
//! `den = max_iters`.

use vstd::prelude::*;
use vstd::arithmetic::div_mod::{
    lemma_div_multiples_vanish, lemma_mod_division_less_than_divisor, lemma_multiply_divide_le,
    lemma_multiply_divide_lt,
};
use vstd::arithmetic::mul::{lemma_mul_strict_inequality, lemma_mul_upper_bound};

use crate::GradientError;
use crate::color::{hex_to_rgb, strip_hash, is_valid_hex6};

verus! {

/// Every stop in the list is a six-hex-digit color (after its optional `#`).
pub open spec fn all_stops_valid(ss: Seq<&str>) -> bool {
    forall|i: int| 0 <= i < ss.len() ==> is_valid_hex6(strip_hash(#[trigger] ss[i]@))
}

/// The channel value interpolated between `a` and `b` at the fraction
/// `num / den`, truncated to an integer.
pub open spec fn lerp_channel(a: int, b: int, num: int, den: int) -> int
    recommends
        0 <= num < den,
{
    (a * den + (b - a) * num) / den
}

/// Channel `ch` of color stop `i` of the stop list `ss`.
pub open spec fn stop_channel(ss: Seq<&str>, i: int, ch: int) -> int {
    crate::color::hex_byte_at(strip_hash(ss[i]@), ch)
}

/// Channel `ch` of entry `t` of the gradient table over the stops `ss`.
pub open spec fn gradient_channel(ss: Seq<&str>, max_iters: int, t: int, ch: int) -> int
    recommends
        ss.len() >= 2,
        0 <= t < max_iters,
{
    let n = ss.len() as int;
    let seg = (t * (n - 1)) / max_iters;
    let num = (t * (n - 1)) % max_iters;
    lerp_channel(stop_channel(ss, seg, ch), stop_channel(ss, seg + 1, ch), num, max_iters)
}

/// One interpolated channel, computed exactly over the fraction `num / den`.
fn lerp_channel_exec(a: u8, b: u8, num: u32, den: u32) -> (r: u8)
    requires
        num < den,
    ensures
        r as int == lerp_channel(a as int, b as int, num as int, den as int),
{
    let ai = a as u64;
    let bi = b as u64;
    let numi = num as u64;
    let deni = den as u64;
    if b >= a {
        proof {
            assert(ai * deni <= 255 * 0xffff_ffffu64 && (bi - ai) * numi <= 255 * 0xffff_ffffu64
                && ai * deni + (bi - ai) * numi <= 255 * (deni as int)) by (nonlinear_arith)
                requires
                    ai <= 255,
                    bi <= 255,
                    ai <= bi,
                    numi < deni,
                    deni <= 0xffff_ffffu64,
            ;
        }
        let x = ai * deni + (bi - ai) * numi;
        proof {
            lemma_multiply_divide_le(x as int, deni as int, 255);
        }
        (x / deni) as u8
    } else {
        proof {
            assert(ai * deni <= 255 * 0xffff_ffffu64 && (ai - bi) * numi <= ai * deni && ai * deni
                - (ai - bi) * numi <= 255 * (deni as int)) by (nonlinear_arith)
                requires
                    ai <= 255,
                    bi < ai,
                    numi < deni,
                    deni <= 0xffff_ffffu64,
            ;
        }
        let x = ai * deni - (ai - bi) * numi;
        proof {
            lemma_multiply_divide_le(x as int, deni as int, 255);
            assert(ai as int * (deni as int) - (ai as int - bi as int) * (numi as int) == ai as int
                * (deni as int) + (bi as int - ai as int) * (numi as int)) by (nonlinear_arith);
        }
        (x / deni) as u8
    }
}

/// Linear interpolation between two colors at the fraction
/// `num / den`, each channel truncated to an integer.
pub fn lerp_color(first_color: &[u8; 3], second_color: &[u8; 3], num: u32, den: u32) -> (c: [u8;
    3])
    requires
        num < den,
    ensures
        forall|ch: int|
            #![trigger c[ch]]
            0 <= ch < 3 ==> c[ch] as int == lerp_channel(
                first_color[ch] as int,
                second_color[ch] as int,
                num as int,
                den as int,
            ),
{
    let c = [
        lerp_channel_exec(first_color[0], second_color[0], num, den),
        lerp_channel_exec(first_color[1], second_color[1], num, den),
        lerp_channel_exec(first_color[2], second_color[2], num, den),
    ];
    c
}

/// Builds the gradient lookup table: exactly one color per iteration
/// count in `[0, max_iters)`, interpolated between the parsed stops.
///
/// Fails with `TooFewColorStops` when fewer than two stops are given,
/// and with `InvalidColorFormat` when some stop is not a six-hex-digit
/// color; otherwise succeeds.
pub fn get_gradient(gradient_colors: Vec<&str>, max_iters: u32) -> (res: Result<
    Vec<[u8; 3]>,
    GradientError,
>)
    ensures
        res == Err::<Vec<[u8; 3]>, GradientError>(GradientError::TooFewColorStops)
            <==> gradient_colors@.len() < 2,
        res == Err::<Vec<[u8; 3]>, GradientError>(GradientError::InvalidColorFormat)
            <==> gradient_colors@.len() >= 2 && !all_stops_valid(gradient_colors@),
        res is Ok <==> gradient_colors@.len() >= 2 && all_stops_valid(gradient_colors@),
        res matches Ok(table) ==> {
            &&& table@.len() == max_iters
            &&& forall|t: int, ch: int|
                #![trigger table@[t][ch]]
                0 <= t < max_iters && 0 <= ch < 3 ==> table@[t][ch] as int == gradient_channel(
                    gradient_colors@,
                    max_iters as int,
                    t,
                    ch,
                )
        },
{
    let n = gradient_colors.len();
    if n < 2 {
        return Err(GradientError::TooFewColorStops);
    }
    let mut gradient_colors_rgb: Vec<[u8; 3]> = Vec::new();
    let mut i: usize = 0;
    while i < n
        invariant
            n == gradient_colors@.len(),
            2 <= n,
            i <= n,
            gradient_colors_rgb@.len() == i,
            forall|j: int| 0 <= j < i ==> is_valid_hex6(strip_hash(#[trigger] gradient_colors@[j]@)),
            forall|j: int, ch: int|
                #![trigger gradient_colors_rgb@[j][ch]]
                0 <= j < i && 0 <= ch < 3 ==> gradient_colors_rgb@[j][ch] as int == stop_channel(
                    gradient_colors@,
                    j,
                    ch,
                ),
        decreases n - i,
    {
        match hex_to_rgb(gradient_colors[i]) {
            Ok(rgb) => {
                gradient_colors_rgb.push([rgb[0], rgb[1], rgb[2]]);
            },
            Err(e) => {
                return Err(e);
            },
        }
        i += 1;
    }
    let mut colors: Vec<[u8; 3]> = Vec::new();
    let mut iter: u32 = 0;
    while iter < max_iters
        invariant
            n == gradient_colors@.len(),
            2 <= n,
            gradient_colors_rgb@.len() == n,
            all_stops_valid(gradient_colors@),
            forall|j: int, ch: int|
                #![trigger gradient_colors_rgb@[j][ch]]
                0 <= j < n && 0 <= ch < 3 ==> gradient_colors_rgb@[j][ch] as int == stop_channel(
                    gradient_colors@,
                    j,
                    ch,
                ),
            iter <= max_iters,
            colors@.len() == iter,
            forall|t: int, ch: int|
                #![trigger colors@[t][ch]]
                0 <= t < iter && 0 <= ch < 3 ==> colors@[t][ch] as int == gradient_channel(
                    gradient_colors@,
                    max_iters as int,
                    t,
                    ch,
                ),
        decreases max_iters - iter,
    {
        proof {
            lemma_mul_upper_bound(iter as int, u32::MAX as int, n - 1 as int, usize::MAX as int);
            lemma_mul_strict_inequality(iter as int, max_iters as int, n - 1 as int);
            lemma_multiply_divide_lt(iter as int * (n - 1 as int), max_iters as int, n - 1 as int);
            lemma_mod_division_less_than_divisor(iter as int * (n - 1 as int), max_iters as int);
        }
        let prod: u128 = (iter as u128) * ((n - 1) as u128);
        let color_index: usize = (prod / (max_iters as u128)) as usize;
        let value_num: u32 = (prod % (max_iters as u128)) as u32;
        let c = lerp_color(
            &gradient_colors_rgb[color_index],
            &gradient_colors_rgb[color_index + 1],
            value_num,
            max_iters,
        );
        colors.push(c);
        iter += 1;
    }
    Ok(colors)
}

/// The first gradient entry reproduces the first color stop exactly:
/// at `t == 0` the fractional position is `0`, so the interpolation
/// returns the first stop's channels unchanged.
pub proof fn lemma_gradient_first_entry(ss: Seq<&str>, max_iters: int, ch: int)
    requires
        ss.len() >= 2,
        max_iters > 0,
    ensures
        gradient_channel(ss, max_iters, 0, ch) == stop_channel(ss, 0, ch),
{
    let a = stop_channel(ss, 0, ch);
    let b = stop_channel(ss, 1, ch);
    lemma_div_multiples_vanish(a, max_iters);
    assert(a * max_iters + (b - a) * 0 == max_iters * a) by (nonlinear_arith);
    assert(lerp_channel(a, b, 0, max_iters) == (max_iters * a) / max_iters);
}

} // verus!
