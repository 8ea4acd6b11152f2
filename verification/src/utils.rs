//! Pure fixed-point conversion helpers shared by the whole crate: the
//! range-mapping function behind every geometry-to-time and
//! geometry-to-pitch conversion, the waveform gap computation, and the
//! unit-range normalizer for display bins.

use vstd::prelude::*;

verus! {

/// Fixed-point resolution: one nominal unit (a pixel, a second, a pitch
/// factor of 1.0, an amplitude of 1.0) is carried as this many `i64` steps.
pub const UNIT: i64 = 1000000;

/// Largest magnitude, in fixed-point steps, that coordinate-like inputs
/// (pixel offsets, window widths, durations) may take.  The bound keeps
/// every intermediate product of the range mapping inside `i128` and every
/// result inside `i64`.
pub const COORD_LIMIT: i64 = 2305843009213693952;

/// `v` clamped into `[lo, hi]`.
pub open spec fn spec_clamp(v: int, lo: int, hi: int) -> int {
    if v < lo {
        lo
    } else if v > hi {
        hi
    } else {
        v
    }
}

/// The larger of `a` and `b`.
pub open spec fn spec_max(a: int, b: int) -> int {
    if a >= b {
        a
    } else {
        b
    }
}

/// Mathematical meaning of `scale_value`: clamp `x` into the input range,
/// then map it linearly onto the output range, rounding the quotient down.
pub open spec fn spec_scale(x: int, in_min: int, in_max: int, out_min: int, out_max: int) -> int {
    let xc = spec_clamp(x, in_min, in_max);
    out_min + (xc - in_min) * (out_max - out_min) / (in_max - in_min)
}

/// Floor division on `i128` with a positive divisor, matching the
/// specification-level Euclidean `/`.
pub(crate) fn div_floor(a: i128, b: i128) -> (q: i128)
    requires
        0 < b <= 0x40000000000000000000000000000000i128,
        -0x40000000000000000000000000000000i128 <= a
            <= 0x40000000000000000000000000000000i128,
    ensures
        q == a as int / b as int,
{
    if a >= 0 {
        let qu: u128 = (a as u128) / (b as u128);
        proof {
            vstd::arithmetic::div_mod::lemma_div_pos_is_pos(a as int, b as int);
        }
        qu as i128
    } else {
        // Round the magnitude up so that the signed result rounds down.
        let n: u128 = (-a) as u128;
        let qu: u128 = (n + (b as u128) - 1) / (b as u128);
        let q: i128 = -(qu as i128);
        proof {
            lemma_floor_div_negative(a as int, b as int, qu as int);
        }
        q
    }
}

/// Bounds of a scaled proportion: for `0 <= d1 <= den`, the quotient
/// `d1 * w / den` lies between `0` and `w`, whichever way `w` points.
proof fn lemma_mul_div_bounds(d1: int, den: int, w: int)
    requires
        0 <= d1 <= den,
        0 < den,
    ensures
        w >= 0 ==> 0 <= d1 * w / den <= w,
        w < 0 ==> w <= d1 * w / den <= 0,
{
    vstd::arithmetic::div_mod::lemma_div_of0(den);
    vstd::arithmetic::div_mod::lemma_div_multiples_vanish(w, den);
    if w >= 0 {
        assert(0 <= d1 * w && d1 * w <= den * w) by (nonlinear_arith)
            requires
                0 <= d1 <= den,
                w >= 0,
        ;
        vstd::arithmetic::div_mod::lemma_div_is_ordered(0, d1 * w, den);
        vstd::arithmetic::div_mod::lemma_div_is_ordered(d1 * w, den * w, den);
    } else {
        assert(den * w <= d1 * w && d1 * w <= 0) by (nonlinear_arith)
            requires
                0 <= d1 <= den,
                w < 0,
        ;
        vstd::arithmetic::div_mod::lemma_div_is_ordered(den * w, d1 * w, den);
        vstd::arithmetic::div_mod::lemma_div_is_ordered(d1 * w, 0, den);
    }
}

/// Maps `input` from `input_range` onto `output_range`, clamping first, as
/// every pixel-to-seconds and pixel-to-pitch conversion in the crate does.
/// The quotient rounds toward negative infinity.
pub fn scale_value(input: i64, input_range: (i64, i64), output_range: (i64, i64)) -> (r: i64)
    requires
        -COORD_LIMIT <= input_range.0 < input_range.1 <= COORD_LIMIT,
        -COORD_LIMIT <= output_range.0 <= COORD_LIMIT,
        -COORD_LIMIT <= output_range.1 <= COORD_LIMIT,
    ensures
        r == spec_scale(
            input as int,
            input_range.0 as int,
            input_range.1 as int,
            output_range.0 as int,
            output_range.1 as int,
        ),
        output_range.0 <= output_range.1 ==> output_range.0 <= r <= output_range.1,
        output_range.1 < output_range.0 ==> output_range.1 <= r <= output_range.0,
        input <= input_range.0 ==> r == output_range.0,
        input >= input_range.1 ==> r == output_range.1,
{
    let (in_min, in_max) = input_range;
    let (out_min, out_max) = output_range;
    let clamped: i64 = if input < in_min {
        in_min
    } else if input > in_max {
        in_max
    } else {
        input
    };
    let d1: i128 = clamped as i128 - in_min as i128;
    let w: i128 = out_max as i128 - out_min as i128;
    let den: i128 = in_max as i128 - in_min as i128;
    proof {
        assert(-0x40000000000000000000000000000000 <= d1 * w
            <= 0x40000000000000000000000000000000) by (nonlinear_arith)
            requires
                0 <= d1 <= 0x8000000000000000i128,
                -0x8000000000000000i128 <= w <= 0x8000000000000000i128,
        ;
    }
    let num: i128 = d1 * w;
    let q: i128 = div_floor(num, den);
    proof {
        lemma_mul_div_bounds(d1 as int, den as int, w as int);
        if clamped == in_min {
            assert(num == 0) by (nonlinear_arith)
                requires
                    d1 == 0,
                    num == d1 * w,
            ;
            vstd::arithmetic::div_mod::lemma_div_of0(den as int);
        }
        if clamped == in_max {
            assert(num == den * w) by (nonlinear_arith)
                requires
                    d1 == den,
                    num == d1 * w,
            ;
            vstd::arithmetic::div_mod::lemma_div_multiples_vanish(w as int, den as int);
        }
    }
    out_min + (q as i64)
}

/// Mathematical meaning of `calculate_spacing`: the leftover width divided
/// evenly among the gaps between drawn samples, zero when there is at most
/// one sample.
pub open spec fn spec_spacing(new_width: int, num_samples: int, samples_width: int) -> int {
    if num_samples > 1 {
        (new_width - num_samples * samples_width) / (num_samples - 1)
    } else {
        0
    }
}

/// Width of the gap to leave between adjacent waveform bars so that
/// `num_samples` bars of width `samples_width` fill `new_width` exactly.
pub fn calculate_spacing(new_width: i64, num_samples: i32, samples_width: i64) -> (r: i64)
    requires
        -COORD_LIMIT <= new_width <= COORD_LIMIT,
        -COORD_LIMIT <= samples_width <= COORD_LIMIT,
    ensures
        r == spec_spacing(new_width as int, num_samples as int, samples_width as int),
{
    if num_samples > 1 {
        proof {
            lemma_spacing_bounds(new_width as int, num_samples as int, samples_width as int);
        }
        let total: i128 = (num_samples as i128) * (samples_width as i128);
        let num: i128 = new_width as i128 - total;
        let den: i128 = (num_samples as i128) - 1;
        let q: i128 = div_floor(num, den);
        q as i64
    } else {
        0
    }
}

/// The spacing quotient stays within three coordinate limits, so it fits in
/// an `i64`, and its numerator stays well inside `i128`.
proof fn lemma_spacing_bounds(new_width: int, n: int, sw: int)
    requires
        1 < n <= 0x80000000,
        -COORD_LIMIT <= new_width <= COORD_LIMIT,
        -COORD_LIMIT <= sw <= COORD_LIMIT,
    ensures
        -3 * (COORD_LIMIT as int) <= (new_width - n * sw) / (n - 1) <= 3 * (COORD_LIMIT as int),
        -0x40000000000000000000000000000000 <= new_width - n * sw
            <= 0x40000000000000000000000000000000,
        -0x40000000000000000000000000000000 <= n * sw <= 0x40000000000000000000000000000000,
{
    let l = COORD_LIMIT as int;
    let d = n - 1;
    let num = new_width - n * sw;
    assert(-(n * l) <= n * sw <= n * l && n * l <= 0x80000000 * l) by (nonlinear_arith)
        requires
            1 < n <= 0x80000000,
            -l <= sw <= l,
            l > 0,
    ;
    assert((n + 1) * l <= 3 * d * l && d * (3 * l) == 3 * d * l && n * l + l == (n + 1) * l)
        by (nonlinear_arith)
        requires
            1 < n,
            d == n - 1,
            l > 0,
    ;
    assert(num <= d * (3 * l) && d * (-(3 * l)) <= num) by (nonlinear_arith)
        requires
            num == new_width - n * sw,
            -(n * l) <= n * sw <= n * l,
            -l <= new_width <= l,
            n * l + l <= 3 * d * l,
            d * (3 * l) == 3 * d * l,
            d * (-(3 * l)) == -(3 * d * l),
    ;
    vstd::arithmetic::div_mod::lemma_div_is_ordered(num, d * (3 * l), d);
    vstd::arithmetic::div_mod::lemma_div_is_ordered(d * (-(3 * l)), num, d);
    vstd::arithmetic::div_mod::lemma_div_multiples_vanish(3 * l, d);
    vstd::arithmetic::div_mod::lemma_div_multiples_vanish(-(3 * l), d);
}

/// The smallest element of `s`, or `0` for an empty sequence.
pub open spec fn seq_min_val(s: Seq<i64>) -> int
    decreases s.len(),
{
    if s.len() == 0 {
        0
    } else if s.len() == 1 {
        s[0] as int
    } else {
        let m = seq_min_val(s.drop_last());
        if (s.last() as int) < m {
            s.last() as int
        } else {
            m
        }
    }
}

/// The largest element of `s`, or `0` for an empty sequence.
pub open spec fn seq_max_val(s: Seq<i64>) -> int
    decreases s.len(),
{
    if s.len() == 0 {
        0
    } else if s.len() == 1 {
        s[0] as int
    } else {
        let m = seq_max_val(s.drop_last());
        if (s.last() as int) > m {
            s.last() as int
        } else {
            m
        }
    }
}

/// Every element of a non-empty sequence lies between its minimum and its
/// maximum.
pub proof fn lemma_min_max_bounds(s: Seq<i64>)
    requires
        s.len() > 0,
    ensures
        forall|i: int| 0 <= i < s.len() ==> seq_min_val(s) <= #[trigger] s[i] <= seq_max_val(s),
        seq_min_val(s) <= seq_max_val(s),
    decreases s.len(),
{
    if s.len() > 1 {
        lemma_min_max_bounds(s.drop_last());
        assert forall|i: int| 0 <= i < s.len() implies seq_min_val(s) <= #[trigger] s[i]
            <= seq_max_val(s) by {
            if i < s.len() - 1 {
                assert(s.drop_last()[i] == s[i]);
                assert(seq_min_val(s.drop_last()) <= s.drop_last()[i] <= seq_max_val(
                    s.drop_last(),
                ));
            } else {
                assert(s[i] == s.last());
            }
        };
    }
}

/// Rescales a bin sequence into the unit range `[0, UNIT]` for display.
/// A constant (or empty) input has nothing to display and yields an empty
/// sequence; otherwise the minimum maps to `0` and the maximum to `UNIT`
/// exactly.
pub fn scale_values_to_unit_range(values: Vec<i64>) -> (r: Vec<i64>)
    ensures
        seq_min_val(values@) >= seq_max_val(values@) ==> r@.len() == 0,
        seq_min_val(values@) < seq_max_val(values@) ==> {
            &&& r@.len() == values@.len()
            &&& forall|i: int|
                0 <= i < values@.len() ==> r@[i] == (values@[i] - seq_min_val(values@)) * (
                UNIT as int) / (seq_max_val(values@) - seq_min_val(values@))
            &&& forall|i: int| 0 <= i < r@.len() ==> 0 <= #[trigger] r@[i] <= UNIT
            &&& forall|i: int|
                0 <= i < values@.len() && values@[i] == seq_min_val(values@) ==> r@[i] == 0
            &&& forall|i: int|
                0 <= i < values@.len() && values@[i] == seq_max_val(values@) ==> r@[i] == UNIT
        },
{
    if values.len() == 0 {
        return Vec::new();
    }
    let mut mn: i64 = values[0];
    let mut mx: i64 = values[0];
    let mut i: usize = 1;
    while i < values.len()
        invariant
            1 <= i <= values@.len(),
            values@.len() > 0,
            mn == seq_min_val(values@.subrange(0, i as int)),
            mx == seq_max_val(values@.subrange(0, i as int)),
        decreases values@.len() - i,
    {
        proof {
            let pre = values@.subrange(0, i as int);
            let ext = values@.subrange(0, i + 1);
            assert(ext.drop_last() =~= pre);
            assert(ext.last() == values@[i as int]);
        }
        if values[i] < mn {
            mn = values[i];
        }
        if values[i] > mx {
            mx = values[i];
        }
        i = i + 1;
    }
    proof {
        assert(values@.subrange(0, values@.len() as int) =~= values@);
        lemma_min_max_bounds(values@);
    }
    if mn >= mx {
        return Vec::new();
    }
    let den: i128 = mx as i128 - mn as i128;
    let mut out: Vec<i64> = Vec::new();
    let mut j: usize = 0;
    while j < values.len()
        invariant
            0 <= j <= values@.len(),
            out@.len() == j,
            (mn as int) == seq_min_val(values@),
            (mx as int) == seq_max_val(values@),
            mn < mx,
            den == mx - mn,
            forall|k: int|
                0 <= k < j ==> out@[k] == (values@[k] - mn) * (UNIT as int) / ((mx - mn) as int),
            forall|k: int| 0 <= k < j ==> 0 <= #[trigger] out@[k] <= UNIT,
        decreases values@.len() - j,
    {
        proof {
            lemma_min_max_bounds(values@);
        }
        let d1: i128 = values[j] as i128 - mn as i128;
        proof {
            assert(-0x40000000000000000000000000000000 <= d1 * (UNIT as i128)
                <= 0x40000000000000000000000000000000) by (nonlinear_arith)
                requires
                    -0x20000000000000000i128 <= d1 <= 0x20000000000000000i128,
                    (UNIT as i128) == 1000000i128,
            ;
        }
        let num: i128 = d1 * (UNIT as i128);
        let q: i128 = div_floor(num, den);
        proof {
            lemma_mul_div_bounds(d1 as int, den as int, UNIT as int);
        }
        out.push(q as i64);
        j = j + 1;
    }
    proof {
        let smin = seq_min_val(values@);
        let smax = seq_max_val(values@);
        let d = smax - smin;
        vstd::arithmetic::div_mod::lemma_div_of0(d);
        vstd::arithmetic::div_mod::lemma_div_multiples_vanish(UNIT as int, d);
    }
    out
}

/// For `a < 0 < b`, the floor of `a / b` is the negated ceiling of
/// `(-a) / b`, and the ceiling is `((-a) + b - 1) / b`.
proof fn lemma_floor_div_negative(a: int, b: int, qu: int)
    requires
        a < 0,
        b > 0,
        qu == ((-a) + b - 1) / b,
    ensures
        -qu == a / b,
{
    let n = -a;
    vstd::arithmetic::div_mod::lemma_fundamental_div_mod(n + b - 1, b);
    vstd::arithmetic::div_mod::lemma_fundamental_div_mod(a, b);
    let r1 = (n + b - 1) % b;
    let r2 = a % b;
    vstd::arithmetic::div_mod::lemma_mod_bound(n + b - 1, b);
    vstd::arithmetic::div_mod::lemma_mod_bound(a, b);
    assert(n + b - 1 == b * qu + r1);
    assert(a == b * (a / b) + r2);
    // Both sides describe the unique quotient of `a` by `b`.
    assert(b * qu == -(b * (-qu))) by (nonlinear_arith);
    assert(a == b * (-qu) + (b - 1 - r1));
    assert(0 <= b - 1 - r1 < b);
    vstd::arithmetic::div_mod::lemma_fundamental_div_mod_converse(a, b, -qu, b - 1 - r1);
}

} // verus!
