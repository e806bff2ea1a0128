//! Colors, the fixed palette, and the quantizer that maps a noise sample onto
//! a palette index.
use vstd::prelude::*;
use vstd::arithmetic::div_mod::{lemma_div_is_ordered, lemma_div_multiples_vanish};
use vstd::arithmetic::mul::lemma_mul_inequality;

verus! {

/// An 8-bit-per-channel RGB color.
#[derive(Clone, Copy, Debug, PartialEq, Eq, Structural)]
pub struct Rgb {
    pub red: u8,
    pub green: u8,
    pub blue: u8,
}

/// Fixed-point unit of a noise sample: the sample `s` stands for the real
/// number `s / SAMPLE_ONE`, so coherent noise in `[-1, 1]` is a sample in
/// `[-SAMPLE_ONE, SAMPLE_ONE]`.
pub const SAMPLE_ONE: i32 = 65536;

/// `floor((v + 1) * (n - 1) / 2)` for the real `v = sample / SAMPLE_ONE`.
///
/// A real noise value `w` enters as the sample `floor(w * SAMPLE_ONE)`. That
/// rounding leaves the index of `w` unchanged exactly when `n - 1` divides
/// `2 * SAMPLE_ONE`, that is for palettes of 2, 3, 5, 9, ... colors (`n - 1` a
/// power of two up to `2^17`), the default palette of five among them. For
/// other sizes a value just above a bucket's edge may land one bucket lower.
pub open spec fn raw_index(sample: int, palette_size: int) -> int {
    (sample + SAMPLE_ONE) * (palette_size - 1) / (2 * SAMPLE_ONE)
}

/// The palette index of a sample: `raw_index` clamped into `[0, palette_size - 1]`.
pub open spec fn quantize_spec(sample: int, palette_size: int) -> int {
    let raw = raw_index(sample, palette_size);
    if raw < 0 {
        0
    } else if raw > palette_size - 1 {
        palette_size - 1
    } else {
        raw
    }
}

proof fn lemma_scaled_div_bounds(a: int, m: int, d: int)
    requires
        d > 0,
        m >= 0,
    ensures
        a <= 0 ==> a * m / d <= 0,
        0 <= a <= d ==> 0 <= a * m / d <= m,
        a >= d ==> a * m / d >= m,
{
    lemma_div_multiples_vanish(m, d);
    assert(0int / d == 0);
    if a <= 0 {
        assert(a * m <= 0) by (nonlinear_arith)
            requires
                a <= 0,
                m >= 0,
        ;
        lemma_div_is_ordered(a * m, 0, d);
    }
    if 0 <= a <= d {
        lemma_mul_inequality(a, d, m);
        assert(0 <= a * m) by (nonlinear_arith)
            requires
                a >= 0,
                m >= 0,
        ;
        lemma_div_is_ordered(0, a * m, d);
        lemma_div_is_ordered(a * m, d * m, d);
        assert(d * m == m * d) by (nonlinear_arith);
    }
    if a >= d {
        lemma_mul_inequality(d, a, m);
        lemma_div_is_ordered(d * m, a * m, d);
        assert(d * m == m * d) by (nonlinear_arith);
    }
}

/// Maps a noise sample onto an index of a palette of `palette_size` colors.
/// Samples outside `[-SAMPLE_ONE, SAMPLE_ONE]` are clamped to the first or the
/// last color instead of indexing out of range.
pub fn quantize(sample: i32, palette_size: usize) -> (r: usize)
    requires
        palette_size >= 1,
    ensures
        r == quantize_spec(sample as int, palette_size as int),
        r < palette_size,
{
    proof {
        lemma_scaled_div_bounds(
            sample + SAMPLE_ONE,
            palette_size - 1,
            2 * SAMPLE_ONE,
        );
    }
    if sample <= -SAMPLE_ONE {
        0
    } else if sample >= SAMPLE_ONE {
        palette_size - 1
    } else {
        let shifted: u128 = (sample + SAMPLE_ONE) as u128;
        let steps: u128 = (palette_size - 1) as u128;
        assert(shifted * steps <= (2 * SAMPLE_ONE) as u128 * steps) by (nonlinear_arith)
            requires
                shifted <= 2 * SAMPLE_ONE,
                steps >= 0,
        ;
        assert((2 * SAMPLE_ONE) as u128 * steps <= 0x1_0000_0000_0000_0000_0000_0000 as u128)
            by (nonlinear_arith)
            requires
                steps < 0x1_0000_0000_0000_0000,
        ;
        let raw: u128 = shifted * steps / ((2 * SAMPLE_ONE) as u128);
        raw as usize
    }
}

/// For a sample inside `[-SAMPLE_ONE, SAMPLE_ONE]` and a palette of at least
/// two colors the unclamped index already lies in `[0, palette_size - 1]`, the
/// end points included, so the clamp never changes it there.
pub proof fn lemma_quantize_in_range(sample: int, palette_size: int)
    requires
        -SAMPLE_ONE <= sample <= SAMPLE_ONE,
        palette_size >= 2,
    ensures
        0 <= raw_index(sample, palette_size) <= palette_size - 1,
        quantize_spec(sample, palette_size) == raw_index(sample, palette_size),
        0 <= quantize_spec(sample, palette_size) < palette_size,
{
    lemma_scaled_div_bounds(sample + SAMPLE_ONE, palette_size - 1, 2 * SAMPLE_ONE);
}

/// The palette used by default, first entry first.
pub open spec fn standard_palette_spec() -> Seq<Rgb> {
    seq![
        Rgb { red: 217, green: 30, blue: 65 },
        Rgb { red: 115, green: 50, blue: 92 },
        Rgb { red: 38, green: 36, blue: 115 },
        Rgb { red: 30, green: 28, blue: 89 },
        Rgb { red: 242, green: 58, blue: 41 },
    ]
}

/// The five default colors, in order.
pub fn standard_palette() -> (r: Vec<Rgb>)
    ensures
        r@ == standard_palette_spec(),
{
    let r = vec![
        Rgb { red: 217, green: 30, blue: 65 },
        Rgb { red: 115, green: 50, blue: 92 },
        Rgb { red: 38, green: 36, blue: 115 },
        Rgb { red: 30, green: 28, blue: 89 },
        Rgb { red: 242, green: 58, blue: 41 },
    ];
    assert(r@ =~= standard_palette_spec());
    r
}

} // verus!
