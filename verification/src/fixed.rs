use vstd::prelude::*;

verus! {

/// Scale factor of the fixed-point coordinates: one unit of the complex
/// plane is SCALE, so a coordinate value v stands for the real number
/// v / 2^48.
pub const SCALE: i128 = 0x1_0000_0000_0000;

/// Every coordinate the engine works on lies in [-COORD_LIMIT, COORD_LIMIT],
/// that is, in [-4, 4] on the real axis.
pub const COORD_LIMIT: i128 = 4 * SCALE;

/// The escape test compares the squared magnitude of z against 4; squares of
/// scaled coordinates carry the scale twice, so this is 4 * SCALE * SCALE,
/// written out as 2^98 (see lemma_scale_facts).
pub const ESCAPE_LIMIT: i128 = 0x4000000000000000000000000;

/// The constant products the overflow proofs rely on, folded to literals;
/// the default solver does not multiply symbolic constants.
pub proof fn lemma_scale_facts(s: int) by (nonlinear_arith)
    requires
        s == 0x1_0000_0000_0000,
    ensures
        (2 * s) * (2 * s) == 0x4000000000000000000000000,
        (4 * s) * s == 0x4000000000000000000000000,
        (8 * s) * (8 * s) == 0x40000000000000000000000000,
        (12 * s) * (12 * s) == 0x90000000000000000000000000,
        (16 * s) * (16 * s) == 0x100000000000000000000000000,
{
}

/// A square is never negative.
pub proof fn lemma_sq_nonneg(x: int) by (nonlinear_arith)
    ensures
        x * x >= 0,
{
}

/// The square of a scaled coordinate, brought back to single scale.
/// x * x is never negative, so Euclidean and truncating division agree.
pub open spec fn fp_sq(x: int) -> int {
    (x * x) / (SCALE as int)
}

/// The product of two scaled coordinates, brought back to single scale and
/// truncated toward zero, exactly as the executable code computes it.
pub open spec fn fp_mul(a: int, b: int) -> int {
    if a * b >= 0 {
        (a * b) / (SCALE as int)
    } else {
        -((-(a * b)) / (SCALE as int))
    }
}

/// Bound on a product from bounds on its factors.
pub proof fn lemma_mul_abs(a: int, b: int, ca: int, cb: int) by (nonlinear_arith)
    requires
        -ca <= a <= ca,
        -cb <= b <= cb,
    ensures
        -(ca * cb) <= a * b <= ca * cb,
{
}

/// A number whose square is at most b * b lies within [-b, b].
pub proof fn lemma_sq_within(x: int, b: int) by (nonlinear_arith)
    requires
        0 <= b,
        x * x <= b * b,
    ensures
        -b <= x <= b,
{
}

/// Dividing a value bounded by m * s through s yields at most m.
pub proof fn lemma_div_le(p: int, m: int, s: int) by (nonlinear_arith)
    requires
        0 < s,
        0 <= p,
        p <= m * s,
    ensures
        0 <= p / s <= m,
{
}

/// A k-th sample of a nonnegative span d cut into w steps stays within the span.
pub proof fn lemma_sample_within(d: int, w: int, k: int) by (nonlinear_arith)
    requires
        0 <= d,
        1 <= w,
        0 <= k < w,
    ensures
        0 <= (d / w) * k <= d,
{
}

/// Row and column of a row-major index lie inside the grid.
pub proof fn lemma_grid_coords(i: int, w: int, h: int) by (nonlinear_arith)
    requires
        0 <= i,
        1 <= w,
        1 <= h,
        i < w * h,
    ensures
        0 <= i % w < w,
        0 <= i / w < h,
{
}

/// Bound on a truncated scaled product from a bound on the full product.
pub proof fn lemma_fp_mul_bound(a: int, b: int, m: int)
    requires
        0 <= m,
        -(m * (SCALE as int)) <= a * b <= m * (SCALE as int),
    ensures
        -m <= fp_mul(a, b) <= m,
{
    if a * b >= 0 {
        lemma_div_le(a * b, m, SCALE as int);
    } else {
        lemma_div_le(-(a * b), m, SCALE as int);
    }
}

/// Scaled fixed-point multiplication, truncating toward zero.
pub fn mul_scaled(a: i128, b: i128) -> (r: i128)
    requires
        -(16 * SCALE) <= a <= 16 * SCALE,
        -(16 * SCALE) <= b <= 16 * SCALE,
    ensures
        r == fp_mul(a as int, b as int),
{
    proof {
        lemma_scale_facts(SCALE as int);
        lemma_mul_abs(a as int, b as int, 16 * (SCALE as int), 16 * (SCALE as int));
    }
    let p: i128 = a * b;
    if p >= 0 {
        p / SCALE
    } else {
        -((-p) / SCALE)
    }
}

} // verus!
