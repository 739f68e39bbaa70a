use vstd::prelude::*;
use vstd::arithmetic::div_mod::lemma_div_multiples_vanish;
use vstd::arithmetic::power::{pow, lemma_pow0, lemma_pow1, lemma_pow_adds, lemma_pow_multiplies};
use vstd::arithmetic::power2::{pow2, lemma_pow2, lemma_pow2_adds, lemma2_to64, lemma2_to64_rest};
use crate::engine::{escape_counter, escape_steps, escaped, step_re, step_im, palette_rgb};
use crate::fixed::{SCALE, fp_sq, fp_mul, lemma_div_le};
use crate::image::{Image, tick_range, INITIAL_RANGE};

verus! {

/// The axis range left after n ticks from a range of d.
pub open spec fn range_after(n: nat, d: int) -> int
    decreases n,
{
    if n == 0 {
        d
    } else {
        tick_range(range_after((n - 1) as nat, d))
    }
}

/// The iteration budget after n ticks from a budget of d.
pub open spec fn depth_after(n: nat, d: int) -> int
    decreases n,
{
    if n == 0 {
        d
    } else {
        depth_after((n - 1) as nat, d) + 5
    }
}

/// The iteration budget grows by exactly 5 per tick: after n ticks it is
/// d + 5 * n.
pub proof fn lemma_depth_schedule(n: nat, d: int)
    ensures
        depth_after(n, d) == d + 5 * n,
    decreases n,
{
    if n > 0 {
        lemma_depth_schedule((n - 1) as nat, d);
    }
}

/// From the initial frame, the range after n ticks is exactly
/// 3^n * 2^(50 - 2n): every tick multiplies it by exactly three quarters,
/// with no rounding, as long as enough low bits are left (24 ticks).
proof fn lemma_range_exact(n: nat)
    requires
        n <= 24,
    ensures
        range_after(n, INITIAL_RANGE as int) == pow(3, n) * pow2((50 - 2 * n) as nat),
    decreases n,
{
    if n == 0 {
        lemma_pow0(3);
        lemma2_to64_rest();
        assert(pow2(50) == 0x4000000000000);
    } else {
        let m = (n - 1) as nat;
        lemma_range_exact(m);
        let em = (52 - 2 * n) as nat;
        let r = range_after(m, INITIAL_RANGE as int);
        let p3 = pow(3, m);
        let p2 = pow2((em - 3) as nat) as int;
        lemma_pow2_adds((em - 3) as nat, 3);
        lemma_pow2_adds((em - 3) as nat, 1);
        lemma2_to64();
        assert(r == p3 * (p2 * 8));
        let k = p3 * p2;
        assert(r == 8 * k) by (nonlinear_arith)
            requires
                r == p3 * (p2 * 8),
                k == p3 * p2,
        ;
        lemma_div_multiples_vanish(k, 8);
        assert(r / 8 == k);
        assert(range_after(n, INITIAL_RANGE as int) == tick_range(r));
        assert(tick_range(r) == 6 * k);
        lemma_pow_adds(3, m, 1);
        lemma_pow1(3);
        assert(pow(3, n) == 3 * p3) by (nonlinear_arith)
            requires
                pow(3, n) == p3 * pow(3, 1),
                pow(3, 1) == 3,
        ;
        assert(pow2((50 - 2 * n) as nat) == p2 * 2);
        assert(6 * k == (3 * p3) * (p2 * 2)) by (nonlinear_arith)
            requires
                k == p3 * p2,
        ;
    }
}

/// Geometric zoom law: after n ticks from the initial frame the viewport
/// range on each axis equals the initial range times (3/4)^n, stated
/// multiplicatively as range * 4^n == initial * 3^n. Once fewer than three
/// zero low bits remain in the range (after tick 24) the truncating division
/// makes the step inexact, so the law is stated for the exact regime.
pub proof fn lemma_zoom_geometry(n: nat)
    requires
        n <= 24,
    ensures
        range_after(n, INITIAL_RANGE as int) * pow(4, n) == (INITIAL_RANGE as int) * pow(3, n),
{
    lemma_range_exact(n);
    let p3 = pow(3, n);
    let e = (50 - 2 * n) as nat;
    lemma_pow2(2);
    lemma2_to64();
    assert(pow(2, 2) == 4);
    lemma_pow_multiplies(2, 2, n);
    lemma_pow2((2 * n) as nat);
    assert(pow(4, n) == pow2((2 * n) as nat) as int);
    lemma_pow2_adds(e, (2 * n) as nat);
    lemma2_to64_rest();
    assert(pow2(e) * pow2((2 * n) as nat) == pow2(50));
    let a = pow2(e) as int;
    let b = pow2((2 * n) as nat) as int;
    assert((p3 * a) * b == p3 * (a * b)) by (nonlinear_arith);
    assert(pow2(50) == 0x4000000000000);
}

/// The pixel grid is a pure function of the frame parameters: two filled
/// buffers with the same dimensions, viewport and budget hold the same
/// colors everywhere.
pub proof fn lemma_fill_deterministic(a: Image, b: Image)
    requires
        a.wf(),
        b.wf(),
        a.is_filled(),
        b.is_filled(),
        a.spec_width() == b.spec_width(),
        a.spec_height() == b.spec_height(),
        a.spec_sx() == b.spec_sx(),
        a.spec_sy() == b.spec_sy(),
        a.spec_ex() == b.spec_ex(),
        a.spec_ey() == b.spec_ey(),
        a.spec_depth() == b.spec_depth(),
    ensures
        a.pixels().len() == b.pixels().len(),
        forall|i: int|
            0 <= i < a.pixels().len() ==> (#[trigger] a.pixels()[i]).rgb() == b.pixels()[i].rgb(),
{
}

/// The origin lies in the Mandelbrot set: z stays at 0 forever, so the
/// counter always exhausts the budget and the palette paints the pixel black,
/// whatever the budget.
pub proof fn lemma_origin_never_escapes(fuel: nat)
    ensures
        escape_counter(0, 0, fuel) == fuel,
        palette_rgb(escape_counter(0, 0, fuel) as int, fuel as int) == (0int, 0int, 0int),
    decreases fuel,
{
    assert(!escaped(0, 0));
    if fuel > 0 {
        lemma_div_le(0, 0, SCALE as int);
        assert(fp_sq(0) == 0);
        assert(fp_mul(0, 0) == 0);
        assert(step_re(0, 0, 0) == 0);
        assert(step_im(0, 0, 0) == 0);
        lemma_origin_never_escapes((fuel - 1) as nat);
        assert(escape_steps(0, 0, 0, 0, fuel) == 1 + escape_steps(0, 0, 0, 0, (fuel - 1) as nat));
    }
}

} // verus!
