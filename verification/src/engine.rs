use vstd::prelude::*;
use crate::fixed::{
    SCALE, COORD_LIMIT, ESCAPE_LIMIT, fp_sq, fp_mul, lemma_mul_abs, lemma_sq_within,
    lemma_div_le, lemma_fp_mul_bound, lemma_scale_facts, lemma_sq_nonneg, mul_scaled,
};

verus! {

/// Real part of one step of z <- z * z + c, in fixed point.
pub open spec fn step_re(zr: int, zi: int, cr: int) -> int {
    fp_sq(zr) - fp_sq(zi) + cr
}

/// Imaginary part of one step of z <- z * z + c, in fixed point.
pub open spec fn step_im(zr: int, zi: int, ci: int) -> int {
    2 * fp_mul(zr, zi) + ci
}

/// The escape test: the squared magnitude of z exceeds 4.
pub open spec fn escaped(zr: int, zi: int) -> bool {
    zr * zr + zi * zi > ESCAPE_LIMIT as int
}

/// Number of iterations of z <- z * z + c performed from (zr, zi), stopping
/// as soon as z has escaped or the fuel runs out.
pub open spec fn escape_steps(zr: int, zi: int, cr: int, ci: int, fuel: nat) -> nat
    decreases fuel,
{
    if escaped(zr, zi) || fuel == 0 {
        0
    } else {
        1 + escape_steps(step_re(zr, zi, cr), step_im(zr, zi, ci), cr, ci, (fuel - 1) as nat)
    }
}

/// The escape-time counter of the complex point c = cr + i * ci under an
/// iteration budget of depth.
pub open spec fn escape_counter(cr: int, ci: int, depth: nat) -> nat {
    escape_steps(0, 0, cr, ci, depth)
}

/// The counter never exceeds the iteration budget.
pub proof fn lemma_counter_bounded(zr: int, zi: int, cr: int, ci: int, fuel: nat)
    ensures
        0 <= escape_steps(zr, zi, cr, ci, fuel) <= fuel,
    decreases fuel,
{
    if !(escaped(zr, zi) || fuel == 0) {
        lemma_counter_bounded(step_re(zr, zi, cr), step_im(zr, zi, ci), cr, ci, (fuel - 1) as nat);
    }
}

/// The palette rule: an escaped point gets the modulo-derived channel values,
/// a point that exhausted the budget is black.
pub open spec fn palette_rgb(counter: int, depth: int) -> (int, int, int) {
    if counter < depth {
        ((counter % 64) * 4, (counter % 8) * 10, (counter % 6) * 10)
    } else {
        (0int, 0int, 0int)
    }
}

/// Executable palette rule; every channel value fits in a byte.
pub fn palette_color(counter: u32, depth: u32) -> (c: (u8, u8, u8))
    ensures
        (c.0 as int, c.1 as int, c.2 as int) == palette_rgb(counter as int, depth as int),
{
    if counter < depth {
        (((counter % 64) * 4) as u8, ((counter % 8) * 10) as u8, ((counter % 6) * 10) as u8)
    } else {
        (0u8, 0u8, 0u8)
    }
}

/// Runs the Mandelbrot recurrence for one point of the plane and returns how
/// many iterations it took to escape, or the full budget if it never did.
pub fn pixel_counter(cr: i128, ci: i128, depth: u32) -> (n: u32)
    requires
        -COORD_LIMIT <= cr <= COORD_LIMIT,
        -COORD_LIMIT <= ci <= COORD_LIMIT,
    ensures
        n == escape_counter(cr as int, ci as int, depth as nat),
        n <= depth,
{
    let mut zr: i128 = 0;
    let mut zi: i128 = 0;
    let mut zr2: i128 = 0;
    let mut zi2: i128 = 0;
    let mut counter: u32 = 0;
    while zr2 + zi2 <= ESCAPE_LIMIT && counter < depth
        invariant
            0 <= counter <= depth,
            -COORD_LIMIT <= cr <= COORD_LIMIT,
            -COORD_LIMIT <= ci <= COORD_LIMIT,
            -(8 * SCALE) <= zr <= 8 * SCALE,
            -(12 * SCALE) <= zi <= 12 * SCALE,
            zr2 == (zr as int) * (zr as int),
            zi2 == (zi as int) * (zi as int),
            0 <= zr2 <= 0x40000000000000000000000000,
            0 <= zi2 <= 0x90000000000000000000000000,
            escape_counter(cr as int, ci as int, depth as nat) == counter + escape_steps(
                zr as int,
                zi as int,
                cr as int,
                ci as int,
                (depth - counter) as nat,
            ),
        decreases depth - counter,
    {
        proof {
            lemma_scale_facts(SCALE as int);
            lemma_sq_nonneg(zr as int);
            lemma_sq_nonneg(zi as int);
            assert((zr as int) * (zr as int) <= (2 * (SCALE as int)) * (2 * (SCALE as int)));
            assert((zi as int) * (zi as int) <= (2 * (SCALE as int)) * (2 * (SCALE as int)));
            lemma_sq_within(zr as int, 2 * (SCALE as int));
            lemma_sq_within(zi as int, 2 * (SCALE as int));
            lemma_div_le(zr2 as int, 4 * (SCALE as int), SCALE as int);
            lemma_div_le(zi2 as int, 4 * (SCALE as int), SCALE as int);
        }
        let xtemp: i128 = zr2 / SCALE - zi2 / SCALE + cr;
        proof {
            lemma_mul_abs(zr as int, zi as int, 2 * (SCALE as int), 2 * (SCALE as int));
            lemma_fp_mul_bound(zr as int, zi as int, 4 * (SCALE as int));
        }
        let t: i128 = mul_scaled(zr, zi);
        let new_zi: i128 = 2 * t + ci;
        proof {
            assert(xtemp == step_re(zr as int, zi as int, cr as int));
            assert(new_zi == step_im(zr as int, zi as int, ci as int));
            assert(escape_steps(zr as int, zi as int, cr as int, ci as int, (depth - counter) as nat)
                == 1 + escape_steps(
                    xtemp as int,
                    new_zi as int,
                    cr as int,
                    ci as int,
                    (depth - counter - 1) as nat,
                ));
        }
        zr = xtemp;
        zi = new_zi;
        counter = counter + 1;
        proof {
            lemma_scale_facts(SCALE as int);
            lemma_sq_nonneg(zr as int);
            lemma_sq_nonneg(zi as int);
            lemma_mul_abs(zr as int, zr as int, 8 * (SCALE as int), 8 * (SCALE as int));
            lemma_mul_abs(zi as int, zi as int, 12 * (SCALE as int), 12 * (SCALE as int));
        }
        zr2 = zr * zr;
        zi2 = zi * zi;
    }
    proof {
        if zr2 + zi2 > ESCAPE_LIMIT {
            assert(escaped(zr as int, zi as int));
            assert(escape_steps(zr as int, zi as int, cr as int, ci as int, (depth - counter) as nat) == 0);
        } else {
            assert(counter == depth);
            assert(escape_steps(zr as int, zi as int, cr as int, ci as int, 0) == 0);
        }
    }
    counter
}

} // verus!
