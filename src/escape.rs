use crate::rational::{rat_add, rat_clone, rat_from_int, rat_gt, rat_mul, rat_ok, rat_pos_den, rat_sub, rat_value};
use num::BigRational;
use vstd::prelude::*;

verus! {

/// One step of the quadratic map: `z * z + c` on complex numbers `(re, im)`.
pub open spec fn step(z: (real, real), c: (real, real)) -> (real, real) {
    (z.0 * z.0 - z.1 * z.1 + c.0, 2 as real * (z.0 * z.1) + c.1)
}

/// The `k`-th iterate of the map started at `z = c`.
pub open spec fn orbit(c: (real, real), k: nat) -> (real, real)
    decreases k,
{
    if k == 0 {
        c
    } else {
        step(orbit(c, (k - 1) as nat), c)
    }
}

/// `|z| > 2`, stated on the squared magnitude.
pub open spec fn escaped(z: (real, real)) -> bool {
    z.0 * z.0 + z.1 * z.1 > 4 as real
}

/// The first `k` in `[from, max)` whose iterate has escaped, or `max`.
pub open spec fn escape_count_from(c: (real, real), from: nat, max: nat) -> nat
    decreases max - from,
{
    if from >= max {
        max
    } else if escaped(orbit(c, from)) {
        from
    } else {
        escape_count_from(c, from + 1, max)
    }
}

/// The escape time of `c` under the cap `max`: the number of iterates,
/// counted from `z = c` and tested before each update, that stay within
/// radius 2; `max` when none of the first `max` leaves.
pub open spec fn escape_count(c: (real, real), max: nat) -> nat {
    escape_count_from(c, 0, max)
}

/// The outcome of iterating one point.
pub struct EscapeResult {
    /// The escape time, in `[0, max_iter]`; `max_iter` marks an interior point.
    pub iterations: u32,
    /// The real part of the iterate at which the loop stopped.
    pub re: BigRational,
    /// The imaginary part of the iterate at which the loop stopped.
    pub im: BigRational,
}

/// The escape time starting from `from` counts the iterates before it too.
proof fn lemma_count_from_bounds(c: (real, real), from: nat, max: nat)
    requires
        from <= max,
    ensures
        from <= escape_count_from(c, from, max) <= max,
        escape_count_from(c, from, max) < max ==> escaped(
            orbit(c, escape_count_from(c, from, max)),
        ),
        forall|k: nat|
            from <= k < escape_count_from(c, from, max) ==> !escaped(#[trigger] orbit(c, k)),
    decreases max - from,
{
    if from < max && !escaped(orbit(c, from)) {
        lemma_count_from_bounds(c, from + 1, max);
    }
}

/// The escape time is exactly the first iterate that leaves radius 2, and
/// reaches the cap exactly when none of the first `max` leaves.
pub proof fn lemma_escape_count(c: (real, real), max: nat)
    ensures
        escape_count(c, max) <= max,
        forall|k: nat| k < escape_count(c, max) ==> !escaped(#[trigger] orbit(c, k)),
        escape_count(c, max) < max ==> escaped(orbit(c, escape_count(c, max))),
        escape_count(c, max) == max <==> (forall|k: nat| k < max ==> !escaped(#[trigger] orbit(c, k))),
{
    lemma_count_from_bounds(c, 0, max);
}

/// The origin never leaves: it is interior under every cap.
pub proof fn lemma_origin_is_interior(max: nat)
    ensures
        escape_count((0 as real, 0 as real), max) == max,
{
    let c = (0 as real, 0 as real);
    assert forall|k: nat| k < max implies !escaped(#[trigger] orbit(c, k)) by {
        lemma_origin_orbit(k);
    }
    lemma_escape_count(c, max);
}

proof fn lemma_origin_orbit(k: nat)
    ensures
        orbit((0 as real, 0 as real), k) == (0 as real, 0 as real),
    decreases k,
{
    if k > 0 {
        lemma_origin_orbit((k - 1) as nat);
    }
}

/// Iterates `z <- z * z + c` from `z = c = re + im i`, testing `|z| > 2`
/// before each update, at most `max_iter` times.
pub fn escape_time(re: &BigRational, im: &BigRational, max_iter: u32) -> (r: EscapeResult)
    requires
        rat_ok(*re),
        rat_ok(*im),
    ensures
        rat_ok(r.re),
        rat_ok(r.im),
        r.iterations as nat == escape_count((rat_value(*re), rat_value(*im)), max_iter as nat),
        (rat_value(r.re), rat_value(r.im)) == orbit(
            (rat_value(*re), rat_value(*im)),
            r.iterations as nat,
        ),
        r.iterations <= max_iter,
        r.iterations == max_iter <==> (forall|k: nat|
            k < max_iter ==> !escaped(
                #[trigger] orbit((rat_value(*re), rat_value(*im)), k),
            )),
{
    let ghost c = (rat_value(*re), rat_value(*im));
    let four = rat_from_int(4);
    let mut zr = rat_clone(re);
    let mut zi = rat_clone(im);
    let mut i: u32 = 0;
    proof {
        lemma_escape_count(c, max_iter as nat);
    }
    while i < max_iter
        invariant
            i <= max_iter,
            (rat_value(zr), rat_value(zi)) == orbit(c, i as nat),
            c == (rat_value(*re), rat_value(*im)),
            rat_value(four) == 4 as real,
            rat_ok(four),
            rat_pos_den(four),
            rat_ok(zr),
            rat_ok(zi),
            rat_ok(*re),
            rat_ok(*im),
            forall|k: nat| k < i ==> !escaped(#[trigger] orbit(c, k)),
            escape_count(c, max_iter as nat) <= max_iter,
            forall|k: nat| k < escape_count(c, max_iter as nat) ==> !escaped(#[trigger] orbit(c, k)),
            escape_count(c, max_iter as nat) < max_iter ==> escaped(
                orbit(c, escape_count(c, max_iter as nat)),
            ),
            i <= escape_count(c, max_iter as nat),
        ensures
            i as nat == escape_count(c, max_iter as nat),
            (rat_value(zr), rat_value(zi)) == orbit(c, i as nat),
            rat_ok(zr),
            rat_ok(zi),
        decreases max_iter - i,
    {
        let rr = rat_mul(&zr, &zr);
        let ii = rat_mul(&zi, &zi);
        let norm = rat_add(&rr, &ii);
        if rat_gt(&norm, &four) {
            assert(escaped(orbit(c, i as nat)));
            break;
        }
        let ri = rat_mul(&zr, &zi);
        let next_re = rat_add(&rat_sub(&rr, &ii), re);
        let next_im = rat_add(&rat_add(&ri, &ri), im);
        zr = next_re;
        zi = next_im;
        i = i + 1;
    }
    EscapeResult { iterations: i, re: zr, im: zi }
}

} // verus!
