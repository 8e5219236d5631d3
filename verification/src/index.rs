//! Row-major index arithmetic shared by every flat layout.

use vstd::arithmetic::div_mod::{lemma_fundamental_div_mod, lemma_fundamental_div_mod_converse};
use vstd::prelude::*;

verus! {

/// Position of `(a, b, c)` in a flat row-major array whose two inner axes have
/// lengths `nb` and `nc`: `a * nb * nc + b * nc + c`.
pub open spec fn idx3(a: int, b: int, c: int, nb: int, nc: int) -> int {
    (a * nb + b) * nc + c
}

/// A position inside the three axes is a position inside the flat array, and
/// dividing it by the axis lengths gives the coordinates back.
pub proof fn lemma_idx3(a: int, b: int, c: int, na: int, nb: int, nc: int)
    requires
        0 <= a < na,
        0 <= b < nb,
        0 <= c < nc,
    ensures
        0 <= idx3(a, b, c, nb, nc) < na * nb * nc,
        idx3(a, b, c, nb, nc) / nc == a * nb + b,
        idx3(a, b, c, nb, nc) / nc / nb == a,
        idx3(a, b, c, nb, nc) / nc % nb == b,
        idx3(a, b, c, nb, nc) % nc == c,
{
    let r = a * nb + b;
    assert(0 <= r <= na * nb - 1) by (nonlinear_arith)
        requires
            0 <= a <= na - 1,
            0 <= b <= nb - 1,
            r == a * nb + b,
    ;
    assert(0 <= r * nc + c < na * nb * nc) by (nonlinear_arith)
        requires
            0 <= r <= na * nb - 1,
            0 <= c < nc,
    ;
    lemma_fundamental_div_mod_converse(r * nc + c, nc, r, c);
    lemma_fundamental_div_mod_converse(r, nb, a, b);
}

/// Every position of the flat array is the position of some coordinates.
pub proof fn lemma_idx3_onto(i: int, na: int, nb: int, nc: int)
    requires
        0 <= na,
        0 <= nb,
        0 <= nc,
        0 <= i < na * nb * nc,
    ensures
        0 < nb,
        0 < nc,
        0 <= i / nc / nb < na,
        0 <= i / nc % nb < nb,
        0 <= i % nc < nc,
        i == idx3(i / nc / nb, i / nc % nb, i % nc, nb, nc),
{
    if nc == 0 {
        assert(na * nb * nc == 0) by (nonlinear_arith)
            requires
                nc == 0,
        ;
    }
    if nb == 0 {
        assert(na * nb * nc == 0) by (nonlinear_arith)
            requires
                nb == 0,
        ;
    }
    let q = i / nc;
    lemma_fundamental_div_mod(i, nc);
    assert(0 <= q < na * nb) by (nonlinear_arith)
        requires
            0 <= i < na * nb * nc,
            0 < nc,
            i == nc * q + i % nc,
            0 <= i % nc < nc,
    ;
    lemma_fundamental_div_mod(q, nb);
    assert(0 <= q / nb < na) by (nonlinear_arith)
        requires
            0 <= q < na * nb,
            0 < nb,
            q == nb * (q / nb) + q % nb,
            0 <= q % nb < nb,
    ;
    assert(nb * (q / nb) == (q / nb) * nb) by (nonlinear_arith);
    assert(nc * q == q * nc) by (nonlinear_arith);
}

/// Stepping the innermost coordinate steps the position; past the end of an
/// axis the next outer coordinate starts.
pub proof fn lemma_idx3_step(a: int, b: int, nb: int, nc: int)
    ensures
        idx3(a, b, nc, nb, nc) == idx3(a, b + 1, 0, nb, nc),
        idx3(a, nb, 0, nb, nc) == idx3(a + 1, 0, 0, nb, nc),
        idx3(0, 0, 0, nb, nc) == 0,
{
    assert((a * nb + b) * nc + nc == (a * nb + (b + 1)) * nc) by (nonlinear_arith);
    assert(a * nb + nb == (a + 1) * nb) by (nonlinear_arith);
    assert((0 * nb + 0) * nc + 0 == 0) by (nonlinear_arith);
}

/// The position spelled out as a sum of products.
pub proof fn lemma_idx3_sum(a: int, b: int, c: int, nb: int, nc: int)
    ensures
        idx3(a, b, c, nb, nc) == a * nb * nc + b * nc + c,
{
    assert((a * nb + b) * nc == a * nb * nc + b * nc) by (nonlinear_arith);
}

} // verus!
