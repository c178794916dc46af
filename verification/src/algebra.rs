//! Rearrangements of products that the proofs about sums lean on.

use vstd::prelude::*;

verus! {

/// A product with a zero factor is zero.
pub proof fn lema_vezes_zero(a: int)
    ensures
        a * 0 == 0,
        0 * a == 0,
{
}

/// The order of two factors does not matter.
pub proof fn lema_comuta(a: int, b: int)
    ensures
        a * b == b * a,
{
    assert(a * b == b * a) by (nonlinear_arith);
}

/// A product of three factors may be grouped and ordered in any way.
pub proof fn lema_produto_triplo(a: int, b: int, c: int)
    ensures
        a * (b * c) == (a * b) * c,
        a * (b * c) == b * (a * c),
        a * (b * c) == c * (a * b),
        a * (b * c) == (a * c) * b,
        a * (b * c) == (b * c) * a,
{
    assert(a * (b * c) == (a * b) * c) by (nonlinear_arith);
    assert(a * (b * c) == b * (a * c)) by (nonlinear_arith);
    assert(a * (b * c) == c * (a * b)) by (nonlinear_arith);
    assert(a * (b * c) == (a * c) * b) by (nonlinear_arith);
    assert(a * (b * c) == (b * c) * a) by (nonlinear_arith);
}

/// A factor multiplies a sum of three terms term by term.
pub proof fn lema_distribui_tres(a: int, b: int, c: int, d: int)
    ensures
        a * (b - c - d) == a * b - a * c - a * d,
        a * (b + c + d) == a * b + a * c + a * d,
{
    assert(a * (b - c - d) == a * b - a * c - a * d) by (nonlinear_arith);
    assert(a * (b + c + d) == a * b + a * c + a * d) by (nonlinear_arith);
}

/// A factor multiplies a sum or a difference of two terms term by term.
pub proof fn lema_distribui(a: int, b: int, c: int)
    ensures
        a * (b + c) == a * b + a * c,
        a * (b - c) == a * b - a * c,
        (b + c) * a == a * b + a * c,
        (b - c) * a == a * b - a * c,
{
    assert(a * (b + c) == a * b + a * c) by (nonlinear_arith);
    assert(a * (b - c) == a * b - a * c) by (nonlinear_arith);
    assert((b + c) * a == a * b + a * c) by (nonlinear_arith);
    assert((b - c) * a == a * b - a * c) by (nonlinear_arith);
}

/// The square of a sum.
pub proof fn lema_quadrado_da_soma(a: int, b: int)
    ensures
        (a + b) * (a + b) == a * a + 2 * (a * b) + b * b,
        (a - b) * (a - b) == a * a - 2 * (a * b) + b * b,
{
    assert((a + b) * (a + b) == a * a + 2 * (a * b) + b * b) by (nonlinear_arith);
    assert((a - b) * (a - b) == a * a - 2 * (a * b) + b * b) by (nonlinear_arith);
}

/// The square of a product is the product of the squares.
pub proof fn lema_quadrado_do_produto(a: int, b: int)
    ensures
        (a * b) * (a * b) == (a * a) * (b * b),
{
    lema_produto_triplo(a * b, a, b);
    lema_produto_triplo(a, b, a);
    lema_produto_triplo(a * a, b, b);
}

/// A square is never negative, and it is zero only for zero.
pub proof fn lema_quadrado(a: int)
    ensures
        a * a >= 0,
        a * a == 0 <==> a == 0,
{
    assert(a * a >= 0 && (a * a == 0 <==> a == 0)) by (nonlinear_arith);
}

/// An integer is at most its square in absolute value.
pub proof fn lema_modulo_quadrado(a: int)
    ensures
        -(a * a) <= a <= a * a,
{
    assert(-(a * a) <= a <= a * a) by (nonlinear_arith);
}

/// A product is zero only where a factor is.
pub proof fn lema_produto_nulo(a: int, b: int)
    requires
        a * b == 0,
        a != 0,
    ensures
        b == 0,
{
    assert(b == 0) by (nonlinear_arith)
        requires
            a * b == 0,
            a != 0,
    ;
}

} // verus!
