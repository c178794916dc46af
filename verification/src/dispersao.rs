//! The spread of a sequence of samples: `n` times the sum of the squares
//! minus the square of the sum. It is `n * n` times the variance, and the
//! denominator of the least-squares coefficients.

use vstd::prelude::*;
use crate::algebra::{
    lema_comuta, lema_distribui, lema_produto_triplo, lema_vezes_zero, lema_quadrado, lema_quadrado_da_soma,
    lema_quadrado_do_produto,
};
use crate::somas::{soma, soma_ate, soma_produtos, soma_produtos_ate};

verus! {

/// Spread of the first `k` samples of `s`.
pub open spec fn dispersao_ate(s: Seq<i64>, k: nat) -> int {
    k * soma_produtos_ate(s, s, k) - soma_ate(s, k) * soma_ate(s, k)
}

/// Spread of `s`: `n * sum(s[i] * s[i]) - sum(s[i]) * sum(s[i])`.
pub open spec fn dispersao(s: Seq<i64>) -> int {
    dispersao_ate(s, s.len())
}

/// Joint spread of `a` and `b`: `n * sum(a[i] * b[i]) - sum(a[i]) * sum(b[i])`.
pub open spec fn codispersao(a: Seq<i64>, b: Seq<i64>) -> int {
    a.len() * soma_produtos(a, b) - soma(a) * soma(b)
}

/// Sum of the squares `(c * s[i] - v) * (c * s[i] - v)` over the first `k`
/// positions.
pub open spec fn soma_desvios2_ate(s: Seq<i64>, c: int, v: int, k: nat) -> int
    decreases k,
{
    if k == 0 {
        0
    } else {
        soma_desvios2_ate(s, c, v, (k - 1) as nat) + (c * s[k - 1] - v) * (c * s[k - 1] - v)
    }
}

/// Every sample of `s` has the same value.
pub open spec fn todos_iguais(s: Seq<i64>) -> bool {
    forall|i: int, j: int| 0 <= i < s.len() && 0 <= j < s.len() ==> s[i] == s[j]
}

/// The sum of squared deviations, multiplied out.
pub proof fn lema_desvios2_expandida(s: Seq<i64>, c: int, v: int, k: nat)
    requires
        k <= s.len(),
    ensures
        soma_desvios2_ate(s, c, v, k) == c * c * soma_produtos_ate(s, s, k) - 2 * c * v
            * soma_ate(s, k) + k * (v * v),
    decreases k,
{
    if k > 0 {
        let j = (k - 1) as nat;
        lema_desvios2_expandida(s, c, v, j);
        let e = s[k - 1] as int;
        let q = soma_produtos_ate(s, s, j);
        let t = soma_ate(s, j);
        assert(soma_produtos_ate(s, s, k) == q + e * e);
        assert(soma_ate(s, k) == t + e);
        // (c * e - v)^2 == (c * c) * (e * e) - ((2 * c) * v) * e + v * v
        lema_quadrado_da_soma(c * e, v);
        lema_quadrado_do_produto(c, e);
        lema_produto_triplo(2, c, v);
        lema_produto_triplo(2, c * v, e);
        lema_produto_triplo(c, v, e);
        assert((c * e - v) * (c * e - v) == c * c * (e * e) - 2 * c * v * e + v * v);
        lema_distribui(c * c, q, e * e);
        lema_distribui(2 * c * v, t, e);
        lema_distribui(v * v, j as int, 1);
        lema_comuta(v * v, k as int);
        lema_comuta(v * v, j as int);
        assert(k * (v * v) == j * (v * v) + v * v);
    } else {
        lema_vezes_zero(c * c);
        lema_vezes_zero(2 * c * v);
        lema_vezes_zero(v * v);
    }
}

/// A sum of squared deviations is never negative, and it is zero exactly
/// when every term is.
pub proof fn lema_desvios2_zero(s: Seq<i64>, c: int, v: int, k: nat)
    requires
        k <= s.len(),
    ensures
        soma_desvios2_ate(s, c, v, k) >= 0,
        soma_desvios2_ate(s, c, v, k) == 0 <==> forall|i: int|
            0 <= i < k ==> c * #[trigger] s[i] == v,
    decreases k,
{
    if k > 0 {
        let j = (k - 1) as nat;
        lema_desvios2_zero(s, c, v, j);
        let e = c * s[k - 1] - v;
        lema_quadrado(e);
        if soma_desvios2_ate(s, c, v, k) == 0 {
            assert forall|i: int| 0 <= i < k implies c * #[trigger] s[i] == v by {
                if i < j {
                } else {
                    assert(i == k - 1);
                }
            }
        }
        if forall|i: int| 0 <= i < k ==> c * #[trigger] s[i] == v {
            assert(c * s[k - 1] == v);
        }
    }
}

/// One more sample adds to the spread the squared distances from it to the
/// samples before it.
pub proof fn lema_dispersao_passo(s: Seq<i64>, k: nat)
    requires
        k < s.len(),
    ensures
        dispersao_ate(s, k + 1) == dispersao_ate(s, k) + soma_desvios2_ate(s, 1, s[k as int] as int, k),
{
    let v = s[k as int] as int;
    let q = soma_produtos_ate(s, s, k);
    let t = soma_ate(s, k);
    lema_desvios2_expandida(s, 1, v, k);
    assert(soma_produtos_ate(s, s, k + 1) == q + v * v);
    assert(soma_ate(s, k + 1) == t + v);
    lema_distribui((k + 1) as int, q, v * v);
    lema_distribui(q, k as int, 1);
    lema_distribui(v * v, k as int, 1);
    lema_comuta(q, k as int);
    lema_comuta(v * v, k as int);
    assert((k + 1) * (q + v * v) == k * q + q + k * (v * v) + v * v);
    lema_quadrado_da_soma(t, v);
    lema_produto_triplo(2, v, t);
    lema_comuta(t, v);
    assert((t + v) * (t + v) == t * t + 2 * v * t + v * v);
    assert(1 * 1 * q - 2 * 1 * v * t + k * (v * v) == q - 2 * v * t + k * (v * v));
}

/// The spread is never negative, and it is zero exactly when the samples are
/// all equal to the first one.
pub proof fn lema_dispersao_ate_zero(s: Seq<i64>, k: nat)
    requires
        k <= s.len(),
    ensures
        dispersao_ate(s, k) >= 0,
        dispersao_ate(s, k) == 0 <==> forall|i: int| 0 <= i < k ==> #[trigger] s[i] == s[0],
    decreases k,
{
    if k == 0 {
    } else {
        let j = (k - 1) as nat;
        let v = s[j as int] as int;
        lema_dispersao_ate_zero(s, j);
        lema_dispersao_passo(s, j);
        lema_desvios2_zero(s, 1, v, j);
        assert(forall|i: int| 0 <= i < j ==> 1 * #[trigger] s[i] == s[i]);
        if dispersao_ate(s, k) == 0 {
            assert forall|i: int| 0 <= i < k implies #[trigger] s[i] == s[0] by {
                if i < j {
                } else if j > 0 {
                    assert(1 * s[0] == v);
                }
            }
        }
        if forall|i: int| 0 <= i < k ==> #[trigger] s[i] == s[0] {
            assert(s[j as int] == s[0]);
            assert forall|i: int| 0 <= i < j implies 1 * #[trigger] s[i] == v by {
                assert(s[i] == s[0]);
            }
        }
    }
}

/// The spread of a sequence is never negative, and it is zero exactly when
/// all its samples are equal.
pub proof fn lema_dispersao_zero(s: Seq<i64>)
    ensures
        dispersao(s) >= 0,
        dispersao(s) == 0 <==> todos_iguais(s),
{
    lema_dispersao_ate_zero(s, s.len());
    if todos_iguais(s) {
        assert forall|i: int| 0 <= i < s.len() implies #[trigger] s[i] == s[0] by {}
    }
    if forall|i: int| 0 <= i < s.len() ==> #[trigger] s[i] == s[0] {
        assert forall|i: int, j: int| 0 <= i < s.len() && 0 <= j < s.len() implies s[i] == s[j] by {
            assert(s[i] == s[0]);
            assert(s[j] == s[0]);
        }
    }
}

/// The squared distances of the samples to their mean, scaled by `n * n` so
/// that they stay whole, add up to `n` times the spread.
pub proof fn lema_desvios_da_media(s: Seq<i64>)
    ensures
        soma_desvios2_ate(s, s.len() as int, soma(s), s.len()) == s.len() * dispersao(s),
{
    let n = s.len() as int;
    let q = soma_produtos_ate(s, s, s.len());
    let t = soma(s);
    lema_desvios2_expandida(s, n, t, s.len());
    lema_produto_triplo(n, n, q);
    lema_produto_triplo(2, n, t);
    lema_produto_triplo(2, n * t, t);
    lema_produto_triplo(n, t, t);
    lema_distribui(n, n * q, t * t);
}

} // verus!
