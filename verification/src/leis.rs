//! What holds of every fitted line: when a fit exists, that it passes
//! through data that lie on a line, and how its predictions change with `x`.

use vstd::prelude::*;
use crate::algebra::{
    lema_distribui, lema_distribui_tres, lema_produto_nulo, lema_produto_triplo, lema_quadrado,
};
use crate::dispersao::{codispersao, dispersao, lema_dispersao_zero, todos_iguais};
use crate::modelo::{intercepto_ajustado, soma_residuos2, soma_residuos2_ate, RegressaoLinear};
use crate::somas::{soma, soma_ate, soma_produtos, soma_produtos_ate};

verus! {

/// A sequence with two different samples has a positive spread, so a series
/// whose `x` has two different values has a fitted line, whatever its `y`.
pub proof fn lei_dois_distintos(x: Seq<i64>, i: int, j: int)
    requires
        0 <= i < x.len(),
        0 <= j < x.len(),
        x[i] != x[j],
    ensures
        !todos_iguais(x),
        dispersao(x) > 0,
{
    lema_dispersao_zero(x);
}

/// A sequence whose samples are all equal has spread zero: the fit of a
/// series with such an `x` is degenerate. A single sample is such a sequence.
pub proof fn lei_todos_iguais(x: Seq<i64>)
    requires
        todos_iguais(x),
    ensures
        dispersao(x) == 0,
{
    lema_dispersao_zero(x);
}

/// The fitted coefficients solve the normal equations of least squares. The
/// first of them is the formula of the intercept from the slope,
/// `intercept = (sum(y) - slope * sum(x)) / n`.
pub proof fn lei_equacoes_normais(x: Seq<i64>, y: Seq<i64>)
    requires
        x.len() == y.len(),
    ensures
        x.len() * intercepto_ajustado(x, y) + codispersao(x, y) * soma(x) == dispersao(x) * soma(y),
        intercepto_ajustado(x, y) * soma(x) + codispersao(x, y) * soma_produtos(x, x) == dispersao(
            x,
        ) * soma_produtos(x, y),
{
    let n = x.len() as int;
    let sx = soma(x);
    let sy = soma(y);
    let sxx = soma_produtos(x, x);
    let sxy = soma_produtos(x, y);
    lema_distribui(n, sy * sxx, sx * sxy);
    lema_distribui(sx, n * sxy, sx * sy);
    lema_distribui(sy, n * sxx, sx * sx);
    lema_produto_triplo(n, sy, sxx);
    lema_produto_triplo(n, sx, sxy);
    lema_produto_triplo(sx, sx, sy);
    lema_distribui(sx, sy * sxx, sx * sxy);
    lema_distribui(sxx, n * sxy, sx * sy);
    lema_distribui(sxy, n * sxx, sx * sx);
    lema_produto_triplo(sx, sy, sxx);
    lema_produto_triplo(sx, sx, sxy);
    lema_produto_triplo(n, sxy, sxx);
}

/// Over data with `e * y[i] == p + q * x[i]`, the sums of `y` and of `x * y`
/// follow from those of `x` and of `x * x`.
proof fn lema_somas_sobre_reta(x: Seq<i64>, y: Seq<i64>, p: int, q: int, e: int, k: nat)
    requires
        k <= x.len(),
        x.len() == y.len(),
        forall|i: int| 0 <= i < x.len() ==> e * #[trigger] y[i] == p + q * x[i],
    ensures
        e * soma_ate(y, k) == k * p + q * soma_ate(x, k),
        e * soma_produtos_ate(x, y, k) == p * soma_ate(x, k) + q * soma_produtos_ate(x, x, k),
    decreases k,
{
    if k > 0 {
        let j = (k - 1) as nat;
        lema_somas_sobre_reta(x, y, p, q, e, j);
        let u = x[k - 1] as int;
        let v = y[k - 1] as int;
        let sx = soma_ate(x, j);
        let sy = soma_ate(y, j);
        let sxx = soma_produtos_ate(x, x, j);
        let sxy = soma_produtos_ate(x, y, j);
        assert(e * v == p + q * u);
        lema_distribui(e, sy, v);
        lema_distribui(q, sx, u);
        lema_distribui(p, j as int, 1);
        assert(e * (sy + v) == k * p + q * (sx + u));
        lema_distribui(e, sxy, u * v);
        lema_produto_triplo(e, u, v);
        lema_distribui(u, p, q * u);
        lema_produto_triplo(u, q, u);
        lema_distribui(p, sx, u);
        lema_distribui(q, sxx, u * u);
        assert(e * (sxy + u * v) == p * (sx + u) + q * (sxx + u * u));
    }
}

/// Where the data lie on a line, `y[i] == (p + q * x[i]) / e` for every
/// sample, the fit recovers that line: its slope is `q / e` and its intercept
/// is `p / e`.
pub proof fn lei_ajuste_exato(x: Seq<i64>, y: Seq<i64>, p: int, q: int, e: int)
    requires
        x.len() == y.len(),
        e != 0,
        forall|i: int| 0 <= i < x.len() ==> e * #[trigger] y[i] == p + q * x[i],
    ensures
        codispersao(x, y) * e == q * dispersao(x),
        intercepto_ajustado(x, y) * e == p * dispersao(x),
{
    lema_somas_sobre_reta(x, y, p, q, e, x.len());
    let n = x.len() as int;
    let sx = soma(x);
    let sy = soma(y);
    let sxx = soma_produtos(x, x);
    let sxy = soma_produtos(x, y);
    let ey = e * sy;
    let exy = e * sxy;
    assert(ey == n * p + q * sx);
    assert(exy == p * sx + q * sxx);
    // e * (n * sxy - sx * sy) == n * exy - sx * ey
    lema_distribui(e, n * sxy, sx * sy);
    lema_produto_triplo(e, n, sxy);
    lema_produto_triplo(e, sx, sy);
    // n * exy - sx * ey == q * (n * sxx - sx * sx)
    lema_distribui(n, p * sx, q * sxx);
    lema_distribui(sx, n * p, q * sx);
    lema_produto_triplo(n, p, sx);
    lema_produto_triplo(sx, n, p);
    lema_produto_triplo(n, q, sxx);
    lema_produto_triplo(sx, q, sx);
    lema_distribui(q, n * sxx, sx * sx);
    assert(codispersao(x, y) * e == q * dispersao(x));
    // e * (sy * sxx - sx * sxy) == ey * sxx - sx * exy
    lema_distribui(e, sy * sxx, sx * sxy);
    lema_produto_triplo(e, sy, sxx);
    lema_produto_triplo(e, sx, sxy);
    // ey * sxx - sx * exy == p * (n * sxx - sx * sx)
    lema_distribui(sxx, n * p, q * sx);
    lema_distribui(sx, p * sx, q * sxx);
    lema_produto_triplo(sxx, n, p);
    lema_produto_triplo(sxx, q, sx);
    lema_produto_triplo(sx, p, sx);
    lema_produto_triplo(sx, q, sxx);
    lema_distribui(p, n * sxx, sx * sx);
    lema_produto_triplo(p, n, sxx);
    assert(intercepto_ajustado(x, y) * e == p * dispersao(x));
}

/// A sum of squared residuals is never negative, and it is zero exactly when
/// the line passes through every sample.
pub proof fn lei_residuos_nulos(m: RegressaoLinear, x: Seq<i64>, y: Seq<i64>, k: nat)
    requires
        k <= x.len(),
        x.len() == y.len(),
    ensures
        soma_residuos2_ate(m, x, y, k) >= 0,
        soma_residuos2_ate(m, x, y, k) == 0 <==> forall|i: int|
            0 <= i < k ==> #[trigger] m.residuo(x[i] as int, y[i] as int) == 0,
    decreases k,
{
    if k > 0 {
        let j = (k - 1) as nat;
        lei_residuos_nulos(m, x, y, j);
        let e = m.residuo(x[k - 1] as int, y[k - 1] as int);
        lema_quadrado(e);
        if soma_residuos2_ate(m, x, y, k) == 0 {
            assert forall|i: int| 0 <= i < k implies #[trigger] m.residuo(
                x[i] as int,
                y[i] as int,
            ) == 0 by {
                if i < j {
                } else {
                    assert(i == k - 1);
                }
            }
        }
        if forall|i: int| 0 <= i < k ==> #[trigger] m.residuo(x[i] as int, y[i] as int) == 0 {
            assert(m.residuo(x[k - 1] as int, y[k - 1] as int) == 0);
        }
    }
}

/// The line fitted to data that lie on a line passes through every sample:
/// its mean squared error is zero and its coefficient of determination is one.
pub proof fn lei_ajuste_exato_sem_erro(
    m: RegressaoLinear,
    x: Seq<i64>,
    y: Seq<i64>,
    p: int,
    q: int,
    e: int,
)
    requires
        m.ajustado_a(x, y),
        e != 0,
        forall|i: int| 0 <= i < x.len() ==> e * #[trigger] y[i] == p + q * x[i],
    ensures
        soma_residuos2(m, x, y) == 0,
        m.erro_quadratico_medio(x, y).num == 0,
        m.coeficiente_determinacao(x, y).num == m.coeficiente_determinacao(x, y).den,
{
    lei_ajuste_exato(x, y, p, q, e);
    let d = m.denominador as int;
    let a = m.intercepto_num as int;
    let s = m.coeficiente_num as int;
    assert forall|i: int| 0 <= i < x.len() implies #[trigger] m.residuo(
        x[i] as int,
        y[i] as int,
    ) == 0 by {
        let u = x[i] as int;
        let v = y[i] as int;
        assert(e * v == p + q * u);
        let r = d * v - (a + s * u);
        assert(s * e == q * d);
        assert(a * e == p * d);
        // e * r == d * (e * v) - a * e - (s * e) * u
        lema_distribui_tres(e, d * v, a, s * u);
        lema_produto_triplo(e, d, v);
        lema_produto_triplo(e, s, u);
        // d * (p + q * u) - p * d - (q * d) * u == 0
        lema_distribui(d, p, q * u);
        lema_produto_triplo(d, q, u);
        assert(e * r == 0);
        lema_produto_nulo(e, r);
    }
    lei_residuos_nulos(m, x, y, x.len());
    assert(x.len() * 0 == 0);
}

/// Data on a line that is not level, over `x` that are not all equal, have
/// `y` that are not all equal: their coefficient of determination exists, and
/// for the fitted line it is one.
pub proof fn lei_reta_inclinada(x: Seq<i64>, y: Seq<i64>, p: int, q: int, e: int)
    requires
        x.len() == y.len(),
        q != 0,
        forall|i: int| 0 <= i < x.len() ==> e * #[trigger] y[i] == p + q * x[i],
        !todos_iguais(x),
    ensures
        !todos_iguais(y),
{
    if todos_iguais(y) {
        assert forall|i: int, j: int| 0 <= i < x.len() && 0 <= j < x.len() implies x[i]
            == x[j] by {
            assert(e * y[i] == p + q * x[i]);
            assert(e * y[j] == p + q * x[j]);
            assert(y[i] == y[j]);
            lema_distribui(q, x[i] as int, x[j] as int);
            lema_produto_nulo(q, x[i] - x[j]);
        }
    }
}

/// The prediction at zero is the intercept, and one step in `x` changes the
/// prediction by the slope.
pub proof fn lei_previsao_linear(m: RegressaoLinear, x: int)
    ensures
        m.previsao(0) == m.valor_intercepto(),
        m.previsao(x + 1).den == m.previsao(x).den,
        m.previsao(x).den == m.valor_coeficiente().den,
        m.previsao(x + 1).num - m.previsao(x).num == m.valor_coeficiente().num,
        m.previsao(x + 1).menos(m.previsao(x)).igual(m.valor_coeficiente()),
{
    let d = m.denominador as int;
    let a = m.intercepto_num as int;
    let s = m.coeficiente_num as int;
    assert(a + s * 0 == a);
    lema_distribui(s, x, 1);
    let passo = (a + s * (x + 1)) * d - (a + s * x) * d;
    lema_distribui(d, a + s * (x + 1), a + s * x);
    assert(passo == d * s);
    lema_produto_triplo(d, s, d);
    lema_produto_triplo(s, d, d);
}

/// Predictions add up to the intercept: the prediction at `u + v`, with the
/// intercept added once more, is the sum of those at `u` and at `v`.
pub proof fn lei_previsao_da_soma(m: RegressaoLinear, u: int, v: int)
    ensures
        m.previsao(u + v).num + m.valor_intercepto().num == m.previsao(u).num + m.previsao(v).num,
{
    let s = m.coeficiente_num as int;
    lema_distribui(s, u, v);
}

} // verus!
