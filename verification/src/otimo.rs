//! The fitted line is the best one: no other line has a smaller sum of
//! squared residuals over the series it was fitted to.

use vstd::prelude::*;
use crate::algebra::{
    lema_comuta, lema_distribui, lema_distribui_tres, lema_produto_triplo,
    lema_quadrado_da_soma, lema_quadrado_do_produto, lema_vezes_zero,
};
use crate::dispersao::{
    dispersao, lema_desvios2_zero, lema_desvios_da_media, soma_desvios2_ate,
};
use crate::leis::{lei_equacoes_normais, lei_residuos_nulos};
use crate::modelo::{soma_residuos2, soma_residuos2_ate, RegressaoLinear};
use crate::somas::{soma, soma_ate, soma_produtos_ate};

verus! {

/// Sum of the residuals of `m` over the first `k` samples, each multiplied
/// by the model's denominator.
pub open spec fn soma_residuos_ate(m: RegressaoLinear, x: Seq<i64>, y: Seq<i64>, k: nat) -> int
    decreases k,
{
    if k == 0 {
        0
    } else {
        soma_residuos_ate(m, x, y, (k - 1) as nat) + m.residuo(x[k - 1] as int, y[k - 1] as int)
    }
}

/// Sum of the residuals of `m` over the first `k` samples, each multiplied by
/// its `x` and by the model's denominator.
pub open spec fn soma_residuos_x_ate(m: RegressaoLinear, x: Seq<i64>, y: Seq<i64>, k: nat) -> int
    decreases k,
{
    if k == 0 {
        0
    } else {
        soma_residuos_x_ate(m, x, y, (k - 1) as nat) + m.residuo(x[k - 1] as int, y[k - 1] as int)
            * x[k - 1]
    }
}

/// The two sums of residuals, written over the sums of the series.
proof fn lema_residuos_expandidos(m: RegressaoLinear, x: Seq<i64>, y: Seq<i64>, k: nat)
    requires
        k <= x.len(),
        x.len() == y.len(),
    ensures
        soma_residuos_ate(m, x, y, k) == m.denominador * soma_ate(y, k) - k * m.intercepto_num
            - m.coeficiente_num * soma_ate(x, k),
        soma_residuos_x_ate(m, x, y, k) == m.denominador * soma_produtos_ate(x, y, k)
            - m.intercepto_num * soma_ate(x, k) - m.coeficiente_num * soma_produtos_ate(x, x, k),
    decreases k,
{
    let d = m.denominador as int;
    let a = m.intercepto_num as int;
    let s = m.coeficiente_num as int;
    if k > 0 {
        let j = (k - 1) as nat;
        lema_residuos_expandidos(m, x, y, j);
        let u = x[k - 1] as int;
        let v = y[k - 1] as int;
        let sx = soma_ate(x, j);
        let sy = soma_ate(y, j);
        let sxx = soma_produtos_ate(x, x, j);
        let sxy = soma_produtos_ate(x, y, j);
        let r = m.residuo(u, v);
        assert(r == d * v - (a + s * u));
        lema_distribui(d, sy, v);
        lema_distribui(a, j as int, 1);
        lema_comuta(a, j as int);
        lema_comuta(a, k as int);
        lema_distribui(s, sx, u);
        assert((d * sy - j * a - s * sx) + r == d * (sy + v) - k * a - s * (sx + u));
        // r * u == d * (u * v) - a * u - s * (u * u)
        lema_comuta(r, u);
        lema_distribui_tres(u, d * v, a, s * u);
        lema_produto_triplo(u, d, v);
        lema_produto_triplo(u, s, u);
        lema_comuta(u, a);
        assert(r * u == d * (u * v) - a * u - s * (u * u));
        lema_distribui(d, sxy, u * v);
        lema_distribui(a, sx, u);
        lema_distribui(s, sxx, u * u);
    } else {
        lema_vezes_zero(d);
        lema_vezes_zero(a);
        lema_vezes_zero(s);
    }
}

/// The residuals of the fitted line add up to zero, and so do their products
/// with `x`.
pub proof fn lei_residuos_somam_zero(m: RegressaoLinear, x: Seq<i64>, y: Seq<i64>)
    requires
        m.ajustado_a(x, y),
    ensures
        soma_residuos_ate(m, x, y, x.len()) == 0,
        soma_residuos_x_ate(m, x, y, x.len()) == 0,
{
    lema_residuos_expandidos(m, x, y, x.len());
    lei_equacoes_normais(x, y);
}

/// The squared residuals of a line `o`, set against those of a line `m`: the
/// difference is a cross term in the residuals of `m` and a sum of squares.
proof fn lema_residuos_comparados(
    m: RegressaoLinear,
    o: RegressaoLinear,
    x: Seq<i64>,
    y: Seq<i64>,
    k: nat,
)
    requires
        k <= x.len(),
        x.len() == y.len(),
    ensures
        ({
            let alfa = o.denominador * m.intercepto_num - m.denominador * o.intercepto_num;
            let beta = o.denominador * m.coeficiente_num - m.denominador * o.coeficiente_num;
            m.denominador * m.denominador * soma_residuos2_ate(o, x, y, k) == o.denominador
                * o.denominador * soma_residuos2_ate(m, x, y, k) + 2 * o.denominador * (alfa
                * soma_residuos_ate(m, x, y, k) + beta * soma_residuos_x_ate(m, x, y, k))
                + soma_desvios2_ate(x, beta, -alfa, k)
        }),
    decreases k,
{
    let d = m.denominador as int;
    let a = m.intercepto_num as int;
    let s = m.coeficiente_num as int;
    let dd = o.denominador as int;
    let aa = o.intercepto_num as int;
    let ss = o.coeficiente_num as int;
    let alfa = dd * a - d * aa;
    let beta = dd * s - d * ss;
    if k > 0 {
        let j = (k - 1) as nat;
        lema_residuos_comparados(m, o, x, y, j);
        let u = x[k - 1] as int;
        let v = y[k - 1] as int;
        let r = m.residuo(u, v);
        let rr = o.residuo(u, v);
        let g = beta * u - (-alfa);
        let w = d * rr;
        // d * rr == dd * r + g
        lema_distribui_tres(d, dd * v, aa, ss * u);
        lema_distribui_tres(dd, d * v, a, s * u);
        lema_produto_triplo(d, dd, v);
        lema_distribui(u, dd * s, d * ss);
        lema_produto_triplo(u, dd, s);
        lema_produto_triplo(u, d, ss);
        lema_comuta(beta, u);
        lema_comuta(u, s);
        lema_comuta(u, ss);
        assert(beta * u == dd * (s * u) - d * (ss * u));
        assert(w == dd * r + g);
        // (d * d) * (rr * rr) == (dd * dd) * (r * r) + 2 * dd * (alfa * r + beta * (r * u)) + g * g
        let p = dd * r;
        let ru = r * u;
        let a2 = alfa * r + beta * ru;
        lema_quadrado_do_produto(d, rr);
        lema_quadrado_da_soma(p, g);
        lema_quadrado_do_produto(dd, r);
        lema_produto_triplo(dd, r, g);
        lema_distribui(r, beta * u, alfa);
        lema_produto_triplo(r, beta, u);
        lema_comuta(r, alfa);
        assert(r * g == a2);
        lema_produto_triplo(2, dd, a2);
        assert(d * d * (rr * rr) == dd * dd * (r * r) + 2 * dd * a2 + g * g);
        let r2m = soma_residuos2_ate(m, x, y, j);
        let r2o = soma_residuos2_ate(o, x, y, j);
        let sr = soma_residuos_ate(m, x, y, j);
        let srx = soma_residuos_x_ate(m, x, y, j);
        let a1 = alfa * sr + beta * srx;
        lema_distribui(d * d, r2o, rr * rr);
        lema_distribui(dd * dd, r2m, r * r);
        lema_distribui(alfa, sr, r);
        lema_distribui(beta, srx, ru);
        lema_distribui(2 * dd, a1, a2);
    } else {
        lema_vezes_zero(d * d);
        lema_vezes_zero(dd * dd);
        lema_vezes_zero(alfa);
        lema_vezes_zero(beta);
        lema_vezes_zero(2 * dd);
    }
}

/// Least squares: over the series it was fitted to, the fitted line `m` has
/// the smallest sum of squared residuals of all lines, and so the smallest
/// mean squared error. The two sums are scaled by the squares of the two
/// denominators, so the first inequality is between the true sums.
pub proof fn lei_minimos_quadrados(
    m: RegressaoLinear,
    o: RegressaoLinear,
    x: Seq<i64>,
    y: Seq<i64>,
)
    requires
        m.ajustado_a(x, y),
    ensures
        soma_residuos2(m, x, y) * (o.denominador * o.denominador) <= soma_residuos2(o, x, y) * (
        m.denominador * m.denominador),
        m.erro_quadratico_medio(x, y).menor_ou_igual(o.erro_quadratico_medio(x, y)),
{
    let alfa = o.denominador * m.intercepto_num - m.denominador * o.intercepto_num;
    let beta = o.denominador * m.coeficiente_num - m.denominador * o.coeficiente_num;
    lema_residuos_comparados(m, o, x, y, x.len());
    lei_residuos_somam_zero(m, x, y);
    lema_desvios2_zero(x, beta, -alfa, x.len());
    let d = m.denominador as int;
    let dd = o.denominador as int;
    let rm = soma_residuos2(m, x, y);
    let ro = soma_residuos2(o, x, y);
    let gg = soma_desvios2_ate(x, beta, -alfa, x.len());
    assert(alfa * 0 + beta * 0 == 0) by (nonlinear_arith);
    assert(2 * dd * 0 == 0);
    assert(rm * (dd * dd) <= ro * (d * d)) by (nonlinear_arith)
        requires
            d * d * ro == dd * dd * rm + gg,
            gg >= 0,
    ;
    let n = x.len() as int;
    assert(rm * (n * (dd * dd)) <= ro * (n * (d * d))) by (nonlinear_arith)
        requires
            rm * (dd * dd) <= ro * (d * d),
            n >= 0,
    ;
}

/// The squared residuals of the level line at the mean of `y` are the
/// squared distances of the samples to the mean.
proof fn lema_residuos_da_media(o: RegressaoLinear, x: Seq<i64>, y: Seq<i64>, k: nat)
    requires
        k <= x.len(),
        x.len() == y.len(),
        o.coeficiente_num == 0,
    ensures
        soma_residuos2_ate(o, x, y, k) == soma_desvios2_ate(
            y,
            o.denominador as int,
            o.intercepto_num as int,
            k,
        ),
    decreases k,
{
    if k > 0 {
        lema_residuos_da_media(o, x, y, (k - 1) as nat);
        assert(0 * x[k - 1] == 0);
    }
}

/// The coefficient of determination is never above one.
pub proof fn lei_determinacao_no_maximo_um(m: RegressaoLinear, x: Seq<i64>, y: Seq<i64>)
    requires
        x.len() == y.len(),
    ensures
        m.coeficiente_determinacao(x, y).num <= m.coeficiente_determinacao(x, y).den,
{
    lei_residuos_nulos(m, x, y, x.len());
    let n = x.len() as int;
    let r = soma_residuos2(m, x, y);
    assert(n * r >= 0) by (nonlinear_arith)
        requires
            n >= 0,
            r >= 0,
    ;
}

/// Over the series it was fitted to, the coefficient of determination of the
/// fitted line is not negative: the line is at least as good as the level
/// line at the mean of `y`, where that line is a model (the sum of `y` and
/// the number of samples fit in 64 bits).
pub proof fn lei_determinacao_do_ajuste(m: RegressaoLinear, x: Seq<i64>, y: Seq<i64>)
    requires
        m.ajustado_a(x, y),
        i64::MIN <= soma(y) <= i64::MAX,
        x.len() <= i64::MAX,
    ensures
        0 <= m.coeficiente_determinacao(x, y).num <= m.coeficiente_determinacao(x, y).den,
{
    lei_determinacao_no_maximo_um(m, x, y);
    let n = x.len() as int;
    let o = RegressaoLinear {
        intercepto_num: soma(y) as i64,
        coeficiente_num: 0,
        denominador: n as i64,
    };
    lei_minimos_quadrados(m, o, x, y);
    lema_residuos_da_media(o, x, y, x.len());
    lema_desvios_da_media(y);
    let d = m.denominador as int;
    let t = dispersao(y);
    let rm = soma_residuos2(m, x, y);
    let ro = soma_residuos2(o, x, y);
    assert(ro == n * t);
    assert(n != 0) by {
        if n == 0 {
            assert(dispersao(x) == 0 * 0 - 0 * 0);
        }
    }
    assert(n * rm <= d * d * t) by (nonlinear_arith)
        requires
            rm * (n * n) <= ro * (d * d),
            ro == n * t,
            n > 0,
    ;
}

} // verus!
