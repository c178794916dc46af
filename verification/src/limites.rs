//! Limits under which every operation fits: a series within `limitada` and a
//! model within `limitado` meet what the fit and the two measures take to
//! compute.

use vstd::prelude::*;
use crate::dispersao::{codispersao, dispersao, lema_dispersao_zero};
use crate::modelo::{
    ajuste_cabe, intercepto_ajustado, soma_residuos2, soma_residuos2_ate, RegressaoLinear,
    MAX_COEFICIENTE, MAX_DENOMINADOR, MAX_INTERCEPTO,
};
use crate::somas::{
    cabe, lema_soma_limitada, lema_soma_produtos_limitada, limitada, soma, soma_produtos,
    soma_produtos_ate, MAX_AMOSTRAS, MAX_VALOR,
};

verus! {

/// Largest square of a residual of a model within the limits on a sample
/// within the limits.
pub const MAX_RESIDUO2: i128 = 25_000_000_000_000_000_000_000_000_000_000;

/// With at most `MAX_AMOSTRAS` samples of at most `MAX_VALOR` each, the
/// products that the fit takes of the four sums are bounded.
proof fn lema_limites_dos_produtos(n: int, sx: int, sy: int, sxx: int, sxy: int)
    requires
        0 <= n <= MAX_AMOSTRAS,
        -(n * MAX_VALOR) <= sx <= n * MAX_VALOR,
        -(n * MAX_VALOR) <= sy <= n * MAX_VALOR,
        -(n * (MAX_VALOR * MAX_VALOR)) <= sxx <= n * (MAX_VALOR * MAX_VALOR),
        -(n * (MAX_VALOR * MAX_VALOR)) <= sxy <= n * (MAX_VALOR * MAX_VALOR),
    ensures
        -1_000_000_000_000 <= n * sxx <= 1_000_000_000_000,
        -1_000_000_000_000 <= n * sxy <= 1_000_000_000_000,
        0 <= sx * sx <= 1_000_000_000_000,
        -1_000_000_000_000 <= sx * sy <= 1_000_000_000_000,
        -1_000_000_000_000_000 <= sy * sxx <= 1_000_000_000_000_000,
        -1_000_000_000_000_000 <= sx * sxy <= 1_000_000_000_000_000,
{
    assert(n * MAX_VALOR <= 1_000_000 && n * (MAX_VALOR * MAX_VALOR) <= 1_000_000_000)
        by (nonlinear_arith)
        requires
            0 <= n <= 1000,
            MAX_VALOR == 1000,
    ;
    assert(-1_000_000_000_000 <= n * sxx <= 1_000_000_000_000) by (nonlinear_arith)
        requires
            0 <= n <= 1000,
            -1_000_000_000 <= sxx <= 1_000_000_000,
    ;
    assert(-1_000_000_000_000 <= n * sxy <= 1_000_000_000_000) by (nonlinear_arith)
        requires
            0 <= n <= 1000,
            -1_000_000_000 <= sxy <= 1_000_000_000,
    ;
    assert(0 <= sx * sx <= 1_000_000_000_000) by (nonlinear_arith)
        requires
            -1_000_000 <= sx <= 1_000_000,
    ;
    assert(-1_000_000_000_000 <= sx * sy <= 1_000_000_000_000) by (nonlinear_arith)
        requires
            -1_000_000 <= sx <= 1_000_000,
            -1_000_000 <= sy <= 1_000_000,
    ;
    assert(-1_000_000_000_000_000 <= sy * sxx <= 1_000_000_000_000_000) by (nonlinear_arith)
        requires
            -1_000_000 <= sy <= 1_000_000,
            -1_000_000_000 <= sxx <= 1_000_000_000,
    ;
    assert(-1_000_000_000_000_000 <= sx * sxy <= 1_000_000_000_000_000) by (nonlinear_arith)
        requires
            -1_000_000 <= sx <= 1_000_000,
            -1_000_000_000 <= sxy <= 1_000_000_000,
    ;
}

/// A series within the limits meets what its fit takes to compute, and the
/// three numbers of the fitted model are within the limits of a model.
pub proof fn lei_limitada_ajuste_cabe(x: Seq<i64>, y: Seq<i64>)
    requires
        limitada(x),
        limitada(y),
        x.len() == y.len(),
    ensures
        ajuste_cabe(x, y),
        0 <= dispersao(x) <= MAX_DENOMINADOR,
        -MAX_COEFICIENTE <= codispersao(x, y) <= MAX_COEFICIENTE,
        -MAX_INTERCEPTO <= intercepto_ajustado(x, y) <= MAX_INTERCEPTO,
{
    let n = x.len();
    lema_soma_limitada(x, n, MAX_VALOR as int);
    lema_soma_limitada(y, n, MAX_VALOR as int);
    lema_soma_produtos_limitada(x, x, n, MAX_VALOR as int, MAX_VALOR as int);
    lema_soma_produtos_limitada(x, y, n, MAX_VALOR as int, MAX_VALOR as int);
    lema_limites_dos_produtos(
        n as int,
        soma(x),
        soma(y),
        soma_produtos(x, x),
        soma_produtos(x, y),
    );
    lema_dispersao_zero(x);
    assert forall|k: nat| k <= x.len() implies cabe(#[trigger] soma_produtos_ate(x, y, k)) by {
        lema_soma_produtos_limitada(x, y, k, MAX_VALOR as int, MAX_VALOR as int);
        assert(k * (MAX_VALOR * MAX_VALOR) <= 1_000_000_000) by (nonlinear_arith)
            requires
                0 <= k <= 1000,
                MAX_VALOR == 1000,
        ;
    }
}

/// On a sample within the limits, the residual of a model within the limits
/// is bounded.
proof fn lema_residuo_limitado(m: RegressaoLinear, x: int, y: int)
    requires
        m.limitado(),
        -MAX_VALOR <= x <= MAX_VALOR,
        -MAX_VALOR <= y <= MAX_VALOR,
    ensures
        0 <= m.residuo(x, y) * m.residuo(x, y) <= MAX_RESIDUO2,
{
    let d = m.denominador as int;
    let s = m.coeficiente_num as int;
    assert(-1_000_000_000_000_000 <= d * y <= 1_000_000_000_000_000) by (nonlinear_arith)
        requires
            0 < d <= 1_000_000_000_000,
            -1000 <= y <= 1000,
    ;
    assert(-2_000_000_000_000_000 <= s * x <= 2_000_000_000_000_000) by (nonlinear_arith)
        requires
            -2_000_000_000_000 <= s <= 2_000_000_000_000,
            -1000 <= x <= 1000,
    ;
    let e = m.residuo(x, y);
    assert(0 <= e * e <= 25_000_000_000_000_000_000_000_000_000_000) by (nonlinear_arith)
        requires
            -5_000_000_000_000_000 <= e <= 5_000_000_000_000_000,
    ;
}

/// On a series within the limits, the squared residuals of a model within
/// the limits add up to at most `MAX_RESIDUO2` for each sample.
proof fn lema_residuos2_limitados(m: RegressaoLinear, x: Seq<i64>, y: Seq<i64>, k: nat)
    requires
        m.limitado(),
        limitada(x),
        limitada(y),
        k <= x.len(),
        x.len() == y.len(),
    ensures
        0 <= soma_residuos2_ate(m, x, y, k) <= k * MAX_RESIDUO2,
    decreases k,
{
    if k > 0 {
        lema_residuos2_limitados(m, x, y, (k - 1) as nat);
        lema_residuo_limitado(m, x[k - 1] as int, y[k - 1] as int);
    }
}

/// A model and a series within the limits meet what the two measures take to
/// compute.
pub proof fn lei_limitada_medidas_cabem(m: RegressaoLinear, x: Seq<i64>, y: Seq<i64>)
    requires
        m.limitado(),
        limitada(x),
        limitada(y),
        x.len() == y.len(),
    ensures
        m.erro_cabe(x, y),
        m.determinacao_cabe(x, y),
{
    let n = x.len() as int;
    let d = m.denominador as int;
    let r = soma_residuos2(m, x, y);
    let t = dispersao(y);
    lema_residuos2_limitados(m, x, y, x.len());
    lema_soma_limitada(y, y.len(), MAX_VALOR as int);
    lema_soma_produtos_limitada(y, y, y.len(), MAX_VALOR as int, MAX_VALOR as int);
    lema_limites_dos_produtos(n, soma(y), soma(y), soma_produtos(y, y), soma_produtos(y, y));
    lema_dispersao_zero(y);
    assert(0 < d * d <= 1_000_000_000_000_000_000_000_000) by (nonlinear_arith)
        requires
            0 < d <= 1_000_000_000_000,
    ;
    let dd = d * d;
    assert(0 <= n * dd <= 1_000_000_000_000_000_000_000_000_000) by (nonlinear_arith)
        requires
            0 <= n <= 1000,
            0 < dd <= 1_000_000_000_000_000_000_000_000,
    ;
    assert(0 <= dd * t <= 1_000_000_000_000_000_000_000_000_000_000_000_000) by (nonlinear_arith)
        requires
            0 <= t <= 1_000_000_000_000,
            0 < dd <= 1_000_000_000_000_000_000_000_000,
    ;
    assert(0 <= r <= 25_000_000_000_000_000_000_000_000_000_000_000) by (nonlinear_arith)
        requires
            0 <= n <= 1000,
            0 <= r <= n * 25_000_000_000_000_000_000_000_000_000_000,
    ;
    assert(0 <= n * r <= 25_000_000_000_000_000_000_000_000_000_000_000_000) by (nonlinear_arith)
        requires
            0 <= n <= 1000,
            0 <= r <= 25_000_000_000_000_000_000_000_000_000_000_000,
    ;
}

} // verus!
