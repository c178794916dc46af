//! The fitted line and the operations on it.

use vstd::prelude::*;
use crate::algebra::{lema_modulo_quadrado, lema_quadrado};
use crate::dispersao::{codispersao, dispersao, lema_dispersao_zero, todos_iguais};
use crate::limites::lei_limitada_ajuste_cabe;
use crate::razao::{Fracao, Razao};
use crate::somas::{
    cabe, lema_produto_i64, lema_quadrados_cabem, lema_quadrados_crescem, limitada,
    produtos_cabem, soma, soma_produtos, somar, somar_produtos,
};

verus! {

/// Denominator up to which a model is within the limits.
pub const MAX_DENOMINADOR: i64 = 1_000_000_000_000;

/// Absolute value up to which the numerator of a model's slope is within the
/// limits.
pub const MAX_COEFICIENTE: i64 = 2_000_000_000_000;

/// Absolute value up to which the numerator of a model's intercept is within
/// the limits.
pub const MAX_INTERCEPTO: i64 = 2_000_000_000_000_000;

/// Why a series has no fitted line.
#[derive(Clone, Copy, Debug, PartialEq, Eq)]
pub enum ErroAjuste {
    /// The two sequences differ in length, or they are empty.
    EntradaInvalida,
    /// Every `x` has the same value, so the line through the samples is not
    /// determined.
    EntradaDegenerada,
}

impl ErroAjuste {
    /// The text of the message that goes with the error.
    pub open spec fn texto(self) -> Seq<char> {
        match self {
            ErroAjuste::EntradaInvalida =>
                "Vetores x e y devem ter o mesmo tamanho e não podem ser vazios"@,
            ErroAjuste::EntradaDegenerada => "Divisão por zero no cálculo dos coeficientes"@,
        }
    }

    /// The message that goes with the error.
    pub fn mensagem(&self) -> (r: &'static str)
        ensures
            r@ == self.texto(),
    {
        match self {
            ErroAjuste::EntradaInvalida =>
                "Vetores x e y devem ter o mesmo tamanho e não podem ser vazios",
            ErroAjuste::EntradaDegenerada => "Divisão por zero no cálculo dos coeficientes",
        }
    }
}

/// A straight line `intercept + slope * x`. The two coefficients are ratios
/// with one denominator: the intercept is `intercepto_num / denominador` and
/// the slope is `coeficiente_num / denominador`.
#[derive(Clone, Copy, Debug, PartialEq, Eq)]
pub struct RegressaoLinear {
    pub intercepto_num: i64,
    pub coeficiente_num: i64,
    pub denominador: i64,
}

/// Numerator of the least-squares intercept of a series, over `dispersao(x)`.
pub open spec fn intercepto_ajustado(x: Seq<i64>, y: Seq<i64>) -> int {
    soma(y) * soma_produtos(x, x) - soma(x) * soma_produtos(x, y)
}

/// What the fit of a series takes to compute. The sums of products and `n`
/// times the sum of the squares of `x` fit in 128 bits. Where the `x` are not
/// all equal, so do the four products of sums, and the three numbers of the
/// model fit in 64 bits.
pub open spec fn ajuste_cabe(x: Seq<i64>, y: Seq<i64>) -> bool {
    &&& produtos_cabem(x, y)
    &&& cabe(x.len() * soma_produtos(x, x))
    &&& dispersao(x) != 0 ==> {
        &&& cabe(x.len() * soma_produtos(x, y))
        &&& cabe(soma(x) * soma(y))
        &&& cabe(soma(y) * soma_produtos(x, x))
        &&& cabe(soma(x) * soma_produtos(x, y))
        &&& dispersao(x) <= i64::MAX
        &&& i64::MIN <= codispersao(x, y) <= i64::MAX
        &&& i64::MIN <= intercepto_ajustado(x, y) <= i64::MAX
    }
}

/// Sum over the first `k` samples of the squares of `m.residuo`: the squared
/// residuals of the line, times the square of the model's denominator.
pub open spec fn soma_residuos2_ate(m: RegressaoLinear, x: Seq<i64>, y: Seq<i64>, k: nat) -> int
    decreases k,
{
    if k == 0 {
        0
    } else {
        soma_residuos2_ate(m, x, y, (k - 1) as nat) + m.residuo(x[k - 1] as int, y[k - 1] as int)
            * m.residuo(x[k - 1] as int, y[k - 1] as int)
    }
}

/// Sum over all the samples of the squares of `m.residuo`: the squared
/// residuals of the line, times the square of the model's denominator.
pub open spec fn soma_residuos2(m: RegressaoLinear, x: Seq<i64>, y: Seq<i64>) -> int {
    soma_residuos2_ate(m, x, y, x.len())
}

impl RegressaoLinear {
    /// The denominator is positive, so the two coefficients are ratios.
    pub open spec fn bem_formado(self) -> bool {
        self.denominador > 0
    }

    /// The model is well formed and its three fields are within the limits:
    /// on a series within the limits, its two measures fit in their integers.
    pub open spec fn limitado(self) -> bool {
        &&& 0 < self.denominador <= MAX_DENOMINADOR
        &&& -MAX_COEFICIENTE <= self.coeficiente_num <= MAX_COEFICIENTE
        &&& -MAX_INTERCEPTO <= self.intercepto_num <= MAX_INTERCEPTO
    }

    /// What the mean squared error takes to compute: its numerator and its
    /// denominator fit in 128 bits.
    pub open spec fn erro_cabe(self, x: Seq<i64>, y: Seq<i64>) -> bool {
        &&& cabe(soma_residuos2(self, x, y))
        &&& cabe(x.len() * (self.denominador * self.denominador))
    }

    /// What the coefficient of determination takes to compute: `n` times the
    /// sum of the squares of `y` fits in 128 bits and, where the `y` are not
    /// all equal, so do the denominator of the result and `n` times the sum
    /// of squared residuals.
    pub open spec fn determinacao_cabe(self, x: Seq<i64>, y: Seq<i64>) -> bool {
        &&& cabe(y.len() * soma_produtos(y, y))
        &&& dispersao(y) != 0 ==> {
            &&& cabe(self.denominador * self.denominador * dispersao(y))
            &&& cabe(x.len() * soma_residuos2(self, x, y))
        }
    }

    /// The line is the least-squares fit of the series: its slope is
    /// `codispersao(x, y) / dispersao(x)` and its intercept is
    /// `intercepto_ajustado(x, y) / dispersao(x)`.
    pub open spec fn ajustado_a(self, x: Seq<i64>, y: Seq<i64>) -> bool {
        &&& x.len() == y.len()
        &&& self.denominador == dispersao(x)
        &&& self.denominador != 0
        &&& self.coeficiente_num == codispersao(x, y)
        &&& self.intercepto_num == intercepto_ajustado(x, y)
    }

    /// The intercept of the line.
    pub open spec fn valor_intercepto(self) -> Fracao {
        Fracao { num: self.intercepto_num as int, den: self.denominador as int }
    }

    /// The slope of the line.
    pub open spec fn valor_coeficiente(self) -> Fracao {
        Fracao { num: self.coeficiente_num as int, den: self.denominador as int }
    }

    /// The value of the line at `x`: `intercept + slope * x`.
    pub open spec fn previsao(self, x: int) -> Fracao {
        Fracao {
            num: self.intercepto_num + self.coeficiente_num * x,
            den: self.denominador as int,
        }
    }

    /// The residual `y - previsao(x)` of a sample, multiplied by the model's
    /// denominator so that it stays whole.
    pub open spec fn residuo(self, x: int, y: int) -> int {
        self.denominador * y - (self.intercepto_num + self.coeficiente_num * x)
    }

    /// The mean of the squared residuals over the series:
    /// `sum((y[i] - previsao(x[i]))^2) / n`.
    pub open spec fn erro_quadratico_medio(self, x: Seq<i64>, y: Seq<i64>) -> Fracao {
        Fracao {
            num: soma_residuos2(self, x, y),
            den: x.len() * (self.denominador * self.denominador),
        }
    }

    /// The coefficient of determination over the series:
    /// `1 - sum((y[i] - previsao(x[i]))^2) / sum((y[i] - mean(y))^2)`.
    ///
    /// The first sum is `soma_residuos2 / denominador^2` and the second is
    /// `dispersao(y) / n`.
    pub open spec fn coeficiente_determinacao(self, x: Seq<i64>, y: Seq<i64>) -> Fracao {
        Fracao {
            num: self.denominador * self.denominador * dispersao(y) - x.len() * soma_residuos2(
                self,
                x,
                y,
            ),
            den: self.denominador * self.denominador * dispersao(y),
        }
    }

    /// Fits a line to the samples `(x[i], y[i])` by least squares.
    ///
    /// The slope is `codispersao(x, y) / dispersao(x)` and the intercept is
    /// `intercepto_ajustado(x, y) / dispersao(x)`. The fit fails when the
    /// sequences differ in length or are empty, and when all the `x` are
    /// equal. Sequences of different lengths may hold any values.
    pub fn fit(x: &[i64], y: &[i64]) -> (r: Result<RegressaoLinear, ErroAjuste>)
        requires
            x.len() == y.len() ==> ajuste_cabe(x@, y@),
        ensures
            match r {
                Ok(m) => {
                    &&& x.len() > 0
                    &&& !todos_iguais(x@)
                    &&& m.ajustado_a(x@, y@)
                    &&& m.bem_formado()
                    &&& limitada(x@) && limitada(y@) ==> m.limitado()
                },
                Err(ErroAjuste::EntradaInvalida) => x.len() != y.len() || x.len() == 0,
                Err(ErroAjuste::EntradaDegenerada) => {
                    &&& x.len() == y.len()
                    &&& x.len() > 0
                    &&& todos_iguais(x@)
                },
            },
    {
        if x.len() != y.len() || x.len() == 0 {
            return Err(ErroAjuste::EntradaInvalida);
        }
        let n: i128 = x.len() as i128;
        let sx: i128 = somar(x);
        let sy: i128 = somar(y);
        proof {
            lema_dispersao_zero(x@);
            lema_quadrados_crescem(x@, 0, x@.len());
            lema_parcela(n as int, soma_produtos(x@, x@));
            lema_quadrado(sx as int);
            lema_quadrados_cabem(x@);
        }
        let sxx: i128 = somar_produtos(x, x);
        let sxy: i128 = somar_produtos(x, y);
        let denominador: i128 = n * sxx - sx * sx;
        if denominador == 0 {
            return Err(ErroAjuste::EntradaDegenerada);
        }
        let coeficiente_num: i128 = n * sxy - sx * sy;
        let intercepto_num: i128 = sy * sxx - sx * sxy;
        proof {
            if limitada(x@) && limitada(y@) {
                lei_limitada_ajuste_cabe(x@, y@);
            }
        }
        Ok(
            RegressaoLinear {
                intercepto_num: intercepto_num as i64,
                coeficiente_num: coeficiente_num as i64,
                denominador: denominador as i64,
            },
        )
    }

    /// Tells whether the model is well formed.
    pub fn valido(&self) -> (r: bool)
        ensures
            r == self.bem_formado(),
    {
        self.denominador > 0
    }

    /// Tells whether the fields of the model are within the limits.
    pub fn dentro_dos_limites(&self) -> (r: bool)
        ensures
            r == self.limitado(),
    {
        0 < self.denominador && self.denominador <= MAX_DENOMINADOR && -MAX_COEFICIENTE
            <= self.coeficiente_num && self.coeficiente_num <= MAX_COEFICIENTE && -MAX_INTERCEPTO
            <= self.intercepto_num && self.intercepto_num <= MAX_INTERCEPTO
    }

    /// The intercept of the line: its value at zero.
    pub fn intercepto(&self) -> (r: Razao)
        ensures
            r@ == self.valor_intercepto(),
    {
        Razao { num: self.intercepto_num as i128, den: self.denominador as i128 }
    }

    /// The slope of the line: the change of its value per unit of `x`.
    pub fn coeficiente(&self) -> (r: Razao)
        ensures
            r@ == self.valor_coeficiente(),
    {
        Razao { num: self.coeficiente_num as i128, den: self.denominador as i128 }
    }

    /// The value that the line takes at `x`, inside or outside the range of
    /// the samples it was fitted to.
    pub fn prever(&self, x: i64) -> (r: Razao)
        ensures
            r@ == self.previsao(x as int),
    {
        let a: i128 = self.intercepto_num as i128;
        let s: i128 = self.coeficiente_num as i128;
        let t: i128 = x as i128;
        proof {
            lema_produto_i64(s as int, t as int);
        }
        Razao { num: a + s * t, den: self.denominador as i128 }
    }

    /// Adds up the squared residuals of the model over the series.
    fn somar_residuos2(&self, x: &[i64], y: &[i64]) -> (total: i128)
        requires
            x.len() == y.len(),
            cabe(soma_residuos2(*self, x@, y@)),
        ensures
            total == soma_residuos2(*self, x@, y@),
            total >= 0,
    {
        let n: usize = x.len();
        let d: i128 = self.denominador as i128;
        let a: i128 = self.intercepto_num as i128;
        let s: i128 = self.coeficiente_num as i128;
        let mut total: i128 = 0;
        let mut i: usize = 0;
        while i < n
            invariant
                i <= n,
                n == x.len(),
                n == y.len(),
                cabe(soma_residuos2(*self, x@, y@)),
                d == self.denominador,
                a == self.intercepto_num,
                s == self.coeficiente_num,
                total == soma_residuos2_ate(*self, x@, y@, i as nat),
                total >= 0,
            decreases n - i,
        {
            let xi: i128 = x[i] as i128;
            let yi: i128 = y[i] as i128;
            proof {
                lema_residuos2_crescem(*self, x@, y@, (i + 1) as nat, n as nat);
                lema_residuos2_crescem(*self, x@, y@, i as nat, (i + 1) as nat);
                lema_modulo_quadrado(self.residuo(xi as int, yi as int));
                lema_produto_i64(d as int, yi as int);
                lema_produto_i64(s as int, xi as int);
            }
            let e: i128 = d * yi - (a + s * xi);
            total = total + e * e;
            i = i + 1;
        }
        total
    }

    /// Mean of the squared residuals of the model over the series. An empty
    /// series has no mean: the result is `None`.
    pub fn mse(&self, x: &[i64], y: &[i64]) -> (r: Option<Razao>)
        requires
            self.bem_formado(),
            x.len() == y.len(),
            self.erro_cabe(x@, y@),
        ensures
            r is None <==> x.len() == 0,
            r matches Some(q) ==> q@ == self.erro_quadratico_medio(x@, y@) && q.bem_formada()
                && q.num >= 0,
    {
        if x.len() == 0 {
            return None;
        }
        let n: i128 = x.len() as i128;
        let d: i128 = self.denominador as i128;
        let total: i128 = self.somar_residuos2(x, y);
        proof {
            lema_produto_i64(d as int, d as int);
            lema_produto_positivo(d as int, d as int);
            lema_produto_positivo(n as int, d * d);
        }
        Some(Razao { num: total, den: n * (d * d) })
    }

    /// Coefficient of determination of the model over the series: the share
    /// of the spread of `y` that the line accounts for. Where all the `y` are
    /// equal, and on an empty series, the ratio would have a zero
    /// denominator: the result is `None`.
    pub fn r2(&self, x: &[i64], y: &[i64]) -> (r: Option<Razao>)
        requires
            self.bem_formado(),
            x.len() == y.len(),
            self.determinacao_cabe(x@, y@),
        ensures
            r is None <==> todos_iguais(y@),
            r matches Some(q) ==> q@ == self.coeficiente_determinacao(x@, y@) && q.bem_formada(),
    {
        let n: i128 = y.len() as i128;
        let sy: i128 = somar(y);
        proof {
            lema_dispersao_zero(y@);
            lema_quadrados_crescem(y@, 0, y@.len());
            lema_quadrado(sy as int);
            if n > 0 {
                lema_parcela(n as int, soma_produtos(y@, y@));
            }
            lema_quadrados_cabem(y@);
        }
        let syy: i128 = somar_produtos(y, y);
        let total_y: i128 = n * syy - sy * sy;
        if total_y == 0 {
            return None;
        }
        let d: i128 = self.denominador as i128;
        proof {
            lema_residuos2_crescem(*self, x@, y@, 0, x@.len());
            lema_parcela(n as int, soma_residuos2(*self, x@, y@));
            lema_produto_i64(d as int, d as int);
            lema_produto_positivo(d as int, d as int);
            lema_produto_positivo(d * d, total_y as int);
        }
        let residual: i128 = self.somar_residuos2(x, y);
        let den: i128 = d * d * total_y;
        proof {
            lema_produto_nao_negativo(n as int, residual as int);
        }
        Some(Razao { num: den - n * residual, den })
    }
}

/// The partial sums of the squared residuals are not negative and grow with
/// the number of terms.
pub proof fn lema_residuos2_crescem(m: RegressaoLinear, x: Seq<i64>, y: Seq<i64>, k: nat, n: nat)
    requires
        k <= n,
    ensures
        0 <= soma_residuos2_ate(m, x, y, k) <= soma_residuos2_ate(m, x, y, n),
    decreases n,
{
    if n > 0 {
        lema_quadrado(m.residuo(x[n - 1] as int, y[n - 1] as int));
        if k < n {
            lema_residuos2_crescem(m, x, y, k, (n - 1) as nat);
        } else {
            lema_residuos2_crescem(m, x, y, (n - 1) as nat, (n - 1) as nat);
        }
    }
}

/// A value that is not negative is at most any positive multiple of itself.
proof fn lema_parcela(n: int, v: int)
    requires
        n >= 1,
        v >= 0,
    ensures
        0 <= v <= n * v,
{
    assert(v <= n * v) by (nonlinear_arith)
        requires
            n >= 1,
            v >= 0,
    ;
}

/// The product of two positive values is positive.
proof fn lema_produto_positivo(a: int, b: int)
    requires
        a > 0,
        b > 0,
    ensures
        a * b > 0,
{
    assert(a * b > 0) by (nonlinear_arith)
        requires
            a > 0,
            b > 0,
    ;
}

/// The product of two values that are not negative is not negative.
proof fn lema_produto_nao_negativo(a: int, b: int)
    requires
        a >= 0,
        b >= 0,
    ensures
        a * b >= 0,
{
    assert(a * b >= 0) by (nonlinear_arith)
        requires
            a >= 0,
            b >= 0,
    ;
}

} // verus!
