//! Ratios of integers: the values that predictions and goodness-of-fit
//! measures take.

use vstd::prelude::*;

verus! {

/// A ratio of two mathematical integers, `num / den`.
pub struct Fracao {
    pub num: int,
    pub den: int,
}

impl Fracao {
    /// The two ratios stand for the same number.
    pub open spec fn igual(self, outra: Fracao) -> bool {
        self.num * outra.den == outra.num * self.den
    }

    /// The difference `self - outra`.
    pub open spec fn menos(self, outra: Fracao) -> Fracao {
        Fracao { num: self.num * outra.den - outra.num * self.den, den: self.den * outra.den }
    }

    /// This ratio is at most `outra`; both denominators are positive.
    pub open spec fn menor_ou_igual(self, outra: Fracao) -> bool {
        self.num * outra.den <= outra.num * self.den
    }
}

/// A ratio of two machine integers, `num / den`. It is not reduced: two
/// values with different fields may stand for the same number.
#[derive(Clone, Copy, Debug, PartialEq, Eq)]
pub struct Razao {
    pub num: i128,
    pub den: i128,
}

impl View for Razao {
    type V = Fracao;

    open spec fn view(&self) -> Fracao {
        Fracao { num: self.num as int, den: self.den as int }
    }
}

impl Razao {
    /// The denominator is positive.
    pub open spec fn bem_formada(self) -> bool {
        self.den > 0
    }
}

} // verus!
