//! Finite sums over integer samples, and the facts about them that the
//! regression rests on.

use vstd::prelude::*;
use crate::algebra::lema_quadrado;

verus! {

/// Number of samples up to which a series is within the limits.
pub const MAX_AMOSTRAS: usize = 1000;

/// Absolute value up to which a sample is within the limits.
pub const MAX_VALOR: i64 = 1000;

/// A sequence of samples within the limits: at most `MAX_AMOSTRAS` of them,
/// each between `-MAX_VALOR` and `MAX_VALOR`. On such sequences every
/// operation of this crate fits in its integers.
pub open spec fn limitada(s: Seq<i64>) -> bool {
    &&& s.len() <= MAX_AMOSTRAS
    &&& forall|i: int| 0 <= i < s.len() ==> -MAX_VALOR <= #[trigger] s[i] <= MAX_VALOR
}

/// Sum of the first `k` samples of `s`.
pub open spec fn soma_ate(s: Seq<i64>, k: nat) -> int
    decreases k,
{
    if k == 0 {
        0
    } else {
        soma_ate(s, (k - 1) as nat) + s[k - 1]
    }
}

/// Sum of all the samples of `s`.
pub open spec fn soma(s: Seq<i64>) -> int {
    soma_ate(s, s.len())
}

/// Sum of the products `a[i] * b[i]` over the first `k` positions.
pub open spec fn soma_produtos_ate(a: Seq<i64>, b: Seq<i64>, k: nat) -> int
    decreases k,
{
    if k == 0 {
        0
    } else {
        soma_produtos_ate(a, b, (k - 1) as nat) + a[k - 1] * b[k - 1]
    }
}

/// Sum of the products `a[i] * b[i]` over the positions of `a`.
pub open spec fn soma_produtos(a: Seq<i64>, b: Seq<i64>) -> int {
    soma_produtos_ate(a, b, a.len())
}

/// The sum of the first `k` samples is at most `k` times a bound on each.
pub proof fn lema_soma_limitada(s: Seq<i64>, k: nat, b: int)
    requires
        k <= s.len(),
        forall|i: int| 0 <= i < k ==> -b <= #[trigger] s[i] <= b,
    ensures
        -(k * b) <= soma_ate(s, k) <= k * b,
    decreases k,
{
    if k > 0 {
        lema_soma_limitada(s, (k - 1) as nat, b);
        assert(-b <= s[k - 1] <= b);
        assert(k * b == (k - 1) * b + b) by (nonlinear_arith);
    }
}

/// The sum of the first `k` products is at most `k` times the product of the
/// bounds on the two factors.
pub proof fn lema_soma_produtos_limitada(a: Seq<i64>, b: Seq<i64>, k: nat, ba: int, bb: int)
    requires
        k <= a.len(),
        k <= b.len(),
        forall|i: int| 0 <= i < k ==> -ba <= #[trigger] a[i] <= ba,
        forall|i: int| 0 <= i < k ==> -bb <= #[trigger] b[i] <= bb,
    ensures
        -(k * (ba * bb)) <= soma_produtos_ate(a, b, k) <= k * (ba * bb),
    decreases k,
{
    if k > 0 {
        lema_soma_produtos_limitada(a, b, (k - 1) as nat, ba, bb);
        let u = a[k - 1] as int;
        let v = b[k - 1] as int;
        assert(-ba <= u <= ba);
        assert(-bb <= v <= bb);
        assert(-(ba * bb) <= u * v <= ba * bb) by (nonlinear_arith)
            requires
                -ba <= u <= ba,
                -bb <= v <= bb,
        ;
        assert(k * (ba * bb) == (k - 1) * (ba * bb) + ba * bb) by (nonlinear_arith);
    }
}

/// The value fits in 128 bits.
pub open spec fn cabe(v: int) -> bool {
    i128::MIN <= v <= i128::MAX
}

/// Every partial sum of the products `a[i] * b[i]` fits in 128 bits.
pub open spec fn produtos_cabem(a: Seq<i64>, b: Seq<i64>) -> bool {
    forall|k: nat| k <= a.len() ==> cabe(#[trigger] soma_produtos_ate(a, b, k))
}

/// The product of two 64-bit integers is at most `2^126` in absolute value.
pub proof fn lema_produto_i64(s: int, t: int)
    requires
        i64::MIN <= s <= i64::MAX,
        i64::MIN <= t <= i64::MAX,
    ensures
        -0x4000_0000_0000_0000_0000_0000_0000_0000 <= s * t
            <= 0x4000_0000_0000_0000_0000_0000_0000_0000,
{
    assert(-0x4000_0000_0000_0000_0000_0000_0000_0000 <= s * t
        <= 0x4000_0000_0000_0000_0000_0000_0000_0000) by (nonlinear_arith)
        requires
            -0x8000_0000_0000_0000 <= s <= 0x8000_0000_0000_0000,
            -0x8000_0000_0000_0000 <= t <= 0x8000_0000_0000_0000,
    ;
}

/// The partial sums of the squares of a sequence are not negative and grow
/// with the number of terms.
pub proof fn lema_quadrados_crescem(s: Seq<i64>, k: nat, n: nat)
    requires
        k <= n <= s.len(),
    ensures
        0 <= soma_produtos_ate(s, s, k) <= soma_produtos_ate(s, s, n),
    decreases n,
{
    if n > 0 {
        lema_quadrado(s[n - 1] as int);
        if k < n {
            lema_quadrados_crescem(s, k, (n - 1) as nat);
        } else {
            lema_quadrados_crescem(s, (n - 1) as nat, (n - 1) as nat);
        }
    }
}

/// Where the sum of the squares of a sequence fits in 128 bits, so does
/// every partial sum.
pub proof fn lema_quadrados_cabem(s: Seq<i64>)
    requires
        cabe(soma_produtos(s, s)),
    ensures
        produtos_cabem(s, s),
{
    assert forall|k: nat| k <= s.len() implies cabe(#[trigger] soma_produtos_ate(s, s, k)) by {
        lema_quadrados_crescem(s, k, s.len());
    }
}

/// Tells whether the samples of `s` are within the limits under which every
/// operation of this crate is known to fit.
pub fn dentro_dos_limites(s: &[i64]) -> (r: bool)
    ensures
        r == limitada(s@),
{
    let n: usize = s.len();
    if n > MAX_AMOSTRAS {
        return false;
    }
    let mut i: usize = 0;
    while i < n
        invariant
            i <= n,
            n == s.len(),
            n <= MAX_AMOSTRAS,
            forall|j: int| 0 <= j < i ==> -MAX_VALOR <= #[trigger] s@[j] <= MAX_VALOR,
        decreases n - i,
    {
        if s[i] < -MAX_VALOR || s[i] > MAX_VALOR {
            return false;
        }
        i = i + 1;
    }
    true
}

/// Adds up the samples of `s`.
pub fn somar(s: &[i64]) -> (total: i128)
    ensures
        total == soma(s@),
{
    let n: usize = s.len();
    let mut total: i128 = 0;
    let mut i: usize = 0;
    while i < n
        invariant
            i <= n,
            n == s.len(),
            total == soma_ate(s@, i as nat),
        decreases n - i,
    {
        proof {
            let k = (i + 1) as int;
            lema_soma_limitada(s@, i as nat, 0x8000_0000_0000_0000);
            lema_soma_limitada(s@, (i + 1) as nat, 0x8000_0000_0000_0000);
            assert(k * 0x8000_0000_0000_0000 <= 0x7fff_ffff_ffff_ffff_8000_0000_0000_0000)
                by (nonlinear_arith)
                requires
                    0 <= k <= 0xffff_ffff_ffff_ffff,
            ;
        }
        total = total + s[i] as i128;
        i = i + 1;
    }
    total
}

/// Adds up the products `a[i] * b[i]` of two sequences of one length.
pub fn somar_produtos(a: &[i64], b: &[i64]) -> (total: i128)
    requires
        a.len() == b.len(),
        produtos_cabem(a@, b@),
    ensures
        total == soma_produtos(a@, b@),
{
    let n: usize = a.len();
    let mut total: i128 = 0;
    let mut i: usize = 0;
    while i < n
        invariant
            i <= n,
            n == a.len(),
            n == b.len(),
            produtos_cabem(a@, b@),
            total == soma_produtos_ate(a@, b@, i as nat),
        decreases n - i,
    {
        let u: i128 = a[i] as i128;
        let v: i128 = b[i] as i128;
        proof {
            lema_produto_i64(u as int, v as int);
            assert(cabe(soma_produtos_ate(a@, b@, (i + 1) as nat)));
        }
        total = total + u * v;
        i = i + 1;
    }
    total
}

} // verus!
