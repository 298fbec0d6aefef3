//! Exact non-negative fractions, used for every strength and probability the
//! analyser stores. SQLite turns a fraction into a `REAL` with one division,
//! `CAST(num AS REAL) / den`, rounded once as IEEE-754 prescribes.

use vstd::prelude::*;

verus! {

/// The fraction `num / den`.
#[derive(Debug, Clone, Copy, PartialEq, Eq, Structural)]
pub struct Ratio {
    pub num: u64,
    pub den: u64,
}

impl Ratio {
    /// A well-formed fraction has a positive denominator.
    pub open spec fn wf(self) -> bool {
        self.den > 0
    }
}

/// `a < b` as rational numbers.
pub open spec fn ratio_lt(a: Ratio, b: Ratio) -> bool {
    (a.num as int) * (b.den as int) < (b.num as int) * (a.den as int)
}

/// `a == b` as rational numbers.
pub open spec fn ratio_eq(a: Ratio, b: Ratio) -> bool {
    (a.num as int) * (b.den as int) == (b.num as int) * (a.den as int)
}

/// `<` on fractions is transitive.
pub proof fn lemma_ratio_lt_transitive(a: Ratio, b: Ratio, c: Ratio)
    requires
        a.wf(),
        b.wf(),
        c.wf(),
        ratio_lt(a, b),
        ratio_lt(b, c),
    ensures
        ratio_lt(a, c),
{
    let (an, ad, bn, bd, cn, cd) = (a.num as int, a.den as int, b.num as int, b.den as int, c.num as int, c.den as int);
    assert(an * bd * cd < bn * ad * cd) by (nonlinear_arith)
        requires an * bd < bn * ad, cd > 0;
    assert(bn * cd * ad < cn * bd * ad) by (nonlinear_arith)
        requires bn * cd < cn * bd, ad > 0;
    assert(an * cd * bd < cn * ad * bd) by (nonlinear_arith)
        requires an * bd * cd < bn * ad * cd, bn * cd * ad < cn * bd * ad;
    assert(an * cd < cn * ad) by (nonlinear_arith)
        requires an * cd * bd < cn * ad * bd, bd > 0;
}

/// `==` on fractions is an equivalence, compatible with `<`.
pub proof fn lemma_ratio_eq_lt(a: Ratio, b: Ratio, c: Ratio)
    requires
        a.wf(),
        b.wf(),
        c.wf(),
    ensures
        ratio_eq(a, b) ==> ratio_eq(b, a),
        ratio_eq(a, b) && ratio_eq(b, c) ==> ratio_eq(a, c),
        ratio_eq(a, b) && ratio_lt(b, c) ==> ratio_lt(a, c),
        ratio_lt(a, b) && ratio_eq(b, c) ==> ratio_lt(a, c),
        !ratio_lt(a, a),
        ratio_lt(a, b) || ratio_eq(a, b) || ratio_lt(b, a),
        !(ratio_lt(a, b) && ratio_lt(b, a)),
        !(ratio_lt(a, b) && ratio_eq(a, b)),
{
    let (an, ad, bn, bd, cn, cd) = (a.num as int, a.den as int, b.num as int, b.den as int, c.num as int, c.den as int);
    if ratio_eq(a, b) && ratio_eq(b, c) {
        assert(an * cd == cn * ad) by (nonlinear_arith)
            requires an * bd == bn * ad, bn * cd == cn * bd, bd > 0;
    }
    if ratio_eq(a, b) && ratio_lt(b, c) {
        assert(an * cd < cn * ad) by (nonlinear_arith)
            requires an * bd == bn * ad, bn * cd < cn * bd, bd > 0, ad > 0, cd > 0;
    }
    if ratio_lt(a, b) && ratio_eq(b, c) {
        assert(an * cd < cn * ad) by (nonlinear_arith)
            requires an * bd < bn * ad, bn * cd == cn * bd, bd > 0, ad > 0, cd > 0;
    }
}

/// The exact product of two 64-bit numbers.
fn wide_mul(x: u64, y: u64) -> (r: u128)
    ensures
        r == (x as int) * (y as int),
{
    assert((x as int) * (y as int) <= 0xffff_ffff_ffff_ffffu128 * 0xffff_ffff_ffff_ffffu128) by (nonlinear_arith)
        requires x <= 0xffff_ffff_ffff_ffffu64, y <= 0xffff_ffff_ffff_ffffu64, x >= 0, y >= 0;
    (x as u128) * (y as u128)
}

/// Whether `a < b` as rational numbers.
pub fn is_ratio_less(a: &Ratio, b: &Ratio) -> (r: bool)
    ensures
        r == ratio_lt(*a, *b),
{
    wide_mul(a.num, b.den) < wide_mul(b.num, a.den)
}

/// Whether `a == b` as rational numbers.
pub fn is_ratio_equal(a: &Ratio, b: &Ratio) -> (r: bool)
    ensures
        r == ratio_eq(*a, *b),
{
    wide_mul(a.num, b.den) == wide_mul(b.num, a.den)
}

} // verus!
