//! The Beta-Bernoulli risk profile of a cluster.
//!
//! `risk` is the posterior mean of the cluster's rug rate under a uniform
//! `Beta(1, 1)` prior; `confidence` grows with the number of observed tokens. A rug
//! is a token with a terminal, final `token_outcome`.

use vstd::prelude::*;
use crate::analyze::ratio::{Ratio, ratio_lt, ratio_eq};

verus! {

/// Prior `Beta(α₀, β₀)` of the rug rate; `(1, 1)` is uniform, no strong prior.
pub const PRIOR_ALPHA: u64 = 1;
pub const PRIOR_BETA: u64 = 1;
/// Smoothing of the confidence: `confidence = n / (n + K)` for `n` tokens.
pub const CONFIDENCE_K: u64 = 5;
/// Minimal number of observed tokens to conclude that a cluster is a rugger.
pub const MIN_SAMPLES_FOR_RUGGER: u64 = 3;
/// The largest token count a profile is computed for, so that every sum fits.
pub const MAX_TOKEN_COUNT: u64 = 0x7fff_ffff_ffff_fff0;

/// The risk threshold `1/2`: at or above it a cluster is judged a rugger.
pub open spec fn risk_threshold() -> Ratio {
    Ratio { num: 1, den: 2 }
}

/// The risk profile of a cluster that launched `token_count` tokens, `rug_count`
/// of which were rugged.
#[derive(Debug, PartialEq, Eq)]
pub struct RiskProfile {
    pub token_count: u64,
    /// The rugs, never more than the tokens.
    pub rug_count: u64,
    /// Posterior `α = α₀ + rugs`.
    pub beta_alpha: u64,
    /// Posterior `β = β₀ + clean tokens`.
    pub beta_beta: u64,
    /// Posterior mean `α / (α + β)`.
    pub risk: Ratio,
    /// `n / (n + K)`.
    pub confidence: Ratio,
    /// `risk >= 1/2` with at least `MIN_SAMPLES_FOR_RUGGER` tokens.
    pub is_rugger: bool,
}

/// The rugs counted in a profile: at most the tokens.
pub open spec fn clamped_rugs(token_count: int, rug_count: int) -> int {
    if rug_count < token_count { rug_count } else { token_count }
}

/// The posterior `α`.
pub open spec fn posterior_alpha(token_count: int, rug_count: int) -> int {
    PRIOR_ALPHA + clamped_rugs(token_count, rug_count)
}

/// The posterior `β`.
pub open spec fn posterior_beta(token_count: int, rug_count: int) -> int {
    PRIOR_BETA + (token_count - clamped_rugs(token_count, rug_count))
}

/// The profile computed from the two counts.
pub open spec fn profile_of(token_count: u64, rug_count: u64) -> RiskProfile {
    let rugs = clamped_rugs(token_count as int, rug_count as int);
    let alpha = posterior_alpha(token_count as int, rug_count as int);
    let beta = posterior_beta(token_count as int, rug_count as int);
    let risk = Ratio { num: alpha as u64, den: (alpha + beta) as u64 };
    RiskProfile {
        token_count,
        rug_count: rugs as u64,
        beta_alpha: alpha as u64,
        beta_beta: beta as u64,
        risk,
        confidence: Ratio { num: token_count, den: (token_count + CONFIDENCE_K) as u64 },
        is_rugger: !ratio_lt(risk, risk_threshold()) && token_count >= MIN_SAMPLES_FOR_RUGGER,
    }
}

/// Computes the Beta-Bernoulli profile of a cluster.
pub fn beta_profile(token_count: u64, rug_count: u64) -> (p: RiskProfile)
    requires
        token_count <= MAX_TOKEN_COUNT,
    ensures
        p == profile_of(token_count, rug_count),
{
    let rugs = if rug_count < token_count { rug_count } else { token_count };
    let alpha = PRIOR_ALPHA + rugs;
    let beta = PRIOR_BETA + (token_count - rugs);
    let risk = Ratio { num: alpha, den: alpha + beta };
    // risk >= 1/2  <=>  2 * alpha >= alpha + beta  <=>  alpha >= beta
    let is_rugger = alpha >= beta && token_count >= MIN_SAMPLES_FOR_RUGGER;
    RiskProfile {
        token_count,
        rug_count: rugs,
        beta_alpha: alpha,
        beta_beta: beta,
        risk,
        confidence: Ratio { num: token_count, den: token_count + CONFIDENCE_K },
        is_rugger,
    }
}

/// The profile's fractions are well formed, the risk lies strictly between 0
/// and 1, the confidence below 1, and the rugs never exceed the tokens.
pub proof fn lemma_profile_bounds(token_count: u64, rug_count: u64)
    requires
        token_count <= MAX_TOKEN_COUNT,
    ensures
        ({
            let p = profile_of(token_count, rug_count);
            &&& p.rug_count <= p.token_count
            &&& p.risk.wf() && p.confidence.wf()
            &&& 0 < p.risk.num < p.risk.den
            &&& p.confidence.num < p.confidence.den
            &&& p.risk.den == p.token_count + 2
        }),
{
}

/// A cluster is a rugger exactly when at least half of its tokens (and at least
/// `MIN_SAMPLES_FOR_RUGGER` of them) were rugged.
pub proof fn lemma_rugger_iff_half_rugged(token_count: u64, rug_count: u64)
    requires
        token_count <= MAX_TOKEN_COUNT,
    ensures
        profile_of(token_count, rug_count).is_rugger <==> (2 * clamped_rugs(token_count as int, rug_count as int)
            >= token_count && token_count >= MIN_SAMPLES_FOR_RUGGER),
{
}

/// More rugs among the same tokens never lower the risk.
pub proof fn lemma_risk_monotone_in_rugs(token_count: u64, rugs1: u64, rugs2: u64)
    requires
        token_count <= MAX_TOKEN_COUNT,
        rugs1 <= rugs2,
    ensures
        !ratio_lt(profile_of(token_count, rugs2).risk, profile_of(token_count, rugs1).risk),
{
    let a1 = 1 + clamped_rugs(token_count as int, rugs1 as int);
    let a2 = 1 + clamped_rugs(token_count as int, rugs2 as int);
    let d = token_count as int + 2;
    assert(a1 * d <= a2 * d) by (nonlinear_arith)
        requires a1 <= a2, d > 0;
}

/// More rugs among the same tokens strictly raise the risk, as long as the rugs
/// do not exceed the tokens.
pub proof fn lemma_risk_increasing_in_rugs(token_count: u64, rugs1: u64, rugs2: u64)
    requires
        token_count <= MAX_TOKEN_COUNT,
        rugs1 < rugs2 <= token_count,
    ensures
        ratio_lt(profile_of(token_count, rugs1).risk, profile_of(token_count, rugs2).risk),
{
    let a1 = 1 + rugs1 as int;
    let a2 = 1 + rugs2 as int;
    let d = token_count as int + 2;
    assert(a1 * d < a2 * d) by (nonlinear_arith)
        requires a1 < a2, d > 0;
}

/// A further clean token (one more token, no more rugs) strictly lowers the risk.
pub proof fn lemma_clean_token_lowers_risk(token_count: u64, rug_count: u64)
    requires
        token_count < MAX_TOKEN_COUNT,
        rug_count <= token_count,
    ensures
        ratio_lt(profile_of((token_count + 1) as u64, rug_count).risk, profile_of(token_count, rug_count).risk),
{
    let a = (1 + rug_count) as int;
    let n = token_count as int;
    assert(a * (n + 2) < a * (n + 3)) by (nonlinear_arith)
        requires a > 0;
}

/// More clean tokens (more tokens, the same rugs) strictly lower the risk and
/// strictly raise the confidence.
pub proof fn lemma_clean_tokens_lower_risk(t1: u64, t2: u64, rug_count: u64)
    requires
        rug_count <= t1 < t2 <= MAX_TOKEN_COUNT,
    ensures
        ratio_lt(profile_of(t2, rug_count).risk, profile_of(t1, rug_count).risk),
        ratio_lt(profile_of(t1, rug_count).confidence, profile_of(t2, rug_count).confidence),
{
    let a = (1 + rug_count) as int;
    let x = t1 as int;
    let y = t2 as int;
    assert(a * (x + 2) < a * (y + 2)) by (nonlinear_arith)
        requires a > 0, x < y;
    assert(x * (y + 5) < y * (x + 5)) by (nonlinear_arith)
        requires x < y;
}

/// Confidence grows strictly with the number of observed tokens.
pub proof fn lemma_confidence_increasing(n1: u64, n2: u64)
    requires
        n1 < n2 <= MAX_TOKEN_COUNT,
    ensures
        ratio_lt(profile_of(n1, 0).confidence, profile_of(n2, 0).confidence),
{
    let a = n1 as int;
    let b = n2 as int;
    assert(a * (b + 5) < b * (a + 5)) by (nonlinear_arith)
        requires a < b;
}

} // verus!
