//! Cluster membership: which wallets are linked to a deployer, and by which signal.
//!
//! Four signals link a wallet to the deployer anchoring a cluster: `funding` (the
//! deployer sent it funds), `consolidation` (it sent funds back), `cobehavior` (it
//! took part in the deployer's launches) and `exclusivity` (it took part in the
//! deployer's launches and in no other). A wallet keeps one link only, its
//! strongest signal; at equal strength the priority `exclusivity > consolidation >
//! funding > cobehavior` decides.

use vstd::prelude::*;
use vstd::hash_set::StringHashSet;
use crate::analyze::ratio::{Ratio, ratio_lt, ratio_eq, is_ratio_less, is_ratio_equal, lemma_ratio_lt_transitive, lemma_ratio_eq_lt};
use crate::text::{copy_string, text_less, is_text_less, texts_equal, lemma_text_less_total, lemma_text_less_transitive};

verus! {

/// The kind of signal linking a wallet to a deployer.
#[derive(Clone, Copy, Debug, PartialEq, Eq, Structural)]
pub enum LinkType {
    Cobehavior,
    Funding,
    Consolidation,
    Exclusivity,
}

impl LinkType {
    /// The priority among signals of equal strength: higher wins.
    pub open spec fn priority(self) -> int {
        match self {
            LinkType::Cobehavior => 0,
            LinkType::Funding => 1,
            LinkType::Consolidation => 2,
            LinkType::Exclusivity => 3,
        }
    }

    /// The priority, as [`LinkType::priority`] gives it.
    pub fn rank(&self) -> (r: u8)
        ensures
            r == self.priority(),
    {
        match self {
            LinkType::Cobehavior => 0,
            LinkType::Funding => 1,
            LinkType::Consolidation => 2,
            LinkType::Exclusivity => 3,
        }
    }

    /// The name stored in `cluster_member.link_type`.
    pub open spec fn label(self) -> Seq<char> {
        match self {
            LinkType::Cobehavior => "cobehavior"@,
            LinkType::Funding => "funding"@,
            LinkType::Consolidation => "consolidation"@,
            LinkType::Exclusivity => "exclusivity"@,
        }
    }

    /// The name stored in `cluster_member.link_type`.
    pub fn name(&self) -> (s: &'static str)
        ensures
            s@ == self.label(),
    {
        match self {
            LinkType::Cobehavior => "cobehavior",
            LinkType::Funding => "funding",
            LinkType::Consolidation => "consolidation",
            LinkType::Exclusivity => "exclusivity",
        }
    }
}

/// A signal linking `wallet` to the deployer, with its strength; once chosen, the
/// wallet's link in the cluster.
#[derive(Debug, PartialEq, Eq)]
pub struct Link {
    pub wallet: String,
    pub link_type: LinkType,
    pub strength: Ratio,
}

/// A wallet that took part in some of the deployer's launches.
#[derive(Debug)]
pub struct CoParticipation {
    pub wallet: String,
    /// How many of the deployer's tokens it took part in.
    pub anchor_mints: u64,
    /// How many participations it has in tokens that are not the deployer's.
    pub outside_mints: i64,
}

/// One half, the floor of an exclusive participant's strength.
pub open spec fn one_half() -> Ratio {
    Ratio { num: 1, den: 2 }
}

/// A saturating strength from a number of occurrences `n`: `n / (n + 1)`, with a
/// negative `n` counted as 0. So 1 gives 1/2, 2 gives 2/3, 3 gives 3/4, always
/// below 1.
pub open spec fn saturating(n: i64) -> Ratio {
    let m: int = if n < 0 { 0 } else { n as int };
    Ratio { num: m as u64, den: (m + 1) as u64 }
}

/// The strength of a saturating link: see [`saturating`].
pub fn saturating_strength(n: i64) -> (r: Ratio)
    ensures
        r == saturating(n),
        r.wf(),
        ratio_lt(r, Ratio { num: 1, den: 1 }),
{
    let m: u64 = if n < 0 { 0 } else { n as u64 };
    assert((m as int) * 1 < 1 * (m as int + 1));
    Ratio { num: m, den: m + 1 }
}

/// The signal of a co-participant among `total` deployer tokens: exclusive when it
/// took part in no other token (strength: its share of the deployer's tokens, at
/// least one half), co-behaviour otherwise (strength: its share).
pub open spec fn co_link(c: CoParticipation, total: u64) -> Link {
    let share = Ratio { num: c.anchor_mints, den: total };
    if c.outside_mints == 0 {
        Link {
            wallet: c.wallet,
            link_type: LinkType::Exclusivity,
            strength: if ratio_lt(share, one_half()) { one_half() } else { share },
        }
    } else {
        Link { wallet: c.wallet, link_type: LinkType::Cobehavior, strength: share }
    }
}

/// The funding signal of `(wallet, number of flows from the deployer)`.
pub open spec fn funding_link(row: (String, i64)) -> Link {
    Link { wallet: row.0, link_type: LinkType::Funding, strength: saturating(row.1) }
}

/// The consolidation signal of `(wallet, number of flows to the deployer)`.
pub open spec fn consolidation_link(row: (String, i64)) -> Link {
    Link { wallet: row.0, link_type: LinkType::Consolidation, strength: saturating(row.1) }
}

/// All the signals, in order: funding, consolidation, then co-participation.
pub open spec fn all_signals(
    funding: Seq<(String, i64)>,
    consolidation: Seq<(String, i64)>,
    co: Seq<CoParticipation>,
    total: u64,
) -> Seq<Link> {
    funding.map_values(|r: (String, i64)| funding_link(r)) + consolidation.map_values(
        |r: (String, i64)| consolidation_link(r),
    ) + co.map_values(|c: CoParticipation| co_link(c, total))
}

/// A copy of `l`.
pub fn copy_link(l: &Link) -> (r: Link)
    ensures
        r == *l,
{
    Link { wallet: copy_string(&l.wallet), link_type: l.link_type, strength: Ratio { num: l.strength.num, den: l.strength.den } }
}

/// The co-participation signal of `c` among `total` deployer tokens.
pub fn co_participation_link(c: &CoParticipation, total: u64) -> (l: Link)
    requires
        total > 0,
    ensures
        l == co_link(*c, total),
        l.strength.wf(),
{
    let share = Ratio { num: c.anchor_mints, den: total };
    let half = Ratio { num: 1, den: 2 };
    if c.outside_mints == 0 {
        let strength = if is_ratio_less(&share, &half) { half } else { share };
        Link { wallet: copy_string(&c.wallet), link_type: LinkType::Exclusivity, strength }
    } else {
        Link { wallet: copy_string(&c.wallet), link_type: LinkType::Cobehavior, strength: share }
    }
}

/// The signals from the query results: funding `(wallet, flows)` rows,
/// consolidation `(wallet, flows)` rows and co-participations among `total`
/// deployer tokens.
pub fn link_signals(
    funding: &Vec<(String, i64)>,
    consolidation: &Vec<(String, i64)>,
    co: &Vec<CoParticipation>,
    total: u64,
) -> (s: Vec<Link>)
    requires
        co@.len() > 0 ==> total > 0,
    ensures
        s@ == all_signals(funding@, consolidation@, co@, total),
        forall|i: int| 0 <= i < s@.len() ==> (#[trigger] s@[i]).strength.wf(),
{
    let ghost f = funding@.map_values(|r: (String, i64)| funding_link(r));
    let ghost c = consolidation@.map_values(|r: (String, i64)| consolidation_link(r));
    let ghost p = co@.map_values(|x: CoParticipation| co_link(x, total));
    let mut s: Vec<Link> = Vec::new();
    let mut i: usize = 0;
    while i < funding.len()
        invariant
            i <= funding@.len(),
            f == funding@.map_values(|r: (String, i64)| funding_link(r)),
            s@ == f.take(i as int),
            forall|k: int| 0 <= k < s@.len() ==> (#[trigger] s@[k]).strength.wf(),
        decreases funding@.len() - i,
    {
        let row = &funding[i];
        s.push(Link { wallet: copy_string(&row.0), link_type: LinkType::Funding, strength: saturating_strength(row.1) });
        assert(f.take(i + 1) =~= f.take(i as int).push(f[i as int]));
        i = i + 1;
    }
    assert(f.take(funding@.len() as int) =~= f);
    let mut i: usize = 0;
    while i < consolidation.len()
        invariant
            i <= consolidation@.len(),
            f.len() == funding@.len(),
            c == consolidation@.map_values(|r: (String, i64)| consolidation_link(r)),
            s@ == f + c.take(i as int),
            forall|k: int| 0 <= k < s@.len() ==> (#[trigger] s@[k]).strength.wf(),
        decreases consolidation@.len() - i,
    {
        let row = &consolidation[i];
        s.push(Link { wallet: copy_string(&row.0), link_type: LinkType::Consolidation, strength: saturating_strength(row.1) });
        assert(f + c.take(i + 1) =~= (f + c.take(i as int)).push(c[i as int]));
        i = i + 1;
    }
    assert(c.take(consolidation@.len() as int) =~= c);
    let mut i: usize = 0;
    while i < co.len()
        invariant
            i <= co@.len(),
            co@.len() > 0 ==> total > 0,
            p == co@.map_values(|x: CoParticipation| co_link(x, total)),
            s@ == f + c + p.take(i as int),
            forall|k: int| 0 <= k < s@.len() ==> (#[trigger] s@[k]).strength.wf(),
        decreases co@.len() - i,
    {
        s.push(co_participation_link(&co[i], total));
        assert(f + c + p.take(i + 1) =~= (f + c + p.take(i as int)).push(p[i as int]));
        i = i + 1;
    }
    assert(p.take(co@.len() as int) =~= p);
    s
}

// ---------------------------------------------------------------------------
// Choosing the strongest signal per wallet
// ---------------------------------------------------------------------------

/// `a` is a stronger signal than `b`: greater strength, or equal strength and a
/// higher priority.
pub open spec fn beats(a: Link, b: Link) -> bool {
    ||| ratio_lt(b.strength, a.strength)
    ||| (ratio_eq(a.strength, b.strength) && a.link_type.priority() > b.link_type.priority())
}

/// `beats` is a strict order on well-formed strengths.
pub proof fn lemma_beats_order(a: Link, b: Link, c: Link)
    requires
        a.strength.wf(),
        b.strength.wf(),
        c.strength.wf(),
    ensures
        !beats(a, a),
        beats(a, b) && beats(b, c) ==> beats(a, c),
{
    lemma_ratio_eq_lt(a.strength, a.strength, a.strength);
    lemma_ratio_eq_lt(a.strength, b.strength, c.strength);
    lemma_ratio_eq_lt(b.strength, a.strength, c.strength);
    lemma_ratio_eq_lt(c.strength, b.strength, a.strength);
    lemma_ratio_eq_lt(b.strength, c.strength, a.strength);
    lemma_ratio_eq_lt(c.strength, a.strength, b.strength);
    if ratio_lt(c.strength, b.strength) && ratio_lt(b.strength, a.strength) {
        lemma_ratio_lt_transitive(c.strength, b.strength, a.strength);
    }
}

/// A signal that may link a wallet: not the deployer itself, nor an excluded
/// (passthrough) address.
pub open spec fn eligible(l: Link, deployer: Seq<char>, excluded: Set<Seq<char>>) -> bool {
    l.wallet@ != deployer && !excluded.contains(l.wallet@)
}

/// Among the first `n` signals, some eligible one concerns wallet `w`.
pub open spec fn has_signal(signals: Seq<Link>, n: int, deployer: Seq<char>, excluded: Set<Seq<char>>, w: Seq<char>) -> bool {
    exists|i: int| 0 <= i < n && eligible(#[trigger] signals[i], deployer, excluded) && signals[i].wallet@ == w
}

/// `m` is the strongest eligible signal for its wallet among the first `n` signals:
/// it is one of them, and none of them for that wallet beats it.
pub open spec fn is_strongest(signals: Seq<Link>, n: int, deployer: Seq<char>, excluded: Set<Seq<char>>, m: Link) -> bool {
    &&& exists|i: int|
        0 <= i < n && eligible(#[trigger] signals[i], deployer, excluded) && signals[i].wallet@ == m.wallet@
            && signals[i].link_type == m.link_type && signals[i].strength == m.strength
    &&& forall|i: int|
        0 <= i < n && eligible(#[trigger] signals[i], deployer, excluded) && signals[i].wallet@ == m.wallet@
            ==> !beats(signals[i], m)
}

/// The links are in strictly increasing order of wallet.
pub open spec fn sorted_by_wallet(links: Seq<Link>) -> bool {
    forall|i: int, j: int| 0 <= i < j < links.len() ==> text_less(#[trigger] links[i].wallet@, #[trigger] links[j].wallet@)
}

/// The membership chosen from the first `n` signals: one link per wallet that has
/// an eligible signal, its strongest, in increasing order of wallet.
pub open spec fn strongest_per_wallet(signals: Seq<Link>, n: int, deployer: Seq<char>, excluded: Set<Seq<char>>, links: Seq<Link>) -> bool {
    &&& sorted_by_wallet(links)
    &&& forall|k: int| 0 <= k < links.len() ==> is_strongest(signals, n, deployer, excluded, #[trigger] links[k])
    &&& forall|w: Seq<char>| #[trigger] has_signal(signals, n, deployer, excluded, w) ==> exists|k: int| 0 <= k < links.len() && (#[trigger] links[k]).wallet@ == w
}


/// No member is the deployer, nor an excluded (passthrough) address: every member
/// has an eligible signal.
pub proof fn lemma_members_eligible(signals: Seq<Link>, n: int, deployer: Seq<char>, excluded: Set<Seq<char>>, links: Seq<Link>)
    requires
        strongest_per_wallet(signals, n, deployer, excluded, links),
    ensures
        forall|k: int| 0 <= k < links.len() ==> (#[trigger] links[k]).wallet@ != deployer && !excluded.contains(links[k].wallet@),
{
    assert forall|k: int| 0 <= k < links.len() implies (#[trigger] links[k]).wallet@ != deployer && !excluded.contains(links[k].wallet@) by {
        assert(is_strongest(signals, n, deployer, excluded, links[k]));
    }
}

/// A link's strength lies in `(0, 1]`, and is at least one half unless the link
/// is mere co-behaviour.
pub open spec fn strength_in_range(l: Link) -> bool {
    &&& 0 < l.strength.num <= l.strength.den
    &&& l.link_type != LinkType::Cobehavior ==> !ratio_lt(l.strength, one_half())
}

/// Query rows as the database gives them: every flow count is at least 1, and
/// each co-participant took part in at least one and at most all of the
/// deployer's `total` tokens.
pub open spec fn rows_as_counted(
    funding: Seq<(String, i64)>,
    consolidation: Seq<(String, i64)>,
    co: Seq<CoParticipation>,
    total: u64,
) -> bool {
    &&& forall|i: int| 0 <= i < funding.len() ==> (#[trigger] funding[i]).1 >= 1
    &&& forall|i: int| 0 <= i < consolidation.len() ==> (#[trigger] consolidation[i]).1 >= 1
    &&& forall|i: int| 0 <= i < co.len() ==> 1 <= (#[trigger] co[i]).anchor_mints <= total
}

/// On rows as the database counts them, every member's strength lies in
/// `(0, 1]`, and is at least one half for a funding, consolidation or
/// exclusivity link.
pub proof fn lemma_member_strength_bounds(
    funding: Seq<(String, i64)>,
    consolidation: Seq<(String, i64)>,
    co: Seq<CoParticipation>,
    total: u64,
    deployer: Seq<char>,
    excluded: Set<Seq<char>>,
    links: Seq<Link>,
)
    requires
        rows_as_counted(funding, consolidation, co, total),
        strongest_per_wallet(
            all_signals(funding, consolidation, co, total),
            all_signals(funding, consolidation, co, total).len() as int,
            deployer,
            excluded,
            links,
        ),
    ensures
        forall|k: int| 0 <= k < links.len() ==> strength_in_range(#[trigger] links[k]),
{
    let signals = all_signals(funding, consolidation, co, total);
    let f = funding.map_values(|r: (String, i64)| funding_link(r));
    let c = consolidation.map_values(|r: (String, i64)| consolidation_link(r));
    let p = co.map_values(|x: CoParticipation| co_link(x, total));
    assert(signals == f + c + p);
    assert forall|i: int| 0 <= i < signals.len() implies strength_in_range(#[trigger] signals[i]) by {
        if i < f.len() {
            assert(signals[i] == f[i]);
            let n = funding[i].1 as int;
            assert(n >= 1);
            assert(n * 2 >= 1 * (n + 1));
        } else if i < f.len() + c.len() {
            assert(signals[i] == c[i - f.len()]);
            let n = consolidation[i - f.len()].1 as int;
            assert(n >= 1);
            assert(n * 2 >= 1 * (n + 1));
        } else {
            let j = i - f.len() - c.len();
            assert(signals[i] == p[j]);
            let x = co[j];
            assert(1 <= x.anchor_mints <= total);
        }
    }
    assert forall|k: int| 0 <= k < links.len() implies strength_in_range(#[trigger] links[k]) by {
        assert(is_strongest(signals, signals.len() as int, deployer, excluded, links[k]));
        let i = choose|i: int| 0 <= i < signals.len() && eligible(#[trigger] signals[i], deployer, excluded)
            && signals[i].wallet@ == links[k].wallet@ && signals[i].link_type == links[k].link_type
            && signals[i].strength == links[k].strength;
        assert(strength_in_range(signals[i]));
    }
}

/// More occurrences never give a weaker saturating strength.
pub proof fn lemma_saturating_monotone(a: i64, b: i64)
    requires
        a <= b,
    ensures
        !ratio_lt(saturating(b), saturating(a)),
{
    let x: int = if a < 0 { 0 } else { a as int };
    let y: int = if b < 0 { 0 } else { b as int };
    assert(y * (x + 1) >= x * (y + 1)) by (nonlinear_arith)
        requires 0 <= x <= y;
}

/// Some link of `links` is for wallet `w`.
pub open spec fn wallet_in(links: Seq<Link>, w: Seq<char>) -> bool {
    exists|j: int| 0 <= j < links.len() && (#[trigger] links[j]).wallet@ == w
}

/// Dropping the first of strictly sorted links keeps them sorted, and removes only
/// the least wallet.
proof fn lemma_sorted_tail(a: Seq<Link>)
    requires
        sorted_by_wallet(a),
        a.len() > 0,
    ensures
        sorted_by_wallet(a.drop_first()),
        forall|k: int| 0 <= k < a.drop_first().len() ==> text_less(a[0].wallet@, (#[trigger] a.drop_first()[k]).wallet@),
        forall|w: Seq<char>| #[trigger] wallet_in(a, w) ==> (w == a[0].wallet@ || wallet_in(a.drop_first(), w)),
{
    let t = a.drop_first();
    assert forall|i: int, j: int| 0 <= i < j < t.len() implies text_less(#[trigger] t[i].wallet@, #[trigger] t[j].wallet@) by {
        assert(text_less(a[i + 1].wallet@, a[j + 1].wallet@));
    }
    assert forall|k: int| 0 <= k < t.len() implies text_less(a[0].wallet@, (#[trigger] t[k]).wallet@) by {
        assert(text_less(a[0].wallet@, a[k + 1].wallet@));
    }
    assert forall|w: Seq<char>| #[trigger] wallet_in(a, w) implies (w == a[0].wallet@ || wallet_in(t, w)) by {
        let j = choose|j: int| 0 <= j < a.len() && (#[trigger] a[j]).wallet@ == w;
        if j > 0 {
            assert(t[j - 1].wallet@ == w);
        }
    }
}

/// Two strictly sorted link sequences with the same wallets have those wallets in
/// the same places.
#[verifier::rlimit(40)]
proof fn lemma_sorted_same_wallets(a: Seq<Link>, b: Seq<Link>)
    requires
        sorted_by_wallet(a),
        sorted_by_wallet(b),
        forall|k: int| 0 <= k < a.len() ==> wallet_in(b, (#[trigger] a[k]).wallet@),
        forall|k: int| 0 <= k < b.len() ==> wallet_in(a, (#[trigger] b[k]).wallet@),
    ensures
        a.len() == b.len(),
        forall|k: int| 0 <= k < a.len() ==> (#[trigger] a[k]).wallet@ == b[k].wallet@,
    decreases a.len(),
{
    if a.len() == 0 {
        if b.len() > 0 {
            assert(wallet_in(a, b[0].wallet@));
        }
    } else if b.len() == 0 {
        assert(wallet_in(b, a[0].wallet@));
    } else {
        let wa = a[0].wallet@;
        let wb = b[0].wallet@;
        lemma_sorted_tail(a);
        lemma_sorted_tail(b);
        let a1 = a.drop_first();
        let b1 = b.drop_first();
        // The first wallets are the least of the common set, hence equal.
        assert(wallet_in(b, wa));
        assert(wallet_in(a, wb));
        if wa != wb {
            assert(wallet_in(b1, wa));
            assert(wallet_in(a1, wb));
            let j = choose|j: int| 0 <= j < b1.len() && (#[trigger] b1[j]).wallet@ == wa;
            let i = choose|i: int| 0 <= i < a1.len() && (#[trigger] a1[i]).wallet@ == wb;
            assert(text_less(wb, b1[j].wallet@));
            assert(text_less(wa, a1[i].wallet@));
            lemma_text_less_total(wa, wb);
            assert(false);
        }
        assert forall|k: int| 0 <= k < a1.len() implies wallet_in(b1, (#[trigger] a1[k]).wallet@) by {
            assert(a1[k] == a[k + 1]);
            assert(wallet_in(b, a[k + 1].wallet@));
            assert(text_less(wa, a1[k].wallet@));
            lemma_text_less_total(wa, wa);
        }
        assert forall|k: int| 0 <= k < b1.len() implies wallet_in(a1, (#[trigger] b1[k]).wallet@) by {
            assert(b1[k] == b[k + 1]);
            assert(wallet_in(a, b[k + 1].wallet@));
            assert(text_less(wb, b1[k].wallet@));
            lemma_text_less_total(wb, wb);
        }
        lemma_sorted_same_wallets(a1, b1);
        assert forall|k: int| 0 <= k < a.len() implies (#[trigger] a[k]).wallet@ == b[k].wallet@ by {
            if k > 0 {
                assert(a1[k - 1] == a[k]);
                assert(b1[k - 1] == b[k]);
            }
        }
    }
}

/// The membership is determined by the signals: any two link sequences chosen as
/// [`strongest_per_wallet`] from the same signals list the same wallets in the
/// same order, with the same link types and equal strengths.
pub proof fn lemma_strongest_per_wallet_unique(
    signals: Seq<Link>,
    n: int,
    deployer: Seq<char>,
    excluded: Set<Seq<char>>,
    a: Seq<Link>,
    b: Seq<Link>,
)
    requires
        0 <= n <= signals.len(),
        forall|k: int| 0 <= k < signals.len() ==> (#[trigger] signals[k]).strength.wf(),
        strongest_per_wallet(signals, n, deployer, excluded, a),
        strongest_per_wallet(signals, n, deployer, excluded, b),
    ensures
        a.len() == b.len(),
        forall|k: int| 0 <= k < a.len() ==> {
            &&& (#[trigger] a[k]).wallet@ == b[k].wallet@
            &&& a[k].link_type == b[k].link_type
            &&& ratio_eq(a[k].strength, b[k].strength)
        },
{
    assert forall|k: int| 0 <= k < a.len() implies wallet_in(b, (#[trigger] a[k]).wallet@) by {
        assert(is_strongest(signals, n, deployer, excluded, a[k]));
        let i = choose|i: int| 0 <= i < n && eligible(#[trigger] signals[i], deployer, excluded) && signals[i].wallet@ == a[k].wallet@
            && signals[i].link_type == a[k].link_type && signals[i].strength == a[k].strength;
        assert(has_signal(signals, n, deployer, excluded, a[k].wallet@));
    }
    assert forall|k: int| 0 <= k < b.len() implies wallet_in(a, (#[trigger] b[k]).wallet@) by {
        assert(is_strongest(signals, n, deployer, excluded, b[k]));
        let i = choose|i: int| 0 <= i < n && eligible(#[trigger] signals[i], deployer, excluded) && signals[i].wallet@ == b[k].wallet@
            && signals[i].link_type == b[k].link_type && signals[i].strength == b[k].strength;
        assert(has_signal(signals, n, deployer, excluded, b[k].wallet@));
    }
    lemma_sorted_same_wallets(a, b);
    assert forall|k: int| 0 <= k < a.len() implies {
        &&& (#[trigger] a[k]).wallet@ == b[k].wallet@
        &&& a[k].link_type == b[k].link_type
        &&& ratio_eq(a[k].strength, b[k].strength)
    } by {
        assert(is_strongest(signals, n, deployer, excluded, a[k]));
        assert(is_strongest(signals, n, deployer, excluded, b[k]));
        let i = choose|i: int| 0 <= i < n && eligible(#[trigger] signals[i], deployer, excluded) && signals[i].wallet@ == a[k].wallet@
            && signals[i].link_type == a[k].link_type && signals[i].strength == a[k].strength;
        let j = choose|j: int| 0 <= j < n && eligible(#[trigger] signals[j], deployer, excluded) && signals[j].wallet@ == b[k].wallet@
            && signals[j].link_type == b[k].link_type && signals[j].strength == b[k].strength;
        assert(!beats(signals[j], a[k]));
        assert(!beats(signals[i], b[k]));
        lemma_ratio_eq_lt(a[k].strength, b[k].strength, b[k].strength);
    }
}

/// The wallets of sorted links are distinct.
proof fn lemma_sorted_distinct(links: Seq<Link>, a: int, b: int)
    requires
        sorted_by_wallet(links),
        0 <= a < links.len(),
        0 <= b < links.len(),
        a != b,
    ensures
        links[a].wallet@ != links[b].wallet@,
{
    lemma_text_less_total(links[a].wallet@, links[b].wallet@);
}

/// An ineligible signal changes nothing.
proof fn lemma_step_ineligible(signals: Seq<Link>, n: int, deployer: Seq<char>, excluded: Set<Seq<char>>, links: Seq<Link>)
    requires
        0 <= n < signals.len(),
        !eligible(signals[n], deployer, excluded),
        strongest_per_wallet(signals, n, deployer, excluded, links),
    ensures
        strongest_per_wallet(signals, n + 1, deployer, excluded, links),
{
    assert forall|k: int| 0 <= k < links.len() implies is_strongest(signals, n + 1, deployer, excluded, #[trigger] links[k]) by {
        assert(is_strongest(signals, n, deployer, excluded, links[k]));
    }
    assert forall|w: Seq<char>| #[trigger] has_signal(signals, n + 1, deployer, excluded, w) implies exists|k: int| 0 <= k < links.len() && (#[trigger] links[k]).wallet@ == w by {
        let idx = choose|idx: int| 0 <= idx < n + 1 && eligible(#[trigger] signals[idx], deployer, excluded) && signals[idx].wallet@ == w;
        assert(has_signal(signals, n, deployer, excluded, w));
    }
}

/// A signal that does not beat the link already kept for its wallet changes nothing.
proof fn lemma_step_keep(signals: Seq<Link>, n: int, deployer: Seq<char>, excluded: Set<Seq<char>>, links: Seq<Link>, j: int)
    requires
        0 <= n < signals.len(),
        eligible(signals[n], deployer, excluded),
        0 <= j < links.len(),
        links[j].wallet@ == signals[n].wallet@,
        !beats(signals[n], links[j]),
        strongest_per_wallet(signals, n, deployer, excluded, links),
    ensures
        strongest_per_wallet(signals, n + 1, deployer, excluded, links),
{
    assert forall|k: int| 0 <= k < links.len() implies is_strongest(signals, n + 1, deployer, excluded, #[trigger] links[k]) by {
        assert(is_strongest(signals, n, deployer, excluded, links[k]));
        if k != j {
            lemma_sorted_distinct(links, k, j);
        }
    }
    assert forall|w: Seq<char>| #[trigger] has_signal(signals, n + 1, deployer, excluded, w) implies exists|k: int| 0 <= k < links.len() && (#[trigger] links[k]).wallet@ == w by {
        let idx = choose|idx: int| 0 <= idx < n + 1 && eligible(#[trigger] signals[idx], deployer, excluded) && signals[idx].wallet@ == w;
        if idx < n {
            assert(has_signal(signals, n, deployer, excluded, w));
        } else {
            assert(links[j].wallet@ == w);
        }
    }
}

/// A signal that beats the link kept for its wallet replaces it.
proof fn lemma_step_replace(signals: Seq<Link>, n: int, deployer: Seq<char>, excluded: Set<Seq<char>>, links: Seq<Link>, j: int)
    requires
        0 <= n < signals.len(),
        forall|k: int| 0 <= k < signals.len() ==> (#[trigger] signals[k]).strength.wf(),
        forall|k: int| 0 <= k < links.len() ==> (#[trigger] links[k]).strength.wf(),
        eligible(signals[n], deployer, excluded),
        0 <= j < links.len(),
        links[j].wallet@ == signals[n].wallet@,
        beats(signals[n], links[j]),
        strongest_per_wallet(signals, n, deployer, excluded, links),
    ensures
        strongest_per_wallet(signals, n + 1, deployer, excluded, links.update(j, signals[n])),
{
    let s = signals[n];
    let old_link = links[j];
    let new_links = links.update(j, s);
    assert forall|a: int, b: int| 0 <= a < b < new_links.len() implies text_less(#[trigger] new_links[a].wallet@, #[trigger] new_links[b].wallet@) by {
        assert(text_less(links[a].wallet@, links[b].wallet@));
    }
    assert forall|k: int| 0 <= k < new_links.len() implies is_strongest(signals, n + 1, deployer, excluded, #[trigger] new_links[k]) by {
        if k != j {
            assert(is_strongest(signals, n, deployer, excluded, links[k]));
            lemma_sorted_distinct(links, k, j);
        } else {
            assert(is_strongest(signals, n, deployer, excluded, old_link));
            assert forall|t: int| 0 <= t < n + 1 && eligible(#[trigger] signals[t], deployer, excluded) && signals[t].wallet@ == s.wallet@ implies !beats(signals[t], s) by {
                lemma_beats_order(signals[t], s, old_link);
                lemma_beats_order(s, s, s);
            }
        }
    }
    assert forall|w: Seq<char>| #[trigger] has_signal(signals, n + 1, deployer, excluded, w) implies exists|k: int| 0 <= k < new_links.len() && (#[trigger] new_links[k]).wallet@ == w by {
        let idx = choose|idx: int| 0 <= idx < n + 1 && eligible(#[trigger] signals[idx], deployer, excluded) && signals[idx].wallet@ == w;
        if idx < n {
            assert(has_signal(signals, n, deployer, excluded, w));
            let k = choose|k: int| 0 <= k < links.len() && (#[trigger] links[k]).wallet@ == w;
            assert(new_links[k].wallet@ == w);
        } else {
            assert(new_links[j].wallet@ == w);
        }
    }
}

/// A signal for a wallet without a link yet is inserted at its place in the order.
proof fn lemma_step_insert(signals: Seq<Link>, n: int, deployer: Seq<char>, excluded: Set<Seq<char>>, links: Seq<Link>, j: int)
    requires
        0 <= n < signals.len(),
        eligible(signals[n], deployer, excluded),
        0 <= j <= links.len(),
        forall|k: int| 0 <= k < j ==> text_less(#[trigger] links[k].wallet@, signals[n].wallet@),
        j < links.len() ==> text_less(signals[n].wallet@, links[j].wallet@),
        strongest_per_wallet(signals, n, deployer, excluded, links),
    ensures
        strongest_per_wallet(signals, n + 1, deployer, excluded, links.insert(j, signals[n])),
{
    let s = signals[n];
    let w = s.wallet@;
    let new_links = links.insert(j, s);
    assert forall|k: int| j <= k < links.len() implies text_less(w, #[trigger] links[k].wallet@) by {
        if k > j {
            lemma_text_less_transitive(w, links[j].wallet@, links[k].wallet@);
        }
    }
    assert forall|k: int| 0 <= k < links.len() implies (#[trigger] links[k]).wallet@ != w by {
        lemma_text_less_total(w, links[k].wallet@);
    }
    assert forall|a: int, b: int| 0 <= a < b < new_links.len() implies text_less(#[trigger] new_links[a].wallet@, #[trigger] new_links[b].wallet@) by {
        if a < j && b < j {
            assert(text_less(links[a].wallet@, links[b].wallet@));
        } else if a < j && b == j {
        } else if a < j && b > j {
            lemma_text_less_transitive(links[a].wallet@, w, links[b - 1].wallet@);
        } else if a == j {
        } else {
            assert(text_less(links[a - 1].wallet@, links[b - 1].wallet@));
        }
    }
    assert forall|k: int| 0 <= k < new_links.len() implies is_strongest(signals, n + 1, deployer, excluded, #[trigger] new_links[k]) by {
        if k == j {
            assert forall|t: int| 0 <= t < n + 1 && eligible(#[trigger] signals[t], deployer, excluded) && signals[t].wallet@ == w implies !beats(signals[t], s) by {
                if t < n {
                    assert(has_signal(signals, n, deployer, excluded, w));
                    let q = choose|q: int| 0 <= q < links.len() && (#[trigger] links[q]).wallet@ == w;
                    assert(links[q].wallet@ != w);
                }
            }
        } else {
            let old_k = if k < j { k } else { k - 1 };
            assert(new_links[k] == links[old_k]);
            assert(is_strongest(signals, n, deployer, excluded, links[old_k]));
        }
    }
    assert forall|v: Seq<char>| #[trigger] has_signal(signals, n + 1, deployer, excluded, v) implies exists|k: int| 0 <= k < new_links.len() && (#[trigger] new_links[k]).wallet@ == v by {
        let idx = choose|idx: int| 0 <= idx < n + 1 && eligible(#[trigger] signals[idx], deployer, excluded) && signals[idx].wallet@ == v;
        if idx < n {
            assert(has_signal(signals, n, deployer, excluded, v));
            let k = choose|k: int| 0 <= k < links.len() && (#[trigger] links[k]).wallet@ == v;
            if k < j {
                assert(new_links[k].wallet@ == v);
            } else {
                assert(new_links[k + 1].wallet@ == v);
            }
        } else {
            assert(new_links[j].wallet@ == v);
        }
    }
}

/// Whether signal `a` beats signal `b`.
fn does_beat(a: &Link, b: &Link) -> (r: bool)
    ensures
        r == beats(*a, *b),
{
    is_ratio_less(&b.strength, &a.strength) || (is_ratio_equal(&a.strength, &b.strength) && a.link_type.rank() > b.link_type.rank())
}

/// Keeps, for each wallet with an eligible signal, its strongest signal, and
/// returns these links in increasing order of wallet.
///
/// The links are kept in a vector sorted by wallet all along: each signal finds
/// its wallet's place by a scan, so the result needs no sort at the end, and its
/// order, unlike a hash map's walk, is fixed by the contract.
pub fn strongest_links(deployer: &str, excluded: &StringHashSet, signals: &Vec<Link>) -> (links: Vec<Link>)
    requires
        forall|k: int| 0 <= k < signals@.len() ==> (#[trigger] signals@[k]).strength.wf(),
    ensures
        strongest_per_wallet(signals@, signals@.len() as int, deployer@, excluded@, links@),
        forall|k: int| 0 <= k < links@.len() ==> (#[trigger] links@[k]).strength.wf(),
{
    let mut best: Vec<Link> = Vec::new();
    let mut i: usize = 0;
    while i < signals.len()
        invariant
            i <= signals@.len(),
            forall|k: int| 0 <= k < signals@.len() ==> (#[trigger] signals@[k]).strength.wf(),
            forall|k: int| 0 <= k < best@.len() ==> (#[trigger] best@[k]).strength.wf(),
            strongest_per_wallet(signals@, i as int, deployer@, excluded@, best@),
        decreases signals@.len() - i,
    {
        let s = &signals[i];
        if !texts_equal(s.wallet.as_str(), deployer) && !excluded.contains(s.wallet.as_str()) {
            let mut j: usize = 0;
            while j < best.len() && is_text_less(best[j].wallet.as_str(), s.wallet.as_str())
                invariant
                    j <= best@.len(),
                    forall|k: int| 0 <= k < j ==> text_less(#[trigger] best@[k].wallet@, s.wallet@),
                decreases best@.len() - j,
            {
                j = j + 1;
            }
            if j < best.len() && texts_equal(best[j].wallet.as_str(), s.wallet.as_str()) {
                if does_beat(s, &best[j]) {
                    proof {
                        lemma_step_replace(signals@, i as int, deployer@, excluded@, best@, j as int);
                    }
                    best.set(j, copy_link(s));
                } else {
                    proof {
                        lemma_step_keep(signals@, i as int, deployer@, excluded@, best@, j as int);
                    }
                }
            } else {
                proof {
                    if j < best@.len() {
                        lemma_text_less_total(best@[j as int].wallet@, s.wallet@);
                    }
                    lemma_step_insert(signals@, i as int, deployer@, excluded@, best@, j as int);
                }
                best.insert(j, copy_link(s));
            }
        } else {
            proof {
                lemma_step_ineligible(signals@, i as int, deployer@, excluded@, best@);
            }
        }
        i = i + 1;
    }
    best
}

} // verus!
