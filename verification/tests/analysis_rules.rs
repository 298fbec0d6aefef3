//! The analyser's decisions on plain values: risk profile, link strengths,
//! strongest link per wallet, passthrough hubs, statement parameters.

use solana_memecoin_db::analyze::hubs::{passthrough_hubs, HubStats};
use solana_memecoin_db::analyze::links::{
    link_signals, saturating_strength, strongest_links, CoParticipation, Link, LinkType,
};
use solana_memecoin_db::analyze::ratio::{is_ratio_equal, is_ratio_less, Ratio};
use solana_memecoin_db::analyze::risk::beta_profile;
use solana_memecoin_db::analyze::{hub_params, member_params, AnalysisReport, DeployerResult};
use solana_memecoin_db::sql::SqlValue;
use vstd::hash_set::StringHashSet;

fn r(num: u64, den: u64) -> Ratio {
    Ratio { num, den }
}

#[test]
fn profile_of_three_tokens_two_rugs_is_rugger() {
    let p = beta_profile(3, 2);
    assert_eq!((p.token_count, p.rug_count, p.beta_alpha, p.beta_beta), (3, 2, 3, 2));
    assert_eq!(p.risk, r(3, 5));
    assert_eq!(p.confidence, r(3, 8));
    assert!(p.is_rugger);
    assert!(((p.risk.num as f64) / (p.risk.den as f64) - 0.6).abs() < 1e-12);
}

#[test]
fn profile_needs_three_samples_and_half_rugged() {
    // One clean token: Beta(1, 2).
    let p = beta_profile(1, 0);
    assert_eq!((p.beta_alpha, p.beta_beta), (1, 2));
    assert_eq!(p.risk, r(1, 3));
    assert!(!p.is_rugger);
    // All rugged but too few samples.
    assert!(!beta_profile(2, 2).is_rugger);
    // Exactly half rugged: risk = 1/2, at the threshold.
    let q = beta_profile(4, 2);
    assert_eq!(q.risk, r(3, 6));
    assert!(q.is_rugger);
    // Less than half.
    assert!(!beta_profile(5, 2).is_rugger);
    // No token at all.
    let z = beta_profile(0, 0);
    assert_eq!(z.risk, r(1, 2));
    assert_eq!(z.confidence, r(0, 5));
    assert!(!z.is_rugger);
}

#[test]
fn rugs_never_exceed_tokens() {
    let p = beta_profile(2, 7);
    assert_eq!(p.rug_count, 2);
    assert_eq!((p.beta_alpha, p.beta_beta), (3, 1));
}

#[test]
fn saturating_strength_values() {
    assert_eq!(saturating_strength(-4), r(0, 1));
    assert_eq!(saturating_strength(0), r(0, 1));
    assert_eq!(saturating_strength(1), r(1, 2));
    assert_eq!(saturating_strength(2), r(2, 3));
    assert_eq!(saturating_strength(3), r(3, 4));
}

#[test]
fn ratio_comparisons_are_exact() {
    assert!(is_ratio_equal(&r(1, 2), &r(2, 4)));
    assert!(is_ratio_less(&r(1, 3), &r(1, 2)));
    assert!(!is_ratio_less(&r(2, 4), &r(1, 2)));
    assert!(is_ratio_less(&r(u64::MAX - 1, u64::MAX), &r(u64::MAX, u64::MAX)));
}

fn pair(w: &str, n: i64) -> (String, i64) {
    (w.to_string(), n)
}

fn co(w: &str, anchor: u64, outside: i64) -> CoParticipation {
    CoParticipation { wallet: w.to_string(), anchor_mints: anchor, outside_mints: outside }
}

#[test]
fn signals_follow_the_query_rows() {
    let s = link_signals(
        &vec![pair("W1", 1), pair("W2", 2)],
        &vec![pair("W2", 1)],
        &vec![co("W1", 2, 0), co("W3", 1, 4)],
        3,
    );
    assert_eq!(s.len(), 5);
    assert_eq!(s[0], Link { wallet: "W1".into(), link_type: LinkType::Funding, strength: r(1, 2) });
    assert_eq!(s[1], Link { wallet: "W2".into(), link_type: LinkType::Funding, strength: r(2, 3) });
    assert_eq!(s[2], Link { wallet: "W2".into(), link_type: LinkType::Consolidation, strength: r(1, 2) });
    // Exclusive: share 2/3 above one half.
    assert_eq!(s[3], Link { wallet: "W1".into(), link_type: LinkType::Exclusivity, strength: r(2, 3) });
    // Co-behaviour: share 1/3.
    assert_eq!(s[4], Link { wallet: "W3".into(), link_type: LinkType::Cobehavior, strength: r(1, 3) });
    // An exclusive participant below one half is raised to one half.
    let t = link_signals(&vec![], &vec![], &vec![co("W4", 1, 0)], 3);
    assert_eq!(t[0].strength, r(1, 2));
}

#[test]
fn strongest_signal_wins_and_priority_breaks_ties() {
    // The scenario of the analyser's integration test, deployer D with 3 tokens:
    // W1 funded once (1/2) and exclusive on 2 tokens (2/3): exclusivity.
    // W2 funded once (1/2), consolidating once (1/2): consolidation by priority;
    // it also co-behaves on 1 token (1/3), weaker.
    let signals = link_signals(
        &vec![pair("W1", 1), pair("W2", 1)],
        &vec![pair("W2", 1)],
        &vec![co("W1", 2, 0), co("W2", 1, 1)],
        3,
    );
    let links = strongest_links("D", &StringHashSet::new(), &signals);
    assert_eq!(links.len(), 2);
    assert_eq!(links[0].wallet, "W1");
    assert_eq!(links[0].link_type, LinkType::Exclusivity);
    assert_eq!(links[0].strength, r(2, 3));
    assert_eq!(links[1].wallet, "W2");
    assert_eq!(links[1].link_type, LinkType::Consolidation);
    assert_eq!(links[1].strength, r(1, 2));
}

#[test]
fn equal_strength_in_another_form_is_a_tie() {
    // 2/4 == 1/2: exclusivity (priority 3) beats funding (priority 1).
    let signals = vec![
        Link { wallet: "W".into(), link_type: LinkType::Funding, strength: r(1, 2) },
        Link { wallet: "W".into(), link_type: LinkType::Exclusivity, strength: r(2, 4) },
        Link { wallet: "W".into(), link_type: LinkType::Cobehavior, strength: r(1, 2) },
    ];
    let links = strongest_links("D", &StringHashSet::new(), &signals);
    assert_eq!(links.len(), 1);
    assert_eq!(links[0].link_type, LinkType::Exclusivity);
}

#[test]
fn deployer_and_passthrough_are_never_members_and_members_are_sorted() {
    let mut excluded = StringHashSet::new();
    excluded.insert("H".to_string());
    let signals = link_signals(
        &vec![pair("H", 5), pair("Z", 1), pair("D", 3), pair("A", 2)],
        &vec![pair("M", 1)],
        &vec![],
        0,
    );
    let links = strongest_links("D", &excluded, &signals);
    let wallets: Vec<&str> = links.iter().map(|l| l.wallet.as_str()).collect();
    assert_eq!(wallets, vec!["A", "M", "Z"]);
    assert_eq!(links[0].strength, r(2, 3));
}

#[test]
fn link_type_names_and_ranks() {
    assert_eq!(LinkType::Funding.name(), "funding");
    assert_eq!(LinkType::Consolidation.name(), "consolidation");
    assert_eq!(LinkType::Cobehavior.name(), "cobehavior");
    assert_eq!(LinkType::Exclusivity.name(), "exclusivity");
    assert!(LinkType::Exclusivity.rank() > LinkType::Consolidation.rank());
    assert!(LinkType::Consolidation.rank() > LinkType::Funding.rank());
    assert!(LinkType::Funding.rank() > LinkType::Cobehavior.rank());
}

fn flow(src: &str, dst: &str, slot: i64) -> (String, String, i64) {
    (src.to_string(), dst.to_string(), slot)
}

#[test]
fn hub_needs_six_distinct_senders_and_six_distinct_receivers() {
    let mut rows = vec![flow("P", "H", 11)];
    for i in 0..6 {
        rows.push(flow(&format!("S{i}"), "H", 20 + i));
        rows.push(flow("H", &format!("R{i}"), 30 + i));
    }
    // Repeated and self flows change nothing.
    rows.push(flow("S0", "H", 5));
    rows.push(flow("H", "H", 99));
    let hubs = passthrough_hubs(&rows);
    assert_eq!(
        hubs,
        vec![HubStats { address: "H".into(), fan_in: 7, fan_out: 6, degree: 13, max_slot: 35 }]
    );
}

#[test]
fn consolidation_wallet_is_not_a_hub() {
    let mut rows = Vec::new();
    for i in 0..10 {
        rows.push(flow(&format!("S{i}"), "C", i));
    }
    for i in 0..5 {
        rows.push(flow("C", &format!("R{i}"), i));
    }
    assert!(passthrough_hubs(&rows).is_empty());
}

#[test]
fn hub_degree_counts_each_counterpart_once() {
    // Six counterparts that both send to and receive from H.
    let mut rows = Vec::new();
    for i in 0..6 {
        rows.push(flow(&format!("X{i}"), "H", 1));
        rows.push(flow("H", &format!("X{i}"), 2));
    }
    let hubs = passthrough_hubs(&rows);
    assert_eq!(hubs.len(), 1);
    assert_eq!((hubs[0].fan_in, hubs[0].fan_out, hubs[0].degree, hubs[0].max_slot), (6, 6, 6, 2));
}

#[test]
fn hub_slot_is_zero_at_least() {
    let mut rows = Vec::new();
    for i in 0..6 {
        rows.push(flow(&format!("S{i}"), "H", -5));
        rows.push(flow("H", &format!("R{i}"), -7));
    }
    assert_eq!(passthrough_hubs(&rows)[0].max_slot, 0);
}

#[test]
fn hub_parameters() {
    let h = HubStats { address: "H".into(), fan_in: 7, fan_out: 6, degree: 13, max_slot: 35 };
    assert_eq!(
        hub_params(&h),
        vec![
            SqlValue::Text("H".into()),
            SqlValue::Text("auto-detected hub".into()),
            SqlValue::Integer(13),
            SqlValue::Integer(6),
            SqlValue::Integer(13),
            SqlValue::Integer(35),
        ]
    );
}

#[test]
fn member_parameters() {
    let m = Link { wallet: "W1".into(), link_type: LinkType::Exclusivity, strength: r(2, 3) };
    assert_eq!(
        member_params(7, &m),
        vec![
            SqlValue::Integer(7),
            SqlValue::Text("W1".into()),
            SqlValue::Text("exclusivity".into()),
            SqlValue::Integer(2),
            SqlValue::Integer(3),
        ]
    );
}

#[test]
fn report_counts_one_cluster_per_analyzed_deployer() {
    let mut report = AnalysisReport::default();
    report.count_analyzed(&DeployerResult { cluster_id: 1, members: 2, predictions: 3 });
    report.count_analyzed(&DeployerResult { cluster_id: 2, members: 0, predictions: 1 });
    assert_eq!(report.deployers_analyzed, 2);
    assert_eq!(report.clusters_built, 2);
    assert_eq!(report.members_linked, 2);
    assert_eq!(report.predictions_emitted, 4);
    let mut full = AnalysisReport { members_linked: usize::MAX, ..AnalysisReport::default() };
    full.count_analyzed(&DeployerResult { cluster_id: 3, members: 5, predictions: 0 });
    assert_eq!(full.members_linked, usize::MAX);
}

#[test]
fn membership_does_not_depend_on_the_order_of_signals() {
    let mut signals = link_signals(
        &vec![pair("W1", 1), pair("W2", 1), pair("W3", 4)],
        &vec![pair("W2", 1), pair("W3", 1)],
        &vec![co("W1", 2, 0), co("W2", 1, 1), co("W4", 3, 0)],
        3,
    );
    let forward = strongest_links("D", &StringHashSet::new(), &signals);
    signals.reverse();
    let backward = strongest_links("D", &StringHashSet::new(), &signals);
    assert_eq!(forward, backward);
    let kinds: Vec<LinkType> = forward.iter().map(|l| l.link_type).collect();
    assert_eq!(
        kinds,
        vec![LinkType::Exclusivity, LinkType::Consolidation, LinkType::Funding, LinkType::Exclusivity]
    );
}

#[test]
fn risk_moves_with_rugs_and_clean_tokens() {
    // More rugs among 4 tokens: risk never falls.
    let risks: Vec<Ratio> = (0..=4).map(|k| beta_profile(4, k).risk).collect();
    for w in risks.windows(2) {
        assert!(!is_ratio_less(&w[1], &w[0]));
    }
    // One more clean token lowers the risk.
    assert!(is_ratio_less(&beta_profile(4, 2).risk, &beta_profile(3, 2).risk));
    // Confidence grows with the tokens.
    assert!(is_ratio_less(&beta_profile(3, 0).confidence, &beta_profile(4, 0).confidence));
}
