//! End-to-end figures of an analysis tick, read back from the database.

use rusqlite::Connection;
use solana_memecoin_db::analyze::{self, detect_passthrough, enqueue_new_deployers};
use solana_memecoin_db::db;
use solana_memecoin_db::ingest::IngestError;
use solana_memecoin_db::sql::{query_one_int, query_texts, DbError};
use solana_memecoin_db::ingest::{self, EventBatch, LaunchParticipant, TokenLaunch, TokenOutcome, WalletFlow};

fn open() -> (tempfile::TempDir, Connection) {
    let dir = tempfile::tempdir().unwrap();
    let conn = db::init(dir.path().join("pipeline.db").to_str().unwrap()).unwrap();
    (dir, conn)
}

fn launch(mint: &str, deployer: &str, slot: i64) -> TokenLaunch {
    TokenLaunch {
        mint: mint.into(),
        deployer: deployer.into(),
        program: "pump".into(),
        slot,
        seen_unix_ms: 0,
        launch_sig: format!("sig-{mint}"),
    }
}

fn flow(sig: &str, src: &str, dst: &str, slot: i64) -> WalletFlow {
    WalletFlow { sig: sig.into(), slot, src: src.into(), dst: dst.into(), mint: None, amount: 1, kind: "sol".into() }
}

fn part(mint: &str, wallet: &str, slot: i64) -> LaunchParticipant {
    LaunchParticipant { mint: mint.into(), wallet: wallet.into(), slot, amount: None, is_signer: false }
}

fn scenario(conn: &Connection) {
    let batch = EventBatch {
        launches: vec![launch("M1", "D", 10), launch("M2", "D", 20), launch("M3", "D", 30), launch("MX", "E", 40)],
        flows: vec![flow("f1", "D", "W1", 11), flow("f2", "D", "W2", 12), flow("f3", "W2", "D", 13)],
        participants: vec![part("M1", "W1", 10), part("M2", "W1", 20), part("M1", "W2", 10), part("MX", "W2", 40)],
    };
    let counts = ingest::ingest_batch(conn, &batch).unwrap();
    assert_eq!((counts.launches, counts.flows, counts.participants), (4, 3, 4));
    for (mint, label, slot) in [("M1", "lp_pulled", 15), ("M2", "dev_dumped", 25)] {
        let o = TokenOutcome {
            mint: mint.into(),
            label: label.into(),
            label_class: "terminal".into(),
            observed_slot: slot,
            is_final: true,
        };
        assert!(ingest::record_outcome(conn, &o).unwrap());
    }
}

fn stored_real(conn: &Connection, sql: &str) -> f64 {
    conn.query_row(sql, [], |r| r.get(0)).unwrap()
}

#[test]
fn tick_report_counts_clusters_members_and_predictions() {
    let (_d, conn) = open();
    scenario(&conn);
    let report = analyze::run_once(&conn).unwrap();
    assert_eq!(report.passthrough_detected, 0);
    assert_eq!(report.deployers_enqueued, 2);
    assert_eq!(report.deployers_analyzed, 2);
    assert_eq!(report.clusters_built, report.deployers_analyzed);
    // D: W1 and W2. E: W2, which took part in MX and in a token of D.
    assert_eq!(report.members_linked, 3);
    assert_eq!(report.predictions_emitted, 4);
}

#[test]
fn stored_reals_are_the_exact_fractions() {
    let (_d, conn) = open();
    scenario(&conn);
    analyze::run_once(&conn).unwrap();
    let w1 = stored_real(&conn, "SELECT link_strength FROM cluster_member m JOIN cluster c ON c.id = m.cluster_id WHERE c.anchor_wallet = 'D' AND m.wallet = 'W1'");
    assert_eq!(w1, 2.0_f64 / 3.0);
    let w2 = stored_real(&conn, "SELECT link_strength FROM cluster_member m JOIN cluster c ON c.id = m.cluster_id WHERE c.anchor_wallet = 'D' AND m.wallet = 'W2'");
    assert_eq!(w2, 0.5);
    let e_w2: String = conn
        .query_row(
            "SELECT link_type FROM cluster_member m JOIN cluster c ON c.id = m.cluster_id WHERE c.anchor_wallet = 'E' AND m.wallet = 'W2'",
            [],
            |r| r.get(0),
        )
        .unwrap();
    assert_eq!(e_w2, "cobehavior");
    let (alpha, beta, risk, confidence): (f64, f64, f64, f64) = conn
        .query_row(
            "SELECT beta_alpha, beta_beta, risk, confidence FROM cluster_profile p JOIN cluster c ON c.id = p.cluster_id WHERE c.anchor_wallet = 'D'",
            [],
            |r| Ok((r.get(0)?, r.get(1)?, r.get(2)?, r.get(3)?)),
        )
        .unwrap();
    assert_eq!((alpha, beta), (3.0, 2.0));
    assert_eq!(risk, 3.0_f64 / (3.0 + 2.0));
    assert_eq!(confidence, 3.0_f64 / (3.0 + 5.0));
    let predicted: f64 = stored_real(&conn, "SELECT MIN(risk) FROM score_prediction p JOIN cluster c ON c.id = p.cluster_id WHERE c.anchor_wallet = 'D'");
    assert_eq!(predicted, risk);
}

#[test]
fn hub_heterogeneity_is_the_in_out_balance() {
    let (_d, conn) = open();
    ingest::record_flow(&conn, &flow("p-h", "P", "H", 11)).unwrap();
    for i in 0..6 {
        ingest::record_flow(&conn, &flow(&format!("s{i}"), &format!("S{i}"), "H", 20 + i)).unwrap();
        ingest::record_flow(&conn, &flow(&format!("r{i}"), "H", &format!("R{i}"), 30 + i)).unwrap();
    }
    assert_eq!(detect_passthrough(&conn).unwrap(), 1);
    let (degree, slot): (i64, i64) = conn
        .query_row("SELECT degree, decided_slot FROM passthrough_node WHERE address = 'H'", [], |r| Ok((r.get(0)?, r.get(1)?)))
        .unwrap();
    assert_eq!((degree, slot), (13, 35));
    let h = stored_real(&conn, "SELECT heterogeneity FROM passthrough_node WHERE address = 'H'");
    assert_eq!(h, 2.0 * (6_f64) / (13_f64));
    // A second detection purges and re-inserts the same hub.
    assert_eq!(detect_passthrough(&conn).unwrap(), 1);
}

#[test]
fn enqueue_keeps_known_deployers() {
    let (_d, conn) = open();
    scenario(&conn);
    assert_eq!(enqueue_new_deployers(&conn).unwrap(), 2);
    assert_eq!(enqueue_new_deployers(&conn).unwrap(), 0);
    ingest::record_launch(&conn, &launch("MY", "F", 50)).unwrap();
    assert_eq!(enqueue_new_deployers(&conn).unwrap(), 1);
}

#[test]
fn reset_then_rerun_rebuilds_every_cluster() {
    let (_d, conn) = open();
    scenario(&conn);
    analyze::run_once(&conn).unwrap();
    db::reset_recomputable(&conn).unwrap();
    db::reset_recomputable(&conn).unwrap();
    let report = analyze::run_once(&conn).unwrap();
    assert_eq!(report.clusters_built, 2);
    assert_eq!(report.members_linked, 3);
}

#[test]
fn database_errors_are_reported() {
    // Opening fails in a missing directory.
    assert!(matches!(db::init("/nonexistent-dir/sub/x.db"), Err(DbError::Sqlite(_))));
    let (_d, conn) = open();
    // A query that must yield a row and yields none.
    assert!(matches!(query_one_int(&conn, "SELECT 1 WHERE 0", &Vec::new()), Err(DbError::NoRow)));
    assert_eq!(query_one_int(&conn, "SELECT 41 + 1", &Vec::new()).unwrap(), 42);
    // Invalid SQL.
    assert!(matches!(query_texts(&conn, "SELECT FROM nowhere", &Vec::new()), Err(DbError::Sqlite(_))));
    // An insert into a missing table.
    conn.execute_batch("DROP TABLE raw_token_launch;").unwrap();
    assert!(matches!(ingest::record_launch(&conn, &launch("M", "D", 1)), Err(IngestError::Sqlite(_))));
    // A batch fails as a whole.
    let batch = EventBatch {
        launches: vec![],
        flows: vec![flow("a", "X", "Y", 1)],
        participants: vec![part("M", "W", 1), part("M", "W", 1)],
    };
    conn.execute_batch("DROP TABLE raw_launch_participant;").unwrap();
    assert!(ingest::ingest_batch(&conn, &batch).is_err());
    let flows: i64 = conn.query_row("SELECT COUNT(*) FROM raw_wallet_flow", [], |r| r.get(0)).unwrap();
    assert_eq!(flows, 0, "rolled back");
}
