//! Parameters bound to the ingestor's statements, error messages and the clock.

use solana_memecoin_db::ingest::{
    flow_params, inserted, launch_params, outcome_params, participant_params, trade_params,
    IngestError, LaunchParticipant, TokenLaunch, TokenOutcome, TradeOutcome, WalletFlow,
};
use solana_memecoin_db::sql::{DbError, SqlValue};
use solana_memecoin_db::{now_unix_ms, unix_ms_from_elapsed};

fn t(s: &str) -> SqlValue {
    SqlValue::Text(s.to_string())
}

#[test]
fn launch_and_flow_parameters() {
    let l = TokenLaunch {
        mint: "M".into(),
        deployer: "D".into(),
        program: "pump".into(),
        slot: 100,
        seen_unix_ms: 1700,
        launch_sig: "sig".into(),
    };
    assert_eq!(
        launch_params(&l),
        vec![t("M"), t("D"), t("pump"), SqlValue::Integer(100), SqlValue::Integer(1700), t("sig")]
    );
    let f = WalletFlow {
        sig: "s".into(),
        slot: 3,
        src: "A".into(),
        dst: "B".into(),
        mint: None,
        amount: 9,
        kind: "sol".into(),
    };
    assert_eq!(
        flow_params(&f),
        vec![t("s"), SqlValue::Integer(3), t("A"), t("B"), SqlValue::Null, SqlValue::Integer(9), t("sol")]
    );
}

#[test]
fn participant_outcome_and_trade_parameters() {
    let p = LaunchParticipant { mint: "M".into(), wallet: "W".into(), slot: 1, amount: None, is_signer: true };
    assert_eq!(
        participant_params(&p),
        vec![t("M"), t("W"), SqlValue::Integer(1), SqlValue::Null, SqlValue::Integer(1)]
    );
    let o = TokenOutcome {
        mint: "M".into(),
        label: "lp_pulled".into(),
        label_class: "terminal".into(),
        observed_slot: 8,
        is_final: false,
    };
    assert_eq!(
        outcome_params(&o),
        vec![t("M"), t("lp_pulled"), t("terminal"), SqlValue::Integer(8), SqlValue::Integer(0)]
    );
    let tr = TradeOutcome {
        mint: "M".into(),
        cluster_id: Some(7),
        prediction_id: None,
        action: "buy".into(),
        reason: Some("why".into()),
        amount_sol: None,
        pnl_lamports: Some(-3),
        bot_slot: 5,
    };
    assert_eq!(
        trade_params(&tr, 42),
        vec![
            t("M"),
            SqlValue::Integer(7),
            SqlValue::Null,
            t("buy"),
            t("why"),
            SqlValue::Null,
            SqlValue::Integer(-3),
            SqlValue::Integer(5),
            SqlValue::Integer(42),
        ]
    );
}

#[test]
fn one_changed_row_means_inserted() {
    assert!(inserted(1));
    assert!(!inserted(0));
    assert!(!inserted(2));
}

#[test]
fn error_messages() {
    let e = IngestError::ForbiddenLabel("alive".into());
    assert_eq!(
        e.message(),
        "label interdit 'alive' : 'alive' est une conclusion dérivée (aucun label terminal final=1 et âge >= 24h), jamais stockée"
    );
    let s = IngestError::Sqlite(rusqlite::Error::QueryReturnedNoRows);
    assert!(s.message().starts_with("erreur SQLite : "));
    let from: IngestError = rusqlite::Error::QueryReturnedNoRows.into();
    assert!(matches!(from, IngestError::Sqlite(_)));
    assert_eq!(DbError::NoRow.message(), "Query returned no rows");
    assert_eq!(
        DbError::Sqlite(rusqlite::Error::QueryReturnedNoRows).message(),
        "Query returned no rows"
    );
}

#[test]
fn clock_in_unix_milliseconds() {
    assert_eq!(unix_ms_from_elapsed(None), 0);
    assert_eq!(unix_ms_from_elapsed(Some(1_700_000_000_123)), 1_700_000_000_123);
    assert!(now_unix_ms() > 1_600_000_000_000);
}
