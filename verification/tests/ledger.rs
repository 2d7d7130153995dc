//! What the ledger keeps, and how it is read.

use cosigner::ledger::{
    migrations, Ledger, LedgerError, PendingStatus, RollingTotals, DAY_SECONDS, MONTH_SECONDS,
    WEEK_SECONDS,
};
use sqlx::sqlite::SqlitePoolOptions;
use sqlx::{Row, SqlitePool};

#[test]
fn ledger_empty_ledger_has_zero_totals() {
    let mut ledger = Ledger::new();
    let totals = ledger.rolling_totals(1_000_000);
    assert_eq!(totals, RollingTotals::default());
}

#[test]
fn ledger_sums_entries_within_each_window() {
    let mut ledger = Ledger::new();
    let now = 10 * MONTH_SECONDS;

    ledger.record_spend("tx-a", now, 1_000, 10).unwrap();
    ledger.record_spend("tx-b", now - DAY_SECONDS + 1, 2_000, 10)
        .unwrap();
    ledger.record_spend("tx-c", now - WEEK_SECONDS + 1, 4_000, 10)
        .unwrap();
    ledger.record_spend("tx-d", now - MONTH_SECONDS + 1, 8_000, 10)
        .unwrap();

    let totals = ledger.rolling_totals(now);
    assert_eq!(totals.day_sat, 1_000 + 2_000);
    assert_eq!(totals.week_sat, 1_000 + 2_000 + 4_000);
    assert_eq!(totals.month_sat, 1_000 + 2_000 + 4_000 + 8_000);
}

#[test]
fn ledger_window_boundaries_are_exact_and_independent() {
    fn totals_for_age(age: i64) -> RollingTotals {
        let mut ledger = Ledger::new();
        let now = 10 * MONTH_SECONDS;
        ledger.record_spend("tx", now - age, 1_000, 0)
            .unwrap();
        ledger.rolling_totals(now)
    }

    assert_eq!(
        totals_for_age(DAY_SECONDS - 1),
        RollingTotals {
            day_sat: 1_000,
            week_sat: 1_000,
            month_sat: 1_000
        }
    );
    assert_eq!(
        totals_for_age(WEEK_SECONDS - 1),
        RollingTotals {
            day_sat: 0,
            week_sat: 1_000,
            month_sat: 1_000
        }
    );
    assert_eq!(
        totals_for_age(MONTH_SECONDS - 1),
        RollingTotals {
            day_sat: 0,
            week_sat: 0,
            month_sat: 1_000
        }
    );

    assert_eq!(
        totals_for_age(DAY_SECONDS),
        RollingTotals {
            day_sat: 0,
            week_sat: 1_000,
            month_sat: 1_000
        }
    );
    assert_eq!(
        totals_for_age(WEEK_SECONDS),
        RollingTotals {
            day_sat: 0,
            week_sat: 0,
            month_sat: 1_000
        }
    );
    assert_eq!(
        totals_for_age(MONTH_SECONDS),
        RollingTotals::default()
    );

    assert_eq!(
        totals_for_age(MONTH_SECONDS + 1),
        RollingTotals::default()
    );
}

#[test]
fn ledger_ignores_future_dated_entries() {
    let mut ledger = Ledger::new();
    let now = 10 * MONTH_SECONDS;
    ledger.record_spend("tx", now + 100, 5_000, 0)
        .unwrap();
    let totals = ledger.rolling_totals(now);
    assert_eq!(totals, RollingTotals::default());
}

#[test]
fn record_spend_rejects_a_duplicate_txid() {
    let mut ledger = Ledger::new();
    ledger.record_spend("dup", 1_000, 1, 1).unwrap();
    assert!(ledger.record_spend("dup", 2_000, 1, 1).is_err());
}

#[test]
fn ledger_tx_already_recorded_reflects_committed_state() {
    let mut ledger = Ledger::new();
    ledger.record_spend("committed", 1_000, 1, 1).unwrap();
    assert!(ledger.already_recorded("committed"));
    assert!(!ledger.already_recorded("never-seen"));
}

#[test]
fn pending_insert_get_and_due_roundtrip() {
    let mut ledger = Ledger::new();
    ledger.insert_pending("tx-a", "cHNidA==", 1_000, 100, 500, 800)
        .unwrap();

    let row = ledger.get_pending("tx-a").unwrap();
    assert_eq!(row.status, PendingStatus::Pending);
    assert_eq!(row.spend_amount_sat, 1_000);
    assert_eq!(row.hold_until, 800);
    assert!(ledger.get_pending("never-seen").is_none());

    assert!(ledger.due_pending(801).is_empty());
    ledger.mark_notified("tx-a", 500);

    assert!(ledger.due_pending(799).is_empty());
    assert_eq!(ledger.due_pending(800), vec!["tx-a"]);
    assert_eq!(ledger.due_pending(801), vec!["tx-a"]);
}

#[test]
fn a_spend_nobody_was_notified_about_is_never_due_but_is_reported_as_stalled() {
    let mut ledger = Ledger::new();
    ledger.insert_pending("tx-silent", "cHNidA==", 1_000, 100, 500, 800)
        .unwrap();

    assert!(
        ledger.due_pending(999_999).is_empty(),
        "an un-notified spend must never become due"
    );
    assert_eq!(
        ledger.due_pending_undelivered(999_999),
        vec!["tx-silent"],
        "...but it must be visible as stalled, not silently stuck"
    );

    let retry = ledger.pending_needing_renotify(999_999, 3_600);
    assert_eq!(retry.len(), 1);
    assert_eq!(retry[0].txid, "tx-silent");

    ledger.mark_notified("tx-silent", 999_999);
    assert_eq!(
        ledger.due_pending(999_999),
        vec!["tx-silent"]
    );
    assert!(ledger.due_pending_undelivered(999_999)
        .is_empty());
}

#[test]
fn veto_pending_transitions_a_pending_row_and_is_reported_back() {
    let mut ledger = Ledger::new();
    ledger.insert_pending("tx-a", "cHNidA==", 1_000, 100, 500, 800)
        .unwrap();

    assert_eq!(
        ledger.veto_pending("tx-a"),
        Some(PendingStatus::Vetoed)
    );
    assert_eq!(
        ledger.get_pending("tx-a").unwrap().status,
        PendingStatus::Vetoed
    );
    assert!(ledger.due_pending(1_000).is_empty());
}

#[test]
fn veto_pending_on_unknown_txid_returns_none() {
    let mut ledger = Ledger::new();
    assert_eq!(ledger.veto_pending("never-seen"), None);
}

#[test]
fn veto_pending_is_a_no_op_on_an_already_terminal_row() {
    let mut ledger = Ledger::new();
    ledger.insert_pending("tx-a", "cHNidA==", 1_000, 100, 500, 800)
        .unwrap();
    ledger.mark_pending_signed("tx-a", "cHNidA==-signed".to_string());

    assert_eq!(
        ledger.veto_pending("tx-a"),
        Some(PendingStatus::Signed)
    );
    let row = ledger.get_pending("tx-a").unwrap();
    assert_eq!(row.status, PendingStatus::Signed);
    assert_eq!(row.signed_psbt_base64.as_deref(), Some("cHNidA==-signed"));
}

#[test]
fn mark_pending_denied_and_failed_record_a_message() {
    let mut ledger = Ledger::new();
    ledger.insert_pending("tx-denied", "cHNidA==", 1_000, 100, 500, 800)
        .unwrap();
    ledger.mark_pending_denied("tx-denied", "over the daily cap".to_string());
    ledger.insert_pending("tx-failed", "cHNidA==", 1_000, 100, 500, 800)
        .unwrap();
    ledger.mark_pending_failed("tx-failed", "utxo no longer exists".to_string());

    let denied = ledger.get_pending("tx-denied").unwrap();
    assert_eq!(denied.status, PendingStatus::Denied);
    assert_eq!(denied.message.as_deref(), Some("over the daily cap"));

    let failed = ledger.get_pending("tx-failed").unwrap();
    assert_eq!(failed.status, PendingStatus::Failed);
    assert_eq!(failed.message.as_deref(), Some("utxo no longer exists"));
}

#[test]
fn ledger_tx_rolling_totals_sees_its_own_uncommitted_row() {
    let mut ledger = Ledger::new();
    let now = 10 * MONTH_SECONDS;
    ledger.record_spend("self-visible", now, 4_242, 0)
        .unwrap();
    let totals = ledger.rolling_totals(now);
    assert_eq!(totals.day_sat, 4_242);
}

#[test]
fn load_or_seed_policy_state_seeds_version_1_on_first_run() {
    let mut ledger = Ledger::new();
    assert!(ledger.get_policy_state().is_none());

    let state = ledger.load_or_seed_policy_state("{\"max_tx_sat\":1}".to_string(), 1_000);
    assert_eq!(state.version, 1);
    assert_eq!(state.policy_json, "{\"max_tx_sat\":1}");
    assert_eq!(state.updated_at, 1_000);
    assert_eq!(ledger.get_policy_state(), Some(state));
}

#[test]
fn load_or_seed_policy_state_does_not_reseed_an_existing_row() {
    let mut ledger = Ledger::new();
    ledger.load_or_seed_policy_state("{\"max_tx_sat\":1}".to_string(), 1_000);

    let state = ledger.load_or_seed_policy_state("{\"max_tx_sat\":999}".to_string(), 2_000);
    assert_eq!(state.version, 1);
    assert_eq!(state.policy_json, "{\"max_tx_sat\":1}");
}

#[test]
fn set_policy_state_upserts_and_advances_the_version() {
    let mut ledger = Ledger::new();
    ledger.set_policy_state(1, "{\"max_tx_sat\":1}".to_string(), 1_000);
    ledger.set_policy_state(2, "{\"max_tx_sat\":2}".to_string(), 2_000);

    let state = ledger.get_policy_state().unwrap();
    assert_eq!(state.version, 2);
    assert_eq!(state.policy_json, "{\"max_tx_sat\":2}");
    assert_eq!(state.updated_at, 2_000);
}

#[test]
fn freeze_generation_starts_at_zero_and_survives_before_any_freeze() {
    let mut ledger = Ledger::new();
    assert_eq!(ledger.freeze_generation(), 0);
    assert!(!ledger.is_frozen());
}

#[test]
fn freezing_increments_generation_but_unfreezing_never_does() {
    let mut ledger = Ledger::new();

    ledger.set_frozen(true, 1_000, Some("first"));
    assert!(ledger.is_frozen());
    assert_eq!(ledger.freeze_generation(), 1);

    ledger.set_frozen(false, 2_000, None);
    assert!(!ledger.is_frozen());
    assert_eq!(
        ledger.freeze_generation(),
        1,
        "unfreezing must not advance the generation - only a NEW freeze does"
    );

    ledger.set_frozen(true, 3_000, Some("second"));
    assert_eq!(
        ledger.freeze_generation(),
        2,
        "a second, later freeze must get a fresh generation - an authorization signed for \
         generation 1 must never be able to lift this one"
    );
}

#[test]
fn unfreezing_a_never_frozen_ledger_is_a_harmless_no_op() {
    let mut ledger = Ledger::new();
    ledger.set_frozen(false, 1_000, None);
    assert!(!ledger.is_frozen());
    assert_eq!(ledger.freeze_generation(), 0);
}

#[test]
fn nostr_event_seen_tracking_is_idempotent_and_persists() {
    let mut ledger = Ledger::new();
    assert!(!ledger.has_seen_nostr_event("abc123"));

    ledger.mark_nostr_event_seen("abc123", 1_000);
    assert!(ledger.has_seen_nostr_event("abc123"));
    assert!(
        !ledger.has_seen_nostr_event("different-id"),
        "a different event id must not be treated as seen"
    );

    ledger.mark_nostr_event_seen("abc123", 2_000);
    assert!(ledger.has_seen_nostr_event("abc123"));
}

/// A database with the tables of the ledger in it.
async fn database() -> SqlitePool {
    let pool = SqlitePoolOptions::new()
        .max_connections(1)
        .connect("sqlite::memory:")
        .await
        .unwrap();
    // Applying them again is harmless.
    for _ in 0..2 {
        for m in migrations() {
            if let Err(e) = sqlx::query(m.sql).execute(&pool).await {
                assert!(m.is_done_already(&e.to_string()), "{}: {e}", m.context);
            }
        }
    }
    pool
}

fn block_on<T>(work: impl std::future::Future<Output = T>) -> T {
    tokio::runtime::Builder::new_current_thread().enable_all().build().unwrap().block_on(work)
}

#[test]
fn rows_predating_the_delivery_flag_are_grandfathered_as_delivered() {
    let delivered: i64 = block_on(async {
        let pool = database().await;
        sqlx::query(
            "INSERT INTO pending_signatures
                (txid, psbt_base64, spend_amount_sat, fee_sat, created_at, hold_until, status,
                 last_notified_at)
             VALUES ('tx-legacy', 'cHNidA==', 1000, 100, 500, 800, 'pending', 500)",
        )
        .execute(&pool)
        .await
        .unwrap();
        let row = sqlx::query("SELECT notify_delivered FROM pending_signatures")
            .fetch_one(&pool)
            .await
            .unwrap();
        row.get(0)
    });
    assert_eq!(delivered, 1);

    let mut ledger = Ledger::new();
    ledger.insert_pending("tx-legacy", "cHNidA==", 1000, 100, 500, 800).unwrap();
    ledger.pending[0].notify_delivered = delivered != 0;
    assert_eq!(ledger.due_pending(800), vec!["tx-legacy"]);
}

#[test]
fn the_tables_are_those_that_the_ledger_keeps() {
    let names: Vec<String> = block_on(async {
        let pool = database().await;
        sqlx::query("SELECT name FROM sqlite_master WHERE type = 'table' ORDER BY name")
            .fetch_all(&pool)
            .await
            .unwrap()
            .iter()
            .map(|r| r.get(0))
            .collect()
    });
    for table in
        ["freeze_state", "ledger", "nostr_seen_events", "pending_signatures", "policy_state"]
    {
        assert!(names.iter().any(|n| n == table), "{names:?}");
    }
    let adding = migrations().into_iter().find(|m| m.adds_column).unwrap();
    assert!(adding.is_done_already("error: duplicate column name: x"));
    assert!(!adding.is_done_already("disk full"));
    let creating = migrations().into_iter().find(|m| !m.adds_column).unwrap();
    assert!(!creating.is_done_already("error: duplicate column name: x"));
}

#[test]
fn a_spend_is_queued_once() {
    let mut ledger = Ledger::new();
    ledger.insert_pending("tx", "a", 1, 1, 0, 5).unwrap();
    assert_eq!(
        ledger.insert_pending("tx", "b", 2, 2, 0, 6).unwrap_err(),
        LedgerError::AlreadyPending
    );
    assert_eq!(ledger.get_pending("tx").unwrap().psbt_base64, "a");
    ledger.record_spend("tx", 1, 1, 1).unwrap();
    assert_eq!(ledger.record_spend("tx", 1, 1, 1).unwrap_err(), LedgerError::AlreadyRecorded);
}

#[test]
fn a_released_hold_ends_at_the_moment_of_release() {
    let mut ledger = Ledger::new();
    ledger.insert_pending("tx", "a", 1, 1, 0, 500).unwrap();
    ledger.mark_notified("tx", 0);
    assert!(!ledger.is_due_now("tx", 100));
    assert!(ledger.release_hold("tx", 100));
    assert!(ledger.is_due_now("tx", 100));
    assert_eq!(ledger.get_pending("tx").unwrap().hold_until, 100);
    ledger.release_hold("tx", 900);
    assert_eq!(ledger.get_pending("tx").unwrap().hold_until, 900);
    assert!(!ledger.release_hold("other", 100));
    ledger.veto_pending("tx");
    assert!(!ledger.release_hold("tx", 50));
}

#[test]
fn a_status_is_written_and_read_back() {
    for status in [
        PendingStatus::Pending,
        PendingStatus::Vetoed,
        PendingStatus::Signed,
        PendingStatus::Denied,
        PendingStatus::Failed,
    ] {
        assert_eq!(PendingStatus::from_str(status.as_str()).unwrap(), status);
    }
    assert_eq!(PendingStatus::from_str("other").unwrap_err(), LedgerError::UnknownStatus);
}

#[test]
fn totals_that_do_not_fit_are_not_made_up() {
    let mut ledger = Ledger::new();
    ledger.record_spend("a", 1_000, u64::MAX, 0).unwrap();
    assert_eq!(ledger.checked_rolling_totals(1_000).unwrap().day_sat, u64::MAX);
    ledger.record_spend("b", 1_000, 1, 0).unwrap();
    assert_eq!(ledger.checked_rolling_totals(1_000), None);
}

#[test]
fn old_events_are_forgotten() {
    let mut ledger = Ledger::new();
    ledger.mark_nostr_event_seen("old", 10);
    ledger.mark_nostr_event_seen("new", 20);
    assert_eq!(ledger.prune_nostr_seen_events(20), 1);
    assert!(!ledger.has_seen_nostr_event("old"));
    assert!(ledger.has_seen_nostr_event("new"));
}
