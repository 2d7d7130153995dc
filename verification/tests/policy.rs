//! What the spending policy allows.

use bitcoin::{Address, Network, ScriptBuf};
use cosigner::config::ChainNetwork;
use cosigner::inspect::{InspectionReport, OutputKind, OutputReport, SpendingPath};
use cosigner::ledger::RollingTotals;
use cosigner::policy::{
    destination_total_sat, evaluate_policy, CompiledPolicy, FeeRate, PolicyConfig, PolicyDecision,
    PolicyError, PolicyViolation,
};

fn rate(r: f64) -> FeeRate {
    FeeRate { bits: r.to_bits() }
}

fn script(fill: u8) -> ScriptBuf {
    let mut bytes = vec![0x00, 0x20];
    bytes.extend_from_slice(&[fill; 32]);
    ScriptBuf::from(bytes)
}

fn address(fill: u8) -> String {
    Address::from_script(&script(fill), Network::Regtest).unwrap().to_string()
}

fn destination(amount: u64, fill: u8) -> OutputReport {
    OutputReport {
        script_pubkey: script(fill).to_bytes(),
        address: Some(address(fill)),
        amount,
        kind: OutputKind::Destination,
    }
}

fn destination_unresolvable(amount: u64) -> OutputReport {
    OutputReport {
        script_pubkey: vec![],
        address: None,
        amount,
        kind: OutputKind::Destination,
    }
}

fn change(amount: u64) -> OutputReport {
    OutputReport {
        script_pubkey: script(0xEE).to_bytes(),
        address: Some(address(0xEE)),
        amount,
        kind: OutputKind::Change,
    }
}

fn report(outputs: Vec<OutputReport>, fee: u64, fee_rate: f64) -> InspectionReport {
    let total_out: u64 = outputs.iter().map(|o| o.amount).sum();
    InspectionReport {
        inputs: vec![],
        outputs,
        total_in: total_out + fee,
        total_out,
        fee,
        estimated_vsize: 200,
        fee_rate_sat_per_vb: rate(fee_rate),
        spending_path: SpendingPath::Hot,
    }
}

fn generous_policy() -> CompiledPolicy {
    CompiledPolicy {
        max_tx_sat: u64::MAX,
        max_daily_sat: u64::MAX,
        max_weekly_sat: u64::MAX,
        max_monthly_sat: u64::MAX,
        max_fee_sat: u64::MAX,
        max_fee_rate_sat_per_vb: rate(f64::MAX),
        destination_whitelist: None,
    }
}

fn no_prior_spends() -> RollingTotals {
    RollingTotals::default()
}

// ---- per-transaction cap ----

#[test]
fn per_tx_cap_boundary_is_exact() {
    let mut policy = generous_policy();
    policy.max_tx_sat = 100_000;

    let allowed = report(vec![destination(100_000, 1)], 0, 0.0);
    assert_eq!(
        evaluate_policy(&allowed, &no_prior_spends(), &policy),
        PolicyDecision::Allow
    );

    let denied = report(vec![destination(100_001, 1)], 0, 0.0);
    let PolicyDecision::Deny(violations) =
        evaluate_policy(&denied, &no_prior_spends(), &policy)
    else {
        panic!("expected denial");
    };
    assert_eq!(
        violations,
        vec![PolicyViolation::ExceedsPerTransactionCap {
            spend_sat: 100_001,
            cap_sat: 100_000
        }]
    );
}

#[test]
fn per_tx_cap_ignores_change_and_own_receive() {
    let mut policy = generous_policy();
    policy.max_tx_sat = 1_000;

    // 1_000_000 sat of change alongside a 1_000 sat destination must not trip the cap.
    let r = report(vec![destination(1_000, 1), change(1_000_000)], 0, 0.0);
    assert_eq!(
        evaluate_policy(&r, &no_prior_spends(), &policy),
        PolicyDecision::Allow
    );
}

// ---- rolling limits ----

#[test]
fn daily_cap_boundary_accounts_for_prior_spends() {
    let mut policy = generous_policy();
    policy.max_daily_sat = 10_000;
    let rolling = RollingTotals {
        day_sat: 9_000,
        week_sat: 9_000,
        month_sat: 9_000,
    };

    let allowed = report(vec![destination(1_000, 1)], 0, 0.0); // 9_000 + 1_000 == 10_000
    assert_eq!(
        evaluate_policy(&allowed, &rolling, &policy),
        PolicyDecision::Allow
    );

    let denied = report(vec![destination(1_001, 1)], 0, 0.0); // 9_000 + 1_001 > 10_000
    let PolicyDecision::Deny(violations) = evaluate_policy(&denied, &rolling, &policy) else {
        panic!("expected denial");
    };
    assert_eq!(
        violations,
        vec![PolicyViolation::ExceedsDailyCap {
            projected_sat: 10_001,
            cap_sat: 10_000
        }]
    );
}

#[test]
fn weekly_cap_boundary_accounts_for_prior_spends() {
    let mut policy = generous_policy();
    policy.max_weekly_sat = 50_000;
    let rolling = RollingTotals {
        day_sat: 0,
        week_sat: 49_000,
        month_sat: 49_000,
    };

    let allowed = report(vec![destination(1_000, 1)], 0, 0.0);
    assert_eq!(
        evaluate_policy(&allowed, &rolling, &policy),
        PolicyDecision::Allow
    );

    let denied = report(vec![destination(1_001, 1)], 0, 0.0);
    assert!(!evaluate_policy(&denied, &rolling, &policy).is_allowed());
}

#[test]
fn monthly_cap_boundary_accounts_for_prior_spends() {
    let mut policy = generous_policy();
    policy.max_monthly_sat = 200_000;
    let rolling = RollingTotals {
        day_sat: 0,
        week_sat: 0,
        month_sat: 199_000,
    };

    let allowed = report(vec![destination(1_000, 1)], 0, 0.0);
    assert_eq!(
        evaluate_policy(&allowed, &rolling, &policy),
        PolicyDecision::Allow
    );

    let denied = report(vec![destination(1_001, 1)], 0, 0.0);
    assert!(!evaluate_policy(&denied, &rolling, &policy).is_allowed());
}

#[test]
fn a_transaction_within_its_own_cap_can_still_be_denied_by_a_rolling_cap() {
    let mut policy = generous_policy();
    policy.max_tx_sat = 1_000_000; // this transaction alone is fine
    policy.max_daily_sat = 500; // but the day is nearly spent already
    let rolling = RollingTotals {
        day_sat: 400,
        week_sat: 400,
        month_sat: 400,
    };

    let r = report(vec![destination(200, 1)], 0, 0.0); // 400 + 200 = 600 > 500
    let PolicyDecision::Deny(violations) = evaluate_policy(&r, &rolling, &policy) else {
        panic!("expected denial");
    };
    assert_eq!(
        violations,
        vec![PolicyViolation::ExceedsDailyCap {
            projected_sat: 600,
            cap_sat: 500
        }]
    );
}

// ---- fee limits ----

#[test]
fn max_fee_boundary_is_exact() {
    let mut policy = generous_policy();
    policy.max_fee_sat = 5_000;

    let allowed = report(vec![destination(1_000, 1)], 5_000, 1.0);
    assert_eq!(
        evaluate_policy(&allowed, &no_prior_spends(), &policy),
        PolicyDecision::Allow
    );

    let denied = report(vec![destination(1_000, 1)], 5_001, 1.0);
    let PolicyDecision::Deny(violations) =
        evaluate_policy(&denied, &no_prior_spends(), &policy)
    else {
        panic!("expected denial");
    };
    assert_eq!(
        violations,
        vec![PolicyViolation::ExceedsMaxFee {
            fee_sat: 5_001,
            cap_sat: 5_000
        }]
    );
}

#[test]
fn max_fee_rate_boundary_is_exact() {
    let mut policy = generous_policy();
    policy.max_fee_rate_sat_per_vb = rate(50.0);

    let allowed = report(vec![destination(1_000, 1)], 1_000, 50.0);
    assert_eq!(
        evaluate_policy(&allowed, &no_prior_spends(), &policy),
        PolicyDecision::Allow
    );

    let denied = report(vec![destination(1_000, 1)], 1_000, 50.0001);
    let PolicyDecision::Deny(violations) =
        evaluate_policy(&denied, &no_prior_spends(), &policy)
    else {
        panic!("expected denial");
    };
    assert_eq!(
        violations,
        vec![PolicyViolation::ExceedsMaxFeeRate {
            fee_rate_sat_per_vb: rate(50.0001),
            cap_sat_per_vb: rate(50.0)
        }]
    );
}

// ---- destination whitelist ----

#[test]
fn whitelist_allows_listed_addresses_and_denies_others() {
    let mut policy = generous_policy();
    policy.destination_whitelist = Some(vec![address(1)]);

    let allowed = report(vec![destination(1_000, 1)], 0, 0.0);
    assert_eq!(
        evaluate_policy(&allowed, &no_prior_spends(), &policy),
        PolicyDecision::Allow
    );

    let denied = report(vec![destination(1_000, 2)], 0, 0.0);
    let PolicyDecision::Deny(violations) =
        evaluate_policy(&denied, &no_prior_spends(), &policy)
    else {
        panic!("expected denial");
    };
    assert_eq!(
        violations,
        vec![PolicyViolation::DestinationNotWhitelisted {
            output_index: 0,
            address: address(2)
        }]
    );
}

#[test]
fn whitelist_does_not_apply_to_change_or_own_receive_outputs() {
    let mut policy = generous_policy();
    policy.destination_whitelist = Some(vec![address(1)]);

    // The change output's address (0xEE) is deliberately not on the whitelist - it must
    // not be checked, since the whitelist only governs money actually leaving the wallet.
    let r = report(vec![destination(1_000, 1), change(500)], 0, 0.0);
    assert_eq!(
        evaluate_policy(&r, &no_prior_spends(), &policy),
        PolicyDecision::Allow
    );
}

#[test]
fn whitelist_denies_a_destination_with_no_resolvable_address() {
    let mut policy = generous_policy();
    policy.destination_whitelist = Some(vec![address(1)]);

    let r = report(vec![destination_unresolvable(1_000)], 0, 0.0);
    let PolicyDecision::Deny(violations) = evaluate_policy(&r, &no_prior_spends(), &policy)
    else {
        panic!("expected denial");
    };
    assert_eq!(
        violations,
        vec![PolicyViolation::DestinationAddressUnresolvable { output_index: 0 }]
    );
}

#[test]
fn no_whitelist_configured_allows_any_destination() {
    let policy = generous_policy(); // destination_whitelist: None
    let r = report(vec![destination(1_000, 42)], 0, 0.0);
    assert_eq!(
        evaluate_policy(&r, &no_prior_spends(), &policy),
        PolicyDecision::Allow
    );
}

// ---- multiple simultaneous violations ----

#[test]
fn reports_every_violation_at_once_not_just_the_first() {
    let mut policy = generous_policy();
    policy.max_tx_sat = 100;
    policy.max_fee_sat = 10;
    policy.destination_whitelist = Some(vec![address(1)]);

    let r = report(vec![destination(1_000, 2)], 20, 0.0);
    let PolicyDecision::Deny(violations) = evaluate_policy(&r, &no_prior_spends(), &policy)
    else {
        panic!("expected denial");
    };
    assert_eq!(
        violations.len(),
        3,
        "expected per-tx cap, fee cap, and whitelist violations together: {violations:?}"
    );
}

// ---- compiling a config into a policy ----

#[test]
fn compile_parses_whitelist_addresses_for_the_configured_network() {
    let cfg = PolicyConfig {
        max_tx_sat: 1,
        max_daily_sat: 1,
        max_weekly_sat: 1,
        max_monthly_sat: 1,
        max_fee_sat: 1,
        max_fee_rate_sat_per_vb: rate(1.0),
        destination_whitelist: Some(vec![address(1)]),
    };
    let compiled = cfg.compile(ChainNetwork::Regtest).unwrap();
    assert_eq!(compiled.destination_whitelist, Some(vec![address(1)]));
}

#[test]
fn compile_rejects_a_malformed_whitelist_address() {
    let cfg = PolicyConfig {
        max_tx_sat: 1,
        max_daily_sat: 1,
        max_weekly_sat: 1,
        max_monthly_sat: 1,
        max_fee_sat: 1,
        max_fee_rate_sat_per_vb: rate(1.0),
        destination_whitelist: Some(vec!["not-an-address".to_string()]),
    };
    assert!(cfg.compile(ChainNetwork::Regtest).is_err());
}

#[test]
fn compile_rejects_an_address_for_the_wrong_network() {
    let mainnet_address = Address::from_script(&script(1), Network::Bitcoin).unwrap();
    let cfg = PolicyConfig {
        max_tx_sat: 1,
        max_daily_sat: 1,
        max_weekly_sat: 1,
        max_monthly_sat: 1,
        max_fee_sat: 1,
        max_fee_rate_sat_per_vb: rate(1.0),
        destination_whitelist: Some(vec![mainnet_address.to_string()]),
    };
    assert!(cfg.compile(ChainNetwork::Regtest).is_err());
}

#[test]
fn fee_rates_compare_as_floating_point_numbers_do() {
    let samples = [
        0.0,
        -0.0,
        1.0,
        -1.0,
        50.0,
        50.0001,
        f64::MIN_POSITIVE,
        f64::MAX,
        f64::MIN,
        f64::INFINITY,
        f64::NEG_INFINITY,
        f64::NAN,
        -f64::NAN,
    ];
    for a in samples {
        for b in samples {
            assert_eq!(rate(a).exceeds(rate(b)), a > b, "{a} > {b}");
        }
    }
}

#[test]
fn only_what_leaves_the_wallet_counts_as_spent() {
    let mut own = change(700);
    own.kind = OutputKind::OwnReceive;
    let r = report(vec![destination(10, 1), change(500), own, destination(7, 2)], 0, 0.0);
    assert_eq!(destination_total_sat(&r), 17);
}

#[test]
fn a_bad_entry_of_the_whitelist_is_named() {
    let mut cfg = PolicyConfig {
        max_tx_sat: 1,
        max_daily_sat: 1,
        max_weekly_sat: 1,
        max_monthly_sat: 1,
        max_fee_sat: 1,
        max_fee_rate_sat_per_vb: rate(1.0),
        destination_whitelist: Some(vec![address(1), "nonsense".to_string()]),
    };
    assert_eq!(
        cfg.compile(ChainNetwork::Regtest).unwrap_err(),
        PolicyError::MalformedAddress { entry: 1 }
    );
    let foreign = Address::from_script(&script(1), Network::Bitcoin).unwrap().to_string();
    cfg.destination_whitelist = Some(vec![address(1), address(2), foreign]);
    assert_eq!(
        cfg.compile(ChainNetwork::Regtest).unwrap_err(),
        PolicyError::WrongNetwork { entry: 2, network: ChainNetwork::Regtest }
    );
    cfg.destination_whitelist = None;
    assert_eq!(cfg.compile(ChainNetwork::Regtest).unwrap().destination_whitelist, None);
}

#[test]
fn an_address_is_kept_in_its_own_spelling() {
    let cfg = PolicyConfig {
        max_tx_sat: 1,
        max_daily_sat: 1,
        max_weekly_sat: 1,
        max_monthly_sat: 1,
        max_fee_sat: 1,
        max_fee_rate_sat_per_vb: rate(1.0),
        destination_whitelist: Some(vec![address(1).to_uppercase()]),
    };
    let compiled = cfg.compile(ChainNetwork::Regtest).unwrap();
    assert_eq!(compiled.destination_whitelist, Some(vec![address(1)]));
}

#[test]
fn a_denial_states_both_amounts() {
    let texts = [
        PolicyViolation::ExceedsPerTransactionCap { spend_sat: 11, cap_sat: 10 },
        PolicyViolation::ExceedsDailyCap { projected_sat: 11, cap_sat: 10 },
        PolicyViolation::ExceedsWeeklyCap { projected_sat: 11, cap_sat: 10 },
        PolicyViolation::ExceedsMonthlyCap { projected_sat: 11, cap_sat: 10 },
        PolicyViolation::ExceedsMaxFee { fee_sat: 11, cap_sat: 10 },
        PolicyViolation::ExceedsMaxFeeRate {
            fee_rate_sat_per_vb: rate(11.0),
            cap_sat_per_vb: rate(10.0),
        },
    ];
    for v in texts {
        let text = v.message("11.00", "10.00");
        assert!(text.contains("11") && text.contains("10"), "{text}");
    }
    let text = PolicyViolation::DestinationNotWhitelisted {
        output_index: 3,
        address: "tb1qx".to_string(),
    }
    .message("", "");
    assert!(text.contains('3') && text.contains("tb1qx"), "{text}");
}
