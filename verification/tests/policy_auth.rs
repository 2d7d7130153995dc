//! Who may change the policy, and how.

use std::str::FromStr;

use bitcoin::bip32::{DerivationPath, Xpriv, Xpub};
use bitcoin::secp256k1::Secp256k1;
use bitcoin::bip32::ChildNumber;
use bitcoin::secp256k1::All;
use bitcoin::sign_message::{signed_msg_hash, MessageSignature};
use cosigner::config::{ChainNetwork, KeySpec, KeysConfig, WalletConfig};
use cosigner::ledger::Ledger;
use cosigner::policy::{FeeRate, PolicyConfig, PolicyError};
use cosigner::policy_auth::{
    apply_policy_change, canonical_message, canonical_unfreeze_message, explain_change,
    explain_signature, explain_unfreeze, unfreeze,
    verify_unfreeze_authorization, AuthKeysError, HardwareAuthKeys, PolicyAuthError,
    PolicyChangeRequest,
};

fn test_key_spec_with_xpriv(seed: u8) -> (KeySpec, Xpriv) {
    let secp = Secp256k1::new();
    let master = Xpriv::new_master(bitcoin::NetworkKind::Test, &[seed; 32]).unwrap();
    let path = "48h/1h/0h/2h";
    let account = master
        .derive_priv(&secp, &DerivationPath::from_str(path).unwrap())
        .unwrap();
    let spec = KeySpec {
        master_fingerprint: master.fingerprint(&secp).to_string(),
        derivation_path: path.to_string(),
        xpub: Xpub::from_priv(&secp, &account).to_string(),
    };
    (spec, account)
}

fn test_wallet_config(timelock_blocks: u16) -> WalletConfig {
    WalletConfig {
        network: ChainNetwork::Signet,
        i_understand_this_is_mainnet: false,
        timelock_blocks,
        keys: KeysConfig {
            satochip: test_key_spec_with_xpriv(0x01).0,
            mobile: test_key_spec_with_xpriv(0x02).0,
            server: test_key_spec_with_xpriv(0x03).0,
        },
        bitcoind: None,
        server: None,
        policy: None,
        server_signing: None,
        notify: None,
    }
}

fn generous_policy(max_tx_sat: u64) -> PolicyConfig {
    PolicyConfig {
        max_tx_sat,
        max_daily_sat: u64::MAX,
        max_weekly_sat: u64::MAX,
        max_monthly_sat: u64::MAX,
        max_fee_sat: u64::MAX,
        max_fee_rate_sat_per_vb: FeeRate { bits: f64::MAX.to_bits() },
        destination_whitelist: None,
    }
}

fn auth_keys(cfg: &WalletConfig, gap_limit: u32) -> HardwareAuthKeys {
    HardwareAuthKeys::from_config(cfg, gap_limit).expect("precomputing candidates")
}

fn sign_message(xprv: &Xpriv, secp: &Secp256k1<All>, message: &str) -> String {
    let hash = signed_msg_hash(message);
    let digest: &[u8; 32] = hash.as_ref();
    let msg = bitcoin::secp256k1::Message::from_digest(*digest);
    let sig = secp.sign_ecdsa_recoverable(&msg, &xprv.private_key);
    MessageSignature::new(sig, true).to_base64()
}

/// The fee rate as it is written in what is signed.
fn rate_text(policy: &PolicyConfig) -> String {
    format!("{}", f64::from_bits(policy.max_fee_rate_sat_per_vb.bits))
}

fn said(version: u64, policy: &PolicyConfig) -> String {
    canonical_message(version, policy, &rate_text(policy))
}

fn request(policy: PolicyConfig, version: u64, signature_base64: String) -> PolicyChangeRequest {
    let fee_rate_text = rate_text(&policy);
    let policy_json = format!("{{\"max_tx_sat\":{}}}", policy.max_tx_sat);
    PolicyChangeRequest { policy, version, signature_base64, fee_rate_text, policy_json }
}

#[test]
fn precomputed_candidates_cover_the_account_key_and_every_child() {
    let cfg = test_wallet_config(12960);
    let gap_limit = 20u32;
    let keys = auth_keys(&cfg, gap_limit);

    // account key + gap_limit children on each of two chains
    assert_eq!(keys.len(), (gap_limit as usize * 2) + 1);

    let secp = Secp256k1::new();
    let (_, hardware_xprv) = test_key_spec_with_xpriv(0x01);

    // A signature from the account key itself verifies.
    let msg = "cosigner test authorization";
    assert!(keys
        .verify(msg, &sign_message(&hardware_xprv, &secp, msg))
        .is_ok());

    // ...as does one from an arbitrary in-range child on either chain.
    for (chain, index) in [(0u32, 7u32), (1u32, 19u32)] {
        let child = hardware_xprv
            .derive_priv(
                &secp,
                &DerivationPath::from(vec![
                    ChildNumber::from_normal_idx(chain).unwrap(),
                    ChildNumber::from_normal_idx(index).unwrap(),
                ]),
            )
            .unwrap();
        assert!(
            keys.verify(msg, &sign_message(&child, &secp, msg)).is_ok(),
            "child {chain}/{index} should be authorized"
        );
    }

    // A child beyond the gap limit is not in the set.
    let out_of_range = hardware_xprv
        .derive_priv(
            &secp,
            &DerivationPath::from(vec![
                ChildNumber::from_normal_idx(0).unwrap(),
                ChildNumber::from_normal_idx(gap_limit + 5).unwrap(),
            ]),
        )
        .unwrap();
    assert!(matches!(
        keys.verify(msg, &sign_message(&out_of_range, &secp, msg)),
        Err(PolicyAuthError::UnauthorizedSigner)
    ));

    // And neither is an unrelated key.
    let (_, stranger) = test_key_spec_with_xpriv(0x99);
    assert!(matches!(
        keys.verify(msg, &sign_message(&stranger, &secp, msg)),
        Err(PolicyAuthError::UnauthorizedSigner)
    ));
}

#[test]
fn a_signature_over_another_message_does_not_authorize() {
    let cfg = test_wallet_config(12960);
    let keys = auth_keys(&cfg, 20);
    let secp = Secp256k1::new();
    let (_, hardware_xprv) = test_key_spec_with_xpriv(0x01);

    let signature = sign_message(&hardware_xprv, &secp, "some other message entirely");
    assert!(matches!(
        keys.verify("cosigner test authorization", &signature),
        Err(PolicyAuthError::UnauthorizedSigner)
    ));
}

#[test]
fn canonical_message_is_deterministic_and_reflects_every_field() {
    let policy = PolicyConfig {
        max_tx_sat: 1,
        max_daily_sat: 2,
        max_weekly_sat: 3,
        max_monthly_sat: 4,
        max_fee_sat: 5,
        max_fee_rate_sat_per_vb: FeeRate { bits: 6.5f64.to_bits() },
        destination_whitelist: Some(vec!["tb1qexample".to_string()]),
    };
    let a = said(7, &policy);
    let b = said(7, &policy);
    assert_eq!(a, b);
    assert!(a.contains("version: 7"));
    assert!(a.contains("max_tx_sat: 1"));
    assert!(a.contains("max_fee_rate_sat_per_vb: 6.5"));
    assert!(a.contains("tb1qexample"));

    let different_version = said(8, &policy);
    assert_ne!(a, different_version);
}

#[test]
fn canonical_message_reports_an_empty_whitelist_distinctly() {
    let policy = generous_policy(1);
    let msg = said(1, &policy);
    assert!(msg.contains("(none - any destination allowed)"));
}

#[test]
fn accepts_a_signature_from_the_hardware_account_key() {
    let cfg = test_wallet_config(12960);
    let (_, hardware_xprv) = test_key_spec_with_xpriv(0x01);
    let secp = Secp256k1::new();

    let mut ledger = Ledger::new();
    ledger.load_or_seed_policy_state("{}".to_string(), 1_000);

    let policy = generous_policy(500_000);
    let message = said(2, &policy);
    let signature_base64 = sign_message(&hardware_xprv, &secp, &message);

    let outcome = apply_policy_change(
        &mut ledger,
        &cfg,
        &auth_keys(&cfg, 50),
        request(policy, 2, signature_base64),
        2_000,
    )
    .unwrap();
    assert_eq!(outcome.version, 2);
    assert_eq!(outcome.compiled.max_tx_sat, 500_000);

    let state = ledger.get_policy_state().unwrap();
    assert_eq!(state.version, 2);
}

#[test]
fn accepts_a_signature_from_a_derived_hardware_child_key() {
    let cfg = test_wallet_config(12960);
    let (_, hardware_account_xprv) = test_key_spec_with_xpriv(0x01);
    let secp = Secp256k1::new();
    // A child several indices deep on the internal chain - proves verification isn't
    // limited to the bare account key.
    let child_xprv = hardware_account_xprv
        .derive_priv(
            &secp,
            &DerivationPath::from(vec![
                ChildNumber::from_normal_idx(1).unwrap(),
                ChildNumber::from_normal_idx(7).unwrap(),
            ]),
        )
        .unwrap();

    let mut ledger = Ledger::new();
    ledger.load_or_seed_policy_state("{}".to_string(), 1_000);

    let policy = generous_policy(500_000);
    let message = said(2, &policy);
    let signature_base64 = sign_message(&child_xprv, &secp, &message);

    let outcome = apply_policy_change(
        &mut ledger,
        &cfg,
        &auth_keys(&cfg, 50),
        request(policy, 2, signature_base64),
        2_000,
    )
    .unwrap();
    assert_eq!(outcome.version, 2);
}

#[test]
fn rejects_a_signature_from_a_non_hardware_key() {
    let cfg = test_wallet_config(12960);
    let (_, mobile_xprv) = test_key_spec_with_xpriv(0x02); // MOBILE, not HARDWARE
    let secp = Secp256k1::new();

    let mut ledger = Ledger::new();
    ledger.load_or_seed_policy_state("{}".to_string(), 1_000);

    let policy = generous_policy(500_000);
    let message = said(2, &policy);
    let signature_base64 = sign_message(&mobile_xprv, &secp, &message);

    let err = apply_policy_change(
        &mut ledger,
        &cfg,
        &auth_keys(&cfg, 50),
        request(policy, 2, signature_base64),
        2_000,
    )
    .unwrap_err();
    assert!(matches!(err, PolicyAuthError::UnauthorizedSigner));

    // Nothing must have been applied.
    let state = ledger.get_policy_state().unwrap();
    assert_eq!(state.version, 1);
}

#[test]
fn rejects_a_signature_over_a_tampered_policy() {
    let cfg = test_wallet_config(12960);
    let (_, hardware_xprv) = test_key_spec_with_xpriv(0x01);
    let secp = Secp256k1::new();

    let mut ledger = Ledger::new();
    ledger.load_or_seed_policy_state("{}".to_string(), 1_000);

    // Sign a message authorizing a 500_000 sat cap...
    let signed_policy = generous_policy(500_000);
    let message = said(2, &signed_policy);
    let signature_base64 = sign_message(&hardware_xprv, &secp, &message);

    // ...but submit a request claiming a much higher cap instead. The signature was never
    // produced over *this* policy, so verification must fail.
    let tampered_policy = generous_policy(50_000_000);
    let err = apply_policy_change(
        &mut ledger,
        &cfg,
        &auth_keys(&cfg, 50),
        request(tampered_policy, 2, signature_base64),
        2_000,
    )
    .unwrap_err();
    assert!(matches!(err, PolicyAuthError::UnauthorizedSigner));
}

#[test]
fn rejects_a_version_that_is_not_current_plus_one() {
    let cfg = test_wallet_config(12960);
    let (_, hardware_xprv) = test_key_spec_with_xpriv(0x01);
    let secp = Secp256k1::new();

    let mut ledger = Ledger::new();
    ledger.load_or_seed_policy_state("{}".to_string(), 1_000);

    let policy = generous_policy(500_000);
    // Skips straight to version 3 instead of 2.
    let message = said(3, &policy);
    let signature_base64 = sign_message(&hardware_xprv, &secp, &message);

    let err = apply_policy_change(
        &mut ledger,
        &cfg,
        &auth_keys(&cfg, 50),
        request(policy, 3, signature_base64),
        2_000,
    )
    .unwrap_err();
    assert!(matches!(
        err,
        PolicyAuthError::VersionMismatch {
            expected: 2,
            got: 3
        }
    ));
}

#[test]
fn a_replayed_old_signature_cannot_reapply_after_the_version_has_moved_on() {
    let cfg = test_wallet_config(12960);
    let (_, hardware_xprv) = test_key_spec_with_xpriv(0x01);
    let secp = Secp256k1::new();

    let mut ledger = Ledger::new();
    ledger.load_or_seed_policy_state("{}".to_string(), 1_000);

    // Legitimately apply version 2.
    let policy_v2 = generous_policy(500_000);
    let message_v2 = said(2, &policy_v2);
    let sig_v2 = sign_message(&hardware_xprv, &secp, &message_v2);
    apply_policy_change(
        &mut ledger,
        &cfg,
        &auth_keys(&cfg, 50),
        request(policy_v2, 2, sig_v2.clone()),
        2_000,
    )
    .unwrap();

    // Legitimately apply version 3, tightening the cap back down.
    let policy_v3 = generous_policy(1_000);
    let message_v3 = said(3, &policy_v3);
    let sig_v3 = sign_message(&hardware_xprv, &secp, &message_v3);
    apply_policy_change(
        &mut ledger,
        &cfg,
        &auth_keys(&cfg, 50),
        request(policy_v3, 3, sig_v3),
        3_000,
    )
    .unwrap();

    // Replaying the old version-2 signature (which *is* a genuine HARDWARE signature) must
    // not be able to loosen the cap again, since it targets a version number that's no
    // longer the expected next one.
    let err = apply_policy_change(
        &mut ledger,
        &cfg,
        &auth_keys(&cfg, 50),
        request(generous_policy(500_000), 2, sig_v2),
        4_000,
    )
    .unwrap_err();
    assert!(matches!(err, PolicyAuthError::VersionMismatch { .. }));

    let state = ledger.get_policy_state().unwrap();
    assert_eq!(state.version, 3, "must still be at version 3");
}

#[test]
fn rejects_an_invalid_proposed_policy_before_checking_the_signature() {
    let cfg = test_wallet_config(12960);
    let mut ledger = Ledger::new();
    ledger.load_or_seed_policy_state("{}".to_string(), 1_000);

    let mut invalid = generous_policy(500_000);
    invalid.destination_whitelist = Some(vec!["not-an-address".to_string()]);

    let err = apply_policy_change(
        &mut ledger,
        &cfg,
        &auth_keys(&cfg, 50),
        request(invalid, 2, "not-a-signature".to_string()),
        2_000,
    )
    .unwrap_err();
    assert!(matches!(err, PolicyAuthError::InvalidPolicy(_)));
}

#[test]
fn network_mismatch_is_still_caught_regardless_of_this_module() {
    // Sanity check that we're relying on PolicyConfig::compile's own network validation
    // rather than re-implementing it - see `policy.rs` for the exhaustive tests of that.
    let cfg = generous_policy(1);
    assert!(cfg.compile(ChainNetwork::Regtest).is_ok());
}

#[test]
fn the_canonical_message_is_exact() {
    let mut policy = generous_policy(1);
    policy.max_daily_sat = 2;
    policy.max_weekly_sat = 3;
    policy.max_monthly_sat = 4;
    policy.max_fee_sat = 5;
    policy.max_fee_rate_sat_per_vb = FeeRate { bits: 6.5f64.to_bits() };
    policy.destination_whitelist = Some(vec!["x".to_string(), "y".to_string()]);
    let text = said(7, &policy);
    let lines: Vec<&str> = text.lines().collect();
    assert!(lines.contains(&"version: 7"), "{text}");
    assert!(lines.contains(&"max_daily_sat: 2"), "{text}");
    assert!(lines.contains(&"max_fee_rate_sat_per_vb: 6.5"), "{text}");
    assert!(text.contains("x") && text.contains("y"));
}

#[test]
fn the_next_policy_is_kept_in_the_ledger() {
    let cfg = test_wallet_config(12960);
    let hardware = test_key_spec_with_xpriv(0x01).1;
    let mut ledger = Ledger::new();
    ledger.load_or_seed_policy_state("{}".to_string(), 1_000);
    let policy = generous_policy(9);
    let sig = sign_message(&hardware, &Secp256k1::new(), &said(2, &policy));
    apply_policy_change(
        &mut ledger,
        &cfg,
        &auth_keys(&cfg, 5),
        request(policy, 2, sig),
        2_000,
    )
    .unwrap();
    let state = ledger.get_policy_state().unwrap();
    assert_eq!(state.policy_json, "{\"max_tx_sat\":9}");
    assert_eq!(state.updated_at, 2_000);
}

#[test]
fn a_ledger_without_a_policy_takes_no_change() {
    let cfg = test_wallet_config(12960);
    let mut ledger = Ledger::new();
    let err = apply_policy_change(
        &mut ledger,
        &cfg,
        &auth_keys(&cfg, 5),
        request(generous_policy(1), 1, String::new()),
        0,
    )
    .unwrap_err();
    assert!(matches!(err, PolicyAuthError::Unseeded | PolicyAuthError::VersionMismatch { .. }));
}

#[test]
fn a_malformed_signature_is_told_apart_from_a_strangers() {
    let cfg = test_wallet_config(12960);
    let keys = auth_keys(&cfg, 5);
    assert_eq!(keys.verify("m", "not base64").unwrap_err(), PolicyAuthError::MalformedSignature);
    assert_eq!(keys.verify("m", "").unwrap_err(), PolicyAuthError::MalformedSignature);
    let cause = MessageSignature::from_base64("not base64").unwrap_err();
    assert_eq!(explain_signature("m", "not base64"), cause.to_string());
    assert_eq!(
        explain_unfreeze(PolicyAuthError::MalformedSignature, 1, "not base64"),
        format!("signature does not decode as a valid Bitcoin signed message: {cause}")
    );
    assert!(!keys.is_empty());
    let err = HardwareAuthKeys::precompute("nonsense", 5).err().unwrap();
    assert_eq!(err, AuthKeysError::InvalidXpub);
    assert_eq!(err.message(), "keys.hardware.xpub");
}

#[test]
fn unfreezing_takes_a_signature_on_this_very_freeze() {
    let cfg = test_wallet_config(12960);
    let keys = auth_keys(&cfg, 5);
    let secp = Secp256k1::new();
    let hardware = test_key_spec_with_xpriv(0x01).1;
    let mut ledger = Ledger::new();
    ledger.set_frozen(true, 10, None);
    let first = sign_message(&hardware, &secp, &canonical_unfreeze_message(1));
    assert!(verify_unfreeze_authorization(&keys, 1, &first).is_ok());
    assert_eq!(unfreeze(&mut ledger, &keys, &first, 11).unwrap(), 1);
    assert!(!ledger.is_frozen());
    let state = ledger.freeze.as_ref().unwrap();
    assert_eq!((state.changed_at, &state.reason), (11, &None));
    assert_eq!(explain_signature(&canonical_unfreeze_message(1), &first), "");
    // The same signature does not lift the next freeze.
    ledger.set_frozen(true, 12, None);
    assert_eq!(
        unfreeze(&mut ledger, &keys, &first, 13).unwrap_err(),
        PolicyAuthError::UnauthorizedSigner
    );
    assert!(ledger.is_frozen());
    assert_eq!(ledger.freeze_generation(), 2);
}

#[test]
fn a_bad_whitelist_is_named_in_the_refusal() {
    let cfg = test_wallet_config(12960);
    let mut ledger = Ledger::new();
    ledger.load_or_seed_policy_state("{}".to_string(), 1_000);
    let mut policy = generous_policy(1);
    policy.destination_whitelist = Some(vec!["nonsense".to_string()]);
    let told = explain_change(
        PolicyAuthError::InvalidPolicy(PolicyError::MalformedAddress { entry: 0 }),
        &request(policy.clone(), 2, String::new()),
    );
    assert_eq!(
        told,
        "proposed policy is invalid: policy.destination_whitelist entry \"nonsense\" is not a \
         valid address"
    );
    let err = apply_policy_change(
        &mut ledger,
        &cfg,
        &auth_keys(&cfg, 5),
        request(policy, 2, String::new()),
        0,
    )
    .unwrap_err();
    assert_eq!(err, PolicyAuthError::InvalidPolicy(PolicyError::MalformedAddress { entry: 0 }));
    assert_eq!(
        PolicyError::WrongNetwork { entry: 0, network: ChainNetwork::Signet }.message("bc1q"),
        "policy.destination_whitelist entry \"bc1q\" is not valid for Signet"
    );
}
