//! The wallet's descriptor, its addresses, and which scripts are its own.

use std::str::FromStr;

use bitcoin::bip32::{DerivationPath, Xpriv, Xpub};
use bitcoin::secp256k1::Secp256k1;
use cosigner::config::{ChainNetwork, ConfigError, KeySpec, KeysConfig, WalletConfig};
use cosigner::descriptor::{
    address_at, build_descriptor, definite_keys, find_owner, find_role_key, parse_descriptor,
    policy_string, role_keys_at, script_at, witness_script_at, Chain, DescriptorError, Owned,
};
use cosigner::invariants::{
    generic_labeled_keys, role_labeled_keys, run_invariants, show_report, verify_invariants,
};
use miniscript::descriptor::DescriptorType;
use miniscript::{Descriptor, DescriptorPublicKey};

fn test_key_spec_with_xpriv(seed: u8) -> (KeySpec, Xpriv) {
    let secp = Secp256k1::new();
    let master = Xpriv::new_master(bitcoin::NetworkKind::Test, &[seed; 32]).unwrap();
    let path = "48h/1h/0h/2h";
    let account = master
        .derive_priv(&secp, &DerivationPath::from_str(path).unwrap())
        .unwrap();
    let spec = KeySpec {
        master_fingerprint: master.fingerprint(&secp).to_string(),
        derivation_path: path.to_string(),
        xpub: Xpub::from_priv(&secp, &account).to_string(),
    };
    (spec, account)
}

fn test_wallet_config(timelock_blocks: u16) -> WalletConfig {
    WalletConfig {
        network: ChainNetwork::Signet,
        i_understand_this_is_mainnet: false,
        timelock_blocks,
        keys: KeysConfig {
            satochip: test_key_spec_with_xpriv(0x01).0,
            mobile: test_key_spec_with_xpriv(0x02).0,
            server: test_key_spec_with_xpriv(0x03).0,
        },
        bitcoind: None,
        server: None,
        policy: None,
        server_signing: None,
        notify: None,
    }
}

#[test]
fn builds_expected_wsh_shape() {
    let cfg = test_wallet_config(12960);
    let built = build_descriptor(&cfg).expect("should build");

    let s = built.multipath().to_string();
    let read = Descriptor::<DescriptorPublicKey>::from_str(&s).unwrap();
    assert_eq!(read.desc_type(), DescriptorType::Wsh);
    assert!(s.starts_with("wsh(thresh(2,pk("), "got: {s}");
    assert!(s.contains(",s:pk("), "got: {s}");
    assert!(s.contains(",snj:and_v(v:pk("), "got: {s}");
    assert!(s.contains(",older(12960))))"), "got: {s}");
    assert!(s.contains("<0;1>/*"), "got: {s}");
    assert_eq!(read.to_string(), s);
}

#[test]
fn splits_into_distinct_external_and_internal_descriptors() {
    let cfg = test_wallet_config(12960);
    let built = build_descriptor(&cfg).unwrap();
    assert_ne!(built.external(), built.internal());
    let external = Descriptor::<DescriptorPublicKey>::from_str(built.external()).unwrap();
    let internal = Descriptor::<DescriptorPublicKey>::from_str(built.internal()).unwrap();
    assert!(!external.is_multipath());
    assert!(!internal.is_multipath());

    let receive0 = address_at(built.external(), 0, cfg.network).unwrap();
    let change0 = address_at(built.internal(), 0, cfg.network).unwrap();
    assert_ne!(receive0, change0);
}

#[test]
fn address_derivation_is_deterministic() {
    let cfg = test_wallet_config(12960);
    let built = build_descriptor(&cfg).unwrap();
    let a = address_at(built.external(), 5, cfg.network).unwrap();
    let b = address_at(built.external(), 5, cfg.network).unwrap();
    assert_eq!(a, b);
    let c = address_at(built.external(), 6, cfg.network).unwrap();
    assert_ne!(a, c);
}

#[test]
fn rejects_config_that_fails_validation() {
    let mut cfg = test_wallet_config(0);
    cfg.timelock_blocks = 0;
    assert!(build_descriptor(&cfg).is_err());
    assert_eq!(
        build_descriptor(&cfg).unwrap_err(),
        DescriptorError::Config(ConfigError::ZeroTimelock)
    );
}

#[test]
fn parse_descriptor_accepts_a_multipath_string_and_splits_it() {
    let cfg = test_wallet_config(12960);
    let built = build_descriptor(&cfg).unwrap();
    let parsed = parse_descriptor(built.multipath()).unwrap();
    assert_eq!(parsed, built.external());
}

#[test]
fn parse_descriptor_rejects_garbage() {
    assert!(parse_descriptor("not a descriptor").is_err());
}

#[test]
fn parse_descriptor_rejects_wrong_checksum() {
    let cfg = test_wallet_config(12960);
    let built = build_descriptor(&cfg).unwrap();
    let mut s = built.external().to_string();
    s.push('x');
    assert!(parse_descriptor(&s).is_err());
    assert_eq!(parse_descriptor(&s).unwrap_err(), DescriptorError::Parse);
}

#[test]
fn find_owner_locates_external_and_internal_scripts() {
    let cfg = test_wallet_config(12960);
    let mut built = build_descriptor(&cfg).unwrap();

    let receive3 = script_at(built.external(), 3).unwrap();
    let owned = find_owner(&mut built, &receive3, 10).unwrap().expect("should find it");
    assert_eq!(owned, Owned { chain: Chain::External, index: 3 });

    let change7 = script_at(built.internal(), 7).unwrap();
    let owned = find_owner(&mut built, &change7, 10).unwrap().expect("should find it");
    assert_eq!(owned, Owned { chain: Chain::Internal, index: 7 });
}

#[test]
fn find_owner_respects_the_gap_limit() {
    let cfg = test_wallet_config(12960);
    let mut built = build_descriptor(&cfg).unwrap();
    let receive50 = script_at(built.external(), 50).unwrap();
    assert!(find_owner(&mut built, &receive50, 10).unwrap().is_none());
    assert!(find_owner(&mut built, &receive50, 51).unwrap().is_some());
}

#[test]
fn changing_the_gap_limit_invalidates_the_cache_in_both_directions() {
    let cfg = test_wallet_config(12960);
    let mut built = build_descriptor(&cfg).unwrap();
    let far = script_at(built.external(), 40).unwrap();

    assert!(find_owner(&mut built, &far, 50).unwrap().is_some());
    assert!(
        find_owner(&mut built, &far, 10).unwrap().is_none(),
        "a narrower gap limit must not answer from a wider cache"
    );
    assert!(
        find_owner(&mut built, &far, 50).unwrap().is_some(),
        "a wider gap limit must rebuild rather than answer from the narrow cache"
    );
}

#[test]
fn a_clone_shares_the_built_index() {
    let cfg = test_wallet_config(12960);
    let mut built = build_descriptor(&cfg).unwrap();
    let script = script_at(built.external(), 3).unwrap();

    find_owner(&mut built, &script, 25).unwrap();
    let mut clone = built.clone();
    let shown = format!("{clone:?}");
    assert!(
        shown.contains("gap_limit: 25"),
        "the clone must see the already-built index, not an empty one"
    );
    assert_eq!(
        find_owner(&mut clone, &script, 25).unwrap(),
        Some(Owned { chain: Chain::External, index: 3 })
    );
}

#[test]
fn find_owner_returns_none_for_a_foreign_script() {
    let cfg = test_wallet_config(12960);
    let mut built = build_descriptor(&cfg).unwrap();
    let foreign = vec![0u8; 34];
    assert!(find_owner(&mut built, &foreign, 25).unwrap().is_none());
}

#[test]
fn the_policy_is_written_out_with_its_keys_in_their_roles() {
    assert_eq!(
        policy_string("H", "S", "M", 144),
        "wsh(thresh(2,pk(H),s:pk(S),snj:and_v(v:pk(M),older(144))))"
    );
}

#[test]
fn a_role_key_is_the_child_of_the_roles_extended_key() {
    let cfg = test_wallet_config(12960);
    let built = build_descriptor(&cfg).unwrap();
    let secp = Secp256k1::new();
    let child = |xpub: &str, chain: u32, index: u32| {
        let path = DerivationPath::from_str(&format!("m/{chain}/{index}")).unwrap();
        let x = Xpub::from_str(xpub).unwrap().derive_pub(&secp, &path).unwrap();
        x.public_key.serialize().to_vec()
    };
    let keys = role_keys_at(&built, &cfg, Chain::Internal, 9).unwrap();
    assert_eq!(keys.hardware, child(&cfg.keys.satochip.xpub, 1, 9));
    assert_eq!(keys.server, child(&cfg.keys.server.xpub, 1, 9));
    assert_eq!(keys.mobile, child(&cfg.keys.mobile.xpub, 1, 9));

    let all = definite_keys(built.external(), 0).unwrap();
    assert_eq!(all.len(), 3);
    assert_eq!(
        find_role_key(&all, &cfg.keys.mobile.xpub).unwrap(),
        child(&cfg.keys.mobile.xpub, 0, 0)
    );
    let stranger = test_key_spec_with_xpriv(0x44).0;
    let missing = find_role_key(&all, &stranger.xpub).unwrap_err();
    assert_eq!(
        missing.message(),
        format!("key for xpub {} not found in descriptor", stranger.xpub)
    );
    assert_eq!(missing, DescriptorError::MissingRoleKey { xpub: stranger.xpub });
    let nonsense = find_role_key(&all, &"nonsense".to_string()).unwrap_err();
    assert_eq!(nonsense, DescriptorError::RoleKey { xpub: "nonsense".to_string() });
    assert_eq!(
        nonsense.message(),
        "role xpub nonsense is not a valid extended public key"
    );
}

#[test]
fn an_output_script_commits_to_its_witness_script() {
    let cfg = test_wallet_config(12960);
    let built = build_descriptor(&cfg).unwrap();
    let script = script_at(built.external(), 2).unwrap();
    let witness = bitcoin::ScriptBuf::from_bytes(witness_script_at(built.external(), 2).unwrap());
    assert_eq!(script, witness.to_p2wsh().to_bytes());
    let address = address_at(built.external(), 2, ChainNetwork::Signet).unwrap();
    assert_eq!(
        bitcoin::Address::from_str(&address).unwrap().assume_checked().script_pubkey().to_bytes(),
        script
    );
}

#[test]
fn a_text_that_is_no_descriptor_has_no_scripts() {
    assert_eq!(script_at("nonsense", 7).unwrap_err(), DescriptorError::Derive { index: 7 });
    assert_eq!(witness_script_at("nonsense", 7).unwrap_err(), DescriptorError::Derive { index: 7 });
    assert_eq!(
        address_at("nonsense", 7, ChainNetwork::Signet).unwrap_err(),
        DescriptorError::Derive { index: 7 }
    );
}

#[test]
fn the_wallet_keeps_what_it_promises() {
    let cfg = test_wallet_config(144);
    let built = build_descriptor(&cfg).unwrap();
    let report = run_invariants(&built, &cfg).unwrap();
    assert!(report.no_single_key_can_spend);
    assert!(report.exactly_one_immediate_path);
    assert!(report.at_least_one_timelocked_path);
    assert!(report.timelock_boundary_holds);
    assert!(report.every_pair_can_eventually_spend);
    assert!(report.all_invariants_hold());
    assert_eq!(report.key_labels, vec!["satochip", "server", "mobile"]);
    let pairs: Vec<(&str, &str, bool, bool)> = report
        .pairs
        .iter()
        .map(|p| {
            (p.first.as_str(), p.second.as_str(), p.spends_immediately, p.spends_after_timelock)
        })
        .collect();
    assert_eq!(
        pairs,
        vec![
            ("satochip", "server", true, true),
            ("satochip", "mobile", false, true),
            ("server", "mobile", false, true),
        ]
    );

    let text = show_report(&report, built.timelock_blocks());
    assert!(text.contains("== Invariant report (timelock = 144 blocks) =="), "{text}");
    assert!(text.contains("keys: satochip, server, mobile\n"), "{text}");
    assert!(
        text.contains("  satochip + server: immediate=true after_timelock=true\n"),
        "{text}"
    );
    assert!(text.contains("ALL INVARIANTS HOLD: PASS\n"), "{text}");
}

#[test]
fn a_descriptor_that_one_key_spends_does_not_pass() {
    let cfg = test_wallet_config(144);
    let built = build_descriptor(&cfg).unwrap();
    let keys = role_labeled_keys(built.external(), &cfg).unwrap();
    let loose = format!(
        "wsh(or_d(pk({}/0/*),and_v(v:pk({}/0/*),older(144))))",
        cfg.keys.satochip.xpub, cfg.keys.mobile.xpub
    );
    let all = definite_keys(&loose, 0).unwrap();
    let named = generic_labeled_keys(&all);
    assert_eq!(named[0].label, "key1");
    assert_eq!(named[1].label, "key2");
    let report = verify_invariants(&loose, 0, &named, 144).unwrap();
    assert!(!report.no_single_key_can_spend);
    assert!(!report.all_invariants_hold());
    assert!(show_report(&report, 144).contains("ALL INVARIANTS HOLD: FAIL"));
    assert_eq!(
        verify_invariants("nonsense", 0, &keys, 144).unwrap_err(),
        DescriptorError::Derive { index: 0 }
    );
}
