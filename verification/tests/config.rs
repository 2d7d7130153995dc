//! The configuration and its checks.

use std::str::FromStr;

use bitcoin::bip32::{DerivationPath, Xpriv, Xpub};
use bitcoin::secp256k1::Secp256k1;
use cosigner::config::{
    default_gap_limit, default_smtp_port, default_sweep_interval_seconds, BitcoindConfig,
    ChainNetwork, ConfigError, KeyProblem, KeySpec, KeysConfig, NetworkKind, NotifyConfig,
    NtfyConfig, Role, Section, ServerConfig, ServerSigningConfig, WalletConfig,
};
use cosigner::policy::{FeeRate, PolicyConfig, PolicyError};

fn test_key_spec_with_xpriv(seed: u8) -> (KeySpec, Xpriv) {
    let secp = Secp256k1::new();
    let master = Xpriv::new_master(bitcoin::NetworkKind::Test, &[seed; 32]).unwrap();
    let path = "48h/1h/0h/2h";
    let account = master
        .derive_priv(&secp, &DerivationPath::from_str(path).unwrap())
        .unwrap();
    let spec = KeySpec {
        master_fingerprint: master.fingerprint(&secp).to_string(),
        derivation_path: path.to_string(),
        xpub: Xpub::from_priv(&secp, &account).to_string(),
    };
    (spec, account)
}

fn test_wallet_config(timelock_blocks: u16) -> WalletConfig {
    WalletConfig {
        network: ChainNetwork::Signet,
        i_understand_this_is_mainnet: false,
        timelock_blocks,
        keys: KeysConfig {
            satochip: test_key_spec_with_xpriv(0x01).0,
            mobile: test_key_spec_with_xpriv(0x02).0,
            server: test_key_spec_with_xpriv(0x03).0,
        },
        bitcoind: None,
        server: None,
        policy: None,
        server_signing: None,
        notify: None,
    }
}

fn refusal(cfg: &WalletConfig) -> String {
    cfg.validate().unwrap_err().message(cfg)
}

fn rate(r: f64) -> FeeRate {
    FeeRate { bits: r.to_bits() }
}

#[test]
fn valid_config_passes() {
    let cfg = test_wallet_config(12960);
    assert!(cfg.validate().is_ok());
}

#[test]
fn mainnet_is_refused_without_explicit_opt_in() {
    let mut cfg = test_wallet_config(12960);
    cfg.network = ChainNetwork::Mainnet;
    let err = refusal(&cfg);
    assert!(err.contains("i_understand_this_is_mainnet"), "got: {err}");
}

#[test]
fn mainnet_opt_in_still_requires_mainnet_keys() {
    let mut cfg = test_wallet_config(12960);
    cfg.network = ChainNetwork::Mainnet;
    cfg.i_understand_this_is_mainnet = true;
    let err = refusal(&cfg);
    assert!(!err.contains("i_understand_this_is_mainnet"), "got: {err}");
    assert!(err.contains("network"), "got: {err}");
    assert_eq!(
        cfg.validate(),
        Err(ConfigError::Key {
            role: Role::Satochip,
            problem: KeyProblem::Network { xpub: NetworkKind::Test },
        })
    );
}

#[test]
fn no_policy_section_is_valid() {
    let cfg = test_wallet_config(12960);
    assert!(cfg.policy.is_none());
    assert!(cfg.validate().is_ok());
}

#[test]
fn malformed_policy_whitelist_address_fails_validation() {
    let mut cfg = test_wallet_config(12960);
    cfg.policy = Some(PolicyConfig {
        max_tx_sat: 1,
        max_daily_sat: 1,
        max_weekly_sat: 1,
        max_monthly_sat: 1,
        max_fee_sat: 1,
        max_fee_rate_sat_per_vb: rate(1.0),
        destination_whitelist: Some(vec!["not-an-address".to_string()]),
    });
    let err = refusal(&cfg);
    assert!(err.contains("policy"), "got: {err}");
    assert_eq!(
        cfg.validate(),
        Err(ConfigError::Policy(PolicyError::MalformedAddress { entry: 0 }))
    );
}

#[test]
fn no_notify_section_is_valid() {
    let cfg = test_wallet_config(12960);
    assert!(cfg.notify.is_none());
    assert!(cfg.validate().is_ok());
}

#[test]
fn notify_without_any_channel_fails_validation() {
    let mut cfg = test_wallet_config(12960);
    cfg.notify = Some(NotifyConfig {
        hold_seconds: 300,
        sweep_interval_seconds: 5,
        ntfy: None,
        smtp: None,
    });
    let err = refusal(&cfg);
    assert!(err.contains("notify"), "got: {err}");
    assert_eq!(cfg.validate(), Err(ConfigError::NoNotifyChannel));
}

#[test]
fn notify_with_ntfy_channel_and_zero_hold_is_valid() {
    let mut cfg = test_wallet_config(12960);
    cfg.notify = Some(NotifyConfig {
        hold_seconds: 0,
        sweep_interval_seconds: 5,
        ntfy: Some(NtfyConfig {
            url: "https://ntfy.sh/example".to_string(),
            auth_token: None,
        }),
        smtp: None,
    });
    assert!(cfg.validate().is_ok());
}

#[test]
fn notify_rejects_negative_hold_seconds() {
    let mut cfg = test_wallet_config(12960);
    cfg.notify = Some(NotifyConfig {
        hold_seconds: -1,
        sweep_interval_seconds: 5,
        ntfy: Some(NtfyConfig {
            url: "https://ntfy.sh/example".to_string(),
            auth_token: None,
        }),
        smtp: None,
    });
    let err = refusal(&cfg);
    assert!(err.contains("notify"), "got: {err}");
    assert_eq!(cfg.validate(), Err(ConfigError::NegativeHold));
}

#[test]
fn rejects_zero_timelock() {
    let cfg = test_wallet_config(0);
    let err = refusal(&cfg);
    assert!(err.contains("timelock_blocks"), "got: {err}");
}

#[test]
fn rejects_duplicate_fingerprint() {
    let mut cfg = test_wallet_config(12960);
    cfg.keys.server.master_fingerprint = cfg.keys.satochip.master_fingerprint.clone();
    assert!(cfg.validate().is_err());
    assert_eq!(cfg.validate(), Err(ConfigError::DuplicateFingerprint));
}

#[test]
fn rejects_duplicate_xpub() {
    let mut cfg = test_wallet_config(12960);
    cfg.keys.server.xpub = cfg.keys.satochip.xpub.clone();
    assert!(cfg.validate().is_err());
    assert_eq!(cfg.validate(), Err(ConfigError::DuplicateXpub));
}

#[test]
fn rejects_malformed_fingerprint() {
    let mut cfg = test_wallet_config(12960);
    cfg.keys.satochip.master_fingerprint = "not-hex!".to_string();
    assert!(cfg.validate().is_err());
}

#[test]
fn rejects_short_fingerprint() {
    let mut cfg = test_wallet_config(12960);
    cfg.keys.satochip.master_fingerprint = "abcd".to_string();
    assert!(cfg.validate().is_err());
}

#[test]
fn rejects_xpub_depth_path_mismatch() {
    let mut cfg = test_wallet_config(12960);
    cfg.keys.satochip.derivation_path = "48h/1h/0h".to_string();
    let err = refusal(&cfg);
    assert!(err.contains("depth"), "got: {err}");
    assert_eq!(
        cfg.validate(),
        Err(ConfigError::Key {
            role: Role::Satochip,
            problem: KeyProblem::Depth { depth: 4, steps: 3 },
        })
    );
}

#[test]
fn rejects_garbage_xpub() {
    let mut cfg = test_wallet_config(12960);
    cfg.keys.satochip.xpub = "not-an-xpub".to_string();
    assert!(cfg.validate().is_err());
}

#[test]
fn rejects_garbage_derivation_path() {
    let mut cfg = test_wallet_config(12960);
    cfg.keys.satochip.derivation_path = "not-a-path".to_string();
    assert!(cfg.validate().is_err());
}

#[test]
fn a_fingerprint_is_compared_without_case_or_white_space() {
    let mut cfg = test_wallet_config(12960);
    let upper = cfg.keys.satochip.master_fingerprint.to_uppercase();
    cfg.keys.satochip.master_fingerprint = format!(" {upper}\n");
    assert_eq!(cfg.validate(), Ok(()));
    cfg.keys.server.master_fingerprint = upper;
    assert_eq!(cfg.validate(), Err(ConfigError::DuplicateFingerprint));
}

#[test]
fn the_node_is_reached_in_exactly_one_way() {
    let mut cfg = test_wallet_config(12960);
    let mut node = BitcoindConfig {
        rpc_url: "http://127.0.0.1:38332".to_string(),
        rpc_cookie_file: None,
        rpc_user: None,
        rpc_password: None,
    };
    cfg.bitcoind = Some(node.clone());
    assert_eq!(cfg.validate(), Err(ConfigError::BitcoindAuthMissing));
    node.rpc_user = Some("u".to_string());
    cfg.bitcoind = Some(node.clone());
    assert_eq!(cfg.validate(), Err(ConfigError::BitcoindAuthIncomplete));
    node.rpc_cookie_file = Some("/c".to_string());
    cfg.bitcoind = Some(node.clone());
    assert_eq!(cfg.validate(), Err(ConfigError::BitcoindAuthTwice));
    node.rpc_user = None;
    cfg.bitcoind = Some(node);
    assert_eq!(cfg.validate(), Ok(()));
}

#[test]
fn the_servers_key_has_exactly_one_place() {
    let mut cfg = test_wallet_config(12960);
    cfg.server_signing = Some(ServerSigningConfig { xprv_file: None, xprv_env_var: None });
    assert_eq!(cfg.validate(), Err(ConfigError::SigningKeyMissing));
    cfg.server_signing = Some(ServerSigningConfig {
        xprv_file: Some("/k".to_string()),
        xprv_env_var: Some("K".to_string()),
    });
    assert_eq!(cfg.validate(), Err(ConfigError::SigningKeyTwice));
}

#[test]
fn a_missing_section_is_named() {
    let mut cfg = test_wallet_config(12960);
    assert_eq!(
        cfg.require_server_config().unwrap_err(),
        ConfigError::MissingSection(Section::Bitcoind)
    );
    assert_eq!(
        cfg.require_signing_config().unwrap_err(),
        ConfigError::MissingSection(Section::Policy)
    );
    assert_eq!(
        cfg.require_notify_config().unwrap_err(),
        ConfigError::MissingSection(Section::Notify)
    );
    cfg.bitcoind = Some(BitcoindConfig {
        rpc_url: String::new(),
        rpc_cookie_file: Some("/c".to_string()),
        rpc_user: None,
        rpc_password: None,
    });
    assert_eq!(
        cfg.require_server_config().unwrap_err(),
        ConfigError::MissingSection(Section::Server)
    );
    cfg.server = Some(ServerConfig {
        bind_addr: "127.0.0.1:8080".to_string(),
        gap_limit: 20,
        ledger_db_path: None,
    });
    assert!(cfg.require_server_config().is_ok());
}

#[test]
fn what_is_not_configured_has_a_default() {
    assert_eq!(default_gap_limit(), 1000);
    assert_eq!(default_smtp_port(), 587);
    assert_eq!(default_sweep_interval_seconds(), 5);
}

#[test]
fn only_the_main_network_has_keys_of_its_own() {
    assert_eq!(ChainNetwork::Mainnet.xpub_network_kind(), NetworkKind::Main);
    assert_eq!(ChainNetwork::Testnet.xpub_network_kind(), NetworkKind::Test);
    assert_eq!(ChainNetwork::Signet.xpub_network_kind(), NetworkKind::Test);
    assert_eq!(ChainNetwork::Regtest.xpub_network_kind(), NetworkKind::Test);
    assert_eq!(ChainNetwork::Mainnet.to_bitcoin_network(), bitcoin::Network::Bitcoin);
    assert_eq!(ChainNetwork::Testnet.to_bitcoin_network(), bitcoin::Network::Testnet);
    assert_eq!(ChainNetwork::Signet.to_bitcoin_network(), bitcoin::Network::Signet);
    assert_eq!(ChainNetwork::Regtest.to_bitcoin_network(), bitcoin::Network::Regtest);
}

#[test]
fn the_cause_says_what_is_behind_an_error() {
    let mut cfg = test_wallet_config(144);
    cfg.notify = Some(NotifyConfig {
        hold_seconds: -1,
        sweep_interval_seconds: 5,
        ntfy: None,
        smtp: None,
    });
    let e = cfg.validate().unwrap_err();
    assert_eq!(e.message(&cfg), "[notify]");
    assert_eq!(e.cause(&cfg).unwrap(), "notify.hold_seconds must not be negative");
    cfg.notify.as_mut().unwrap().hold_seconds = 0;
    let e = cfg.validate().unwrap_err();
    assert!(e.cause(&cfg).unwrap().starts_with("notify: at least one of [notify.ntfy]"));
    cfg.notify = None;
    cfg.keys.mobile.xpub = "nonsense".to_string();
    let e = cfg.validate().unwrap_err();
    let cause = bitcoin::bip32::Xpub::from_str("nonsense").unwrap_err();
    assert_eq!(e.cause(&cfg).unwrap(), cause.to_string());
    cfg.timelock_blocks = 0;
    assert_eq!(cfg.validate().unwrap_err().cause(&cfg), None);
}
