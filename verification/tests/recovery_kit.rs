//! The encrypted backup, and the identity it is published under.

use std::str::FromStr;

use bitcoin::bip32::{DerivationPath, Xpriv, Xpub};
use bitcoin::secp256k1::Secp256k1;
use cosigner::config::{ChainNetwork, KeySpec, KeysConfig, ServerSigningConfig, WalletConfig};
use cosigner::nostr_kit::{derive_nostr_keys, identity_for, newest, FoundKit, NostrKitError};
use cosigner::recovery_kit::{
    check_passphrase_strength, contents, key_to_back_up, payload, seal, unseal, KitError,
    RecoveryKitPayload, PAYLOAD_VERSION,
};
use cosigner::signing::KeySource;
use nostr_sdk::FromBech32;

fn test_key_spec_with_xpriv(seed: u8) -> (KeySpec, Xpriv) {
    let secp = Secp256k1::new();
    let master = Xpriv::new_master(bitcoin::NetworkKind::Test, &[seed; 32]).unwrap();
    let path = "48h/1h/0h/2h";
    let account = master
        .derive_priv(&secp, &DerivationPath::from_str(path).unwrap())
        .unwrap();
    let spec = KeySpec {
        master_fingerprint: master.fingerprint(&secp).to_string(),
        derivation_path: path.to_string(),
        xpub: Xpub::from_priv(&secp, &account).to_string(),
    };
    (spec, account)
}

fn test_wallet_config(timelock_blocks: u16) -> WalletConfig {
    WalletConfig {
        network: ChainNetwork::Signet,
        i_understand_this_is_mainnet: false,
        timelock_blocks,
        keys: KeysConfig {
            satochip: test_key_spec_with_xpriv(0x01).0,
            mobile: test_key_spec_with_xpriv(0x02).0,
            server: test_key_spec_with_xpriv(0x03).0,
        },
        bitcoind: None,
        server: None,
        policy: None,
        server_signing: None,
        notify: None,
    }
}

const PASSPHRASE: &str = "correct horse battery staple";

/// The payload as it is kept.
fn written(p: &RecoveryKitPayload) -> Vec<u8> {
    let mut map = serde_json::Map::new();
    map.insert("version".to_string(), p.version.into());
    map.insert("created_at".to_string(), p.created_at.into());
    map.insert("wallet_toml".to_string(), p.wallet_toml.clone().into());
    map.insert("server_xprv".to_string(), p.server_xprv.clone().into());
    serde_json::to_vec(&serde_json::Value::Object(map)).unwrap()
}

fn read(bytes: &[u8]) -> RecoveryKitPayload {
    let v: serde_json::Value = serde_json::from_slice(bytes).unwrap();
    RecoveryKitPayload {
        version: v["version"].as_u64().unwrap() as u32,
        created_at: v["created_at"].as_i64().unwrap(),
        wallet_toml: v["wallet_toml"].as_str().unwrap().to_string(),
        server_xprv: v["server_xprv"].as_str().unwrap().to_string(),
    }
}

#[test]
fn export_then_import_round_trips_the_config_and_server_key() {
    let original_toml = "network = \"signet\"\n";
    let server_xprv = test_key_spec_with_xpriv(0x03).1;
    let p = payload(1_700_000_000, original_toml.to_string(), &format!("{server_xprv}\n"));

    let armored = seal(&written(&p), PASSPHRASE).unwrap();
    assert!(armored.starts_with("-----BEGIN AGE ENCRYPTED FILE-----"));

    let restored = contents(read(&unseal(&armored, PASSPHRASE).unwrap())).unwrap();
    assert_eq!(restored.wallet_toml, original_toml);
    assert_eq!(restored.server_xprv, server_xprv.to_string());
    assert!(restored.created_at > 0);
}

#[test]
fn import_with_wrong_passphrase_fails() {
    let armored = seal(&b"anything".to_vec(), PASSPHRASE).unwrap();
    let err = unseal(&armored, "wrong passphrase entirely").unwrap_err();
    assert!(err.message().contains("decryption failed"), "got: {err:?}");
}

#[test]
fn export_refuses_a_weak_passphrase() {
    let err = seal(&b"anything".to_vec(), "short").unwrap_err();
    assert!(err.message().contains("at least"), "got: {err:?}");
}

#[test]
fn export_refuses_a_config_with_no_server_signing_section() {
    let cfg = test_wallet_config(4320);
    let err = key_to_back_up(&cfg).unwrap_err();
    assert!(err.message().contains("server_signing"), "got: {err:?}");
}

#[test]
fn import_rejects_a_future_payload_version() {
    let p = RecoveryKitPayload {
        version: PAYLOAD_VERSION + 1,
        created_at: 1,
        wallet_toml: String::new(),
        server_xprv: String::new(),
    };
    let armored = seal(&written(&p), PASSPHRASE).unwrap();
    let err = contents(read(&unseal(&armored, PASSPHRASE).unwrap())).err().unwrap();
    assert!(err.message().contains("format version"), "got: {err:?}");
}

#[test]
fn the_key_to_back_up_is_the_one_that_signs() {
    let mut cfg = test_wallet_config(4320);
    cfg.server_signing = Some(ServerSigningConfig {
        xprv_file: Some("/keys/server.xprv".to_string()),
        xprv_env_var: None,
    });
    assert!(matches!(key_to_back_up(&cfg).unwrap(), KeySource::File("/keys/server.xprv")));
    cfg.server_signing = Some(ServerSigningConfig { xprv_file: None, xprv_env_var: None });
    assert_eq!(key_to_back_up(&cfg).unwrap_err(), KitError::NoSource);
}

#[test]
fn a_passphrase_is_counted_in_characters() {
    assert!(check_passphrase_strength("twelve chars").is_ok());
    assert_eq!(check_passphrase_strength("eleven char").unwrap_err(), KitError::WeakPassphrase);
    assert!(check_passphrase_strength("ääääääääääää").is_ok());
    assert_eq!(check_passphrase_strength("ääääääääääx").unwrap_err(), KitError::WeakPassphrase);
}

#[test]
fn what_is_no_backup_is_not_opened() {
    let err = unseal("nonsense", PASSPHRASE).unwrap_err();
    assert!(matches!(&err, KitError::Decryption(cause) if !cause.is_empty()), "{err:?}");
}

#[test]
fn derivation_is_deterministic_for_the_same_passphrase() {
    let a = derive_nostr_keys("correct horse battery staple").unwrap();
    let b = derive_nostr_keys("correct horse battery staple").unwrap();
    assert_eq!(a.public, b.public);
}

#[test]
fn different_passphrases_derive_different_identities() {
    let a = derive_nostr_keys("correct horse battery staple").unwrap();
    let b = derive_nostr_keys("another passphrase entirely").unwrap();
    assert_ne!(a.public, b.public);
}

#[test]
fn an_identity_is_one_key_in_three_spellings() {
    let id = identity_for(PASSPHRASE, &vec!["wss://nos.lol".to_string()]).unwrap();
    let secret = nostr_sdk::SecretKey::from_slice(&id.secret).unwrap();
    let keys = nostr_sdk::Keys::new(secret);
    assert_eq!(keys.public_key().to_bytes().to_vec(), id.public);
    assert_eq!(nostr_sdk::PublicKey::from_bech32(&id.npub).unwrap(), keys.public_key());
    assert_eq!(
        identity_for(PASSPHRASE, &vec![]).err().unwrap(),
        NostrKitError::NoRelays
    );
    assert_eq!(NostrKitError::NoRelays.message(), "at least one relay URL is required");
}

#[test]
fn the_newest_backup_is_taken() {
    let kit = |created_at: u64| FoundKit { created_at, content: format!("{created_at}") };
    assert_eq!(newest(&vec![]), None);
    assert_eq!(newest(&vec![kit(5), kit(9), kit(7)]), Some(1));
    let tie = newest(&vec![kit(9), kit(9)]).unwrap();
    assert_eq!(tie, 1);
}
