//! The server's own signature.

use std::collections::HashMap;
use std::str::FromStr;

use bitcoin::bip32::{DerivationPath, Xpriv, Xpub};
use bitcoin::secp256k1::Secp256k1;
use bitcoin::{Amount, ScriptBuf, Sequence, Txid, Witness};
use bitcoin::sighash::{EcdsaSighashType, SighashCache};
use cosigner::config::{ChainNetwork, KeySpec, KeysConfig, ServerSigningConfig, WalletConfig};
use cosigner::descriptor::{build_descriptor, role_keys_at, script_at, BuiltDescriptor, Chain};
use cosigner::inspect::{inspect, InputReport, InspectError, InspectionReport};
use cosigner::policy::{CompiledPolicy, FeeRate, PolicyConfig};
use cosigner::psbt::{OutPoint, Psbt, TxOut, Utxo, UtxoLookup};
use cosigner::signing::{
    sign_hot_inputs, KeyLoadError, KeySource, ServerSigningKey, SigningError,
};
use miniscript::descriptor::DefiniteDescriptorKey;
use miniscript::{Descriptor, DescriptorPublicKey};

fn test_key_spec_with_xpriv(seed: u8) -> (KeySpec, Xpriv) {
    let secp = Secp256k1::new();
    let master = Xpriv::new_master(bitcoin::NetworkKind::Test, &[seed; 32]).unwrap();
    let path = "48h/1h/0h/2h";
    let account = master
        .derive_priv(&secp, &DerivationPath::from_str(path).unwrap())
        .unwrap();
    let spec = KeySpec {
        master_fingerprint: master.fingerprint(&secp).to_string(),
        derivation_path: path.to_string(),
        xpub: Xpub::from_priv(&secp, &account).to_string(),
    };
    (spec, account)
}

fn test_wallet_config(timelock_blocks: u16) -> WalletConfig {
    WalletConfig {
        network: ChainNetwork::Signet,
        i_understand_this_is_mainnet: false,
        timelock_blocks,
        keys: KeysConfig {
            satochip: test_key_spec_with_xpriv(0x01).0,
            mobile: test_key_spec_with_xpriv(0x02).0,
            server: test_key_spec_with_xpriv(0x03).0,
        },
        bitcoind: None,
        server: None,
        policy: None,
        server_signing: None,
        notify: None,
    }
}

fn fake_txid(byte: u8) -> Txid {
    Txid::from_str(&format!("{byte:02x}").repeat(32)).unwrap()
}

fn tx(inputs: Vec<bitcoin::TxIn>, outputs: Vec<bitcoin::TxOut>) -> bitcoin::Transaction {
    bitcoin::Transaction {
        version: bitcoin::transaction::Version::TWO,
        lock_time: bitcoin::absolute::LockTime::ZERO,
        input: inputs,
        output: outputs,
    }
}

fn txin(outpoint: bitcoin::OutPoint, sequence: Sequence) -> bitcoin::TxIn {
    bitcoin::TxIn {
        previous_output: outpoint,
        script_sig: ScriptBuf::new(),
        sequence,
        witness: Witness::new(),
    }
}

fn foreign_script() -> ScriptBuf {
    let mut bytes = vec![0x00, 0x20];
    bytes.extend_from_slice(&[0xAB; 32]);
    ScriptBuf::from(bytes)
}

/// A wallet, and the outputs that the chain knows.
struct Fixture {
    cfg: WalletConfig,
    wallet: BuiltDescriptor,
    chain: HashMap<(String, u32), (u64, Vec<u8>, u32)>,
}

fn fixture(timelock_blocks: u16) -> Fixture {
    let cfg = test_wallet_config(timelock_blocks);
    let wallet = build_descriptor(&cfg).unwrap();
    Fixture { cfg, wallet, chain: HashMap::new() }
}

impl Fixture {
    fn insert(&mut self, outpoint: bitcoin::OutPoint, txout: &bitcoin::TxOut, confirmations: u32) {
        self.chain.insert(
            (outpoint.txid.to_string(), outpoint.vout),
            (txout.value.to_sat(), txout.script_pubkey.to_bytes(), confirmations),
        );
    }

    /// An output of the wallet itself, which the chain knows from now on.
    fn own_utxo(
        &mut self,
        chain: Chain,
        index: u32,
        outpoint: bitcoin::OutPoint,
        amount_sat: u64,
        confirmations: u32,
    ) -> bitcoin::TxOut {
        let script = script_at(self.wallet.chain(chain), index).unwrap();
        let txout = bitcoin::TxOut {
            value: Amount::from_sat(amount_sat),
            script_pubkey: ScriptBuf::from(script),
        };
        self.insert(outpoint, &txout, confirmations);
        txout
    }

    fn lookup(&self, outpoint: &OutPoint) -> UtxoLookup {
        match self.chain.get(&(outpoint.txid.clone(), outpoint.vout)) {
            Some((value, script, confirmations)) => UtxoLookup::Found(Utxo {
                txout: TxOut { value: *value, script_pubkey: script.clone() },
                confirmations: *confirmations,
            }),
            None => UtxoLookup::Missing,
        }
    }

    fn inspect(
        &mut self,
        psbt: &bitcoin::Psbt,
        gap_limit: u32,
    ) -> Result<InspectionReport, InspectError> {
        let read = Psbt::read(&psbt.to_string()).unwrap();
        let mut lookups = Vec::new();
        for input in &read.unsigned_tx.input {
            lookups.push(self.lookup(&input.previous_output));
        }
        let found = inspect(&read, &mut self.wallet, &self.cfg, &lookups, gap_limit)?;
        let rate = found.fee as f64 / found.estimated_vsize as f64;
        Ok(found.with_fee_rate(FeeRate { bits: rate.to_bits() }))
    }
}

fn server_key(cfg: &WalletConfig) -> ServerSigningKey {
    let account = test_key_spec_with_xpriv(0x03).1;
    ServerSigningKey::load(&format!("{account}\n"), &cfg.keys.server.xpub).unwrap()
}

fn policy_with_caps(
    network: ChainNetwork,
    max_tx_sat: u64,
    max_daily_sat: u64,
) -> CompiledPolicy {
    PolicyConfig {
        max_tx_sat,
        max_daily_sat,
        max_weekly_sat: u64::MAX,
        max_monthly_sat: u64::MAX,
        max_fee_sat: u64::MAX,
        max_fee_rate_sat_per_vb: FeeRate { bits: f64::MAX.to_bits() },
        destination_whitelist: None,
    }
    .compile(network)
    .unwrap()
}

fn spend(
    f: &mut Fixture,
    sequence: Sequence,
    txid_byte: u8,
    index: u32,
    amount_sat: u64,
    fee_sat: u64,
) -> bitcoin::Psbt {
    let outpoint = bitcoin::OutPoint::new(fake_txid(txid_byte), 0);
    let ours = f.own_utxo(Chain::External, index, outpoint, amount_sat, 6);
    let dest = bitcoin::TxOut {
        value: Amount::from_sat(amount_sat - fee_sat),
        script_pubkey: foreign_script(),
    };
    let mut psbt =
        bitcoin::Psbt::from_unsigned_tx(tx(vec![txin(outpoint, sequence)], vec![dest])).unwrap();
    psbt.inputs[0].witness_utxo = Some(ours);
    psbt
}

/// A spend that no relative timelock is satisfied for, and what it is found to be.
fn hot_psbt(
    f: &mut Fixture,
    txid_byte: u8,
    index: u32,
    amount_sat: u64,
    fee_sat: u64,
) -> (Psbt, InspectionReport) {
    let psbt =
        spend(f, Sequence::ENABLE_RBF_NO_LOCKTIME, txid_byte, index, amount_sat, fee_sat);
    let report = f.inspect(&psbt, 50).unwrap();
    (Psbt::read(&psbt.to_string()).unwrap(), report)
}

fn first_input() -> Vec<InputReport> {
    vec![InputReport {
        outpoint: OutPoint { txid: "01".repeat(32), vout: 0 },
        amount: 100_000,
        confirmations: 6,
        chain: Chain::External,
        index: 0,
    }]
}

#[test]
fn server_signature_is_cryptographically_valid_and_completes_a_satisfiable_witness() {
    let mut f = fixture(12960);
    let server_key = server_key(&f.cfg);
    let (mut signed, _) = hot_psbt(&mut f, 1, 0, 100_000, 10_000);

    sign_hot_inputs(&mut signed, &f.wallet, &f.cfg, &server_key, &first_input()).unwrap();

    let psbt = bitcoin::Psbt::from_str(&signed.text).unwrap();
    let role_keys = role_keys_at(&f.wallet, &f.cfg, Chain::External, 0).unwrap();
    let server_public = bitcoin::PublicKey::from_slice(&role_keys.server).unwrap();
    let server_sig = *psbt.inputs[0]
        .partial_sigs
        .get(&server_public)
        .expect("server signature must be present");

    let mut cache = SighashCache::new(&psbt.unsigned_tx);
    let (msg, sighash_type) = psbt.sighash_ecdsa(0, &mut cache).unwrap();
    assert_eq!(sighash_type, EcdsaSighashType::All);
    Secp256k1::verification_only()
        .verify_ecdsa(&msg, &server_sig.signature, &server_public.inner)
        .expect("server signature must verify against the real sighash");

    let secp = Secp256k1::new();
    let (_, hardware_account_xprv) = test_key_spec_with_xpriv(0x01);
    let hardware_child = hardware_account_xprv
        .derive_priv(&secp, &DerivationPath::from_str("m/0/0").unwrap())
        .unwrap();
    let hardware_pubkey = bitcoin::PublicKey::new(hardware_child.private_key.public_key(&secp));
    assert_eq!(
        hardware_pubkey.to_bytes(),
        role_keys.hardware,
        "test fixture derived the wrong hardware key"
    );
    let hardware_sig = bitcoin::ecdsa::Signature {
        signature: secp.sign_ecdsa(&msg, &hardware_child.private_key),
        sighash_type,
    };

    let definite = Descriptor::<DescriptorPublicKey>::from_str(f.wallet.external())
        .unwrap()
        .at_derivation_index(0)
        .unwrap();
    let child = |xpub: &str| {
        DefiniteDescriptorKey::from_str(&format!("{xpub}/0/0")).unwrap().derive_public_key(&secp)
    };
    let mut sigs = HashMap::new();
    let concrete = definite.derived_descriptor(&secp).unwrap();
    sigs.insert(child(&f.cfg.keys.satochip.xpub).unwrap(), hardware_sig);
    sigs.insert(child(&f.cfg.keys.server.xpub).unwrap(), server_sig);
    let satisfier = (sigs, Sequence::ZERO);

    concrete
        .get_satisfaction(satisfier)
        .expect("hardware + server signatures must satisfy the HOT path");
}

#[test]
fn rejects_a_non_all_sighash_type_without_mutating_the_psbt() {
    let mut f = fixture(12960);
    let server_key = server_key(&f.cfg);
    let mut raw =
        spend(&mut f, Sequence::ENABLE_RBF_NO_LOCKTIME, 1, 0, 100_000, 10_000);
    raw.inputs[0].sighash_type = Some(EcdsaSighashType::None.into());
    let mut psbt = Psbt::read(&raw.to_string()).unwrap();

    let err = sign_hot_inputs(&mut psbt, &f.wallet, &f.cfg, &server_key, &first_input())
        .unwrap_err();
    assert!(matches!(err, SigningError::UnsupportedSighashType { input_index: 0, .. }));
    assert!(
        psbt.inputs[0].witness_script.is_none(),
        "must not mutate the psbt when rejecting"
    );
    assert!(psbt.inputs[0].partial_sigs.is_empty());
    assert_eq!(psbt.text, raw.to_string());
    assert!(err.message().contains('0'));
}

#[test]
fn signing_is_deterministic_across_repeated_calls() {
    let mut f = fixture(12960);
    let server_key = server_key(&f.cfg);
    let (mut psbt_a, _) = hot_psbt(&mut f, 1, 0, 100_000, 10_000);
    let (mut psbt_b, _) = hot_psbt(&mut f, 1, 0, 100_000, 10_000);

    sign_hot_inputs(&mut psbt_a, &f.wallet, &f.cfg, &server_key, &first_input()).unwrap();
    sign_hot_inputs(&mut psbt_b, &f.wallet, &f.cfg, &server_key, &first_input()).unwrap();

    assert_eq!(psbt_a.inputs[0].partial_sigs.len(), 1);
    assert_eq!(
        psbt_a.inputs[0].partial_sigs[0].signature, psbt_b.inputs[0].partial_sigs[0].signature,
        "re-signing the same input must produce a byte-identical signature (RFC6979)"
    );
    assert_eq!(psbt_a.text, psbt_b.text);
}

#[test]
fn a_signature_keeps_those_that_were_there() {
    let mut f = fixture(12960);
    let server_key = server_key(&f.cfg);
    let mut raw = spend(&mut f, Sequence::ENABLE_RBF_NO_LOCKTIME, 1, 0, 100_000, 10_000);
    let role_keys = role_keys_at(&f.wallet, &f.cfg, Chain::External, 0).unwrap();
    let secret = bitcoin::secp256k1::SecretKey::from_slice(&[0x77; 32]).unwrap();
    let message = bitcoin::secp256k1::Message::from_digest([0x42; 32]);
    let sig = bitcoin::ecdsa::Signature::sighash_all(
        Secp256k1::new().sign_ecdsa(&message, &secret),
    );
    raw.inputs[0]
        .partial_sigs
        .insert(bitcoin::PublicKey::from_slice(&role_keys.hardware).unwrap(), sig);
    let mut psbt = Psbt::read(&raw.to_string()).unwrap();
    sign_hot_inputs(&mut psbt, &f.wallet, &f.cfg, &server_key, &first_input()).unwrap();
    let read = bitcoin::Psbt::from_str(&psbt.text).unwrap();
    assert_eq!(read.inputs[0].partial_sigs.len(), 2);
    assert_eq!(psbt.inputs[0].partial_sigs.len(), 2);
    assert!(psbt.inputs[0].is_signed_by(&role_keys.hardware));
    assert!(psbt.inputs[0].is_signed_by(&role_keys.server));
    assert_eq!(read.outputs, raw.outputs);
    let kept = |p: &bitcoin::Psbt| {
        p.inputs[0].partial_sigs[&bitcoin::PublicKey::from_slice(&role_keys.hardware).unwrap()]
    };
    assert_eq!(kept(&read), kept(&raw));
    assert_eq!(
        psbt.inputs[0].witness_script.as_ref().unwrap(),
        &cosigner::descriptor::witness_script_at(f.wallet.external(), 0).unwrap()
    );
}

#[test]
fn the_key_has_to_be_the_one_of_the_wallet() {
    let cfg = test_wallet_config(12960);
    let load = |raw: &str, xpub: &str| ServerSigningKey::load(raw, xpub).err();
    let stranger = test_key_spec_with_xpriv(0x09).1.to_string();
    assert_eq!(load(&stranger, &cfg.keys.server.xpub), Some(KeyLoadError::Mismatch));
    assert_eq!(load("nonsense", &cfg.keys.server.xpub), Some(KeyLoadError::InvalidXprv));
    let own = test_key_spec_with_xpriv(0x03).1.to_string();
    assert_eq!(load(&own, "nonsense"), Some(KeyLoadError::InvalidXpub));
    assert_eq!(load(&own, &cfg.keys.server.xpub), None);
}

#[test]
fn the_key_comes_from_a_file_or_the_environment() {
    let mut signing = ServerSigningConfig { xprv_file: None, xprv_env_var: None };
    assert_eq!(signing.source().unwrap_err(), KeyLoadError::NoSource);
    signing.xprv_env_var = Some("VAR".to_string());
    assert!(matches!(signing.source().unwrap(), KeySource::EnvVar("VAR")));
    signing.xprv_file = Some("/f".to_string());
    assert!(matches!(signing.source().unwrap(), KeySource::File("/f")));
}

#[test]
fn each_error_on_the_key_says_what_is_wrong() {
    assert_eq!(
        KeyLoadError::NoSource.message(),
        "server_signing: one of xprv_file or xprv_env_var is required"
    );
    assert_eq!(
        KeyLoadError::InvalidXprv.message(),
        "server_signing key is not a valid extended private key"
    );
    assert_eq!(
        KeyLoadError::InvalidXpub.message(),
        "keys.server.xpub is not a valid extended public key"
    );
    assert!(KeyLoadError::Mismatch.message().contains("wrong key, or wrong derivation depth"));
}

#[test]
fn another_wallets_key_signs_nothing() {
    let mut f = fixture(12960);
    let other = test_key_spec_with_xpriv(0x09);
    let key = ServerSigningKey::load(&other.1.to_string(), &other.0.xpub).unwrap();
    let (mut psbt, _) = hot_psbt(&mut f, 1, 0, 100_000, 10_000);
    let before = psbt.text.clone();
    assert_eq!(
        sign_hot_inputs(&mut psbt, &f.wallet, &f.cfg, &key, &first_input()).unwrap_err(),
        SigningError::KeyMismatch { input_index: 0 }
    );
    assert_eq!(psbt.text, before);
}
