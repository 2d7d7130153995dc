//! What a transaction is found to spend, pay and be.

use std::collections::HashMap;
use std::str::FromStr;

use bitcoin::bip32::{DerivationPath, Xpriv, Xpub};
use bitcoin::secp256k1::Secp256k1;
use bitcoin::{Amount, ScriptBuf, Sequence, Txid, Witness};
use bitcoin::bip32::{Fingerprint, KeySource};
use bitcoin::secp256k1::{Message, SecretKey};
use cosigner::config::{ChainNetwork, KeySpec, KeysConfig, WalletConfig};
use cosigner::descriptor::{build_descriptor, role_keys_at, script_at, BuiltDescriptor, Chain};
use cosigner::inspect::{
    classify_input_path, combine_paths, inspect, ChainFailure, InputPath, InspectError,
    InspectionReport, Malformed, OutputKind, SpendingPath,
};
use cosigner::policy::FeeRate;
use cosigner::psbt::{OutPoint, Psbt, PsbtError, TxOut, Utxo, UtxoLookup};

fn test_key_spec_with_xpriv(seed: u8) -> (KeySpec, Xpriv) {
    let secp = Secp256k1::new();
    let master = Xpriv::new_master(bitcoin::NetworkKind::Test, &[seed; 32]).unwrap();
    let path = "48h/1h/0h/2h";
    let account = master
        .derive_priv(&secp, &DerivationPath::from_str(path).unwrap())
        .unwrap();
    let spec = KeySpec {
        master_fingerprint: master.fingerprint(&secp).to_string(),
        derivation_path: path.to_string(),
        xpub: Xpub::from_priv(&secp, &account).to_string(),
    };
    (spec, account)
}

fn test_wallet_config(timelock_blocks: u16) -> WalletConfig {
    WalletConfig {
        network: ChainNetwork::Signet,
        i_understand_this_is_mainnet: false,
        timelock_blocks,
        keys: KeysConfig {
            satochip: test_key_spec_with_xpriv(0x01).0,
            mobile: test_key_spec_with_xpriv(0x02).0,
            server: test_key_spec_with_xpriv(0x03).0,
        },
        bitcoind: None,
        server: None,
        policy: None,
        server_signing: None,
        notify: None,
    }
}

fn fake_txid(byte: u8) -> Txid {
    Txid::from_str(&format!("{byte:02x}").repeat(32)).unwrap()
}

fn tx(inputs: Vec<bitcoin::TxIn>, outputs: Vec<bitcoin::TxOut>) -> bitcoin::Transaction {
    bitcoin::Transaction {
        version: bitcoin::transaction::Version::TWO,
        lock_time: bitcoin::absolute::LockTime::ZERO,
        input: inputs,
        output: outputs,
    }
}

fn txin(outpoint: bitcoin::OutPoint, sequence: Sequence) -> bitcoin::TxIn {
    bitcoin::TxIn {
        previous_output: outpoint,
        script_sig: ScriptBuf::new(),
        sequence,
        witness: Witness::new(),
    }
}

fn foreign_script() -> ScriptBuf {
    let mut bytes = vec![0x00, 0x20];
    bytes.extend_from_slice(&[0xAB; 32]);
    ScriptBuf::from(bytes)
}

/// A wallet, and the outputs that the chain knows.
struct Fixture {
    cfg: WalletConfig,
    wallet: BuiltDescriptor,
    chain: HashMap<(String, u32), (u64, Vec<u8>, u32)>,
}

fn fixture(timelock_blocks: u16) -> Fixture {
    let cfg = test_wallet_config(timelock_blocks);
    let wallet = build_descriptor(&cfg).unwrap();
    Fixture { cfg, wallet, chain: HashMap::new() }
}

impl Fixture {
    fn insert(&mut self, outpoint: bitcoin::OutPoint, txout: &bitcoin::TxOut, confirmations: u32) {
        self.chain.insert(
            (outpoint.txid.to_string(), outpoint.vout),
            (txout.value.to_sat(), txout.script_pubkey.to_bytes(), confirmations),
        );
    }

    /// An output of the wallet itself, which the chain knows from now on.
    fn own_utxo(
        &mut self,
        chain: Chain,
        index: u32,
        outpoint: bitcoin::OutPoint,
        amount_sat: u64,
        confirmations: u32,
    ) -> bitcoin::TxOut {
        let script = script_at(self.wallet.chain(chain), index).unwrap();
        let txout = bitcoin::TxOut {
            value: Amount::from_sat(amount_sat),
            script_pubkey: ScriptBuf::from(script),
        };
        self.insert(outpoint, &txout, confirmations);
        txout
    }

    fn lookup(&self, outpoint: &OutPoint) -> UtxoLookup {
        match self.chain.get(&(outpoint.txid.clone(), outpoint.vout)) {
            Some((value, script, confirmations)) => UtxoLookup::Found(Utxo {
                txout: TxOut { value: *value, script_pubkey: script.clone() },
                confirmations: *confirmations,
            }),
            None => UtxoLookup::Missing,
        }
    }

    fn inspect(
        &mut self,
        psbt: &bitcoin::Psbt,
        gap_limit: u32,
    ) -> Result<InspectionReport, InspectError> {
        let read = Psbt::read(&psbt.to_string()).unwrap();
        let mut lookups = Vec::new();
        for input in &read.unsigned_tx.input {
            lookups.push(self.lookup(&input.previous_output));
        }
        let found = inspect(&read, &mut self.wallet, &self.cfg, &lookups, gap_limit)?;
        let rate = found.fee as f64 / found.estimated_vsize as f64;
        Ok(found.with_fee_rate(FeeRate { bits: rate.to_bits() }))
    }
}

fn key(bytes: &[u8]) -> bitcoin::PublicKey {
    bitcoin::PublicKey::from_slice(bytes).unwrap()
}

fn any_sig() -> bitcoin::ecdsa::Signature {
    let secret = SecretKey::from_slice(&[0x77; 32]).unwrap();
    let message = Message::from_digest([0x42; 32]);
    bitcoin::ecdsa::Signature::sighash_all(Secp256k1::new().sign_ecdsa(&message, &secret))
}

fn dummy_key_source() -> KeySource {
    (Fingerprint::from([0u8; 4]), DerivationPath::master())
}

#[test]
fn accepts_and_classifies_hot_path() {
    let mut f = fixture(12960);
    let outpoint = bitcoin::OutPoint::new(fake_txid(1), 0);
    let our_txout = f.own_utxo(Chain::External, 0, outpoint, 100_000, 6);

    let dest = bitcoin::TxOut {
        value: Amount::from_sat(90_000),
        script_pubkey: foreign_script(),
    };
    let mut psbt = bitcoin::Psbt::from_unsigned_tx(tx(
        vec![txin(outpoint, Sequence::ENABLE_RBF_NO_LOCKTIME)],
        vec![dest],
    ))
    .unwrap();
    psbt.inputs[0].witness_utxo = Some(our_txout);

    let role_keys = role_keys_at(&f.wallet, &f.cfg, Chain::External, 0).unwrap();
    psbt.inputs[0]
        .partial_sigs
        .insert(key(&role_keys.hardware), any_sig());

    let report = f.inspect(&psbt, 50).unwrap();
    assert_eq!(report.inputs.len(), 1);
    assert_eq!(report.inputs[0].chain, Chain::External);
    assert_eq!(report.inputs[0].index, 0);
    assert_eq!(report.total_in, 100_000);
    assert_eq!(report.total_out, 90_000);
    assert_eq!(report.fee, 10_000);
    assert!(f64::from_bits(report.fee_rate_sat_per_vb.bits) > 0.0);
    assert_eq!(report.spending_path, SpendingPath::Hot);
    assert_eq!(report.outputs[0].kind, OutputKind::Destination);
}

#[test]
fn hot_path_is_recognized_by_server_signature_even_when_sequence_would_allow_recovery() {
    let mut f = fixture(12960);
    let outpoint = bitcoin::OutPoint::new(fake_txid(2), 0);
    let our_txout = f.own_utxo(Chain::External, 0, outpoint, 100_000, 6);
    let dest = bitcoin::TxOut {
        value: Amount::from_sat(90_000),
        script_pubkey: foreign_script(),
    };

    // Sequence satisfies older(N) - by itself ambiguous - but SERVER has signed, which
    // only appears in the HOT branch, so this must resolve to Hot regardless of sequence.
    let mut psbt = bitcoin::Psbt::from_unsigned_tx(tx(
        vec![txin(outpoint, Sequence::from_height(12960))],
        vec![dest],
    ))
    .unwrap();
    psbt.inputs[0].witness_utxo = Some(our_txout);

    let role_keys = role_keys_at(&f.wallet, &f.cfg, Chain::External, 0).unwrap();
    psbt.inputs[0]
        .partial_sigs
        .insert(key(&role_keys.hardware), any_sig());
    psbt.inputs[0]
        .partial_sigs
        .insert(key(&role_keys.server), any_sig());

    let report = f.inspect(&psbt, 50).unwrap();
    assert_eq!(report.spending_path, SpendingPath::Hot);
}

#[test]
fn accepts_and_classifies_recovery_path() {
    let mut f = fixture(12960);
    let outpoint = bitcoin::OutPoint::new(fake_txid(3), 0);
    let our_txout = f.own_utxo(Chain::External, 2, outpoint, 100_000, 20_000);
    let dest = bitcoin::TxOut {
        value: Amount::from_sat(90_000),
        script_pubkey: foreign_script(),
    };

    let mut psbt = bitcoin::Psbt::from_unsigned_tx(tx(
        vec![txin(outpoint, Sequence::from_height(12960))],
        vec![dest],
    ))
    .unwrap();
    psbt.inputs[0].witness_utxo = Some(our_txout);

    let role_keys = role_keys_at(&f.wallet, &f.cfg, Chain::External, 2).unwrap();
    psbt.inputs[0]
        .partial_sigs
        .insert(key(&role_keys.hardware), any_sig());
    psbt.inputs[0]
        .partial_sigs
        .insert(key(&role_keys.mobile), any_sig());

    let report = f.inspect(&psbt, 50).unwrap();
    assert_eq!(report.spending_path, SpendingPath::Recovery);
}

#[test]
fn insufficient_sequence_is_hot_even_with_a_mobile_signature() {
    // One block short of the timelock: the RECOVERY witness is consensus-invalid no
    // matter what's signed, so this can only ever be HOT.
    let mut f = fixture(12960);
    let outpoint = bitcoin::OutPoint::new(fake_txid(4), 0);
    let our_txout = f.own_utxo(Chain::External, 0, outpoint, 100_000, 6);
    let dest = bitcoin::TxOut {
        value: Amount::from_sat(90_000),
        script_pubkey: foreign_script(),
    };

    let mut psbt = bitcoin::Psbt::from_unsigned_tx(tx(
        vec![txin(outpoint, Sequence::from_height(12959))],
        vec![dest],
    ))
    .unwrap();
    psbt.inputs[0].witness_utxo = Some(our_txout);

    let role_keys = role_keys_at(&f.wallet, &f.cfg, Chain::External, 0).unwrap();
    psbt.inputs[0]
        .partial_sigs
        .insert(key(&role_keys.hardware), any_sig());
    psbt.inputs[0]
        .partial_sigs
        .insert(key(&role_keys.mobile), any_sig());

    let report = f.inspect(&psbt, 50).unwrap();
    assert_eq!(report.spending_path, SpendingPath::Hot);
}

#[test]
fn ambiguous_when_only_satochip_has_signed_and_sequence_allows_either_path() {
    let mut f = fixture(12960);
    let outpoint = bitcoin::OutPoint::new(fake_txid(5), 0);
    let our_txout = f.own_utxo(Chain::External, 0, outpoint, 100_000, 6);
    let dest = bitcoin::TxOut {
        value: Amount::from_sat(90_000),
        script_pubkey: foreign_script(),
    };

    let mut psbt = bitcoin::Psbt::from_unsigned_tx(tx(
        vec![txin(outpoint, Sequence::from_height(12960))],
        vec![dest],
    ))
    .unwrap();
    psbt.inputs[0].witness_utxo = Some(our_txout);

    let role_keys = role_keys_at(&f.wallet, &f.cfg, Chain::External, 0).unwrap();
    psbt.inputs[0]
        .partial_sigs
        .insert(key(&role_keys.hardware), any_sig());

    let report = f.inspect(&psbt, 50).unwrap();
    assert_eq!(report.spending_path, SpendingPath::Ambiguous);
}

#[test]
fn rejects_input_not_derived_from_our_descriptor() {
    let mut f = fixture(12960);
    let outpoint = bitcoin::OutPoint::new(fake_txid(6), 0);
    f.insert(
        outpoint,
        &bitcoin::TxOut {
            value: Amount::from_sat(100_000),
            script_pubkey: foreign_script(),
        },
        6,
    );
    let dest = bitcoin::TxOut {
        value: Amount::from_sat(90_000),
        script_pubkey: foreign_script(),
    };
    let psbt = bitcoin::Psbt::from_unsigned_tx(tx(
        vec![txin(outpoint, Sequence::ENABLE_RBF_NO_LOCKTIME)],
        vec![dest],
    ))
    .unwrap();

    let err = f.inspect(&psbt, 50).unwrap_err();
    assert_eq!(err.code(), "foreign_input");
}

#[test]
fn rejects_input_whose_utxo_is_unknown_to_the_chain() {
    let mut f = fixture(12960);
    let outpoint = bitcoin::OutPoint::new(fake_txid(7), 0); // never inserted into the mock chain
    let dest = bitcoin::TxOut {
        value: Amount::from_sat(90_000),
        script_pubkey: foreign_script(),
    };
    let psbt = bitcoin::Psbt::from_unsigned_tx(tx(
        vec![txin(outpoint, Sequence::ENABLE_RBF_NO_LOCKTIME)],
        vec![dest],
    ))
    .unwrap();

    let err = f.inspect(&psbt, 50).unwrap_err();
    assert_eq!(err.code(), "unknown_utxo");
}

#[test]
fn rejects_a_witness_utxo_that_disagrees_with_the_chain() {
    let mut f = fixture(12960);
    let outpoint = bitcoin::OutPoint::new(fake_txid(8), 0);
    let our_txout = f.own_utxo(Chain::External, 0, outpoint, 100_000, 6);
    let dest = bitcoin::TxOut {
        value: Amount::from_sat(90_000),
        script_pubkey: foreign_script(),
    };
    let mut psbt = bitcoin::Psbt::from_unsigned_tx(tx(
        vec![txin(outpoint, Sequence::ENABLE_RBF_NO_LOCKTIME)],
        vec![dest],
    ))
    .unwrap();

    // The PSBT lies about the amount: chain says 100_000, PSBT claims 1_000_000.
    let mut lied = our_txout;
    lied.value = Amount::from_sat(1_000_000);
    psbt.inputs[0].witness_utxo = Some(lied);

    let err = f.inspect(&psbt, 50).unwrap_err();
    assert_eq!(err.code(), "tampered_utxo");
}

#[test]
fn recognizes_change_by_derivation_not_by_trusting_bip32_derivation() {
    let mut f = fixture(12960);
    let outpoint = bitcoin::OutPoint::new(fake_txid(9), 0);
    let our_txout = f.own_utxo(Chain::External, 0, outpoint, 100_000, 6);

    let change_script = ScriptBuf::from(script_at(f.wallet.internal(), 4).unwrap());
    let change = bitcoin::TxOut {
        value: Amount::from_sat(50_000),
        script_pubkey: change_script,
    };
    let dest = bitcoin::TxOut {
        value: Amount::from_sat(40_000),
        script_pubkey: foreign_script(),
    };

    let mut psbt = bitcoin::Psbt::from_unsigned_tx(tx(
        vec![txin(outpoint, Sequence::ENABLE_RBF_NO_LOCKTIME)],
        vec![dest, change],
    ))
    .unwrap();
    psbt.inputs[0].witness_utxo = Some(our_txout);
    // Deliberately no bip32_derivation on the change output - it must still be recognized
    // as change purely by independently re-deriving it.

    let report = f.inspect(&psbt, 50).unwrap();
    assert_eq!(report.outputs[0].kind, OutputKind::Destination);
    assert_eq!(report.outputs[1].kind, OutputKind::Change);
    assert_eq!(report.fee, 10_000);
}

#[test]
fn recognizes_paying_your_own_receive_chain_distinctly_from_change() {
    let mut f = fixture(12960);
    let outpoint = bitcoin::OutPoint::new(fake_txid(10), 0);
    let our_txout = f.own_utxo(Chain::External, 0, outpoint, 100_000, 6);

    let own_receive = ScriptBuf::from(script_at(f.wallet.external(), 9).unwrap());
    let out = bitcoin::TxOut {
        value: Amount::from_sat(90_000),
        script_pubkey: own_receive,
    };
    let mut psbt = bitcoin::Psbt::from_unsigned_tx(tx(
        vec![txin(outpoint, Sequence::ENABLE_RBF_NO_LOCKTIME)],
        vec![out],
    ))
    .unwrap();
    psbt.inputs[0].witness_utxo = Some(our_txout);

    let report = f.inspect(&psbt, 50).unwrap();
    assert_eq!(report.outputs[0].kind, OutputKind::OwnReceive);
}

#[test]
fn rejects_an_output_that_claims_to_be_change_but_is_not_ours() {
    let mut f = fixture(12960);
    let outpoint = bitcoin::OutPoint::new(fake_txid(11), 0);
    let our_txout = f.own_utxo(Chain::External, 0, outpoint, 100_000, 6);
    let spoofed = bitcoin::TxOut {
        value: Amount::from_sat(90_000),
        script_pubkey: foreign_script(),
    };

    let mut psbt = bitcoin::Psbt::from_unsigned_tx(tx(
        vec![txin(outpoint, Sequence::ENABLE_RBF_NO_LOCKTIME)],
        vec![spoofed],
    ))
    .unwrap();
    psbt.inputs[0].witness_utxo = Some(our_txout);
    // Attacker-controlled output, dressed up with change-looking metadata.
    psbt.outputs[0].bip32_derivation.insert(
        key(&role_keys_at(&f.wallet, &f.cfg, Chain::External, 0)
            .unwrap()
            .hardware)
        .inner,
        dummy_key_source(),
    );

    let err = f.inspect(&psbt, 50).unwrap_err();
    assert_eq!(err.code(), "spoofed_change");
}

#[test]
fn rejects_zero_or_negative_fee() {
    let mut f = fixture(12960);
    let outpoint = bitcoin::OutPoint::new(fake_txid(12), 0);
    let our_txout = f.own_utxo(Chain::External, 0, outpoint, 100_000, 6);
    let dest = bitcoin::TxOut {
        value: Amount::from_sat(100_000),
        script_pubkey: foreign_script(),
    };

    let mut psbt = bitcoin::Psbt::from_unsigned_tx(tx(
        vec![txin(outpoint, Sequence::ENABLE_RBF_NO_LOCKTIME)],
        vec![dest],
    ))
    .unwrap();
    psbt.inputs[0].witness_utxo = Some(our_txout);

    let err = f.inspect(&psbt, 50).unwrap_err();
    assert_eq!(err.code(), "invalid_transaction");
}

#[test]
fn respects_gap_limit_when_searching_for_ownership() {
    let mut f = fixture(12960);
    let outpoint = bitcoin::OutPoint::new(fake_txid(13), 0);
    // Index 40 is beyond a gap limit of 10.
    let our_txout = f.own_utxo(Chain::External, 40, outpoint, 100_000, 6);
    let dest = bitcoin::TxOut {
        value: Amount::from_sat(90_000),
        script_pubkey: foreign_script(),
    };
    let mut psbt = bitcoin::Psbt::from_unsigned_tx(tx(
        vec![txin(outpoint, Sequence::ENABLE_RBF_NO_LOCKTIME)],
        vec![dest],
    ))
    .unwrap();
    psbt.inputs[0].witness_utxo = Some(our_txout);

    let err = f.inspect(&psbt, 10).unwrap_err();
    assert_eq!(err.code(), "foreign_input");

    let report = f.inspect(&psbt, 41).unwrap();
    assert_eq!(report.inputs[0].index, 40);
}

#[test]
fn uses_actual_size_for_finalized_inputs_instead_of_the_worst_case_estimate() {
    let mut f = fixture(12960);
    let outpoint = bitcoin::OutPoint::new(fake_txid(14), 0);
    let our_txout = f.own_utxo(Chain::External, 0, outpoint, 100_000, 6);
    let dest = bitcoin::TxOut {
        value: Amount::from_sat(90_000),
        script_pubkey: foreign_script(),
    };

    let unsigned_tx = tx(
        vec![txin(outpoint, Sequence::ENABLE_RBF_NO_LOCKTIME)],
        vec![dest.clone()],
    );
    let mut unsigned = bitcoin::Psbt::from_unsigned_tx(unsigned_tx.clone()).unwrap();
    unsigned.inputs[0].witness_utxo = Some(our_txout.clone());
    let unsigned_report = f.inspect(&unsigned, 50).unwrap();

    // A tiny finalized witness (smaller than our worst-case estimate) should produce a
    // smaller estimated vsize, proving the actual size is used once finalized.
    let mut finalized = bitcoin::Psbt::from_unsigned_tx(unsigned_tx).unwrap();
    finalized.inputs[0].witness_utxo = Some(our_txout);
    finalized.inputs[0].final_script_witness = Some(Witness::from_slice(&[vec![0u8; 1]]));
    let finalized_report = f.inspect(&finalized, 50).unwrap();

    assert!(finalized_report.estimated_vsize < unsigned_report.estimated_vsize);
}

/// A transaction that spends one output of the wallet, and the wallet.
fn one_spend(byte: u8, sequence: Sequence, paid: u64) -> (Fixture, bitcoin::Psbt) {
    let mut f = fixture(12960);
    let outpoint = bitcoin::OutPoint::new(fake_txid(byte), 0);
    let our_txout = f.own_utxo(Chain::External, 0, outpoint, 100_000, 6);
    let dest = bitcoin::TxOut {
        value: Amount::from_sat(paid),
        script_pubkey: foreign_script(),
    };
    let mut psbt =
        bitcoin::Psbt::from_unsigned_tx(tx(vec![txin(outpoint, sequence)], vec![dest])).unwrap();
    psbt.inputs[0].witness_utxo = Some(our_txout);
    (f, psbt)
}

#[test]
fn the_size_of_an_unsigned_spend_is_the_worst_case() {
    let (mut f, psbt) = one_spend(20, Sequence::MAX, 90_000);
    let report = f.inspect(&psbt, 5).unwrap();
    let desc = miniscript::Descriptor::<miniscript::DescriptorPublicKey>::from_str(
        f.wallet.external(),
    )
    .unwrap();
    let witness = desc.max_weight_to_satisfy().unwrap().to_wu();
    // 10 for the frame, 41 for the input, 43 for the output.
    assert_eq!(report.estimated_vsize, (4 * (10 + 41 + 43) + 2 + witness).div_ceil(4));
    assert_eq!(report.outputs[0].address.as_deref().map(|a| &a[..4]), Some("tb1q"));
    assert_eq!(report.inputs[0].confirmations, 6);
    assert_eq!(report.inputs[0].amount, 100_000);
}

#[test]
fn a_transaction_that_spends_or_pays_nothing_is_refused() {
    let mut f = fixture(12960);
    let dest = bitcoin::TxOut {
        value: Amount::from_sat(1),
        script_pubkey: foreign_script(),
    };
    let outpoint = bitcoin::OutPoint::new(fake_txid(21), 0);
    f.own_utxo(Chain::External, 0, outpoint, 100_000, 6);
    let pays_nothing =
        bitcoin::Psbt::from_unsigned_tx(tx(vec![txin(outpoint, Sequence::MAX)], vec![])).unwrap();
    let err = f.inspect(&pays_nothing, 5).unwrap_err();
    assert_eq!(err.code(), "invalid_transaction");
    assert!(matches!(err, InspectError::InvalidTransaction(Malformed::NoOutputs)));

    let spends_nothing = bitcoin::Psbt::from_unsigned_tx(tx(vec![], vec![dest])).unwrap();
    let err = f.inspect(&spends_nothing, 5).unwrap_err();
    assert!(matches!(err, InspectError::InvalidTransaction(Malformed::NoInputs)));
}

#[test]
fn amounts_beyond_what_can_be_added_are_refused() {
    let mut f = fixture(12960);
    let a = bitcoin::OutPoint::new(fake_txid(22), 0);
    let b = bitcoin::OutPoint::new(fake_txid(22), 1);
    f.own_utxo(Chain::External, 0, a, u64::MAX, 6);
    f.own_utxo(Chain::External, 1, b, 1, 6);
    let dest = bitcoin::TxOut {
        value: Amount::from_sat(1),
        script_pubkey: foreign_script(),
    };
    let psbt = bitcoin::Psbt::from_unsigned_tx(tx(
        vec![txin(a, Sequence::MAX), txin(b, Sequence::MAX)],
        vec![dest],
    ))
    .unwrap();
    let err = f.inspect(&psbt, 5).unwrap_err();
    assert!(matches!(err, InspectError::InvalidTransaction(Malformed::TooMuch)));
}

#[test]
fn a_node_that_fails_is_a_chain_error() {
    let (mut f, psbt) = one_spend(23, Sequence::MAX, 90_000);
    let read = Psbt::read(&psbt.to_string()).unwrap();
    let lookups = vec![UtxoLookup::Failed("down".to_string())];
    let err = inspect(&read, &mut f.wallet, &f.cfg, &lookups, 5).unwrap_err();
    assert_eq!(err.code(), "chain_error");
    match err {
        InspectError::Chain(ChainFailure::Node(text)) => assert_eq!(text, "down"),
        other => panic!("{other:?}"),
    }
}

#[test]
fn the_refusals_name_the_place() {
    let (mut f, psbt) = one_spend(24, Sequence::MAX, 90_000);
    f.chain.clear();
    let err = f.inspect(&psbt, 5).unwrap_err();
    let text = err.message();
    assert!(text.contains(&format!("{}:0", fake_txid(24))), "{text}");
    let (mut f, psbt) = one_spend(25, Sequence::MAX, 100_001);
    let text = f.inspect(&psbt, 5).unwrap_err().message();
    assert!(text.contains("0.00100000 BTC") && text.contains("0.00100001 BTC"), "{text}");
}

#[test]
fn paths_that_differ_are_ambiguous_together() {
    assert_eq!(combine_paths(&vec![InputPath::Hot, InputPath::Hot]), SpendingPath::Hot);
    assert_eq!(
        combine_paths(&vec![InputPath::Recovery, InputPath::Recovery]),
        SpendingPath::Recovery
    );
    assert_eq!(
        combine_paths(&vec![InputPath::Hot, InputPath::Recovery]),
        SpendingPath::Ambiguous
    );
    assert_eq!(
        combine_paths(&vec![InputPath::Hot, InputPath::Ambiguous]),
        SpendingPath::Ambiguous
    );
}

#[test]
fn a_disabled_or_timed_lock_leaves_only_the_hot_path() {
    let (mut f, mut psbt) = one_spend(26, Sequence::from_512_second_intervals(12960), 90_000);
    let role_keys = role_keys_at(&f.wallet, &f.cfg, Chain::External, 0).unwrap();
    psbt.inputs[0].partial_sigs.insert(key(&role_keys.mobile), any_sig());
    assert_eq!(f.inspect(&psbt, 5).unwrap().spending_path, SpendingPath::Hot);

    let read = Psbt::read(&psbt.to_string()).unwrap();
    let input = &read.inputs[0];
    assert_eq!(classify_input_path(input, 0x8000_32A0, &role_keys, 12960), InputPath::Hot);
    assert_eq!(classify_input_path(input, 12960, &role_keys, 12960), InputPath::Recovery);
    assert!(input.is_signed_by(&role_keys.mobile));
    assert!(!input.is_signed_by(&role_keys.server));
}

#[test]
fn a_psbt_is_read_as_it_was_written() {
    let (_, psbt) = one_spend(27, Sequence::from_height(7), 90_000);
    let text = psbt.to_string();
    let read = Psbt::decode(&format!("  {text}\n")).unwrap();
    assert_eq!(read.unsigned_tx.txid, psbt.unsigned_tx.compute_txid().to_string());
    assert_eq!(read.unsigned_tx.input[0].sequence, 7);
    assert_eq!(read.unsigned_tx.input[0].previous_output.txid, fake_txid(27).to_string());
    assert_eq!(read.unsigned_tx.output[0].value, 90_000);
    assert_eq!(read.unsigned_tx.output[0].script_pubkey, foreign_script().to_bytes());
    assert_eq!(read.inputs[0].witness_utxo.as_ref().unwrap().value, 100_000);
    assert_eq!(read.inputs[0].final_witness_size, None);
    assert_eq!(read.outputs[0].bip32_derivations, 0);
    assert!(read.unsigned_tx.output[0].same(&read.unsigned_tx.output[0]));
    assert!(!read.unsigned_tx.output[0].same(read.inputs[0].witness_utxo.as_ref().unwrap()));
    assert_eq!(
        read.unsigned_tx.input[0].previous_output.to_text(),
        format!("{}:0", fake_txid(27))
    );
    assert_eq!(Psbt::decode("nonsense").unwrap_err(), PsbtError::Malformed);
    assert_eq!(Psbt::read(&format!(" {text}")).unwrap_err(), PsbtError::Malformed);
}
