//! Moving what an old wallet holds to a new one.

use std::str::FromStr;

use bitcoin::bip32::{DerivationPath, Xpriv, Xpub};
use bitcoin::secp256k1::Secp256k1;
use bitcoin::Sequence;
use cosigner::config::{ChainNetwork, KeySpec, KeysConfig, WalletConfig};
use cosigner::descriptor::{
    address_at, build_descriptor, script_at, BuiltDescriptor, DescriptorError,
};
use cosigner::migrate::{
    build_sweep_psbt, destination_script, plan_sweep, SweepError, SweepPath, SweepPlan,
};
use cosigner::policy::FeeRate;
use cosigner::psbt::{OutPoint, Psbt, TxOut, Utxo, UtxoLookup};

fn test_key_spec_with_xpriv(seed: u8) -> (KeySpec, Xpriv) {
    let secp = Secp256k1::new();
    let master = Xpriv::new_master(bitcoin::NetworkKind::Test, &[seed; 32]).unwrap();
    let path = "48h/1h/0h/2h";
    let account = master
        .derive_priv(&secp, &DerivationPath::from_str(path).unwrap())
        .unwrap();
    let spec = KeySpec {
        master_fingerprint: master.fingerprint(&secp).to_string(),
        derivation_path: path.to_string(),
        xpub: Xpub::from_priv(&secp, &account).to_string(),
    };
    (spec, account)
}

fn test_wallet_config(timelock_blocks: u16) -> WalletConfig {
    WalletConfig {
        network: ChainNetwork::Signet,
        i_understand_this_is_mainnet: false,
        timelock_blocks,
        keys: KeysConfig {
            satochip: test_key_spec_with_xpriv(0x01).0,
            mobile: test_key_spec_with_xpriv(0x02).0,
            server: test_key_spec_with_xpriv(0x03).0,
        },
        bitcoind: None,
        server: None,
        policy: None,
        server_signing: None,
        notify: None,
    }
}

const GAP_LIMIT: u32 = 5;

/// An outpoint, with what the chain holds there.
type Known = ((String, u32), u64, Vec<u8>, u32);

fn wallet(timelock: u16) -> BuiltDescriptor {
    build_descriptor(&test_wallet_config(timelock)).unwrap()
}

fn fake_outpoint(byte: u8, vout: u32) -> (String, u32) {
    (format!("{byte:02x}").repeat(32), vout)
}

fn destination_address(wallet: &BuiltDescriptor) -> Vec<u8> {
    let address = address_at(wallet.internal(), 999, ChainNetwork::Signet).unwrap();
    destination_script(&address, ChainNetwork::Signet).unwrap()
}

fn sweep(
    wallet: &mut BuiltDescriptor,
    chain: &Vec<Known>,
    from: &[(String, u32)],
    path: SweepPath,
    fee_rate: f64,
) -> Result<SweepPlan, SweepError> {
    let mut outpoints = Vec::new();
    let mut lookups = Vec::new();
    for place in from {
        outpoints.push(OutPoint { txid: place.0.clone(), vout: place.1 });
        lookups.push(match chain.iter().find(|known| known.0 == *place) {
            Some(known) => UtxoLookup::Found(Utxo {
                txout: TxOut { value: known.1, script_pubkey: known.2.clone() },
                confirmations: known.3,
            }),
            None => UtxoLookup::Missing,
        });
    }
    let dest = destination_address(wallet);
    let rate = FeeRate { bits: fee_rate.to_bits() };
    let draft = plan_sweep(wallet, &lookups, GAP_LIMIT, &outpoints, &dest, path, 4320, rate)?;
    let fee = (draft.estimated_vsize as f64 * fee_rate).ceil() as u64;
    build_sweep_psbt(draft, fee)
}

#[test]
fn sweeps_a_single_hot_utxo_minus_the_fee() {
    let mut wallet = wallet(4320);
    let addr = script_at(wallet.external(), 0).unwrap();
    let outpoint = fake_outpoint(0x01, 0);
    let mut chain = Vec::new();
    chain.push((outpoint.clone(), 1_000_000, addr, 100));

    let plan = sweep(&mut wallet, &chain, &[outpoint], SweepPath::Hot, 10.0).unwrap();

    assert_eq!(plan.total_in, 1_000_000);
    assert!(plan.fee > 0, "fee should be nonzero at 10 sat/vb");
    assert_eq!(plan.destination_amount, plan.total_in - plan.fee);
    assert_eq!(plan.psbt.unsigned_tx.output.len(), 1);
    assert_eq!(
        plan.psbt.unsigned_tx.output[0].value,
        plan.destination_amount
    );
    assert_eq!(
        plan.psbt.unsigned_tx.input[0].sequence,
        Sequence::ENABLE_RBF_NO_LOCKTIME.to_consensus_u32()
    );
}

#[test]
fn recovery_path_sets_the_old_timelock_as_sequence() {
    let mut wallet = wallet(4320);
    let addr = script_at(wallet.external(), 0).unwrap();
    let outpoint = fake_outpoint(0x02, 0);
    let mut chain = Vec::new();
    chain.push((outpoint.clone(), 500_000, addr, 100));

    let plan = sweep(&mut wallet, &chain, &[outpoint], SweepPath::Recovery, 5.0).unwrap();

    assert_eq!(
        plan.psbt.unsigned_tx.input[0].sequence,
        Sequence::from_height(4320).to_consensus_u32()
    );
}

#[test]
fn sums_multiple_utxos_across_both_chains() {
    let mut wallet = wallet(4320);
    let recv0 = script_at(wallet.external(), 0).unwrap();
    let change0 = script_at(wallet.internal(), 0).unwrap();
    let op1 = fake_outpoint(0x03, 0);
    let op2 = fake_outpoint(0x04, 1);
    let mut chain = Vec::new();
    chain.push((op1.clone(), 300_000, recv0, 10));
    chain.push((op2.clone(), 200_000, change0, 10));

    let plan = sweep(&mut wallet, &chain, &[op1, op2], SweepPath::Hot, 1.0).unwrap();

    assert_eq!(plan.total_in, 500_000);
    assert_eq!(plan.psbt.unsigned_tx.input.len(), 2);
}

#[test]
fn refuses_a_utxo_that_does_not_belong_to_the_descriptor() {
    let mut wallet = wallet(4320);
    let outpoint = fake_outpoint(0x05, 0);
    let mut chain = Vec::new();
    chain.push((outpoint.clone(), 100_000, destination_address(&wallet), 1));

    let err = sweep(&mut wallet, &chain, &[outpoint], SweepPath::Hot, 1.0).unwrap_err();
    assert!(err.message().contains("gap limit"), "got: {err:?}");
}

#[test]
fn refuses_a_nonexistent_utxo() {
    let mut wallet = wallet(4320);
    let outpoint = fake_outpoint(0x06, 0);
    let chain = Vec::new();

    let err = sweep(&mut wallet, &chain, &[outpoint], SweepPath::Hot, 1.0).unwrap_err();
    assert!(err.message().contains("does not exist"), "got: {err:?}");
}

#[test]
fn refuses_a_fee_that_would_eat_the_entire_sweep() {
    let mut wallet = wallet(4320);
    let addr = script_at(wallet.external(), 0).unwrap();
    let outpoint = fake_outpoint(0x07, 0);
    let mut chain = Vec::new();
    chain.push((outpoint.clone(), 100, addr, 1));

    let err = sweep(&mut wallet, &chain, &[outpoint], SweepPath::Hot, 1_000_000.0).unwrap_err();
    assert!(
        err.message().contains("nothing left to sweep"),
        "got: {err:?}"
    );
}

#[test]
fn refuses_an_empty_utxo_list() {
    let mut wallet = wallet(4320);
    let err = sweep(&mut wallet, &Vec::new(), &[], SweepPath::Hot, 1.0).unwrap_err();
    assert!(err.message().contains("at least one UTXO"), "got: {err:?}");
}

#[test]
fn the_swept_transaction_can_be_read_by_a_wallet() {
    let mut wallet = wallet(4320);
    let script = script_at(wallet.internal(), 2).unwrap();
    let outpoint = fake_outpoint(0x08, 3);
    let chain = vec![(outpoint.clone(), 70_000, script.clone(), 9)];
    let plan = sweep(&mut wallet, &chain, &[outpoint], SweepPath::Hot, 2.0).unwrap();
    let read = bitcoin::Psbt::from_str(&plan.psbt.text).unwrap();
    assert_eq!(read.unsigned_tx.compute_txid().to_string(), plan.psbt.unsigned_tx.txid);
    assert_eq!(read.unsigned_tx.input[0].previous_output.vout, 3);
    assert_eq!(read.unsigned_tx.version.0, 2);
    assert_eq!(read.unsigned_tx.output[0].value.to_sat(), plan.destination_amount);
    let utxo = read.inputs[0].witness_utxo.as_ref().unwrap();
    assert_eq!(utxo.value.to_sat(), 70_000);
    assert_eq!(utxo.script_pubkey.to_bytes(), script);
    assert_eq!(plan.fee + plan.destination_amount, plan.total_in);
}

#[test]
fn a_fee_rate_has_to_be_positive() {
    let mut wallet = wallet(4320);
    let outpoint = fake_outpoint(0x09, 0);
    for rate in [0.0, -0.0, -1.0] {
        let err = sweep(&mut wallet, &Vec::new(), &[outpoint.clone()], SweepPath::Hot, rate)
            .unwrap_err();
        assert!(matches!(err, SweepError::FeeRateNotPositive), "{err:?}");
    }
}

#[test]
fn a_node_that_fails_stops_the_sweep() {
    let mut wallet = wallet(4320);
    let dest = destination_address(&wallet);
    let outpoints = vec![OutPoint { txid: "0a".repeat(32), vout: 0 }];
    let lookups = vec![UtxoLookup::Failed("down".to_string())];
    let rate = FeeRate { bits: 1.0f64.to_bits() };
    let err = plan_sweep(
        &mut wallet,
        &lookups,
        GAP_LIMIT,
        &outpoints,
        &dest,
        SweepPath::Hot,
        4320,
        rate,
    )
    .unwrap_err();
    assert!(err.message().ends_with(": down"), "{err:?}");
}

#[test]
fn a_destination_has_to_be_an_address_of_the_network() {
    let wallet = wallet(4320);
    let signet = address_at(wallet.external(), 0, ChainNetwork::Signet).unwrap();
    assert_eq!(
        destination_script(&signet, ChainNetwork::Signet),
        Some(script_at(wallet.external(), 0).unwrap())
    );
    assert_eq!(destination_script(&signet, ChainNetwork::Mainnet), None);
    assert_eq!(destination_script("nonsense", ChainNetwork::Signet), None);
}

#[test]
fn a_sweep_is_written_even_where_a_script_is_too_large_to_read_again() {
    for (size, readable) in [(10_000, true), (4_000_000, false)] {
        let mut wallet = wallet(4320);
        let dest = destination_address(&wallet);
        let script_pubkey = script_at(wallet.external(), 0).unwrap();
        let outpoints = vec![OutPoint { txid: "0B".repeat(32), vout: 1 }];
        let lookups = vec![UtxoLookup::Found(Utxo {
            txout: TxOut { value: 1_000_000, script_pubkey },
            confirmations: 100,
        })];
        let rate = FeeRate { bits: 1.0f64.to_bits() };
        let mut draft = plan_sweep(
            &mut wallet,
            &lookups,
            GAP_LIMIT,
            &outpoints,
            &dest,
            SweepPath::Hot,
            4320,
            rate,
        )
        .unwrap();
        draft.unsigned.inputs[0].witness_script = Some(vec![0x51; size]);
        let plan = build_sweep_psbt(draft, 1_000).unwrap();
        assert_eq!(plan.psbt.inputs[0].witness_script, Some(vec![0x51; size]));
        assert_eq!(plan.psbt.unsigned_tx.input[0].previous_output.txid, "0b".repeat(32));
        match Psbt::read(&plan.psbt.text) {
            Ok(read) => {
                assert!(readable);
                let tx = bitcoin::Psbt::from_str(&plan.psbt.text).unwrap().unsigned_tx;
                assert_eq!(tx.version, bitcoin::transaction::Version::TWO);
                assert_eq!(tx.lock_time, bitcoin::absolute::LockTime::ZERO);
                assert_eq!(read.inputs[0].witness_script, plan.psbt.inputs[0].witness_script);
                assert_eq!(read.unsigned_tx.txid, plan.psbt.unsigned_tx.txid);
            }
            Err(_) => assert!(!readable),
        }
    }
}

#[test]
fn a_sweep_of_no_transaction_or_of_a_signed_input_is_refused() {
    for spoil in [true, false] {
        let mut wallet = wallet(4320);
        let dest = destination_address(&wallet);
        let script_pubkey = script_at(wallet.external(), 0).unwrap();
        let outpoints = vec![OutPoint { txid: "0b".repeat(32), vout: 1 }];
        let lookups = vec![UtxoLookup::Found(Utxo {
            txout: TxOut { value: 1_000_000, script_pubkey },
            confirmations: 100,
        })];
        let rate = FeeRate { bits: 1.0f64.to_bits() };
        let mut draft = plan_sweep(
            &mut wallet,
            &lookups,
            GAP_LIMIT,
            &outpoints,
            &dest,
            SweepPath::Hot,
            4320,
            rate,
        )
        .unwrap();
        if spoil {
            draft.unsigned.unsigned_tx.input[0].previous_output.txid = "zz".to_string();
        } else {
            draft.unsigned.unsigned_tx.input[0].script_sig = vec![0x51];
        }
        assert!(matches!(build_sweep_psbt(draft, 1_000).unwrap_err(), SweepError::Encode));
    }
}

#[test]
fn the_refusals_name_the_output() {
    let outpoint = OutPoint { txid: "0c".repeat(32), vout: 3 };
    assert_eq!(
        SweepError::Ownership { outpoint }.message(),
        format!("checking whether {}:3 belongs to the OLD descriptor", "0c".repeat(32))
    );
    assert_eq!(
        SweepError::Descriptor(DescriptorError::Derive { index: 7 }).message(),
        "deriving index 7"
    );
    let text = SweepError::NothingLeft { fee: 200_000_000, total_in: 100_000_001 }.message();
    assert!(text.contains("(2 BTC)") && text.contains("(1.00000001 BTC)"), "{text}");
    assert!(SweepError::NothingLeft { fee: 0, total_in: 7 }.message().contains("(0 BTC)"));
}
