//! Signing within the policy, now or after a hold.

use std::collections::HashMap;
use std::str::FromStr;
use std::sync::{Arc, Mutex};

use bitcoin::bip32::{DerivationPath, Xpriv, Xpub};
use bitcoin::secp256k1::Secp256k1;
use bitcoin::{Amount, ScriptBuf, Sequence, Txid, Witness};
use cosigner::config::{ChainNetwork, KeySpec, KeysConfig, WalletConfig};
use cosigner::descriptor::{build_descriptor, role_keys_at, script_at, BuiltDescriptor, Chain};
use cosigner::inspect::{
    inspect, ChainFailure, InspectError, InspectionReport, SpendingPath,
};
use cosigner::ledger::{Ledger, PendingStatus, RollingTotals};
use cosigner::policy::{CompiledPolicy, FeeRate, PolicyConfig, PolicyViolation};
use cosigner::psbt::{OutPoint, Psbt, TxOut, Utxo, UtxoLookup};
use cosigner::sign::{
    addresses_paid, amounts_fit, denial_message, destinations, process_due_pending_row,
    process_refused_pending_row, sign_psbt, submit_for_signing, LedgerOutcome, PendingOutcome,
    SignPsbtError, SubmitError, SubmitOutcome,
};
use cosigner::signing::ServerSigningKey;

fn test_key_spec_with_xpriv(seed: u8) -> (KeySpec, Xpriv) {
    let secp = Secp256k1::new();
    let master = Xpriv::new_master(bitcoin::NetworkKind::Test, &[seed; 32]).unwrap();
    let path = "48h/1h/0h/2h";
    let account = master
        .derive_priv(&secp, &DerivationPath::from_str(path).unwrap())
        .unwrap();
    let spec = KeySpec {
        master_fingerprint: master.fingerprint(&secp).to_string(),
        derivation_path: path.to_string(),
        xpub: Xpub::from_priv(&secp, &account).to_string(),
    };
    (spec, account)
}

fn test_wallet_config(timelock_blocks: u16) -> WalletConfig {
    WalletConfig {
        network: ChainNetwork::Signet,
        i_understand_this_is_mainnet: false,
        timelock_blocks,
        keys: KeysConfig {
            satochip: test_key_spec_with_xpriv(0x01).0,
            mobile: test_key_spec_with_xpriv(0x02).0,
            server: test_key_spec_with_xpriv(0x03).0,
        },
        bitcoind: None,
        server: None,
        policy: None,
        server_signing: None,
        notify: None,
    }
}

fn fake_txid(byte: u8) -> Txid {
    Txid::from_str(&format!("{byte:02x}").repeat(32)).unwrap()
}

fn tx(inputs: Vec<bitcoin::TxIn>, outputs: Vec<bitcoin::TxOut>) -> bitcoin::Transaction {
    bitcoin::Transaction {
        version: bitcoin::transaction::Version::TWO,
        lock_time: bitcoin::absolute::LockTime::ZERO,
        input: inputs,
        output: outputs,
    }
}

fn txin(outpoint: bitcoin::OutPoint, sequence: Sequence) -> bitcoin::TxIn {
    bitcoin::TxIn {
        previous_output: outpoint,
        script_sig: ScriptBuf::new(),
        sequence,
        witness: Witness::new(),
    }
}

fn foreign_script() -> ScriptBuf {
    let mut bytes = vec![0x00, 0x20];
    bytes.extend_from_slice(&[0xAB; 32]);
    ScriptBuf::from(bytes)
}

/// A wallet, and the outputs that the chain knows.
struct Fixture {
    cfg: WalletConfig,
    wallet: BuiltDescriptor,
    chain: HashMap<(String, u32), (u64, Vec<u8>, u32)>,
}

fn fixture(timelock_blocks: u16) -> Fixture {
    let cfg = test_wallet_config(timelock_blocks);
    let wallet = build_descriptor(&cfg).unwrap();
    Fixture { cfg, wallet, chain: HashMap::new() }
}

impl Fixture {
    fn insert(&mut self, outpoint: bitcoin::OutPoint, txout: &bitcoin::TxOut, confirmations: u32) {
        self.chain.insert(
            (outpoint.txid.to_string(), outpoint.vout),
            (txout.value.to_sat(), txout.script_pubkey.to_bytes(), confirmations),
        );
    }

    /// An output of the wallet itself, which the chain knows from now on.
    fn own_utxo(
        &mut self,
        chain: Chain,
        index: u32,
        outpoint: bitcoin::OutPoint,
        amount_sat: u64,
        confirmations: u32,
    ) -> bitcoin::TxOut {
        let script = script_at(self.wallet.chain(chain), index).unwrap();
        let txout = bitcoin::TxOut {
            value: Amount::from_sat(amount_sat),
            script_pubkey: ScriptBuf::from(script),
        };
        self.insert(outpoint, &txout, confirmations);
        txout
    }

    fn lookup(&self, outpoint: &OutPoint) -> UtxoLookup {
        match self.chain.get(&(outpoint.txid.clone(), outpoint.vout)) {
            Some((value, script, confirmations)) => UtxoLookup::Found(Utxo {
                txout: TxOut { value: *value, script_pubkey: script.clone() },
                confirmations: *confirmations,
            }),
            None => UtxoLookup::Missing,
        }
    }

    fn inspect(
        &mut self,
        psbt: &bitcoin::Psbt,
        gap_limit: u32,
    ) -> Result<InspectionReport, InspectError> {
        let read = Psbt::read(&psbt.to_string()).unwrap();
        let mut lookups = Vec::new();
        for input in &read.unsigned_tx.input {
            lookups.push(self.lookup(&input.previous_output));
        }
        let found = inspect(&read, &mut self.wallet, &self.cfg, &lookups, gap_limit)?;
        let rate = found.fee as f64 / found.estimated_vsize as f64;
        Ok(found.with_fee_rate(FeeRate { bits: rate.to_bits() }))
    }
}

fn server_key(cfg: &WalletConfig) -> ServerSigningKey {
    let account = test_key_spec_with_xpriv(0x03).1;
    ServerSigningKey::load(&format!("{account}\n"), &cfg.keys.server.xpub).unwrap()
}

fn policy_with_caps(
    network: ChainNetwork,
    max_tx_sat: u64,
    max_daily_sat: u64,
) -> CompiledPolicy {
    PolicyConfig {
        max_tx_sat,
        max_daily_sat,
        max_weekly_sat: u64::MAX,
        max_monthly_sat: u64::MAX,
        max_fee_sat: u64::MAX,
        max_fee_rate_sat_per_vb: FeeRate { bits: f64::MAX.to_bits() },
        destination_whitelist: None,
    }
    .compile(network)
    .unwrap()
}

fn spend(
    f: &mut Fixture,
    sequence: Sequence,
    txid_byte: u8,
    index: u32,
    amount_sat: u64,
    fee_sat: u64,
) -> bitcoin::Psbt {
    let outpoint = bitcoin::OutPoint::new(fake_txid(txid_byte), 0);
    let ours = f.own_utxo(Chain::External, index, outpoint, amount_sat, 6);
    let dest = bitcoin::TxOut {
        value: Amount::from_sat(amount_sat - fee_sat),
        script_pubkey: foreign_script(),
    };
    let mut psbt =
        bitcoin::Psbt::from_unsigned_tx(tx(vec![txin(outpoint, sequence)], vec![dest])).unwrap();
    psbt.inputs[0].witness_utxo = Some(ours);
    psbt
}

/// A spend that no relative timelock is satisfied for, and what it is found to be.
fn hot_psbt(
    f: &mut Fixture,
    txid_byte: u8,
    index: u32,
    amount_sat: u64,
    fee_sat: u64,
) -> (Psbt, InspectionReport) {
    let psbt =
        spend(f, Sequence::ENABLE_RBF_NO_LOCKTIME, txid_byte, index, amount_sat, fee_sat);
    let report = f.inspect(&psbt, 50).unwrap();
    (Psbt::read(&psbt.to_string()).unwrap(), report)
}

fn signature_of(psbt: &Psbt, key: &[u8]) -> Option<Vec<u8>> {
    let found = psbt.inputs[0].partial_sigs.iter().find(|s| s.public_key == key);
    found.map(|s| s.signature.clone())
}

#[test]
fn allows_and_records_a_spend_within_policy() {
    let mut f = fixture(12960);
    let server_key = server_key(&f.cfg);
    let mut ledger = Ledger::new();
    let policy = policy_with_caps(f.cfg.network, u64::MAX, u64::MAX);

    let (psbt, report) = hot_psbt(&mut f, 1, 0, 100_000, 1_000);
    let result = sign_psbt(
        psbt,
        report,
        &f.wallet,
        &f.cfg,
        &server_key,
        &mut ledger,
        &policy,
        1_000_000,
    )
    .unwrap();
    assert_eq!(result.ledger, LedgerOutcome::Recorded);

    let role_keys = role_keys_at(&f.wallet, &f.cfg, Chain::External, 0).unwrap();
    assert!(signature_of(&result.psbt, &role_keys.server).is_some());

    let totals = ledger.rolling_totals(1_000_000);
    assert_eq!(totals.day_sat, 99_000);
}

#[test]
fn denies_and_does_not_record_a_spend_over_the_cap() {
    let mut f = fixture(12960);
    let server_key = server_key(&f.cfg);
    let mut ledger = Ledger::new();
    let policy = policy_with_caps(f.cfg.network, 50_000, u64::MAX);

    let (psbt, report) = hot_psbt(&mut f, 2, 0, 100_000, 1_000);
    let err = sign_psbt(
        psbt,
        report,
        &f.wallet,
        &f.cfg,
        &server_key,
        &mut ledger,
        &policy,
        1_000_000,
    )
    .unwrap_err();
    assert!(matches!(err, SignPsbtError::Denied(_)));

    let totals = ledger.rolling_totals(1_000_000);
    assert_eq!(totals, RollingTotals::default(), "a denied spend must not be recorded");
}

#[test]
fn idempotent_replay_signs_again_without_double_recording() {
    let mut f = fixture(12960);
    let server_key = server_key(&f.cfg);
    let mut ledger = Ledger::new();
    let policy = policy_with_caps(f.cfg.network, u64::MAX, u64::MAX);

    let (psbt_a, report_a) = hot_psbt(&mut f, 3, 0, 100_000, 1_000);
    let first = sign_psbt(
        psbt_a,
        report_a,
        &f.wallet,
        &f.cfg,
        &server_key,
        &mut ledger,
        &policy,
        1_000_000,
    )
    .unwrap();
    assert_eq!(first.ledger, LedgerOutcome::Recorded);

    let (psbt_b, report_b) = hot_psbt(&mut f, 3, 0, 100_000, 1_000);
    let second = sign_psbt(
        psbt_b,
        report_b,
        &f.wallet,
        &f.cfg,
        &server_key,
        &mut ledger,
        &policy,
        1_000_100,
    )
    .unwrap();
    assert_eq!(second.ledger, LedgerOutcome::AlreadyRecorded);

    let role_keys = role_keys_at(&f.wallet, &f.cfg, Chain::External, 0).unwrap();
    assert_eq!(
        signature_of(&first.psbt, &role_keys.server),
        signature_of(&second.psbt, &role_keys.server),
        "replay must still return a valid (byte-identical) signature"
    );

    let totals = ledger.rolling_totals(1_000_100);
    assert_eq!(totals.day_sat, 99_000, "must count once, not twice");
}

#[test]
fn a_signed_spend_is_signed_again_under_a_policy_that_would_refuse_it() {
    let mut f = fixture(12960);
    let server_key = server_key(&f.cfg);
    let mut ledger = Ledger::new();
    let mut texts = Vec::new();
    for (cap, now) in [(u64::MAX, 1_000_000), (0, 2_000_000)] {
        let policy = policy_with_caps(f.cfg.network, cap, cap);
        let (psbt, report) = hot_psbt(&mut f, 9, 0, 100_000, 1_000);
        let done = sign_psbt(
            psbt,
            report,
            &f.wallet,
            &f.cfg,
            &server_key,
            &mut ledger,
            &policy,
            now,
        )
        .unwrap();
        texts.push(done.psbt.text);
    }
    assert_eq!(texts[0], texts[1]);
    assert_eq!(ledger.spends.len(), 1);
    assert_eq!(ledger.spends[0].recorded_at, 1_000_000);
}

#[test]
fn rejects_a_non_hot_spending_path() {
    let mut f = fixture(12960);
    let server_key = server_key(&f.cfg);
    let mut ledger = Ledger::new();
    let policy = policy_with_caps(f.cfg.network, u64::MAX, u64::MAX);

    let psbt = spend(&mut f, Sequence::from_height(12960), 4, 0, 100_000, 1_000);
    let report = f.inspect(&psbt, 50).unwrap();
    assert_eq!(report.spending_path, SpendingPath::Ambiguous);

    let err = sign_psbt(
        Psbt::read(&psbt.to_string()).unwrap(),
        report,
        &f.wallet,
        &f.cfg,
        &server_key,
        &mut ledger,
        &policy,
        1_000_000,
    )
    .unwrap_err();
    assert!(matches!(err, SignPsbtError::NotHotPath));

    let totals = ledger.rolling_totals(1_000_000);
    assert_eq!(totals, RollingTotals::default());
}

#[test]
fn concurrent_requests_cannot_race_past_a_rolling_cap() {
    const SPEND_SAT: u64 = 100;
    const FEE_SAT: u64 = 1_000;
    const DAILY_CAP_SAT: u64 = 250;
    const N: u8 = 5;

    let cfg = test_wallet_config(12960);
    let server_key = Arc::new(server_key(&cfg));
    let policy = Arc::new(policy_with_caps(cfg.network, u64::MAX, DAILY_CAP_SAT));
    let ledger = Arc::new(Mutex::new(Ledger::new()));

    let runtime = tokio::runtime::Builder::new_multi_thread().worker_threads(4).build().unwrap();
    let outcomes = runtime.block_on(async move {
        let mut handles = Vec::new();
        for i in 0..N {
            let server_key = server_key.clone();
            let policy = policy.clone();
            let ledger = ledger.clone();
            handles.push(tokio::spawn(async move {
                let mut f = fixture(12960);
                let (psbt, report) =
                    hot_psbt(&mut f, 100 + i, i as u32, SPEND_SAT + FEE_SAT, FEE_SAT);
                sign_psbt(
                    psbt,
                    report,
                    &f.wallet,
                    &f.cfg,
                    &server_key,
                    &mut ledger.lock().unwrap(),
                    &policy,
                    1_000_000,
                )
            }));
        }
        let mut outcomes = Vec::new();
        for handle in handles {
            outcomes.push(handle.await.unwrap());
        }
        (outcomes, ledger.lock().unwrap().rolling_totals(1_000_000))
    });

    let mut allowed = 0;
    let mut denied = 0;
    for outcome in outcomes.0 {
        match outcome {
            Ok(result) => {
                assert_eq!(result.ledger, LedgerOutcome::Recorded);
                allowed += 1;
            }
            Err(SignPsbtError::Denied(_)) => denied += 1,
            Err(e) => panic!("unexpected error: {e:?}"),
        }
    }
    assert_eq!(
        allowed, 2,
        "exactly 2 spends of 100 sat fit under a 250 sat cap, regardless of arrival order"
    );
    assert_eq!(denied, 3);
    assert_eq!(
        outcomes.1.day_sat, 200,
        "the cap must never be exceeded and no write may be lost"
    );
}

/// Everything that a submission needs but the transaction.
struct Desk {
    f: Fixture,
    key: ServerSigningKey,
    ledger: Ledger,
    policy: CompiledPolicy,
}

fn desk(max_tx_sat: u64, max_daily_sat: u64) -> Desk {
    let f = fixture(12960);
    let key = server_key(&f.cfg);
    let policy = policy_with_caps(f.cfg.network, max_tx_sat, max_daily_sat);
    Desk { f, key, ledger: Ledger::new(), policy }
}

impl Desk {
    fn submit(&mut self, byte: u8, hold: i64, now: i64) -> Result<SubmitOutcome, SubmitError> {
        let (psbt, report) = hot_psbt(&mut self.f, byte, 0, 100_000, 1_000);
        submit_for_signing(
            psbt,
            report,
            &self.f.wallet,
            &self.f.cfg,
            &self.key,
            &mut self.ledger,
            &self.policy,
            hold,
            now,
        )
    }

    fn due(&mut self, byte: u8, now: i64) -> PendingOutcome {
        let (psbt, report) = hot_psbt(&mut self.f, byte, 0, 100_000, 1_000);
        process_due_pending_row(
            psbt,
            report,
            &self.f.wallet,
            &self.f.cfg,
            &self.key,
            &mut self.ledger,
            &self.policy,
            now,
            "1.00",
            "2.00",
        )
    }

    fn txid(&mut self, byte: u8) -> String {
        hot_psbt(&mut self.f, byte, 0, 100_000, 1_000).0.unsigned_tx.txid
    }
}

#[test]
fn a_submission_is_held_and_then_signed_once() {
    let mut d = desk(u64::MAX, u64::MAX);
    let id = d.txid(1);
    match d.submit(1, 60, 1_000).unwrap() {
        SubmitOutcome::Queued { txid, hold_until, notify } => {
            assert_eq!(txid, id);
            assert_eq!(hold_until, 1_060);
            assert!(notify);
        }
        other => panic!("{other:?}"),
    }
    // Asking again changes nothing, and tells nobody again.
    match d.submit(1, 60, 1_050).unwrap() {
        SubmitOutcome::Queued { hold_until, notify, .. } => {
            assert_eq!(hold_until, 1_060);
            assert!(!notify);
        }
        other => panic!("{other:?}"),
    }
    // Nobody has been told yet, so it is not due.
    assert!(matches!(d.due(1, 2_000), PendingOutcome::NotDue));
    d.ledger.mark_notified(&id, 1_001);
    assert!(matches!(d.due(1, 1_059), PendingOutcome::NotDue));
    match d.due(1, 1_060) {
        PendingOutcome::Signed(done) => assert_eq!(done.ledger, LedgerOutcome::Recorded),
        other => panic!("{other:?}"),
    }
    let row = d.ledger.get_pending(&id).unwrap();
    assert_eq!(row.status, PendingStatus::Signed);
    assert!(bitcoin::Psbt::from_str(&row.signed_psbt_base64.unwrap()).unwrap().inputs[0]
        .partial_sigs
        .len() == 1);
    assert!(matches!(d.due(1, 1_061), PendingOutcome::NotDue));
    assert!(matches!(d.submit(1, 60, 1_070).unwrap(), SubmitOutcome::AlreadySigned(_)));
    assert_eq!(d.ledger.rolling_totals(1_070).day_sat, 99_000);
}

#[test]
fn a_submission_over_the_cap_is_never_queued() {
    let mut d = desk(1_000, u64::MAX);
    match d.submit(2, 60, 1_000).unwrap_err() {
        SubmitError::Denied(v) => assert_eq!(
            v,
            vec![PolicyViolation::ExceedsPerTransactionCap { spend_sat: 99_000, cap_sat: 1_000 }]
        ),
        other => panic!("{other:?}"),
    }
    assert!(d.ledger.pending.is_empty());
}

#[test]
fn a_row_that_came_to_an_end_stays_there() {
    let mut d = desk(u64::MAX, u64::MAX);
    for byte in [3u8, 4, 5] {
        d.submit(byte, 0, 1_000).unwrap();
    }
    let (a, b, c) = (d.txid(3), d.txid(4), d.txid(5));
    d.ledger.veto_pending(&a);
    d.ledger.mark_pending_denied(&b, "over".to_string());
    d.ledger.mark_pending_failed(&c, "broke".to_string());
    assert!(matches!(d.submit(3, 0, 2_000).unwrap_err(), SubmitError::Vetoed));
    match d.submit(4, 0, 2_000).unwrap_err() {
        SubmitError::PreviouslyDenied(m) => assert_eq!(m, "over"),
        other => panic!("{other:?}"),
    }
    match d.submit(5, 0, 2_000).unwrap_err() {
        SubmitError::PreviouslyFailed(m) => assert_eq!(m, "broke"),
        other => panic!("{other:?}"),
    }
    d.ledger.mark_notified(&a, 1_000);
    assert!(matches!(d.due(3, 3_000), PendingOutcome::NotDue));
}

#[test]
fn nothing_is_accepted_or_signed_while_frozen() {
    let mut d = desk(u64::MAX, u64::MAX);
    d.submit(6, 0, 1_000).unwrap();
    let id = d.txid(6);
    d.ledger.mark_notified(&id, 1_000);
    d.ledger.set_frozen(true, 1_001, Some("lost the phone"));
    assert!(matches!(d.submit(7, 0, 1_002).unwrap_err(), SubmitError::Frozen));
    assert!(matches!(d.due(6, 1_002), PendingOutcome::NotDue));
    assert_eq!(d.ledger.get_pending(&id).unwrap().status, PendingStatus::Pending);
    d.ledger.set_frozen(false, 1_003, None);
    assert!(matches!(d.due(6, 1_004), PendingOutcome::Signed(_)));
}

#[test]
fn the_policy_is_asked_again_when_the_hold_is_over() {
    let mut d = desk(u64::MAX, 150_000);
    d.submit(8, 0, 1_000).unwrap();
    d.submit(9, 0, 1_000).unwrap();
    let (a, b) = (d.txid(8), d.txid(9));
    d.ledger.mark_notified(&a, 1_000);
    d.ledger.mark_notified(&b, 1_000);
    assert!(matches!(d.due(8, 1_001), PendingOutcome::Signed(_)));
    match d.due(9, 1_001) {
        PendingOutcome::Denied(m) => assert!(m.contains("198000") && m.contains("150000"), "{m}"),
        other => panic!("{other:?}"),
    }
    assert_eq!(d.ledger.get_pending(&b).unwrap().status, PendingStatus::Denied);
}

#[test]
fn a_hold_beyond_the_end_of_time_is_refused() {
    let mut d = desk(u64::MAX, u64::MAX);
    assert!(matches!(d.submit(10, i64::MAX, 1).unwrap_err(), SubmitError::HoldTooLong));
}

#[test]
fn only_the_hot_path_is_submitted() {
    let mut d = desk(u64::MAX, u64::MAX);
    let psbt = spend(&mut d.f, Sequence::from_height(12960), 11, 0, 100_000, 1_000);
    let report = d.f.inspect(&psbt, 50).unwrap();
    let err = submit_for_signing(
        Psbt::read(&psbt.to_string()).unwrap(),
        report,
        &d.f.wallet,
        &d.f.cfg,
        &d.key,
        &mut d.ledger,
        &d.policy,
        0,
        0,
    )
    .unwrap_err();
    assert!(matches!(err, SubmitError::NotHotPath));
}

#[test]
fn a_denial_lists_each_violation() {
    let v = vec![
        PolicyViolation::ExceedsMaxFee { fee_sat: 5, cap_sat: 4 },
        PolicyViolation::DestinationAddressUnresolvable { output_index: 1 },
    ];
    let text = denial_message(&v, "", "");
    for one in &v {
        assert!(text.contains(&one.message("", "")), "{text}");
    }
    let err = SignPsbtError::Denied(v);
    assert!(err.message("", "").contains(&text));
}

#[test]
fn a_due_spend_that_is_refused_by_now_is_given_up() {
    let mut d = desk(u64::MAX, u64::MAX);
    d.submit(12, 0, 1_000).unwrap();
    let id = d.txid(12);
    d.ledger.mark_notified(&id, 1_000);

    let down = InspectError::Chain(ChainFailure::Node("down".to_string()));
    let outcome = process_refused_pending_row(&id, &down, &mut d.ledger, 1_001);
    assert!(matches!(outcome, PendingOutcome::NotDue));
    assert_eq!(d.ledger.get_pending(&id).unwrap().status, PendingStatus::Pending);

    let gone = InspectError::UnknownUtxo {
        input_index: 0,
        outpoint: OutPoint { txid: "0c".repeat(32), vout: 0 },
    };
    let early = process_refused_pending_row(&id, &gone, &mut d.ledger, 999);
    assert!(matches!(early, PendingOutcome::NotDue));
    match process_refused_pending_row(&id, &gone, &mut d.ledger, 1_001) {
        PendingOutcome::Failed(m) => assert_eq!(m, gone.message()),
        other => panic!("{other:?}"),
    }
    let row = d.ledger.get_pending(&id).unwrap();
    assert_eq!(row.status, PendingStatus::Failed);
    assert_eq!(row.message, Some(gone.message()));
}

#[test]
fn the_owner_is_told_where_the_money_goes() {
    let mut f = fixture(12960);
    let outpoint = bitcoin::OutPoint::new(fake_txid(13), 0);
    f.own_utxo(Chain::External, 0, outpoint, 100_000, 6);
    let change = script_at(f.wallet.internal(), 1).unwrap();
    let out = |value: u64, script: ScriptBuf| bitcoin::TxOut {
        value: Amount::from_sat(value),
        script_pubkey: script,
    };
    let psbt = bitcoin::Psbt::from_unsigned_tx(tx(
        vec![txin(outpoint, Sequence::MAX)],
        vec![
            out(1_000, foreign_script()),
            out(2_000, ScriptBuf::from(change.clone())),
            out(3_000, ScriptBuf::from(vec![0x6a])),
        ],
    ))
    .unwrap();
    let report = f.inspect(&psbt, 5).unwrap();
    let address = |script: &[u8]| {
        let script = ScriptBuf::from(script.to_vec());
        bitcoin::Address::from_script(&script, bitcoin::Network::Signet).unwrap().to_string()
    };
    let foreign = address(foreign_script().as_bytes());
    assert_eq!(destinations(&report), vec![foreign.clone()]);
    let read = Psbt::read(&psbt.to_string()).unwrap();
    assert_eq!(addresses_paid(&read, ChainNetwork::Signet), vec![foreign, address(&change)]);
}

#[test]
fn amounts_have_to_fit_before_a_decision_is_made() {
    let mut f = fixture(12960);
    let (_, report) = hot_psbt(&mut f, 14, 0, 100_000, 1_000);
    let mut ledger = Ledger::new();
    assert!(amounts_fit(&ledger, &report, 1_000));
    ledger.record_spend("a", 1_000, u64::MAX - 99_000, 0).unwrap();
    assert!(amounts_fit(&ledger, &report, 1_000));
    ledger.record_spend("b", 1_000, 1, 0).unwrap();
    assert!(!amounts_fit(&ledger, &report, 1_000));
    assert!(amounts_fit(&ledger, &report, 999));
    ledger.record_spend("c", 1_000, u64::MAX, 0).unwrap();
    assert!(!amounts_fit(&ledger, &report, 1_000));
}
