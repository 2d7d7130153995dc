//! What requests are answered.

use std::collections::HashMap;
use std::str::FromStr;

use bitcoin::bip32::{DerivationPath, Xpriv, Xpub};
use bitcoin::secp256k1::Secp256k1;
use bitcoin::{Amount, ScriptBuf, Sequence, Txid, Witness};
use bitcoin::secp256k1::All;
use bitcoin::sign_message::{signed_msg_hash, MessageSignature};
use cosigner::config::{ChainNetwork, KeySpec, KeysConfig, WalletConfig};
use cosigner::descriptor::{build_descriptor, script_at, BuiltDescriptor, Chain};
use cosigner::inspect::{inspect, InspectError, InspectionReport};
use cosigner::ledger::Ledger;
use cosigner::policy::{CompiledPolicy, FeeRate, PolicyConfig};
use cosigner::policy_auth::HardwareAuthKeys;
use cosigner::psbt::{OutPoint, Psbt, TxOut, Utxo, UtxoLookup};
use cosigner::recovery_contacts::Quorum;
use cosigner::sign::{submit_for_signing, SubmitOutcome};
use cosigner::signing::ServerSigningKey;
use cosigner::byteset::ByteSet;
use cosigner::http::{
    constant_time_eq, get_freeze, get_sign_psbt, health, policy_response, post_freeze, post_policy,
    post_unfreeze, recovery_approve, require_token, show_report, submit_reply, to_hex, veto,
    ApiError, InspectResponse, PolicyHandle, Route, SubmitReply,
};
use cosigner::policy_auth::{canonical_message, canonical_unfreeze_message, PolicyChangeRequest};
use cosigner::recovery_contacts::canonical_approval_message;
use cosigner::policy::PolicyViolation;
use cosigner::sign::{SignPsbtError, SubmitError};
use cosigner::signing::SigningError;
use cosigner::status_page::{esc, render};
use nostr_sdk::{EventBuilder, JsonUtil, Keys};

fn test_key_spec_with_xpriv(seed: u8) -> (KeySpec, Xpriv) {
    let secp = Secp256k1::new();
    let master = Xpriv::new_master(bitcoin::NetworkKind::Test, &[seed; 32]).unwrap();
    let path = "48h/1h/0h/2h";
    let account = master
        .derive_priv(&secp, &DerivationPath::from_str(path).unwrap())
        .unwrap();
    let spec = KeySpec {
        master_fingerprint: master.fingerprint(&secp).to_string(),
        derivation_path: path.to_string(),
        xpub: Xpub::from_priv(&secp, &account).to_string(),
    };
    (spec, account)
}

fn test_wallet_config(timelock_blocks: u16) -> WalletConfig {
    WalletConfig {
        network: ChainNetwork::Signet,
        i_understand_this_is_mainnet: false,
        timelock_blocks,
        keys: KeysConfig {
            satochip: test_key_spec_with_xpriv(0x01).0,
            mobile: test_key_spec_with_xpriv(0x02).0,
            server: test_key_spec_with_xpriv(0x03).0,
        },
        bitcoind: None,
        server: None,
        policy: None,
        server_signing: None,
        notify: None,
    }
}

fn fake_txid(byte: u8) -> Txid {
    Txid::from_str(&format!("{byte:02x}").repeat(32)).unwrap()
}

fn tx(inputs: Vec<bitcoin::TxIn>, outputs: Vec<bitcoin::TxOut>) -> bitcoin::Transaction {
    bitcoin::Transaction {
        version: bitcoin::transaction::Version::TWO,
        lock_time: bitcoin::absolute::LockTime::ZERO,
        input: inputs,
        output: outputs,
    }
}

fn txin(outpoint: bitcoin::OutPoint, sequence: Sequence) -> bitcoin::TxIn {
    bitcoin::TxIn {
        previous_output: outpoint,
        script_sig: ScriptBuf::new(),
        sequence,
        witness: Witness::new(),
    }
}

fn foreign_script() -> ScriptBuf {
    let mut bytes = vec![0x00, 0x20];
    bytes.extend_from_slice(&[0xAB; 32]);
    ScriptBuf::from(bytes)
}

/// A wallet, and the outputs that the chain knows.
struct Fixture {
    cfg: WalletConfig,
    wallet: BuiltDescriptor,
    chain: HashMap<(String, u32), (u64, Vec<u8>, u32)>,
}

fn fixture(timelock_blocks: u16) -> Fixture {
    let cfg = test_wallet_config(timelock_blocks);
    let wallet = build_descriptor(&cfg).unwrap();
    Fixture { cfg, wallet, chain: HashMap::new() }
}

impl Fixture {
    fn insert(&mut self, outpoint: bitcoin::OutPoint, txout: &bitcoin::TxOut, confirmations: u32) {
        self.chain.insert(
            (outpoint.txid.to_string(), outpoint.vout),
            (txout.value.to_sat(), txout.script_pubkey.to_bytes(), confirmations),
        );
    }

    /// An output of the wallet itself, which the chain knows from now on.
    fn own_utxo(
        &mut self,
        chain: Chain,
        index: u32,
        outpoint: bitcoin::OutPoint,
        amount_sat: u64,
        confirmations: u32,
    ) -> bitcoin::TxOut {
        let script = script_at(self.wallet.chain(chain), index).unwrap();
        let txout = bitcoin::TxOut {
            value: Amount::from_sat(amount_sat),
            script_pubkey: ScriptBuf::from(script),
        };
        self.insert(outpoint, &txout, confirmations);
        txout
    }

    fn lookup(&self, outpoint: &OutPoint) -> UtxoLookup {
        match self.chain.get(&(outpoint.txid.clone(), outpoint.vout)) {
            Some((value, script, confirmations)) => UtxoLookup::Found(Utxo {
                txout: TxOut { value: *value, script_pubkey: script.clone() },
                confirmations: *confirmations,
            }),
            None => UtxoLookup::Missing,
        }
    }

    fn inspect(
        &mut self,
        psbt: &bitcoin::Psbt,
        gap_limit: u32,
    ) -> Result<InspectionReport, InspectError> {
        let read = Psbt::read(&psbt.to_string()).unwrap();
        let mut lookups = Vec::new();
        for input in &read.unsigned_tx.input {
            lookups.push(self.lookup(&input.previous_output));
        }
        let found = inspect(&read, &mut self.wallet, &self.cfg, &lookups, gap_limit)?;
        let rate = found.fee as f64 / found.estimated_vsize as f64;
        Ok(found.with_fee_rate(FeeRate { bits: rate.to_bits() }))
    }
}

fn server_key(cfg: &WalletConfig) -> ServerSigningKey {
    let account = test_key_spec_with_xpriv(0x03).1;
    ServerSigningKey::load(&format!("{account}\n"), &cfg.keys.server.xpub).unwrap()
}

fn policy_with_caps(
    network: ChainNetwork,
    max_tx_sat: u64,
    max_daily_sat: u64,
) -> CompiledPolicy {
    PolicyConfig {
        max_tx_sat,
        max_daily_sat,
        max_weekly_sat: u64::MAX,
        max_monthly_sat: u64::MAX,
        max_fee_sat: u64::MAX,
        max_fee_rate_sat_per_vb: FeeRate { bits: f64::MAX.to_bits() },
        destination_whitelist: None,
    }
    .compile(network)
    .unwrap()
}

fn spend(
    f: &mut Fixture,
    sequence: Sequence,
    txid_byte: u8,
    index: u32,
    amount_sat: u64,
    fee_sat: u64,
) -> bitcoin::Psbt {
    let outpoint = bitcoin::OutPoint::new(fake_txid(txid_byte), 0);
    let ours = f.own_utxo(Chain::External, index, outpoint, amount_sat, 6);
    let dest = bitcoin::TxOut {
        value: Amount::from_sat(amount_sat - fee_sat),
        script_pubkey: foreign_script(),
    };
    let mut psbt =
        bitcoin::Psbt::from_unsigned_tx(tx(vec![txin(outpoint, sequence)], vec![dest])).unwrap();
    psbt.inputs[0].witness_utxo = Some(ours);
    psbt
}

/// A spend that no relative timelock is satisfied for, and what it is found to be.
fn hot_psbt(
    f: &mut Fixture,
    txid_byte: u8,
    index: u32,
    amount_sat: u64,
    fee_sat: u64,
) -> (Psbt, InspectionReport) {
    let psbt =
        spend(f, Sequence::ENABLE_RBF_NO_LOCKTIME, txid_byte, index, amount_sat, fee_sat);
    let report = f.inspect(&psbt, 50).unwrap();
    (Psbt::read(&psbt.to_string()).unwrap(), report)
}

/// A service with its state, as requests reach it.
struct Service {
    f: Fixture,
    key: ServerSigningKey,
    ledger: Ledger,
    policy: PolicyHandle,
    auth_keys: HardwareAuthKeys,
    api_token: Option<String>,
    contacts: Option<Quorum>,
    hold_seconds: i64,
}

const NOW: i64 = 1_700_000_000;

fn service(hold_seconds: i64) -> Service {
    let f = fixture(12960);
    let key = server_key(&f.cfg);
    let compiled = policy_with_caps(f.cfg.network, 100_000, u64::MAX);
    let mut ledger = Ledger::new();
    let seeded = ledger.load_or_seed_policy_state("{}".to_string(), 0);
    let auth_keys = HardwareAuthKeys::from_config(&f.cfg, 50).unwrap();
    Service {
        f,
        key,
        ledger,
        policy: PolicyHandle { version: seeded.version, compiled },
        auth_keys,
        api_token: None,
        contacts: None,
        hold_seconds,
    }
}

impl Service {
    fn lookups(&self, psbt: &Psbt) -> Vec<UtxoLookup> {
        let inputs = &psbt.unsigned_tx.input;
        inputs.iter().map(|i| self.f.lookup(&i.previous_output)).collect()
    }

    fn post_inspect(&mut self, text: &str, auth: Option<&str>) -> Result<InspectResponse, ApiError> {
        require_token(Route::Inspect, &self.api_token, auth)?;
        let psbt = Psbt::decode(text).map_err(|_| ApiError::invalid_psbt(text))?;
        let lookups = self.lookups(&psbt);
        let found = inspect(&psbt, &mut self.f.wallet, &self.f.cfg, &lookups, 50)
            .map_err(|e| ApiError::from_inspect(&e))?;
        Ok(show_report(&found.with_fee_rate(FeeRate { bits: 0 })))
    }

    fn post_sign_psbt(&mut self, text: &str, auth: Option<&str>) -> Result<SubmitReply, ApiError> {
        require_token(Route::SignPsbt, &self.api_token, auth)?;
        let psbt = Psbt::decode(text).map_err(|_| ApiError::invalid_psbt(text))?;
        let lookups = self.lookups(&psbt);
        let found = inspect(&psbt, &mut self.f.wallet, &self.f.cfg, &lookups, 50)
            .map_err(|e| ApiError::from_inspect(&e))?;
        let report = found.with_fee_rate(FeeRate { bits: 0 });
        let outcome = submit_for_signing(
            psbt,
            report,
            &self.f.wallet,
            &self.f.cfg,
            &self.key,
            &mut self.ledger,
            &self.policy.compiled,
            self.hold_seconds,
            NOW,
        )
        .map_err(|e| ApiError::from_submit(&e, "", ""))?;
        if let SubmitOutcome::Queued { txid, notify: true, .. } = &outcome {
            self.ledger.mark_notified(txid, NOW);
        }
        Ok(submit_reply(outcome))
    }

    fn queue(&mut self, byte: u8) -> String {
        let text = self.spend(byte, 50_000, 1_000);
        match self.post_sign_psbt(&text, None).unwrap() {
            SubmitReply::Queued(q) => {
                assert_eq!(q.status, "pending");
                assert!(q.hold_until > 0);
                q.id
            }
            SubmitReply::Signed(_) => panic!("signed at once"),
        }
    }

    fn spend(&mut self, byte: u8, amount: u64, fee: u64) -> String {
        spend(&mut self.f, Sequence::ENABLE_RBF_NO_LOCKTIME, byte, 0, amount, fee).to_string()
    }
}

fn sign_message(xprv: &Xpriv, secp: &Secp256k1<All>, message: &str) -> String {
    let hash = signed_msg_hash(message);
    let digest: &[u8; 32] = hash.as_ref();
    let msg = bitcoin::secp256k1::Message::from_digest(*digest);
    let sig = secp.sign_ecdsa_recoverable(&msg, &xprv.private_key);
    MessageSignature::new(sig, true).to_base64()
}

/// The fee rate as it is written in what is signed.
fn rate_text(policy: &PolicyConfig) -> String {
    format!("{}", f64::from_bits(policy.max_fee_rate_sat_per_vb.bits))
}

fn said(version: u64, policy: &PolicyConfig) -> String {
    canonical_message(version, policy, &rate_text(policy))
}

fn request(policy: PolicyConfig, version: u64, signature_base64: String) -> PolicyChangeRequest {
    let fee_rate_text = rate_text(&policy);
    let policy_json = format!("{{\"max_tx_sat\":{}}}", policy.max_tx_sat);
    PolicyChangeRequest { policy, version, signature_base64, fee_rate_text, policy_json }
}

fn contacts(of: &[&Keys], threshold: usize) -> Option<Quorum> {
    let mut allowed = ByteSet::new();
    for keys in of {
        allowed.insert(keys.public_key().to_bytes().to_vec());
    }
    Some(Quorum { allowed, threshold })
}

fn approval(keys: &Keys, message: &str) -> String {
    EventBuilder::text_note(message).sign_with_keys(keys).unwrap().as_json()
}

fn refused<T>(r: Result<T, ApiError>) -> ApiError {
    match r {
        Ok(_) => panic!("accepted"),
        Err(e) => e,
    }
}

#[test]
fn the_token_guards_submission_but_never_the_panic_buttons() {
    let mut s = service(1_000_000);
    s.api_token = Some("s3cret-token".to_string());
    let psbt = s.spend(0x71, 50_000, 1_000);

    let e = refused(s.post_sign_psbt(&psbt, None));
    assert_eq!(e.status, 401, "/sign_psbt must require a token");
    assert_eq!(e.error, "unauthorized");
    let e = refused(s.post_inspect(&psbt, None));
    assert_eq!(e.status, 401, "/inspect must require a token");
    assert_eq!(e.error, "unauthorized");

    let e = refused(s.post_sign_psbt(&psbt, Some("Bearer not-the-token")));
    assert_eq!(e.status, 401, "a wrong token is refused");

    let reply = s.post_sign_psbt(&psbt, Some("Bearer s3cret-token")).unwrap();
    assert!(matches!(reply, SubmitReply::Queued(_)));

    assert!(require_token(Route::PostFreeze, &s.api_token, None).is_ok());
    assert!(post_freeze(&mut s.ledger, None, NOW).frozen);
    assert!(require_token(Route::Health, &s.api_token, None).is_ok());
    assert!(require_token(Route::Veto, &s.api_token, None).is_ok());
    assert_eq!(refused(veto(&mut s.ledger, "never-seen")).status, 404);
}

#[test]
fn a_recovery_quorum_releases_the_hold_and_nothing_else() {
    let mut s = service(1_000_000);
    let (a, b, stranger) = (Keys::generate(), Keys::generate(), Keys::generate());
    s.contacts = contacts(&[&a, &b], 2);

    let id = s.queue(0x81);
    let before = s.ledger.get_pending(&id).unwrap();
    assert!(s.ledger.due_pending(NOW).is_empty());
    let msg = canonical_approval_message(&id);

    let one = vec![approval(&a, &msg)];
    let e = refused(recovery_approve(&mut s.ledger, &s.contacts, &id, &one, NOW));
    assert_eq!(e.status, 403);

    let with_stranger = vec![approval(&a, &msg), approval(&stranger, &msg)];
    let e = refused(recovery_approve(&mut s.ledger, &s.contacts, &id, &with_stranger, NOW));
    assert_eq!(e.status, 403);
    assert!(
        s.ledger.due_pending(NOW).is_empty(),
        "a failed quorum must not have moved anything"
    );

    let both = vec![approval(&a, &msg), approval(&b, &msg)];
    let body = recovery_approve(&mut s.ledger, &s.contacts, &id, &both, NOW).unwrap();
    assert_eq!(body.approvals, 2);
    assert!(body.released);

    let after = s.ledger.get_pending(&id).unwrap();
    assert_eq!(s.ledger.due_pending(NOW), vec![id.clone()], "the spend is now due");

    assert_eq!(after.status, before.status);
    assert_eq!(after.psbt_base64, before.psbt_base64);
    assert_eq!(after.spend_amount_sat, before.spend_amount_sat);
    assert_eq!(after.fee_sat, before.fee_sat);
    assert!(after.hold_until < before.hold_until);
}

#[test]
fn a_quorum_cannot_revive_a_vetoed_spend() {
    let mut s = service(1_000_000);
    let (a, b) = (Keys::generate(), Keys::generate());
    s.contacts = contacts(&[&a, &b], 2);
    let id = s.queue(0x82);

    assert!(veto(&mut s.ledger, &id).is_ok());

    let msg = canonical_approval_message(&id);
    let both = vec![approval(&a, &msg), approval(&b, &msg)];
    let e = refused(recovery_approve(&mut s.ledger, &s.contacts, &id, &both, NOW));
    assert_eq!(e.status, 404, "got: {}", e.message);
    assert!(s.ledger.due_pending(NOW).is_empty());
}

#[test]
fn recovery_approval_is_refused_when_no_contacts_are_configured() {
    let mut s = service(1_000_000);
    assert!(s.contacts.is_none());
    let id = s.queue(0x83);
    let e = refused(recovery_approve(&mut s.ledger, &s.contacts, &id, &vec![], NOW));
    assert_eq!(e.status, 501);
}

#[test]
fn no_configured_token_means_no_authentication() {
    let mut s = service(1_000_000);
    assert!(s.api_token.is_none());
    let psbt = s.spend(0x72, 50_000, 1_000);
    assert!(matches!(s.post_sign_psbt(&psbt, None).unwrap(), SubmitReply::Queued(_)));
}

#[test]
fn full_queue_and_veto_flow_via_http() {
    let mut s = service(1_000_000);
    let id = s.queue(1);

    let (status, body) = get_sign_psbt(&s.ledger, &id).unwrap();
    assert_eq!(status, 202);
    assert_eq!(body.status, "pending");

    let body = veto(&mut s.ledger, &id).unwrap();
    assert_eq!(body.status, "vetoed");

    let (status, body) = get_sign_psbt(&s.ledger, &id).unwrap();
    assert_eq!(status, 409);
    assert_eq!(body.status, "vetoed");

    let body = veto(&mut s.ledger, &id).unwrap();
    assert_eq!(body.status, "vetoed");

    assert_eq!(refused(get_sign_psbt(&s.ledger, "never-seen")).status, 404);
}

#[test]
fn veto_of_unknown_id_is_404() {
    let mut s = service(1_000_000);
    assert_eq!(refused(veto(&mut s.ledger, "never-seen")).status, 404);
}

#[test]
fn over_cap_spend_is_denied_immediately_and_never_queued() {
    let mut s = service(1_000_000);
    let psbt = s.spend(9, 200_000, 50_000);
    let id = Psbt::read(&psbt).unwrap().unsigned_tx.txid;

    let e = refused(s.post_sign_psbt(&psbt, None));
    assert_eq!(e.status, 422, "got: {}", e.message);
    assert_eq!(e.error, "policy_denied");

    assert_eq!(
        refused(get_sign_psbt(&s.ledger, &id)).status,
        404,
        "a denied-at-submission spend must never be queued"
    );
}

#[test]
fn get_policy_reports_the_seeded_version_and_values() {
    let s = service(1_000_000);
    let body = policy_response(s.policy.version, &s.policy.compiled);
    assert_eq!(body.version, 1);
    assert_eq!(body.policy.max_tx_sat, 100_000);
}

#[test]
fn health_reports_service_network_and_policy_version() {
    let s = service(1_000_000);
    let body = health(&s.f.cfg, s.policy.version);
    assert_eq!(body.service, "cosigner");
    assert_eq!(body.network, "signet");
    assert_eq!(body.policy_version, 1);
}

fn new_policy() -> PolicyConfig {
    PolicyConfig {
        max_tx_sat: 5,
        max_daily_sat: u64::MAX,
        max_weekly_sat: u64::MAX,
        max_monthly_sat: u64::MAX,
        max_fee_sat: u64::MAX,
        max_fee_rate_sat_per_vb: FeeRate { bits: f64::MAX.to_bits() },
        destination_whitelist: None,
    }
}

fn signed_by(seed: u8, message: &str) -> String {
    sign_message(&test_key_spec_with_xpriv(seed).1, &Secp256k1::new(), message)
}

#[test]
fn post_policy_with_a_valid_hardware_signature_hot_swaps_the_running_policy() {
    let mut s = service(1_000_000);
    let signature = signed_by(0x01, &said(2, &new_policy()));
    let req = request(new_policy(), 2, signature);
    let body =
        post_policy(&mut s.ledger, &mut s.policy, &s.f.cfg, &s.auth_keys, req, NOW).unwrap();
    assert_eq!(body.version, 2);
    assert_eq!(body.policy.max_tx_sat, 5);
    assert_eq!(s.policy.version, 2);

    let psbt = s.spend(42, 50_000, 1_000);
    let e = refused(s.post_sign_psbt(&psbt, None));
    assert_eq!(e.status, 422, "got: {}", e.message);
    assert_eq!(e.error, "policy_denied");
}

#[test]
fn post_policy_rejects_a_signature_from_a_non_hardware_key() {
    let mut s = service(1_000_000);
    let signature = signed_by(0x03, &said(2, &new_policy()));
    let req = request(new_policy(), 2, signature);
    let e = refused(post_policy(
        &mut s.ledger,
        &mut s.policy,
        &s.f.cfg,
        &s.auth_keys,
        req,
        NOW,
    ));
    assert_eq!(e.status, 403, "got: {}", e.message);
    assert_eq!(e.error, "unauthorized_signer");
    assert_eq!(s.policy.version, 1);
}

#[test]
fn post_policy_rejects_a_wrong_version() {
    let mut s = service(1_000_000);
    let signature = signed_by(0x01, &said(99, &new_policy()));
    let req = request(new_policy(), 99, signature);
    let e = refused(post_policy(
        &mut s.ledger,
        &mut s.policy,
        &s.f.cfg,
        &s.auth_keys,
        req,
        NOW,
    ));
    assert_eq!(e.status, 409, "got: {}", e.message);
    assert_eq!(e.error, "version_mismatch");
}

#[test]
fn a_freeze_is_lifted_by_the_hardware_alone() {
    let mut s = service(0);
    assert!(!get_freeze(&s.ledger).frozen);
    let frozen = post_freeze(&mut s.ledger, Some("stolen"), NOW);
    assert_eq!(frozen.generation, 1);
    let psbt = s.spend(0x51, 50_000, 1_000);
    assert!(matches!(refused(s.post_sign_psbt(&psbt, None)).status, 409 | 423 | 503));
    let text = canonical_unfreeze_message(1);
    let e = refused(post_unfreeze(&mut s.ledger, &s.auth_keys, &signed_by(0x02, &text), NOW));
    assert_eq!(e.status, 403);
    assert!(get_freeze(&s.ledger).frozen);
    let reply =
        post_unfreeze(&mut s.ledger, &s.auth_keys, &signed_by(0x01, &text), NOW).unwrap();
    assert!(!reply.frozen);
    assert_eq!(reply.generation, 1);
    assert!(matches!(s.post_sign_psbt(&psbt, None).unwrap(), SubmitReply::Queued(_)));
}

#[test]
fn what_is_found_is_shown() {
    let mut s = service(0);
    let psbt = s.spend(0x52, 50_000, 1_000);
    let shown = s.post_inspect(&psbt, None).unwrap();
    assert_eq!(shown.spending_path, "hot");
    assert_eq!(shown.fee_sat, 1_000);
    assert_eq!(shown.inputs[0].outpoint, format!("{}:0", fake_txid(0x52)));
    assert_eq!(shown.inputs[0].chain, "external");
    assert_eq!(shown.outputs[0].kind, "destination");
    assert_eq!(
        shown.outputs[0].script_pubkey_hex,
        format!("0020{}", "ab".repeat(32))
    );
    assert_eq!(to_hex(&vec![0x00, 0x9f, 0xff]), "009fff");
    let e = refused(s.post_inspect("nonsense", None));
    assert_eq!(e.status, 400);
}

#[test]
fn each_refusal_has_its_status() {
    assert_eq!(ApiError::internal("x".to_string()).status, 500);
    let e = ApiError::invalid_psbt("nonsense");
    assert_eq!((e.status, e.error), (400, "invalid_psbt"));
    let cause = bitcoin::Psbt::from_str("nonsense").unwrap_err();
    assert_eq!(e.message, format!("failed to parse psbt: {cause}"));
    let e = ApiError::from_submit(&SubmitError::Vetoed, "", "");
    assert_eq!(e.status, 409);
    let e = ApiError::from_signing(&SigningError::KeyMismatch { input_index: 0 });
    assert!(e.status >= 400);
    let e = ApiError::from_sign(&SignPsbtError::NotHotPath, "", "");
    assert_eq!((e.status, e.error), (422, "not_hot_path"));
    let over = PolicyViolation::ExceedsMaxFee { fee_sat: 2, cap_sat: 1 };
    let e = ApiError::from_sign(&SignPsbtError::Denied(vec![over.clone()]), "", "");
    assert_eq!((e.status, e.error), (422, "policy_denied"));
    assert_eq!(e.message, over.message("", ""));
    let mut s = service(0);
    let psbt = s.spend(0x53, 50_000, 1_000);
    s.f.chain.clear();
    let e = refused(s.post_inspect(&psbt, None));
    assert_eq!(e.error, "unknown_utxo");
}

#[test]
fn tokens_are_compared_in_whole() {
    assert!(constant_time_eq(b"abc", b"abc"));
    assert!(!constant_time_eq(b"abc", b"abd"));
    assert!(!constant_time_eq(b"abc", b"ab"));
    assert!(constant_time_eq(b"", b""));
}

#[test]
fn the_page_shows_the_wallet_and_escapes_what_it_shows() {
    let s = service(0);
    let page = render(&s.f.wallet, &s.f.cfg, 7, "1.2.3");
    assert!(page.contains(&esc(s.f.wallet.external())));
    assert!(page.contains("1.2.3"));
    assert!(page.contains("signet"));
    assert_eq!(esc("a<b>&\"c\""), "a&lt;b&gt;&amp;&quot;c&quot;");
}
