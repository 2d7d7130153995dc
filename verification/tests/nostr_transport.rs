//! Requests that arrive as messages.

use std::collections::HashMap;
use std::str::FromStr;

use bitcoin::bip32::{DerivationPath, Xpriv, Xpub};
use bitcoin::secp256k1::Secp256k1;
use bitcoin::{Amount, ScriptBuf, Sequence, Txid, Witness};
use cosigner::config::{ChainNetwork, KeySpec, KeysConfig, WalletConfig};
use cosigner::descriptor::{build_descriptor, script_at, BuiltDescriptor, Chain};
use cosigner::inspect::{inspect, InspectError, InspectionReport};
use cosigner::ledger::Ledger;
use cosigner::policy::{CompiledPolicy, FeeRate, PolicyConfig};
use cosigner::policy_auth::HardwareAuthKeys;
use cosigner::psbt::{OutPoint, Psbt, TxOut, Utxo, UtxoLookup};
use cosigner::recovery_contacts::Quorum;
use cosigner::sign::{submit_for_signing, SubmitOutcome};
use cosigner::signing::ServerSigningKey;
use cosigner::byteset::ByteSet;
use cosigner::http::{
    health, require_token, show_report, submit_reply, ApiError, InspectResponse, PolicyHandle,
    Route, SubmitReply,
};
use cosigner::nostr_transport::{
    not_a_request, on_arrival, on_opened, prepare, read_nsec, Arrival, InboundEnvelope, Method,
    NostrError, NostrTransportConfig, Opened,
};
use cosigner::recovery_contacts::ContactsError;
use cosigner::signing::KeySource;
use nostr_sdk::nips::nip59::UnwrappedGift;
use nostr_sdk::{Event, EventBuilder, Keys, ToBech32};

fn test_key_spec_with_xpriv(seed: u8) -> (KeySpec, Xpriv) {
    let secp = Secp256k1::new();
    let master = Xpriv::new_master(bitcoin::NetworkKind::Test, &[seed; 32]).unwrap();
    let path = "48h/1h/0h/2h";
    let account = master
        .derive_priv(&secp, &DerivationPath::from_str(path).unwrap())
        .unwrap();
    let spec = KeySpec {
        master_fingerprint: master.fingerprint(&secp).to_string(),
        derivation_path: path.to_string(),
        xpub: Xpub::from_priv(&secp, &account).to_string(),
    };
    (spec, account)
}

fn test_wallet_config(timelock_blocks: u16) -> WalletConfig {
    WalletConfig {
        network: ChainNetwork::Signet,
        i_understand_this_is_mainnet: false,
        timelock_blocks,
        keys: KeysConfig {
            satochip: test_key_spec_with_xpriv(0x01).0,
            mobile: test_key_spec_with_xpriv(0x02).0,
            server: test_key_spec_with_xpriv(0x03).0,
        },
        bitcoind: None,
        server: None,
        policy: None,
        server_signing: None,
        notify: None,
    }
}

fn fake_txid(byte: u8) -> Txid {
    Txid::from_str(&format!("{byte:02x}").repeat(32)).unwrap()
}

fn tx(inputs: Vec<bitcoin::TxIn>, outputs: Vec<bitcoin::TxOut>) -> bitcoin::Transaction {
    bitcoin::Transaction {
        version: bitcoin::transaction::Version::TWO,
        lock_time: bitcoin::absolute::LockTime::ZERO,
        input: inputs,
        output: outputs,
    }
}

fn txin(outpoint: bitcoin::OutPoint, sequence: Sequence) -> bitcoin::TxIn {
    bitcoin::TxIn {
        previous_output: outpoint,
        script_sig: ScriptBuf::new(),
        sequence,
        witness: Witness::new(),
    }
}

fn foreign_script() -> ScriptBuf {
    let mut bytes = vec![0x00, 0x20];
    bytes.extend_from_slice(&[0xAB; 32]);
    ScriptBuf::from(bytes)
}

/// A wallet, and the outputs that the chain knows.
struct Fixture {
    cfg: WalletConfig,
    wallet: BuiltDescriptor,
    chain: HashMap<(String, u32), (u64, Vec<u8>, u32)>,
}

fn fixture(timelock_blocks: u16) -> Fixture {
    let cfg = test_wallet_config(timelock_blocks);
    let wallet = build_descriptor(&cfg).unwrap();
    Fixture { cfg, wallet, chain: HashMap::new() }
}

impl Fixture {
    fn insert(&mut self, outpoint: bitcoin::OutPoint, txout: &bitcoin::TxOut, confirmations: u32) {
        self.chain.insert(
            (outpoint.txid.to_string(), outpoint.vout),
            (txout.value.to_sat(), txout.script_pubkey.to_bytes(), confirmations),
        );
    }

    /// An output of the wallet itself, which the chain knows from now on.
    fn own_utxo(
        &mut self,
        chain: Chain,
        index: u32,
        outpoint: bitcoin::OutPoint,
        amount_sat: u64,
        confirmations: u32,
    ) -> bitcoin::TxOut {
        let script = script_at(self.wallet.chain(chain), index).unwrap();
        let txout = bitcoin::TxOut {
            value: Amount::from_sat(amount_sat),
            script_pubkey: ScriptBuf::from(script),
        };
        self.insert(outpoint, &txout, confirmations);
        txout
    }

    fn lookup(&self, outpoint: &OutPoint) -> UtxoLookup {
        match self.chain.get(&(outpoint.txid.clone(), outpoint.vout)) {
            Some((value, script, confirmations)) => UtxoLookup::Found(Utxo {
                txout: TxOut { value: *value, script_pubkey: script.clone() },
                confirmations: *confirmations,
            }),
            None => UtxoLookup::Missing,
        }
    }

    fn inspect(
        &mut self,
        psbt: &bitcoin::Psbt,
        gap_limit: u32,
    ) -> Result<InspectionReport, InspectError> {
        let read = Psbt::read(&psbt.to_string()).unwrap();
        let mut lookups = Vec::new();
        for input in &read.unsigned_tx.input {
            lookups.push(self.lookup(&input.previous_output));
        }
        let found = inspect(&read, &mut self.wallet, &self.cfg, &lookups, gap_limit)?;
        let rate = found.fee as f64 / found.estimated_vsize as f64;
        Ok(found.with_fee_rate(FeeRate { bits: rate.to_bits() }))
    }
}

fn server_key(cfg: &WalletConfig) -> ServerSigningKey {
    let account = test_key_spec_with_xpriv(0x03).1;
    ServerSigningKey::load(&format!("{account}\n"), &cfg.keys.server.xpub).unwrap()
}

fn policy_with_caps(
    network: ChainNetwork,
    max_tx_sat: u64,
    max_daily_sat: u64,
) -> CompiledPolicy {
    PolicyConfig {
        max_tx_sat,
        max_daily_sat,
        max_weekly_sat: u64::MAX,
        max_monthly_sat: u64::MAX,
        max_fee_sat: u64::MAX,
        max_fee_rate_sat_per_vb: FeeRate { bits: f64::MAX.to_bits() },
        destination_whitelist: None,
    }
    .compile(network)
    .unwrap()
}

fn spend(
    f: &mut Fixture,
    sequence: Sequence,
    txid_byte: u8,
    index: u32,
    amount_sat: u64,
    fee_sat: u64,
) -> bitcoin::Psbt {
    let outpoint = bitcoin::OutPoint::new(fake_txid(txid_byte), 0);
    let ours = f.own_utxo(Chain::External, index, outpoint, amount_sat, 6);
    let dest = bitcoin::TxOut {
        value: Amount::from_sat(amount_sat - fee_sat),
        script_pubkey: foreign_script(),
    };
    let mut psbt =
        bitcoin::Psbt::from_unsigned_tx(tx(vec![txin(outpoint, sequence)], vec![dest])).unwrap();
    psbt.inputs[0].witness_utxo = Some(ours);
    psbt
}

/// A spend that no relative timelock is satisfied for, and what it is found to be.
fn hot_psbt(
    f: &mut Fixture,
    txid_byte: u8,
    index: u32,
    amount_sat: u64,
    fee_sat: u64,
) -> (Psbt, InspectionReport) {
    let psbt =
        spend(f, Sequence::ENABLE_RBF_NO_LOCKTIME, txid_byte, index, amount_sat, fee_sat);
    let report = f.inspect(&psbt, 50).unwrap();
    (Psbt::read(&psbt.to_string()).unwrap(), report)
}

/// A service with its state, as requests reach it.
struct Service {
    f: Fixture,
    key: ServerSigningKey,
    ledger: Ledger,
    policy: PolicyHandle,
    auth_keys: HardwareAuthKeys,
    api_token: Option<String>,
    contacts: Option<Quorum>,
    hold_seconds: i64,
}

const NOW: i64 = 1_700_000_000;

fn service(hold_seconds: i64) -> Service {
    let f = fixture(12960);
    let key = server_key(&f.cfg);
    let compiled = policy_with_caps(f.cfg.network, 100_000, u64::MAX);
    let mut ledger = Ledger::new();
    let seeded = ledger.load_or_seed_policy_state("{}".to_string(), 0);
    let auth_keys = HardwareAuthKeys::from_config(&f.cfg, 50).unwrap();
    Service {
        f,
        key,
        ledger,
        policy: PolicyHandle { version: seeded.version, compiled },
        auth_keys,
        api_token: None,
        contacts: None,
        hold_seconds,
    }
}

impl Service {
    fn lookups(&self, psbt: &Psbt) -> Vec<UtxoLookup> {
        let inputs = &psbt.unsigned_tx.input;
        inputs.iter().map(|i| self.f.lookup(&i.previous_output)).collect()
    }

    fn post_inspect(&mut self, text: &str, auth: Option<&str>) -> Result<InspectResponse, ApiError> {
        require_token(Route::Inspect, &self.api_token, auth)?;
        let psbt = Psbt::decode(text).map_err(|_| ApiError::invalid_psbt(text))?;
        let lookups = self.lookups(&psbt);
        let found = inspect(&psbt, &mut self.f.wallet, &self.f.cfg, &lookups, 50)
            .map_err(|e| ApiError::from_inspect(&e))?;
        Ok(show_report(&found.with_fee_rate(FeeRate { bits: 0 })))
    }

    fn post_sign_psbt(&mut self, text: &str, auth: Option<&str>) -> Result<SubmitReply, ApiError> {
        require_token(Route::SignPsbt, &self.api_token, auth)?;
        let psbt = Psbt::decode(text).map_err(|_| ApiError::invalid_psbt(text))?;
        let lookups = self.lookups(&psbt);
        let found = inspect(&psbt, &mut self.f.wallet, &self.f.cfg, &lookups, 50)
            .map_err(|e| ApiError::from_inspect(&e))?;
        let report = found.with_fee_rate(FeeRate { bits: 0 });
        let outcome = submit_for_signing(
            psbt,
            report,
            &self.f.wallet,
            &self.f.cfg,
            &self.key,
            &mut self.ledger,
            &self.policy.compiled,
            self.hold_seconds,
            NOW,
        )
        .map_err(|e| ApiError::from_submit(&e, "", ""))?;
        if let SubmitOutcome::Queued { txid, notify: true, .. } = &outcome {
            self.ledger.mark_notified(txid, NOW);
        }
        Ok(submit_reply(outcome))
    }

    fn queue(&mut self, byte: u8) -> String {
        let text = self.spend(byte, 50_000, 1_000);
        match self.post_sign_psbt(&text, None).unwrap() {
            SubmitReply::Queued(q) => {
                assert_eq!(q.status, "pending");
                assert!(q.hold_until > 0);
                q.id
            }
            SubmitReply::Signed(_) => panic!("signed at once"),
        }
    }

    fn spend(&mut self, byte: u8, amount: u64, fee: u64) -> String {
        spend(&mut self.f, Sequence::ENABLE_RBF_NO_LOCKTIME, byte, 0, amount, fee).to_string()
    }
}

/// Answers a message as the same request over HTTP is answered.
fn dispatch(s: &mut Service, env: InboundEnvelope) -> (u16, serde_json::Value) {
    let mut reply = serde_json::Map::new();
    let status = match prepare(&env, &s.api_token) {
        Err(e) => {
            reply.insert("error".to_string(), e.error.into());
            e.status
        }
        Ok(p) => match (p.method, p.path.as_str()) {
            (Method::Get, "/health") => {
                let body = health(&s.f.cfg, s.policy.version);
                reply.insert("service".to_string(), body.service.into());
                200
            }
            (Method::Post, "/inspect") => {
                assert!(p.has_json);
                let body: serde_json::Value = serde_json::from_str(&p.body).unwrap();
                let auth = p.authorization.as_deref();
                match s.post_inspect(body["psbt"].as_str().unwrap(), auth) {
                    Ok(shown) => {
                        reply.insert("spending_path".to_string(), shown.spending_path.into());
                        reply.insert("fee_sat".to_string(), shown.fee_sat.into());
                        200
                    }
                    Err(e) => e.status,
                }
            }
            _ => 404,
        },
    };
    (status, serde_json::Value::Object(reply))
}

fn envelope(method: &str, path: &str, body: Option<String>) -> InboundEnvelope {
    InboundEnvelope { method: method.to_string(), path: path.to_string(), body }
}

#[test]
fn nostr_transport_dispatch_routes_get_health_with_no_body() {
    let mut s = service(0);
    let (status, body) = dispatch(&mut s, envelope("GET", "/health", None));
    assert_eq!(status, 200);
    assert_eq!(body["service"], "cosigner");
}

#[test]
fn nostr_transport_dispatch_routes_post_inspect_with_a_body_and_mirrors_http_status() {
    let mut s = service(0);
    let outpoint = bitcoin::OutPoint::new(fake_txid(0x11), 0);
    s.f.own_utxo(Chain::External, 0, outpoint, 100_000, 6);
    let unsigned = tx(
        vec![txin(outpoint, Sequence::ENABLE_RBF_NO_LOCKTIME)],
        vec![bitcoin::TxOut {
            value: Amount::from_sat(90_000),
            script_pubkey: ScriptBuf::from(vec![0x00, 0x14, 0xaa]),
        }],
    );
    let psbt = bitcoin::Psbt::from_unsigned_tx(unsigned).unwrap();
    let body = format!("{{\"psbt\":\"{psbt}\"}}");
    let (status, body) = dispatch(&mut s, envelope("POST", "/inspect", Some(body)));
    assert_eq!(status, 200);
    assert_eq!(body["spending_path"], "hot");
    assert_eq!(body["fee_sat"], 10_000);
}

#[test]
fn nostr_transport_dispatch_rejects_an_unsupported_method_without_touching_the_router() {
    let mut s = service(0);
    let (status, body) = dispatch(&mut s, envelope("DELETE", "/health", None));
    assert_eq!(status, 400);
    assert_eq!(body["error"], "unsupported_method");
}

#[test]
fn nostr_transport_dispatch_returns_404_for_an_unknown_path_rather_than_panicking() {
    let mut s = service(0);
    let (status, _) = dispatch(&mut s, envelope("GET", "/not-a-real-endpoint", None));
    assert_eq!(status, 404);
}

fn block_on<T>(work: impl std::future::Future<Output = T>) -> T {
    tokio::runtime::Builder::new_current_thread().enable_all().build().unwrap().block_on(work)
}

fn real_gift_wrap(sender: &Keys, receiver: &Keys, content: &str) -> Event {
    let rumor = EventBuilder::private_msg_rumor(receiver.public_key(), content)
        .build(sender.public_key());
    block_on(EventBuilder::gift_wrap(sender, &receiver.public_key(), rumor, [])).unwrap()
}

/// What becomes of a message: whether it is answered.
fn handle_gift_wrap(
    ledger: &mut Ledger,
    allowed: &ByteSet,
    service_keys: &Keys,
    event: &Event,
    now: i64,
) -> Result<bool, String> {
    let id = event.id.to_hex();
    if let Arrival::Skip = on_arrival(ledger, &id) {
        return Ok(false);
    }
    let gift = block_on(UnwrappedGift::from_gift_wrap(service_keys, event))
        .map_err(|e| e.to_string())?;
    let sender = gift.sender.to_bytes().to_vec();
    match on_opened(ledger, allowed, &sender, &id, now) {
        Opened::Ignore => Ok(false),
        Opened::Answer => Ok(true),
    }
}

fn allowing(keys: &[&Keys]) -> ByteSet {
    let mut allowed = ByteSet::new();
    for k in keys {
        allowed.insert(k.public_key().to_bytes().to_vec());
    }
    allowed
}

#[test]
fn handle_gift_wrap_skips_an_event_already_marked_seen() {
    let mut ledger = Ledger::new();
    let service_keys = Keys::generate();
    let event = EventBuilder::new(nostr_sdk::Kind::GiftWrap, "not a real NIP-59 seal")
        .sign_with_keys(&service_keys)
        .unwrap();
    ledger.mark_nostr_event_seen(&event.id.to_hex(), 0);
    let result = handle_gift_wrap(&mut ledger, &ByteSet::new(), &service_keys, &event, 1);
    assert!(
        result.is_ok(),
        "an already-seen event must be skipped cleanly: {result:?}"
    );
}

#[test]
fn an_allowlisted_event_is_marked_seen_before_dispatch() {
    let mut ledger = Ledger::new();
    let (service_keys, sender_keys) = (Keys::generate(), Keys::generate());
    let allowed = allowing(&[&sender_keys]);
    let event = real_gift_wrap(&sender_keys, &service_keys, "{}");
    let event_id = event.id.to_hex();
    assert!(!ledger.has_seen_nostr_event(&event_id));
    assert_eq!(handle_gift_wrap(&mut ledger, &allowed, &service_keys, &event, 1), Ok(true));
    assert!(
        ledger.has_seen_nostr_event(&event_id),
        "an authorized event must be recorded before dispatch, so a crash can't replay it"
    );
}

#[test]
fn a_relay_redelivering_the_same_event_only_ever_dispatches_it_once() {
    let mut ledger = Ledger::new();
    let (service_keys, sender_keys) = (Keys::generate(), Keys::generate());
    let allowed = allowing(&[&sender_keys]);
    let event = real_gift_wrap(&sender_keys, &service_keys, "{}");
    assert_eq!(handle_gift_wrap(&mut ledger, &allowed, &service_keys, &event, 1), Ok(true));
    let second = handle_gift_wrap(&mut ledger, &allowed, &service_keys, &event, 2);
    assert_eq!(
        second,
        Ok(false),
        "redelivery of the exact same event must be a clean no-op, not reprocessed: {second:?}"
    );
}

#[test]
fn an_unauthorized_sender_is_never_recorded() {
    let mut ledger = Ledger::new();
    let (service_keys, stranger_keys) = (Keys::generate(), Keys::generate());
    let allowed = allowing(&[&Keys::generate()]);
    let event = real_gift_wrap(&stranger_keys, &service_keys, "{}");
    let result = handle_gift_wrap(&mut ledger, &allowed, &service_keys, &event, 1);
    assert_eq!(result, Ok(false), "rejection is a clean no-op, not an error");
    assert!(
        !ledger.has_seen_nostr_event(&event.id.to_hex()),
        "a non-contact's message must not be persisted - that would make this table's size \
         depend on inbound volume rather than on anything the operator controls"
    );
}

#[test]
fn expired_replay_records_are_pruned() {
    let mut ledger = Ledger::new();
    ledger.mark_nostr_event_seen("old-event", 1_000);
    ledger.mark_nostr_event_seen("recent-event", 9_000);
    let pruned = ledger.prune_nostr_seen_events(5_000);
    assert_eq!(pruned, 1);
    assert!(!ledger.has_seen_nostr_event("old-event"));
    assert!(ledger.has_seen_nostr_event("recent-event"));
}

#[test]
fn nostr_transport_nsec_can_be_read_from_bech32_or_hex() {
    let keys = Keys::generate();
    let hex = keys.secret_key().to_secret_hex();
    let bech32 = keys.secret_key().to_bech32().unwrap();
    let secret = keys.secret_key().to_secret_bytes().to_vec();
    assert_eq!(read_nsec(&hex).unwrap(), secret);
    assert_eq!(read_nsec(&bech32).unwrap(), secret);
    assert_eq!(read_nsec(&format!(" {bech32}\n")).unwrap(), secret);
    assert_eq!(read_nsec("nonsense").unwrap_err(), NostrError::InvalidNsec);
}

#[test]
fn nostr_transport_envelope_round_trips_through_json() {
    let env = envelope("POST", "/sign_psbt", Some("{\"psbt\":\"cHNidP8...\"}".to_string()));
    let mut map = serde_json::Map::new();
    map.insert("method".to_string(), env.method.clone().into());
    map.insert("path".to_string(), env.path.clone().into());
    let body: serde_json::Value = serde_json::from_str(env.body.as_ref().unwrap()).unwrap();
    map.insert("body".to_string(), body);
    let text = serde_json::Value::Object(map).to_string();
    let read: serde_json::Value = serde_json::from_str(&text).unwrap();
    assert_eq!(read["method"], env.method);
    assert_eq!(read["path"], env.path);
    assert_eq!(Some(read["body"].to_string()), env.body);
}

#[test]
fn the_configuration_names_the_key_and_who_may_write() {
    let keys = Keys::generate();
    let mut cfg = NostrTransportConfig {
        nsec_file: None,
        nsec_env_var: None,
        relays: vec!["wss://example.invalid".to_string()],
        allowed_npubs: vec![keys.public_key().to_bech32().unwrap()],
    };
    assert_eq!(cfg.source().err().unwrap(), NostrError::NoSource);
    cfg.nsec_env_var = Some("VAR".to_string());
    assert!(matches!(cfg.source().unwrap(), KeySource::EnvVar("VAR")));
    let allowed = cfg.compiled_allowlist().unwrap();
    assert!(allowed.contains(&keys.public_key().to_bytes().to_vec()));
    cfg.allowed_npubs.push("nonsense".to_string());
    assert_eq!(
        cfg.compiled_allowlist().err().unwrap(),
        NostrError::Allowlist(ContactsError::InvalidNpub { entry: 1 })
    );
    let text = |e: NostrError| e.message(&cfg.allowed_npubs);
    assert_eq!(
        text(NostrError::NoSource),
        "nostr_transport: one of nsec_file or nsec_env_var is required"
    );
    assert_eq!(
        text(NostrError::InvalidNsec),
        "nostr_transport nsec is not a valid Nostr secret key (bech32 nsec or hex)"
    );
    assert_eq!(
        text(NostrError::Allowlist(ContactsError::InvalidNpub { entry: 1 })),
        format!("nostr_transport.allowed_npubs entry {:?} is not a valid npub", cfg.allowed_npubs[1])
    );
}

#[test]
fn a_message_presents_the_token_itself() {
    let mut s = service(0);
    s.api_token = Some("t".to_string());
    let p = prepare(&envelope("post", "/inspect", None), &s.api_token).unwrap();
    assert_eq!(p.authorization.as_deref(), Some("Bearer t"));
    assert!(!p.has_json);
    assert!(require_token(Route::Inspect, &s.api_token, p.authorization.as_deref()).is_ok());
    let refused = not_a_request("expected value at line 1 column 1");
    assert_eq!(refused.status, 400);
    assert_eq!(
        refused.message,
        "not a valid request envelope: expected value at line 1 column 1"
    );
}
