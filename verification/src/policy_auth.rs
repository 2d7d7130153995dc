//! Changes of the policy, and the lifting of a freeze, are authorized by the hardware key.
//!
//! An authorization is a Bitcoin signed message, which wallet software can make: the text says in
//! words what is authorized, and is computed anew here before it is verified. To verify is to
//! recover the signer's key and to look it up among the hardware key and its children, which are
//! derived once.
//!
//! - A change of the policy has to be for the version after the one in force, so that two changes
//!   cannot overwrite each other and an old authorization cannot bring a looser policy back.
//! - An unfreeze is bound to the freeze that it lifts.

use core::str::FromStr;

use vstd::prelude::*;
use vstd::string::*;

use crate::byteset::ByteSet;
use crate::config::WalletConfig;
use crate::ledger::{Ledger, PolicyState, Tables};
use crate::policy::{policy_error_text, CompiledPolicy, PolicyConfig, PolicyError};
use crate::text::{
    decimal, decimal_text, join, joined, law_a_numeral_is_read_back, law_what_is_joined_is_taken_apart_again,
    lemma_numeral_is_digits, lemma_same_up_to, push_decimal, trim, trimmed,
};

verus! {

/// The public key of an extended public key, serialized; nothing where the text is none.
pub uninterp spec fn account_key(xpub: Seq<char>) -> Option<Seq<u8>>;

/// `<bitcoin::bip32::Xpub as FromStr>::from_str`, of which the public key is kept, serialized. It
/// is named [`account_key`].
#[verifier::external_body]
fn xpub_key(xpub: &str) -> (r: Option<Vec<u8>>)
    ensures
        match r {
            Some(k) => account_key(xpub@) == Some(k@),
            None => account_key(xpub@) is None,
        },
{
    Some(bitcoin::bip32::Xpub::from_str(xpub).ok()?.public_key.serialize().to_vec())
}

/// The public key at `chain/index` below an extended public key, serialized.
pub uninterp spec fn child_key(xpub: Seq<char>, chain: u32, index: u32) -> Option<Seq<u8>>;

/// `bitcoin::bip32::Xpub::derive_pub` along two normal children, of which the public key is kept,
/// serialized. It is named [`child_key`].
#[verifier::external_body]
fn derive_pub(xpub: &str, chain: u32, index: u32) -> (r: Option<Vec<u8>>)
    ensures
        match r {
            Some(k) => child_key(xpub@, chain, index) == Some(k@),
            None => child_key(xpub@, chain, index) is None,
        },
{
    let secp = bitcoin::secp256k1::Secp256k1::verification_only();
    let chain = bitcoin::bip32::ChildNumber::from_normal_idx(chain).ok()?;
    let index = bitcoin::bip32::ChildNumber::from_normal_idx(index).ok()?;
    let xpub = bitcoin::bip32::Xpub::from_str(xpub).ok()?;
    Some(xpub.derive_pub(&secp, &[chain, index]).ok()?.public_key.serialize().to_vec())
}

/// The public key that made a signed message, serialized; nothing where the signature is none.
pub uninterp spec fn signer_of(message: Seq<char>, signature_base64: Seq<char>) -> Option<Seq<u8>>;

/// `bitcoin::sign_message::MessageSignature::from_base64` and `recover_pubkey`, on
/// `bitcoin::sign_message::signed_msg_hash` of the message. The key is named [`signer_of`].
#[verifier::external_body]
fn recover_pubkey(message: &str, signature_base64: &str) -> (r: Option<Vec<u8>>)
    ensures
        match r {
            Some(k) => signer_of(message@, signature_base64@) == Some(k@),
            None => signer_of(message@, signature_base64@) is None,
        },
{
    let signature = bitcoin::sign_message::MessageSignature::from_base64(signature_base64).ok()?;
    let hash = bitcoin::sign_message::signed_msg_hash(message);
    let secp = bitcoin::secp256k1::Secp256k1::verification_only();
    Some(signature.recover_pubkey(&secp, hash).ok()?.inner.serialize().to_vec())
}

/// A line of a message: a name, a value, and the end of the line.
pub open spec fn line(name: Seq<char>, value: Seq<char>, rest: Seq<char>) -> Seq<char> {
    name + (value + (seq!['\n'] + rest))
}

/// The line on the whitelist.
pub open spec fn whitelist_line(policy: PolicyConfig) -> Seq<char> {
    match policy.destination_whitelist {
        None => "destination_whitelist: (none - any destination allowed)"@,
        Some(entries) => "destination_whitelist: "@ + joined(entries.deep_view(), ","@),
    }
}

/// The text that is signed to put `policy` in force as `version`. `fee_rate` is the highest fee
/// rate as a text.
pub open spec fn policy_message(version: nat, policy: PolicyConfig, fee_rate: Seq<char>) -> Seq<
    char,
> {
    line(
        "cosigner policy authorization v1"@,
        Seq::empty(),
        line(
            "version: "@,
            decimal(version),
            line(
                "max_tx_sat: "@,
                decimal(policy.max_tx_sat as nat),
                line(
                    "max_daily_sat: "@,
                    decimal(policy.max_daily_sat as nat),
                    line(
                        "max_weekly_sat: "@,
                        decimal(policy.max_weekly_sat as nat),
                        line(
                            "max_monthly_sat: "@,
                            decimal(policy.max_monthly_sat as nat),
                            line(
                                "max_fee_sat: "@,
                                decimal(policy.max_fee_sat as nat),
                                line(
                                    "max_fee_rate_sat_per_vb: "@,
                                    fee_rate,
                                    whitelist_line(policy),
                                ),
                            ),
                        ),
                    ),
                ),
            ),
        ),
    )
}

fn with_line(name: &str, value: &str, rest: String) -> (r: String)
    ensures
        r@ == line(name@, value@, rest@),
{
    let mut out = name.to_owned();
    out.append(value);
    out.push('\n');
    out.append(rest.as_str());
    assert(out@ =~= line(name@, value@, rest@));
    out
}

fn with_amount(name: &str, n: u64, rest: String) -> (r: String)
    ensures
        r@ == line(name@, decimal(n as nat), rest@),
{
    with_line(name, decimal_text(n).as_str(), rest)
}

/// The text that is signed to put `policy` in force as `version`: a field in each line, in a fixed
/// order. `fee_rate` is the policy's highest fee rate as a text.
pub fn canonical_message(version: u64, policy: &PolicyConfig, fee_rate: &str) -> (r: String)
    ensures
        r@ == policy_message(version as nat, *policy, fee_rate@),
{
    let last = match &policy.destination_whitelist {
        None => "destination_whitelist: (none - any destination allowed)".to_owned(),
        Some(entries) => {
            let mut last = "destination_whitelist: ".to_owned();
            last.append(join(entries, ",").as_str());
            last
        },
    };
    let msg = with_line("max_fee_rate_sat_per_vb: ", fee_rate, last);
    let msg = with_amount("max_fee_sat: ", policy.max_fee_sat, msg);
    let msg = with_amount("max_monthly_sat: ", policy.max_monthly_sat, msg);
    let msg = with_amount("max_weekly_sat: ", policy.max_weekly_sat, msg);
    let msg = with_amount("max_daily_sat: ", policy.max_daily_sat, msg);
    let msg = with_amount("max_tx_sat: ", policy.max_tx_sat, msg);
    let msg = with_amount("version: ", version, msg);
    let none = String::new();
    with_line("cosigner policy authorization v1", none.as_str(), msg)
}

/// The text that is signed to lift the freeze of a generation.
pub open spec fn unfreeze_message(generation: nat) -> Seq<char> {
    "cosigner unfreeze authorization v1\nfreeze_generation: "@ + decimal(generation)
}

/// The text that is signed to lift a freeze. It is bound to the generation of that freeze.
pub fn canonical_unfreeze_message(freeze_generation: u64) -> (r: String)
    ensures
        r@ == unfreeze_message(freeze_generation as nat),
{
    let mut msg = "cosigner unfreeze authorization v1\nfreeze_generation: ".to_owned();
    push_decimal(&mut msg, freeze_generation);
    msg
}

/// Why no key signed a message with a signature, in the words of who read it; nothing where one did.
pub uninterp spec fn signature_failure(message: Seq<char>, signature_base64: Seq<char>) -> Option<
    Seq<char>,
>;

/// `bitcoin::sign_message::MessageSignature::from_base64` and `recover_pubkey`, of which the error
/// is kept, written out by `Display`. It is named [`signature_failure`].
#[verifier::external_body]
fn signature_error(message: &str, signature_base64: &str) -> (r: Option<String>)
    ensures
        match r {
            Some(e) => signature_failure(message@, signature_base64@) == Some(e@),
            None => signature_failure(message@, signature_base64@) is None,
        },
        (r is Some) == (signer_of(message@, signature_base64@) is None),
{
    let signature = match bitcoin::sign_message::MessageSignature::from_base64(signature_base64) {
        Ok(signature) => signature,
        Err(e) => return Some(e.to_string()),
    };
    let hash = bitcoin::sign_message::signed_msg_hash(message);
    let secp = bitcoin::secp256k1::Secp256k1::verification_only();
    Some(signature.recover_pubkey(&secp, hash).err()?.to_string())
}

/// What is said of a signature that is none; nothing of one that is.
pub open spec fn said_of_signature(message: Seq<char>, signature_base64: Seq<char>) -> Seq<char> {
    match signature_failure(message, signature_base64) {
        Some(e) => e,
        None => Seq::empty(),
    }
}

/// What is said of a signature that is none; nothing of one that is.
pub fn explain_signature(message: &str, signature_base64: &str) -> (r: String)
    ensures
        r@ == said_of_signature(message@, signature_base64@),
{
    match signature_error(message, signature_base64) {
        Some(e) => e,
        None => String::new(),
    }
}

/// Why something is not authorized.
#[derive(Clone, Copy, Debug, PartialEq, Eq, Structural)]
pub enum PolicyAuthError {
    /// The change is for another version than the next one.
    VersionMismatch { expected: u64, got: u64 },
    /// The policy cannot be used on the wallet's network.
    InvalidPolicy(PolicyError),
    /// The signature is no signed message.
    MalformedSignature,
    /// The signature is not one of the hardware key.
    UnauthorizedSigner,
    /// No policy is in force yet.
    Unseeded,
}

/// Why the hardware key's candidates cannot be derived.
#[derive(Clone, Copy, Debug, PartialEq, Eq, Structural)]
pub enum AuthKeysError {
    /// The text is no extended public key.
    InvalidXpub,
    /// There is no child there.
    Derive { chain: u32, index: u32 },
}

/// The text of an error on the hardware key.
pub open spec fn auth_keys_error_text(e: AuthKeysError) -> Seq<char> {
    match e {
        AuthKeysError::InvalidXpub => {
            "keys.hardware.xpub"@
        },
        AuthKeysError::Derive { .. } => {
            "deriving hardware-key candidate"@
        },
    }
}

impl AuthKeysError {
    /// What a person is told.
    pub fn message(self) -> (r: &'static str)
        ensures
            r@ == auth_keys_error_text(self),
    {
        match self {
            AuthKeysError::InvalidXpub => {
                "keys.hardware.xpub"
            },
            AuthKeysError::Derive { .. } => {
                "deriving hardware-key candidate"
            },
        }
    }
}

/// The children of an extended public key on a chain up to a limit.
pub open spec fn children(xpub: Seq<char>, chain: u32, n: nat) -> Set<Seq<u8>>
    decreases n,
{
    if n == 0 {
        Set::empty()
    } else {
        children(xpub, chain, (n - 1) as nat).insert(child_key(xpub, chain, (n - 1) as u32).unwrap())
    }
}

/// The keys that may authorize: the account key, and its children on both chains up to a limit.
pub open spec fn candidates_of(xpub: Seq<char>, gap_limit: nat) -> Set<Seq<u8>> {
    Set::empty().insert(account_key(xpub).unwrap()).union(children(xpub, 0, gap_limit)).union(
        children(xpub, 1, gap_limit),
    )
}

/// The first index of a chain below `n` at which there is no child.
pub open spec fn first_missing(xpub: Seq<char>, chain: u32, n: nat) -> Option<AuthKeysError>
    decreases n,
{
    if n == 0 {
        None
    } else {
        match first_missing(xpub, chain, (n - 1) as nat) {
            Some(e) => Some(e),
            None => if child_key(xpub, chain, (n - 1) as u32) is None {
                Some(AuthKeysError::Derive { chain, index: (n - 1) as u32 })
            } else {
                None
            },
        }
    }
}

/// Why the candidates cannot be derived, if they cannot.
pub open spec fn candidates_error(xpub: Seq<char>, gap_limit: nat) -> Option<AuthKeysError> {
    if account_key(xpub) is None {
        Some(AuthKeysError::InvalidXpub)
    } else if first_missing(xpub, 0, gap_limit) is Some {
        first_missing(xpub, 0, gap_limit)
    } else {
        first_missing(xpub, 1, gap_limit)
    }
}

/// The keys that may authorize, derived once so that to verify stays cheap, also where a signature
/// turns out to be wrong.
pub struct HardwareAuthKeys {
    candidates: ByteSet,
}

proof fn lemma_missing_stays(xpub: Seq<char>, chain: u32, i: nat, n: nat)
    requires
        i <= n,
        first_missing(xpub, chain, i) is Some,
    ensures
        first_missing(xpub, chain, n) == first_missing(xpub, chain, i),
    decreases n,
{
    if i < n {
        lemma_missing_stays(xpub, chain, i, (n - 1) as nat);
    }
}

fn add_children(candidates: &mut ByteSet, xpub: &str, chain: u32, gap_limit: u32) -> (r: Result<
    (),
    AuthKeysError,
>)
    ensures
        match r {
            Ok(_) => first_missing(xpub@, chain, gap_limit as nat) is None && final(candidates)@
                == old(candidates)@.union(children(xpub@, chain, gap_limit as nat)),
            Err(e) => first_missing(xpub@, chain, gap_limit as nat) == Some(e),
        },
{
    let mut index: u32 = 0;
    assert(candidates@ =~= old(candidates)@.union(children(xpub@, chain, 0)));
    while index < gap_limit
        invariant
            index <= gap_limit,
            first_missing(xpub@, chain, index as nat) is None,
            candidates@ == old(candidates)@.union(children(xpub@, chain, index as nat)),
        decreases gap_limit - index,
    {
        match derive_pub(xpub, chain, index) {
            None => {
                proof {
                    lemma_missing_stays(xpub@, chain, (index + 1) as nat, gap_limit as nat);
                }
                return Err(AuthKeysError::Derive { chain, index });
            },
            Some(k) => {
                candidates.insert(k);
            },
        }
        index = index + 1;
        assert(candidates@ =~= old(candidates)@.union(children(xpub@, chain, index as nat)));
    }
    Ok(())
}

impl HardwareAuthKeys {
    /// The keys that may authorize.
    pub closed spec fn keys(self) -> Set<Seq<u8>> {
        self.candidates@
    }

    /// Derives the keys of an extended public key: itself, and `gap_limit` children on each chain.
    pub fn precompute(xpub: &str, gap_limit: u32) -> (r: Result<Self, AuthKeysError>)
        ensures
            match r {
                Ok(k) => candidates_error(xpub@, gap_limit as nat) is None && k.keys()
                    == candidates_of(xpub@, gap_limit as nat),
                Err(e) => candidates_error(xpub@, gap_limit as nat) == Some(e),
            },
    {
        let mut candidates = ByteSet::new();
        match xpub_key(xpub) {
            None => {
                return Err(AuthKeysError::InvalidXpub);
            },
            Some(k) => {
                candidates.insert(k);
            },
        }
        add_children(&mut candidates, xpub, 0, gap_limit)?;
        add_children(&mut candidates, xpub, 1, gap_limit)?;
        Ok(HardwareAuthKeys { candidates })
    }

    /// Derives the keys of the configured hardware key.
    pub fn from_config(cfg: &WalletConfig, gap_limit: u32) -> (r: Result<Self, AuthKeysError>)
        ensures
            match r {
                Ok(k) => candidates_error(
                    trimmed(cfg.keys.satochip.xpub@),
                    gap_limit as nat,
                ) is None && k.keys() == candidates_of(
                    trimmed(cfg.keys.satochip.xpub@),
                    gap_limit as nat,
                ),
                Err(e) => candidates_error(trimmed(cfg.keys.satochip.xpub@), gap_limit as nat)
                    == Some(e),
            },
    {
        HardwareAuthKeys::precompute(trim(cfg.keys.satochip.xpub.as_str()), gap_limit)
    }

    /// How many keys may authorize.
    pub fn len(&self) -> (r: usize)
        ensures
            r == self.keys().len(),
    {
        self.candidates.len()
    }

    /// Whether no key may authorize.
    pub fn is_empty(&self) -> (r: bool)
        ensures
            r == (self.keys().len() == 0),
    {
        self.candidates.len() == 0
    }

    /// Checks a signed message. A signature over another message recovers to another key, which is
    /// none of these.
    pub fn verify(&self, message: &str, signature_base64: &str) -> (r: Result<(), PolicyAuthError>)
        ensures
            match r {
                Ok(_) => authorizes(self.keys(), message@, signature_base64@) is None,
                Err(e) => authorizes(self.keys(), message@, signature_base64@) == Some(e),
            },
    {
        match recover_pubkey(message, signature_base64) {
            None => Err(PolicyAuthError::MalformedSignature),
            Some(k) => {
                if self.candidates.contains(&k) {
                    Ok(())
                } else {
                    Err(PolicyAuthError::UnauthorizedSigner)
                }
            },
        }
    }
}

/// Why a signature does not authorize a message, if it does not.
pub open spec fn authorizes(
    keys: Set<Seq<u8>>,
    message: Seq<char>,
    signature_base64: Seq<char>,
) -> Option<PolicyAuthError> {
    match signer_of(message, signature_base64) {
        None => Some(PolicyAuthError::MalformedSignature),
        Some(k) => if keys.contains(k) {
            None
        } else {
            Some(PolicyAuthError::UnauthorizedSigner)
        },
    }
}

/// Checks an authorization to lift the freeze of a generation.
pub fn verify_unfreeze_authorization(
    auth_keys: &HardwareAuthKeys,
    freeze_generation: u64,
    signature_base64: &str,
) -> (r: Result<(), PolicyAuthError>)
    ensures
        match r {
            Ok(_) => authorizes(
                auth_keys.keys(),
                unfreeze_message(freeze_generation as nat),
                signature_base64@,
            ) is None,
            Err(e) => authorizes(
                auth_keys.keys(),
                unfreeze_message(freeze_generation as nat),
                signature_base64@,
            ) == Some(e),
        },
{
    auth_keys.verify(canonical_unfreeze_message(freeze_generation).as_str(), signature_base64)
}

/// A change of the policy, with what goes with it.
#[derive(Debug)]
pub struct PolicyChangeRequest {
    pub policy: PolicyConfig,
    pub version: u64,
    pub signature_base64: String,
    /// The policy's highest fee rate as a text.
    pub fee_rate_text: String,
    /// The policy as it is stored.
    pub policy_json: String,
}

/// A policy that was put in force.
#[derive(Debug)]
pub struct PolicyChangeOutcome {
    pub version: u64,
    pub compiled: CompiledPolicy,
}

/// Why a change is refused over the version in force, if it is.
pub open spec fn version_error(current: Option<PolicyState>, version: u64) -> Option<
    PolicyAuthError,
> {
    match current {
        None => Some(PolicyAuthError::Unseeded),
        Some(state) => if version != state.version + 1 {
            Some(
                PolicyAuthError::VersionMismatch {
                    expected: (state.version + 1) as u64,
                    got: version,
                },
            )
        } else {
            None
        },
    }
}

/// Why a change is refused, if it is: first over the version, then over the policy, then over the
/// signature.
pub open spec fn change_error(
    current: Option<PolicyState>,
    cfg: WalletConfig,
    keys: Set<Seq<u8>>,
    req: PolicyChangeRequest,
) -> Option<PolicyAuthError> {
    if version_error(current, req.version) is Some {
        version_error(current, req.version)
    } else if req.policy.problem(cfg.network) is Some {
        Some(PolicyAuthError::InvalidPolicy(req.policy.problem(cfg.network).unwrap()))
    } else {
        authorizes(
            keys,
            policy_message(req.version as nat, req.policy, req.fee_rate_text@),
            req.signature_base64@,
        )
    }
}

/// What is said of a change that is refused.
pub open spec fn change_error_text(e: PolicyAuthError, req: PolicyChangeRequest) -> Seq<char> {
    auth_error_text(
        e,
        if e is InvalidPolicy {
            req.policy.entry_of(e->InvalidPolicy_0)
        } else {
            Seq::empty()
        },
        if e is MalformedSignature {
            said_of_signature(
                policy_message(req.version as nat, req.policy, req.fee_rate_text@),
                req.signature_base64@,
            )
        } else {
            Seq::empty()
        },
    )
}

/// What is said of a change that is refused.
pub fn explain_change(e: PolicyAuthError, req: &PolicyChangeRequest) -> (r: String)
    ensures
        r@ == change_error_text(e, *req),
{
    let entry = match e {
        PolicyAuthError::InvalidPolicy(p) => req.policy.named_entry(p),
        _ => String::new(),
    };
    let cause = match e {
        PolicyAuthError::MalformedSignature => {
            let message = canonical_message(req.version, &req.policy, req.fee_rate_text.as_str());
            explain_signature(message.as_str(), req.signature_base64.as_str())
        },
        _ => String::new(),
    };
    e.message(entry.as_str(), cause.as_str())
}

/// What is said of an authorization to lift the freeze of a generation that is refused.
pub open spec fn unfreeze_error_text(
    e: PolicyAuthError,
    generation: nat,
    signature_base64: Seq<char>,
) -> Seq<char> {
    auth_error_text(
        e,
        Seq::empty(),
        said_of_signature(unfreeze_message(generation), signature_base64),
    )
}

/// What is said of an authorization to lift the freeze of a generation that is refused.
pub fn explain_unfreeze(e: PolicyAuthError, generation: u64, signature_base64: &str) -> (r: String)
    ensures
        r@ == unfreeze_error_text(e, generation as nat, signature_base64@),
{
    let message = canonical_unfreeze_message(generation);
    let cause = explain_signature(message.as_str(), signature_base64);
    e.message(String::new().as_str(), cause.as_str())
}

/// Whether there is a version after the one in force.
pub open spec fn has_next_version(current: Option<PolicyState>) -> bool {
    current matches Some(state) ==> state.version < u64::MAX
}

fn check_version(current: &Option<PolicyState>, version: u64) -> (r: Result<(), PolicyAuthError>)
    requires
        has_next_version(*current),
    ensures
        match r {
            Ok(_) => version_error(*current, version) is None,
            Err(e) => version_error(*current, version) == Some(e),
        },
{
    match current {
        None => Err(PolicyAuthError::Unseeded),
        Some(state) => {
            let expected: u64 = state.version + 1;
            if version != expected {
                Err(PolicyAuthError::VersionMismatch { expected, got: version })
            } else {
                Ok(())
            }
        },
    }
}

/// Checks a change against a reading of the policy in force. This takes long, so nothing is held
/// meanwhile; [`commit_policy_change`] looks at the version again.
pub fn authorize_policy_change(
    current: &Option<PolicyState>,
    cfg: &WalletConfig,
    auth_keys: &HardwareAuthKeys,
    req: &PolicyChangeRequest,
) -> (r: Result<CompiledPolicy, PolicyAuthError>)
    requires
        has_next_version(*current),
    ensures
        match r {
            Ok(compiled) => change_error(*current, *cfg, auth_keys.keys(), *req) is None
                && compiled.compiles(req.policy),
            Err(e) => change_error(*current, *cfg, auth_keys.keys(), *req) == Some(e),
        },
{
    check_version(current, req.version)?;
    let compiled = match req.policy.compile(cfg.network) {
        Ok(c) => c,
        Err(e) => {
            return Err(PolicyAuthError::InvalidPolicy(e));
        },
    };
    let message = canonical_message(req.version, &req.policy, req.fee_rate_text.as_str());
    auth_keys.verify(message.as_str(), req.signature_base64.as_str())?;
    Ok(compiled)
}

/// Puts an authorized change in force, if it is still for the version after the one in force. What
/// is refused changes nothing.
pub fn commit_policy_change(
    ledger: &mut Ledger,
    version: u64,
    policy_json: String,
    now: i64,
) -> (r: Result<(), PolicyAuthError>)
    requires
        old(ledger).wf(),
        has_next_version(old(ledger)@.policy),
    ensures
        final(ledger).wf(),
        match r {
            Ok(_) => version_error(old(ledger)@.policy, version) is None && final(ledger)@ == (
            Tables {
                policy: Some(PolicyState { version, policy_json, updated_at: now }),
                ..old(ledger)@
            }),
            Err(e) => version_error(old(ledger)@.policy, version) == Some(e) && final(ledger)@
                == old(ledger)@,
        },
{
    check_version(&ledger.policy, version)?;
    ledger.set_policy_state(version, policy_json, now);
    Ok(())
}

/// Checks a change and puts it in force. A change that is refused changes nothing.
pub fn apply_policy_change(
    ledger: &mut Ledger,
    cfg: &WalletConfig,
    auth_keys: &HardwareAuthKeys,
    req: PolicyChangeRequest,
    now: i64,
) -> (r: Result<PolicyChangeOutcome, PolicyAuthError>)
    requires
        old(ledger).wf(),
        has_next_version(old(ledger)@.policy),
    ensures
        final(ledger).wf(),
        changes_policy(old(ledger)@, *cfg, auth_keys.keys(), req, now, r, final(ledger)@),
{
    let current = ledger.get_policy_state();
    let compiled = authorize_policy_change(&current, cfg, auth_keys, &req)?;
    let version = req.version;
    commit_policy_change(ledger, version, req.policy_json, now)?;
    Ok(PolicyChangeOutcome { version, compiled })
}

/// Lifts a freeze on an authorization for its generation. What is refused changes nothing.
pub fn unfreeze(
    ledger: &mut Ledger,
    auth_keys: &HardwareAuthKeys,
    signature_base64: &str,
    now: i64,
) -> (r: Result<u64, PolicyAuthError>)
    requires
        old(ledger).wf(),
    ensures
        final(ledger).wf(),
        lifts_freeze(old(ledger)@, auth_keys.keys(), signature_base64@, now, r, final(ledger)@),
{
    let generation = ledger.freeze_generation();
    verify_unfreeze_authorization(auth_keys, generation, signature_base64)?;
    ledger.set_frozen(false, now, None);
    Ok(generation)
}

proof fn lemma_one_line(
    name: Seq<char>,
    a: Seq<char>,
    x: Seq<char>,
    b: Seq<char>,
    y: Seq<char>,
)
    requires
        !a.contains('\n'),
        !b.contains('\n'),
        line(name, a, x) == line(name, b, y),
    ensures
        a == b,
        x == y,
{
    let left = a + (seq!['\n'] + x);
    let right = b + (seq!['\n'] + y);
    assert(left =~= line(name, a, x).skip(name.len() as int));
    assert(right =~= line(name, b, y).skip(name.len() as int));
    lemma_same_up_to(a, x, b, y, '\n');
}

proof fn lemma_number_line(name: Seq<char>, a: nat, x: Seq<char>, b: nat, y: Seq<char>)
    requires
        line(name, decimal(a), x) == line(name, decimal(b), y),
    ensures
        a == b,
        x == y,
{
    lemma_numeral_is_digits(a);
    lemma_numeral_is_digits(b);
    assert(!decimal(a).contains('\n'));
    assert(!decimal(b).contains('\n'));
    lemma_one_line(name, decimal(a), x, decimal(b), y);
    law_a_numeral_is_read_back(a);
    law_a_numeral_is_read_back(b);
}

/// What is signed is what is put in force: two changes with the same text are for the same version
/// and have the same limits, the same text of the fee rate, and the same line on the whitelist.
pub proof fn law_a_signed_text_fixes_the_policy(
    v: nat,
    p: PolicyConfig,
    rate: Seq<char>,
    w: nat,
    q: PolicyConfig,
    other_rate: Seq<char>,
)
    requires
        policy_message(v, p, rate) == policy_message(w, q, other_rate),
        !rate.contains('\n'),
        !other_rate.contains('\n'),
    ensures
        v == w,
        p.max_tx_sat == q.max_tx_sat,
        p.max_daily_sat == q.max_daily_sat,
        p.max_weekly_sat == q.max_weekly_sat,
        p.max_monthly_sat == q.max_monthly_sat,
        p.max_fee_sat == q.max_fee_sat,
        rate == other_rate,
        whitelist_line(p) == whitelist_line(q),
{
    let p7 = line("max_fee_rate_sat_per_vb: "@, rate, whitelist_line(p));
    let q7 = line("max_fee_rate_sat_per_vb: "@, other_rate, whitelist_line(q));
    let p6 = line("max_fee_sat: "@, decimal(p.max_fee_sat as nat), p7);
    let q6 = line("max_fee_sat: "@, decimal(q.max_fee_sat as nat), q7);
    let p5 = line("max_monthly_sat: "@, decimal(p.max_monthly_sat as nat), p6);
    let q5 = line("max_monthly_sat: "@, decimal(q.max_monthly_sat as nat), q6);
    let p4 = line("max_weekly_sat: "@, decimal(p.max_weekly_sat as nat), p5);
    let q4 = line("max_weekly_sat: "@, decimal(q.max_weekly_sat as nat), q5);
    let p3 = line("max_daily_sat: "@, decimal(p.max_daily_sat as nat), p4);
    let q3 = line("max_daily_sat: "@, decimal(q.max_daily_sat as nat), q4);
    let p2 = line("max_tx_sat: "@, decimal(p.max_tx_sat as nat), p3);
    let q2 = line("max_tx_sat: "@, decimal(q.max_tx_sat as nat), q3);
    let p1 = line("version: "@, decimal(v), p2);
    let q1 = line("version: "@, decimal(w), q2);
    lemma_one_line("cosigner policy authorization v1"@, Seq::empty(), p1, Seq::empty(), q1);
    lemma_number_line("version: "@, v, p2, w, q2);
    lemma_number_line("max_tx_sat: "@, p.max_tx_sat as nat, p3, q.max_tx_sat as nat, q3);
    lemma_number_line("max_daily_sat: "@, p.max_daily_sat as nat, p4, q.max_daily_sat as nat, q4);
    lemma_number_line(
        "max_weekly_sat: "@,
        p.max_weekly_sat as nat,
        p5,
        q.max_weekly_sat as nat,
        q5,
    );
    lemma_number_line(
        "max_monthly_sat: "@,
        p.max_monthly_sat as nat,
        p6,
        q.max_monthly_sat as nat,
        q6,
    );
    lemma_number_line("max_fee_sat: "@, p.max_fee_sat as nat, p7, q.max_fee_sat as nat, q7);
    lemma_one_line(
        "max_fee_rate_sat_per_vb: "@,
        rate,
        whitelist_line(p),
        other_rate,
        whitelist_line(q),
    );
}

/// An authorization to unfreeze is for one freeze: the texts of two generations differ.
pub proof fn law_an_unfreeze_is_for_one_freeze(a: nat, b: nat)
    ensures
        unfreeze_message(a) == unfreeze_message(b) <==> a == b,
{
    if unfreeze_message(a) == unfreeze_message(b) {
        let head = "cosigner unfreeze authorization v1\nfreeze_generation: "@;
        assert(decimal(a) =~= unfreeze_message(a).skip(head.len() as int));
        assert(decimal(b) =~= unfreeze_message(b).skip(head.len() as int));
        law_a_numeral_is_read_back(a);
        law_a_numeral_is_read_back(b);
    }
}

/// An authorization is used once: a change that was put in force is refused when it comes again,
/// and so is every change for the same or an older version.
pub proof fn law_a_change_is_never_replayed(state: PolicyState, version: u64)
    requires
        version <= state.version < u64::MAX,
    ensures
        version_error(Some(state), version) == Some(
            PolicyAuthError::VersionMismatch {
                expected: (state.version + 1) as u64,
                got: version,
            },
        ),
{
}

/// The text of an error. `entry` is the entry of a whitelist that it is about, and `cause` is what
/// is said of the signature.
pub open spec fn auth_error_text(e: PolicyAuthError, entry: Seq<char>, cause: Seq<char>) -> Seq<
    char,
> {
    match e {
        PolicyAuthError::VersionMismatch { expected, got } => "policy change targets version "@
            + decimal(got as nat) + ", but the next expected version is "@ + decimal(
            expected as nat,
        ),
        PolicyAuthError::InvalidPolicy(p) => "proposed policy is invalid: "@ + policy_error_text(
            p,
            entry,
        ),
        PolicyAuthError::MalformedSignature =>
            "signature does not decode as a valid Bitcoin signed message: "@ + cause,
        PolicyAuthError::UnauthorizedSigner =>
            "signature does not recover to a key controlled by HARDWARE - refusing to authorize this policy change"@,
        PolicyAuthError::Unseeded =>
            "policy_state is unseeded - the service must bootstrap it from [policy] at startup before POST /policy can be used"@,
    }
}

impl PolicyAuthError {
    /// What a person is told. `entry` is the entry of a whitelist that the error is about, and
    /// `cause` is what is said of the signature.
    pub fn message(self, entry: &str, cause: &str) -> (r: String)
        ensures
            r@ == auth_error_text(self, entry@, cause@),
    {
        match self {
            PolicyAuthError::VersionMismatch { expected, got } => {
                let mut out = "policy change targets version ".to_owned();
                push_decimal(&mut out, got);
                out.append(", but the next expected version is ");
                push_decimal(&mut out, expected);
                out
            },
            PolicyAuthError::InvalidPolicy(p) => {
                let mut out = "proposed policy is invalid: ".to_owned();
                out.append(p.message(entry).as_str());
                out
            },
            PolicyAuthError::MalformedSignature => {
                let mut out =
                    "signature does not decode as a valid Bitcoin signed message: ".to_owned();
                out.append(cause);
                out
            },
            PolicyAuthError::UnauthorizedSigner =>
                "signature does not recover to a key controlled by HARDWARE - refusing to authorize this policy change".to_owned(),
            PolicyAuthError::Unseeded =>
                "policy_state is unseeded - the service must bootstrap it from [policy] at startup before POST /policy can be used".to_owned(),
        }
    }
}

/// A signature authorizes exactly where it is one on the text and its key is among the hardware's. One
/// that is none is told apart from one by another key.
pub proof fn law_only_a_key_of_the_hardware_authorizes(
    keys: Set<Seq<u8>>,
    message: Seq<char>,
    signature_base64: Seq<char>,
)
    ensures
        authorizes(keys, message, signature_base64) is None <==> (signer_of(
            message,
            signature_base64,
        ) matches Some(k) && keys.contains(k)),
        authorizes(keys, message, signature_base64) == Some(PolicyAuthError::MalformedSignature)
            <==> signer_of(message, signature_base64) is None,
{
}

/// The keys that authorize are the account's own and its children on the two chains below the limit, all
/// of them and no others.
pub proof fn law_the_hardware_signs_with_any_key_below_the_limit(
    xpub: Seq<char>,
    gap_limit: nat,
    key: Seq<u8>,
)
    requires
        gap_limit <= u32::MAX,
        candidates_error(xpub, gap_limit) is None,
    ensures
        candidates_of(xpub, gap_limit).contains(key) <==> {
            ||| account_key(xpub) == Some(key)
            ||| exists|i: u32| i < gap_limit && #[trigger] child_key(xpub, 0, i) == Some(key)
            ||| exists|i: u32| i < gap_limit && #[trigger] child_key(xpub, 1, i) == Some(key)
        },
{
    lemma_none_missing(xpub, 0, gap_limit);
    lemma_none_missing(xpub, 1, gap_limit);
    lemma_children(xpub, 0, gap_limit, key);
    lemma_children(xpub, 1, gap_limit, key);
}

/// The hardware's keys can be used exactly where the account's is one and every child below the limit
/// can be derived.
pub proof fn law_every_child_below_the_limit_has_to_be_there(xpub: Seq<char>, gap_limit: nat)
    requires
        gap_limit <= u32::MAX,
    ensures
        candidates_error(xpub, gap_limit) is None <==> {
            &&& account_key(xpub) is Some
            &&& forall|i: u32| i < gap_limit ==> #[trigger] child_key(xpub, 0, i) is Some
            &&& forall|i: u32| i < gap_limit ==> #[trigger] child_key(xpub, 1, i) is Some
        },
{
    lemma_none_missing(xpub, 0, gap_limit);
    lemma_none_missing(xpub, 1, gap_limit);
}

proof fn lemma_none_missing(xpub: Seq<char>, chain: u32, n: nat)
    requires
        n <= u32::MAX,
    ensures
        first_missing(xpub, chain, n) is None <==> forall|i: u32|
            i < n ==> #[trigger] child_key(xpub, chain, i) is Some,
    decreases n,
{
    if n > 0 {
        lemma_none_missing(xpub, chain, (n - 1) as nat);
        if first_missing(xpub, chain, n) is None {
            assert forall|i: u32| i < n implies #[trigger] child_key(xpub, chain, i) is Some by {
                if i == n - 1 {
                    assert(i == (n - 1) as u32);
                }
            }
        } else if first_missing(xpub, chain, (n - 1) as nat) is None {
            assert(child_key(xpub, chain, (n - 1) as u32) is None);
        } else {
            let i = choose|i: u32| i < n - 1 && #[trigger] child_key(xpub, chain, i) is None;
            assert(child_key(xpub, chain, i) is None);
        }
    }
}

proof fn lemma_children(xpub: Seq<char>, chain: u32, n: nat, key: Seq<u8>)
    requires
        n <= u32::MAX,
        forall|i: u32| i < n ==> #[trigger] child_key(xpub, chain, i) is Some,
    ensures
        children(xpub, chain, n).contains(key) <==> exists|i: u32|
            i < n && #[trigger] child_key(xpub, chain, i) == Some(key),
    decreases n,
{
    if n > 0 {
        lemma_children(xpub, chain, (n - 1) as nat, key);
        let last = (n - 1) as u32;
        assert(child_key(xpub, chain, last) is Some);
        if exists|i: u32| i < n && #[trigger] child_key(xpub, chain, i) == Some(key) {
            let i = choose|i: u32| i < n && #[trigger] child_key(xpub, chain, i) == Some(key);
            if i < n - 1 {
                assert(child_key(xpub, chain, i) == Some(key));
            } else {
                assert(i == last);
            }
        }
    }
}

/// A change is taken exactly where it is for the version after the one in force, its whitelist is of the
/// network, and a key of the hardware has signed the text of this version, this policy and this rate.
pub proof fn law_a_change_is_the_next_one_and_signed_by_the_hardware(
    current: Option<PolicyState>,
    cfg: WalletConfig,
    keys: Set<Seq<u8>>,
    req: PolicyChangeRequest,
)
    ensures
        change_error(current, cfg, keys, req) is None <==> {
            &&& current matches Some(state) && req.version == state.version + 1
            &&& req.policy.problem(cfg.network) is None
            &&& signer_of(
                policy_message(req.version as nat, req.policy, req.fee_rate_text@),
                req.signature_base64@,
            ) matches Some(k) && keys.contains(k)
        },
        version_error(current, req.version) is None <==> (current matches Some(state)
            && req.version == state.version + 1),
{
}

/// The line of a whitelist fixes the list: that there is none, or all of its entries, in order, where
/// they are spelled without comma and bracket, as addresses are.
pub proof fn law_the_signed_list_is_the_whole_list(p: PolicyConfig, q: PolicyConfig)
    requires
        whitelist_line(p) == whitelist_line(q),
        p.destination_whitelist matches Some(a) ==> a@.len() > 0 && forall|i: int|
            0 <= i < a@.len() ==> !(#[trigger] a@[i])@.contains(',') && !a@[i]@.contains('('),
        q.destination_whitelist matches Some(b) ==> b@.len() > 0 && forall|i: int|
            0 <= i < b@.len() ==> !(#[trigger] b@[i])@.contains(',') && !b@[i]@.contains('('),
    ensures
        match (p.destination_whitelist, q.destination_whitelist) {
            (None, None) => true,
            (Some(a), Some(b)) => a.deep_view() == b.deep_view(),
            _ => false,
        },
{
    lemma_listed(p);
    lemma_listed(q);
    let name = "destination_whitelist: "@;
    let none = "(none - any destination allowed)"@;
    reveal_strlit("destination_whitelist: ");
    reveal_strlit("destination_whitelist: (none - any destination allowed)");
    reveal_strlit("(none - any destination allowed)");
    assert("destination_whitelist: (none - any destination allowed)"@ =~= name + none);
    if p.destination_whitelist is Some {
        let a = p.destination_whitelist->Some_0.deep_view();
        assert(joined(a, ","@) =~= whitelist_line(p).skip(name.len() as int));
        if q.destination_whitelist is None {
            assert(none =~= whitelist_line(q).skip(name.len() as int));
            lemma_no_list(a, none);
        }
    }
    if q.destination_whitelist is Some {
        let b = q.destination_whitelist->Some_0.deep_view();
        assert(joined(b, ","@) =~= whitelist_line(q).skip(name.len() as int));
        if p.destination_whitelist is None {
            assert(none =~= whitelist_line(p).skip(name.len() as int));
            lemma_no_list(b, none);
        }
    }
}

proof fn lemma_listed(p: PolicyConfig)
    requires
        p.destination_whitelist matches Some(a) ==> a@.len() > 0 && forall|i: int|
            0 <= i < a@.len() ==> !(#[trigger] a@[i])@.contains(',') && !a@[i]@.contains('('),
    ensures
        p.destination_whitelist matches Some(a) ==> {
            &&& a.deep_view().len() > 0
            &&& !a.deep_view()[0].contains('(')
            &&& crate::text::pieces(joined(a.deep_view(), ","@), ',') == a.deep_view()
        },
{
    if p.destination_whitelist is Some {
        let list = p.destination_whitelist->Some_0;
        let a = list.deep_view();
        reveal_strlit(",");
        assert(","@ =~= seq![',']);
        assert forall|i: int| 0 <= i < a.len() implies !(#[trigger] a[i]).contains(',') by {
            assert(a[i] == list@[i]@);
        }
        law_what_is_joined_is_taken_apart_again(a, ',');
        assert(a[0] == list@[0]@);
    }
}

proof fn lemma_no_list(a: Seq<Seq<char>>, none: Seq<char>)
    requires
        a.len() > 0,
        !a[0].contains('('),
        none == "(none - any destination allowed)"@,
        crate::text::pieces(joined(a, ","@), ',') == a,
    ensures
        joined(a, ","@) != none,
{
    reveal_strlit("(none - any destination allowed)");
    let one = seq![none];
    assert(!none.contains(','));
    law_what_is_joined_is_taken_apart_again(one, ',');
    if joined(a, ","@) == none {
        assert(joined(one, seq![',']) == none);
        assert(a[0] == none);
        assert(none[0] == '(');
    }
}

/// Whether `r` and `after` are what a change of the policy comes to.
pub open spec fn changes_policy(
    before: Tables,
    cfg: WalletConfig,
    keys: Set<Seq<u8>>,
    req: PolicyChangeRequest,
    now: i64,
    r: Result<PolicyChangeOutcome, PolicyAuthError>,
    after: Tables,
) -> bool {
    match r {
        Ok(outcome) => {
            &&& change_error(before.policy, cfg, keys, req) is None
            &&& outcome.version == req.version
            &&& outcome.compiled.compiles(req.policy)
            &&& after == (Tables {
                policy: Some(
                    PolicyState {
                        version: req.version,
                        policy_json: req.policy_json,
                        updated_at: now,
                    },
                ),
                ..before
            })
        },
        Err(e) => change_error(before.policy, cfg, keys, req) == Some(e)
            && after == before,
    }
}

/// Whether `r` and `after` are what lifting the freeze comes to.
pub open spec fn lifts_freeze(
    before: Tables,
    keys: Set<Seq<u8>>,
    signature_base64: Seq<char>,
    now: i64,
    r: Result<u64, PolicyAuthError>,
    after: Tables,
) -> bool {
    match r {
        Ok(generation) => {
            &&& generation == before.generation()
            &&& authorizes(
                keys,
                unfreeze_message(generation as nat),
                signature_base64,
            ) is None
            &&& !after.is_frozen()
            &&& after.generation() == before.generation()
            &&& after == (Tables { freeze: after.freeze, ..before })
            &&& (after.freeze is Some) == (before.freeze is Some)
            &&& after.freeze matches Some(f) ==> f.changed_at == now && f.reason is None
        },
        Err(e) => authorizes(
            keys,
            unfreeze_message(before.generation() as nat),
            signature_base64,
        ) == Some(e) && after == before,
    }
}

/// A policy is changed exactly where it is the next one, sound, and signed by the hardware; it is recorded
/// as it was signed, and neither spends nor the freeze are touched. A refusal changes nothing.
pub proof fn law_a_changed_policy_is_the_signed_one(
    before: Tables,
    cfg: WalletConfig,
    keys: Set<Seq<u8>>,
    req: PolicyChangeRequest,
    now: i64,
    r: Result<PolicyChangeOutcome, PolicyAuthError>,
    after: Tables,
)
    requires
        changes_policy(before, cfg, keys, req, now, r, after),
    ensures
        r is Ok <==> {
            &&& before.policy matches Some(state) && req.version == state.version + 1
            &&& req.policy.problem(cfg.network) is None
            &&& signer_of(
                policy_message(req.version as nat, req.policy, req.fee_rate_text@),
                req.signature_base64@,
            ) matches Some(k) && keys.contains(k)
        },
        r matches Ok(outcome) ==> {
            &&& outcome.version == req.version
            &&& outcome.compiled.max_tx_sat == req.policy.max_tx_sat
            &&& outcome.compiled.max_daily_sat == req.policy.max_daily_sat
            &&& outcome.compiled.max_fee_sat == req.policy.max_fee_sat
            &&& after.policy matches Some(state) && state.version == req.version
                && state.policy_json == req.policy_json && state.updated_at == now
        },
        r is Err ==> after == before,
        after.spends == before.spends,
        after.pending == before.pending,
        after.freeze == before.freeze,
{
}

/// The freeze is lifted exactly where the hardware has signed for the freeze that is in force; its number
/// stays, so that the signature lifts no later one.
pub proof fn law_a_freeze_is_lifted_by_its_own_signature(
    before: Tables,
    keys: Set<Seq<u8>>,
    signature_base64: Seq<char>,
    now: i64,
    r: Result<u64, PolicyAuthError>,
    after: Tables,
)
    requires
        lifts_freeze(before, keys, signature_base64, now, r, after),
    ensures
        r is Ok <==> (signer_of(
            unfreeze_message(before.generation() as nat),
            signature_base64,
        ) matches Some(k) && keys.contains(k)),
        r is Ok ==> !after.is_frozen() && after.generation() == before.generation(),
        r is Err ==> after == before,
        after.spends == before.spends,
        after.pending == before.pending,
        after.policy == before.policy,
{
}

}
