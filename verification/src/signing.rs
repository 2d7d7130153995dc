//! The server's signature on the inputs of a transaction that has been inspected and approved.
//!
//! A signature is only ever added. What an input spends is taken from the wallet's descriptor and
//! from what the node has on record, never from what the transaction says of itself.

use core::str::FromStr;

use vstd::prelude::*;
use vstd::string::*;
use zeroize::Zeroizing;

use crate::config::{NetworkKind, ServerSigningConfig, WalletConfig};
use crate::descriptor::{
    derived_script, descriptor_error_text, derived_witness_script, role_keys_at, role_keys_of, script_at,
    witness_script_at, BuiltDescriptor, Chain, DescriptorError,
};
use crate::inspect::InputReport;
use crate::keys::{canonical_xpub, xpub_info, xpub_text, XpubInfo};
use crate::psbt::{decoded_psbt, is_small_script, PartialSig, Psbt, PsbtInput, TxOut};
use crate::text::{
    decimal, is_hex_of_len, push_decimal, same_bytes, same_text, trim, trimmed, white_space,
};

verus! {

/// A text in a `zeroize::Zeroizing`, which wipes it from memory when it goes.
#[verifier::external_body]
pub struct KeptSecret {
    inner: Zeroizing<String>,
}

/// The text that is kept.
pub uninterp spec fn kept_text(secret: KeptSecret) -> Seq<char>;

/// `zeroize::Zeroizing::new` with a copy of the text. What is kept is named [`kept_text`].
#[verifier::external_body]
fn keep(s: &str) -> (r: KeptSecret)
    ensures
        kept_text(r) == s@,
{
    KeptSecret { inner: Zeroizing::new(s.to_string()) }
}

/// `<zeroize::Zeroizing as Deref>::deref`: the text that is kept.
#[verifier::external_body]
pub(crate) fn kept(secret: &KeptSecret) -> (r: &str)
    ensures
        r@ == kept_text(*secret),
{
    secret.inner.as_str()
}

/// The canonical text of the extended public key that belongs to an extended private key; nothing
/// where the text is no extended private key.
pub uninterp spec fn public_of_xprv(s: Seq<char>) -> Option<Seq<char>>;

/// Whether a text has no white space in it, as no text in base58 has.
pub open spec fn is_unbroken(s: Seq<char>) -> bool {
    forall|i: int| 0 <= i < s.len() ==> !white_space(#[trigger] s[i])
}

/// `<bitcoin::bip32::Xpriv as FromStr>::from_str` and `bitcoin::bip32::Xpub::from_priv`, written
/// out by `Display`. The public key is named [`public_of_xprv`]. Its text is in base58 and is that
/// of the key it is read as.
#[verifier::external_body]
pub(crate) fn xprv_public(s: &str) -> (r: Option<String>)
    ensures
        match r {
            Some(x) => public_of_xprv(s@) == Some(x@) && is_unbroken(x@) && canonical_xpub(x@)
                == Some(x@),
            None => public_of_xprv(s@) is None,
        },
{
    let xprv = bitcoin::bip32::Xpriv::from_str(s).ok()?;
    let secp = bitcoin::secp256k1::Secp256k1::new();
    Some(bitcoin::bip32::Xpub::from_priv(&secp, &xprv).to_string())
}

/// What is known of the public key of an extended private key: its depth and its network.
pub open spec fn xprv_info(s: Seq<char>) -> Option<XpubInfo> {
    match public_of_xprv(s) {
        Some(x) => xpub_info(x),
        None => None,
    }
}

/// The master key of a seed; nothing where the seed gives none.
pub uninterp spec fn master_of_seed(kind: NetworkKind, seed: Seq<u8>) -> Option<Seq<char>>;

/// `bitcoin::bip32::Xpriv::new_master`, written out by `Display`. The key is named
/// [`master_of_seed`]. Its text is in base58, its depth is 0, and its network is that asked for.
#[verifier::external_body]
pub(crate) fn new_master(kind: NetworkKind, seed: &Vec<u8>) -> (r: Option<KeptSecret>)
    ensures
        match r {
            Some(k) => master_of_seed(kind, seed@) == Some(kept_text(k)) && is_unbroken(
                kept_text(k),
            ) && xprv_info(kept_text(k)) == Some(XpubInfo { depth: 0, network: kind }),
            None => master_of_seed(kind, seed@) is None,
        },
{
    let network = match kind {
        NetworkKind::Main => bitcoin::NetworkKind::Main,
        NetworkKind::Test => bitcoin::NetworkKind::Test,
    };
    let master = bitcoin::bip32::Xpriv::new_master(network, seed.as_slice()).ok()?;
    Some(KeptSecret { inner: Zeroizing::new(master.to_string()) })
}

/// The fingerprint of an extended private key; nothing where the text is none.
pub uninterp spec fn fingerprint_of_xprv(s: Seq<char>) -> Option<Seq<char>>;

/// `bitcoin::bip32::Xpriv::fingerprint`, written out by `Display` as 8 hexadecimal characters. The
/// text is named [`fingerprint_of_xprv`].
#[verifier::external_body]
pub(crate) fn xprv_fingerprint(xprv: &KeptSecret) -> (r: Option<String>)
    ensures
        match r {
            Some(f) => fingerprint_of_xprv(kept_text(*xprv)) == Some(f@) && is_hex_of_len(f@, 8),
            None => fingerprint_of_xprv(kept_text(*xprv)) is None,
        },
{
    let xprv = bitcoin::bip32::Xpriv::from_str(xprv.inner.as_str()).ok()?;
    Some(xprv.fingerprint(&bitcoin::secp256k1::Secp256k1::new()).to_string())
}

/// The extended private key below another along the given steps; nothing where the text is none, or
/// the key would lie deeper than a key can.
pub uninterp spec fn descendant_of_xprv(s: Seq<char>, steps: Seq<u32>) -> Option<Seq<char>>;

/// `bitcoin::bip32::Xpriv::derive_priv` along any steps, written out by `Display`. The key is named
/// [`descendant_of_xprv`]. Its text is in base58, it lies one deeper for each step, and its network
/// is that of the key it comes from.
#[verifier::external_body]
pub(crate) fn derive_account(xprv: &KeptSecret, steps: &Vec<u32>) -> (r: Option<KeptSecret>)
    ensures
        match r {
            Some(k) => {
                &&& descendant_of_xprv(kept_text(*xprv), steps@) == Some(kept_text(k))
                &&& is_unbroken(kept_text(k))
                &&& xprv_info(kept_text(*xprv)) matches Some(above) ==> (xprv_info(
                    kept_text(k),
                ) matches Some(info) && info.depth == above.depth + steps@.len()
                    && info.network == above.network)
            },
            None => descendant_of_xprv(kept_text(*xprv), steps@) is None,
        },
{
    let above = bitcoin::bip32::Xpriv::from_str(xprv.inner.as_str()).ok()?;
    let path: Vec<bitcoin::bip32::ChildNumber> = steps.iter().map(|s| (*s).into()).collect();
    let key = above.derive_priv(&bitcoin::secp256k1::Secp256k1::new(), &path).ok()?;
    Some(KeptSecret { inner: Zeroizing::new(key.to_string()) })
}

/// A key pair, serialized.
pub struct ChildKey {
    secret: Vec<u8>,
    public_key: Vec<u8>,
}

impl ChildKey {
    /// The public key.
    pub closed spec fn public_bytes(self) -> Seq<u8> {
        self.public_key@
    }

    /// The secret key.
    pub closed spec fn secret_bytes(self) -> Seq<u8> {
        self.secret@
    }
}

/// The secret and the public key at `chain/index` below an extended private key; nothing where the
/// text is none, or either number is that of a hardened child.
pub uninterp spec fn child_of_xprv(s: Seq<char>, chain: u32, index: u32) -> Option<
    (Seq<u8>, Seq<u8>),
>;

/// `bitcoin::bip32::Xpriv::derive_priv` along two normal children, and the public key of what it
/// gives. The pair is named [`child_of_xprv`].
#[verifier::external_body]
fn derive_priv(s: &str, chain: u32, index: u32) -> (r: Option<ChildKey>)
    ensures
        match r {
            Some(k) => child_of_xprv(s@, chain, index) == Some((k.secret_bytes(), k.public_bytes())),
            None => child_of_xprv(s@, chain, index) is None,
        },
{
    let secp = bitcoin::secp256k1::Secp256k1::new();
    let chain = bitcoin::bip32::ChildNumber::from_normal_idx(chain).ok()?;
    let index = bitcoin::bip32::ChildNumber::from_normal_idx(index).ok()?;
    let xprv = bitcoin::bip32::Xpriv::from_str(s).ok()?;
    let key = xprv.derive_priv(&secp, &[chain, index]).ok()?.private_key;
    let public_key = bitcoin::PublicKey::new(key.public_key(&secp)).to_bytes();
    Some(ChildKey { secret: key.secret_bytes().to_vec(), public_key })
}

/// What is signed of an input of a transaction that spends `value` locked by `script_pubkey`, whose
/// script is `witness_script`; nothing where there is no such input or it cannot be signed.
pub uninterp spec fn signature_hash(
    text: Seq<char>,
    input_index: int,
    witness_script: Seq<u8>,
    value: u64,
    script_pubkey: Seq<u8>,
) -> Option<Seq<u8>>;

/// `bitcoin::Psbt::sighash_ecdsa`, on the transaction that the text is with what the input spends
/// filled in. The hash is named [`signature_hash`].
#[verifier::external_body]
fn sighash_ecdsa(text: &str, input_index: usize, witness_script: &Vec<u8>, utxo: &TxOut) -> (r:
    Option<Vec<u8>>)
    ensures
        match r {
            Some(hash) => signature_hash(
                text@,
                input_index as int,
                witness_script@,
                utxo.value,
                utxo.script_pubkey@,
            ) == Some(hash@),
            None => signature_hash(
                text@,
                input_index as int,
                witness_script@,
                utxo.value,
                utxo.script_pubkey@,
            ) is None,
        },
{
    let mut psbt = bitcoin::Psbt::from_str(text).ok()?;
    let tx = psbt.unsigned_tx.clone();
    let input = psbt.inputs.get_mut(input_index)?;
    input.witness_script = Some(bitcoin::ScriptBuf::from_bytes(witness_script.clone()));
    input.witness_utxo = Some(bitcoin::TxOut {
        value: bitcoin::Amount::from_sat(utxo.value),
        script_pubkey: bitcoin::ScriptBuf::from_bytes(utxo.script_pubkey.clone()),
    });
    let mut cache = bitcoin::sighash::SighashCache::new(&tx);
    Some(psbt.sighash_ecdsa(input_index, &mut cache).ok()?.0.as_ref().to_vec())
}

/// The signature of a secret key on a hash, serialized with the hash type `SIGHASH_ALL`; nothing
/// where either is of the wrong size or the key is none.
pub uninterp spec fn ecdsa_signature(secret: Seq<u8>, hash: Seq<u8>) -> Option<Seq<u8>>;

/// `bitcoin::secp256k1::Secp256k1::sign_ecdsa`, which is deterministic, and
/// `bitcoin::ecdsa::Signature::to_vec`. The signature is named [`ecdsa_signature`].
#[verifier::external_body]
fn sign_ecdsa(key: &ChildKey, hash: &Vec<u8>) -> (r: Option<Vec<u8>>)
    ensures
        match r {
            Some(s) => ecdsa_signature(key.secret_bytes(), hash@) == Some(s@),
            None => ecdsa_signature(key.secret_bytes(), hash@) is None,
        },
{
    let secret = bitcoin::secp256k1::SecretKey::from_slice(key.secret.as_slice()).ok()?;
    let message = bitcoin::secp256k1::Message::from_digest_slice(hash.as_slice()).ok()?;
    let signature = bitcoin::secp256k1::Secp256k1::new().sign_ecdsa(&message, &secret);
    Some(bitcoin::ecdsa::Signature::sighash_all(signature).to_vec())
}

/// The text of a partially signed transaction with a signature added to one of its inputs, and what
/// the input spends filled in.
pub uninterp spec fn text_with_signature(
    text: Seq<char>,
    input_index: int,
    added: InputSignatureModel,
) -> Option<Seq<char>>;

/// Whether some key's signature on some hash is this one.
pub open spec fn is_signature(signature: Seq<u8>) -> bool {
    exists|secret: Seq<u8>, hash: Seq<u8>| #[trigger]
        ecdsa_signature(secret, hash) == Some(signature)
}

/// `<bitcoin::Psbt as Display>::fmt`, on the transaction that the text is with the input's
/// `witness_script` and `witness_utxo` set and the signature inserted in its `partial_sigs`. The
/// text is named [`text_with_signature`]. Where it can be read again, it is the same unsigned
/// transaction, the input has the signature beside those of other keys, and the other inputs and
/// the outputs are as they were; and it can be where the scripts are no larger than a script may
/// be. Reading stops at four million bytes of a value.
#[verifier::external_body]
fn encode_signature(text: &str, input_index: usize, added: &InputSignature) -> (r: Option<String>)
    requires
        is_signature(added.signature@),
    ensures
        match r {
            Some(t) => {
                &&& text_with_signature(text@, input_index as int, added.deep_view()) == Some(t@)
                &&& decoded_psbt(text@) is Some
                &&& added.deep_view().has_small_scripts() ==> decoded_psbt(t@) is Some
                &&& decoded_psbt(t@) matches Some(after) ==> {
                    let before = decoded_psbt(text@).unwrap();
                    &&& after.txid == before.txid
                    &&& after.input == before.input
                    &&& after.output == before.output
                    &&& after.outputs == before.outputs
                    &&& after.inputs.len() == before.inputs.len()
                    &&& input_index < after.inputs.len()
                    &&& is_same_input(
                        after.inputs[input_index as int],
                        with_input_signature(
                            before.inputs[input_index as int],
                            added.deep_view(),
                        ),
                    )
                    &&& forall|j: int|
                        0 <= j < after.inputs.len() && j != input_index ==> #[trigger] after.inputs[j]
                            == before.inputs[j]
                }
            },
            None => text_with_signature(text@, input_index as int, added.deep_view()) is None,
        },
{
    let mut psbt = bitcoin::Psbt::from_str(text).ok()?;
    let input = psbt.inputs.get_mut(input_index)?;
    let key = bitcoin::PublicKey::from_slice(added.public_key.as_slice()).ok()?;
    let signature = bitcoin::ecdsa::Signature::from_slice(added.signature.as_slice()).ok()?;
    input.witness_script = Some(bitcoin::ScriptBuf::from_bytes(added.witness_script.clone()));
    input.witness_utxo = Some(bitcoin::TxOut {
        value: bitcoin::Amount::from_sat(added.utxo.value),
        script_pubkey: bitcoin::ScriptBuf::from_bytes(added.utxo.script_pubkey.clone()),
    });
    input.partial_sigs.insert(key, signature);
    Some(psbt.to_string())
}

/// A signature for one input, with what the input spends.
pub struct InputSignature {
    pub witness_script: Vec<u8>,
    pub utxo: TxOut,
    pub public_key: Vec<u8>,
    pub signature: Vec<u8>,
}

/// An [`InputSignature`] as a value.
#[verifier::ext_equal]
pub struct InputSignatureModel {
    pub witness_script: Seq<u8>,
    pub value: u64,
    pub script_pubkey: Seq<u8>,
    pub public_key: Seq<u8>,
    pub signature: Seq<u8>,
}

impl InputSignatureModel {
    /// Whether neither script is larger than a script may be.
    pub open spec fn has_small_scripts(self) -> bool {
        is_small_script(self.witness_script) && is_small_script(self.script_pubkey)
    }
}

impl DeepView for InputSignature {
    type V = InputSignatureModel;

    open spec fn deep_view(&self) -> InputSignatureModel {
        InputSignatureModel {
            witness_script: self.witness_script@,
            value: self.utxo.value,
            script_pubkey: self.utxo.script_pubkey@,
            public_key: self.public_key@,
            signature: self.signature@,
        }
    }
}

/// Why the server's key cannot be used.
#[derive(Clone, Copy, Debug, PartialEq, Eq, Structural)]
pub enum KeyLoadError {
    /// No place to find the key is configured.
    NoSource,
    /// The text is no extended private key.
    InvalidXprv,
    /// The registered key is no extended public key.
    InvalidXpub,
    /// The key is not the registered one: another key, or one at another depth.
    Mismatch,
}

/// The text of an error on the server's key.
pub open spec fn load_error_text(e: KeyLoadError) -> Seq<char> {
    match e {
        KeyLoadError::NoSource => {
            "server_signing: one of xprv_file or xprv_env_var is required"@
        },
        KeyLoadError::InvalidXprv => {
            "server_signing key is not a valid extended private key"@
        },
        KeyLoadError::InvalidXpub => {
            "keys.server.xpub is not a valid extended public key"@
        },
        KeyLoadError::Mismatch => {
            "server_signing key does not match the registered keys.server.xpub - wrong key, or wrong derivation depth (server_signing must be the xprv AT keys.server.derivation_path, not the master key)"@
        },
    }
}

impl KeyLoadError {
    /// What a person is told.
    pub fn message(self) -> (r: &'static str)
        ensures
            r@ == load_error_text(self),
    {
        match self {
            KeyLoadError::NoSource => {
                "server_signing: one of xprv_file or xprv_env_var is required"
            },
            KeyLoadError::InvalidXprv => {
                "server_signing key is not a valid extended private key"
            },
            KeyLoadError::InvalidXpub => {
                "keys.server.xpub is not a valid extended public key"
            },
            KeyLoadError::Mismatch => {
                "server_signing key does not match the registered keys.server.xpub - wrong key, or wrong derivation depth (server_signing must be the xprv AT keys.server.derivation_path, not the master key)"
            },
        }
    }
}

/// Where the server's key is to be read from.
#[derive(Debug)]
pub enum KeySource<'a> {
    File(&'a str),
    EnvVar(&'a str),
}

impl ServerSigningConfig {
    /// Where the key is to be read from. A file is preferred.
    pub fn source(&self) -> (r: Result<KeySource<'_>, KeyLoadError>)
        ensures
            match r {
                Ok(KeySource::File(path)) => self.xprv_file matches Some(f) && f@ == path@,
                Ok(KeySource::EnvVar(var)) => self.xprv_file is None && (
                self.xprv_env_var matches Some(v) && v@ == var@),
                Err(e) => e == KeyLoadError::NoSource && self.xprv_file is None
                    && self.xprv_env_var is None,
            },
    {
        if let Some(path) = &self.xprv_file {
            Ok(KeySource::File(path.as_str()))
        } else if let Some(var) = &self.xprv_env_var {
            Ok(KeySource::EnvVar(var.as_str()))
        } else {
            Err(KeyLoadError::NoSource)
        }
    }
}

/// The server's account key, kept for as long as the service runs.
pub struct ServerSigningKey {
    xprv: KeptSecret,
}

/// What reading the server's key comes to: why it cannot be used, if it cannot.
pub open spec fn load_error(raw: Seq<char>, expected_server_xpub: Seq<char>) -> Option<
    KeyLoadError,
> {
    let derived = public_of_xprv(trimmed(raw));
    let expected = canonical_xpub(trimmed(expected_server_xpub));
    if derived is None {
        Some(KeyLoadError::InvalidXprv)
    } else if expected is None {
        Some(KeyLoadError::InvalidXpub)
    } else if derived != expected {
        Some(KeyLoadError::Mismatch)
    } else {
        None
    }
}

impl ServerSigningKey {
    /// The key as a text.
    pub closed spec fn text(self) -> Seq<char> {
        kept_text(self.xprv)
    }

    /// Takes the key that was read, if it is the private key of the registered public key.
    pub fn load(raw: &str, expected_server_xpub: &str) -> (r: Result<Self, KeyLoadError>)
        ensures
            match r {
                Ok(key) => load_error(raw@, expected_server_xpub@) is None && key.text()
                    == trimmed(raw@),
                Err(e) => load_error(raw@, expected_server_xpub@) == Some(e),
            },
    {
        let raw = trim(raw);
        let derived = match xprv_public(raw) {
            Some(x) => x,
            None => {
                return Err(KeyLoadError::InvalidXprv);
            },
        };
        let expected = match xpub_text(trim(expected_server_xpub)) {
            Some(x) => x,
            None => {
                return Err(KeyLoadError::InvalidXpub);
            },
        };
        if !same_text(derived.as_str(), expected.as_str()) {
            return Err(KeyLoadError::Mismatch);
        }
        Ok(ServerSigningKey { xprv: keep(raw) })
    }

    /// The key pair at an index of a chain: the child that the descriptor has there.
    pub fn derive_child(&self, chain: Chain, index: u32) -> (r: Option<ChildKey>)
        ensures
            match r {
                Some(k) => child_of_xprv(self.text(), chain_number(chain), index) == Some(
                    (k.secret_bytes(), k.public_bytes()),
                ),
                None => child_of_xprv(self.text(), chain_number(chain), index) is None,
            },
    {
        let number: u32 = match chain {
            Chain::External => 0,
            Chain::Internal => 1,
        };
        derive_priv(kept(&self.xprv), number, index)
    }
}

/// The number of a chain in a derivation path.
pub open spec fn chain_number(chain: Chain) -> u32 {
    match chain {
        Chain::External => 0,
        Chain::Internal => 1,
    }
}

/// Why a transaction is not signed.
#[derive(Clone, Debug, PartialEq, Eq)]
pub enum SigningError {
    /// An input asks for another hash type than `SIGHASH_ALL`.
    UnsupportedSighashType { input_index: usize, requested: u32 },
    /// There is nothing to sign of an input.
    Sighash { input_index: usize },
    /// The key derived for an input is not the server's key there, so that its signature could not
    /// be valid.
    KeyMismatch { input_index: usize },
    /// A key or a script could not be derived.
    Descriptor(DescriptorError),
    /// The server's key has no child there.
    DeriveKey { input_index: usize },
    /// The signature could not be made or added.
    Sign { input_index: usize },
}

/// Whether a number is a standard hash type.
pub open spec fn is_standard_sighash(ty: u32) -> bool {
    ty == 0x01 || ty == 0x02 || ty == 0x03 || ty == 0x81 || ty == 0x82 || ty == 0x83
}

/// What an input asks for that is not `SIGHASH_ALL`, if it does: a number that is no standard type
/// is reported as `SIGHASH_ALL` and refused all the same.
pub open spec fn other_sighash(input: PsbtInput) -> Option<u32> {
    match input.sighash_type {
        Some(ty) => if ty == 0x01 {
            None
        } else if is_standard_sighash(ty) {
            Some(ty)
        } else {
            Some(0x01)
        },
        None => None,
    }
}

/// The first of the `n` inputs that asks for something else than `SIGHASH_ALL`.
pub open spec fn first_other_sighash(inputs: Seq<PsbtInput>, n: int) -> Option<SigningError>
    decreases n,
{
    if n <= 0 {
        None
    } else {
        match first_other_sighash(inputs, n - 1) {
            Some(e) => Some(e),
            None => match other_sighash(inputs[n - 1]) {
                Some(requested) => Some(
                    SigningError::UnsupportedSighashType {
                        input_index: (n - 1) as usize,
                        requested,
                    },
                ),
                None => None,
            },
        }
    }
}

/// What signing an input comes to: the signature with what the input spends, or why there is none.
pub open spec fn input_signature(
    text: Seq<char>,
    wallet: BuiltDescriptor,
    cfg: WalletConfig,
    key: Seq<char>,
    report: InputReport,
    k: int,
) -> Result<InputSignatureModel, SigningError> {
    let desc = wallet.of_chain(report.chain);
    let witness_script = derived_witness_script(desc, report.index);
    let script_pubkey = derived_script(desc, report.index);
    if witness_script is None || script_pubkey is None {
        Err(SigningError::Descriptor(DescriptorError::Derive { index: report.index }))
    } else {
        let hash = signature_hash(
            text,
            k,
            witness_script.unwrap(),
            report.amount,
            script_pubkey.unwrap(),
        );
        let child = child_of_xprv(key, chain_number(report.chain), report.index);
        if hash is None {
            Err(SigningError::Sighash { input_index: k as usize })
        } else if child is None {
            Err(SigningError::DeriveKey { input_index: k as usize })
        } else {
            match role_keys_of(wallet, cfg, report.chain, report.index) {
                Err(e) => Err(SigningError::Descriptor(e)),
                Ok(roles) => if child.unwrap().1 != roles.1 {
                    Err(SigningError::KeyMismatch { input_index: k as usize })
                } else {
                    match ecdsa_signature(child.unwrap().0, hash.unwrap()) {
                        None => Err(SigningError::Sign { input_index: k as usize }),
                        Some(signature) => Ok(
                            InputSignatureModel {
                                witness_script: witness_script.unwrap(),
                                value: report.amount,
                                script_pubkey: script_pubkey.unwrap(),
                                public_key: child.unwrap().1,
                                signature,
                            },
                        ),
                    }
                },
            }
        }
    }
}

/// What signing the first `n` inputs comes to: the text of the transaction with their signatures
/// and the signatures, or the first reason why not.
pub open spec fn signed_inputs(
    text: Seq<char>,
    wallet: BuiltDescriptor,
    cfg: WalletConfig,
    key: Seq<char>,
    reports: Seq<InputReport>,
    n: int,
) -> Result<(Seq<char>, Seq<InputSignatureModel>), SigningError>
    decreases n,
{
    if n <= 0 {
        Ok((text, Seq::empty()))
    } else {
        match signed_inputs(text, wallet, cfg, key, reports, n - 1) {
            Err(e) => Err(e),
            Ok((done, added)) => match input_signature(
                done,
                wallet,
                cfg,
                key,
                reports[n - 1],
                n - 1,
            ) {
                Err(e) => Err(e),
                Ok(s) => match text_with_signature(done, n - 1, s) {
                    None => Err(SigningError::Sign { input_index: (n - 1) as usize }),
                    Some(t) => Ok((t, added.push(s))),
                },
            },
        }
    }
}

fn sign_input(
    text: &str,
    wallet: &BuiltDescriptor,
    cfg: &WalletConfig,
    server_key: &ServerSigningKey,
    report: &InputReport,
    k: usize,
) -> (r: Result<InputSignature, SigningError>)
    ensures
        match r {
            Ok(s) => input_signature(text@, *wallet, *cfg, server_key.text(), *report, k as int)
                == Ok::<InputSignatureModel, SigningError>(s.deep_view()) && is_signature(s.signature@),
            Err(e) => input_signature(text@, *wallet, *cfg, server_key.text(), *report, k as int)
                == Err::<InputSignatureModel, SigningError>(e),
        },
{
    let desc = wallet.chain(report.chain);
    let witness_script: Vec<u8> = match witness_script_at(desc, report.index) {
        Ok(s) => s,
        Err(e) => {
            return Err(SigningError::Descriptor(e));
        },
    };
    let script_pubkey: Vec<u8> = match script_at(desc, report.index) {
        Ok(s) => s,
        Err(e) => {
            return Err(SigningError::Descriptor(e));
        },
    };
    let utxo = TxOut { value: report.amount, script_pubkey };
    let hash: Vec<u8> = match sighash_ecdsa(text, k, &witness_script, &utxo) {
        Some(h) => h,
        None => {
            return Err(SigningError::Sighash { input_index: k });
        },
    };
    let child = match server_key.derive_child(report.chain, report.index) {
        Some(c) => c,
        None => {
            return Err(SigningError::DeriveKey { input_index: k });
        },
    };
    let roles = match role_keys_at(wallet, cfg, report.chain, report.index) {
        Ok(roles) => roles,
        Err(e) => {
            return Err(SigningError::Descriptor(e));
        },
    };
    if !same_bytes(child.public_key.as_slice(), roles.server.as_slice()) {
        return Err(SigningError::KeyMismatch { input_index: k });
    }
    match sign_ecdsa(&child, &hash) {
        None => Err(SigningError::Sign { input_index: k }),
        Some(signature) => Ok(
            InputSignature { witness_script, utxo, public_key: child.public_key, signature },
        ),
    }
}

/// The signatures with that of `key` set to `signature`, in its place if there is one.
pub open spec fn with_signature(
    sigs: Seq<(Seq<u8>, Seq<u8>)>,
    key: Seq<u8>,
    signature: Seq<u8>,
) -> Seq<(Seq<u8>, Seq<u8>)> {
    let replaced = sigs.map_values(
        |s: (Seq<u8>, Seq<u8>)|
            if s.0 == key {
                (key, signature)
            } else {
                s
            },
    );
    if exists|i: int| 0 <= i < sigs.len() && (#[trigger] sigs[i]).0 == key {
        replaced
    } else {
        replaced.push((key, signature))
    }
}

/// The input with a signature added, and what it spends filled in.
pub open spec fn with_input_signature(
    input: crate::psbt::PsbtInputModel,
    added: InputSignatureModel,
) -> crate::psbt::PsbtInputModel {
    crate::psbt::PsbtInputModel {
        witness_utxo: Some(
            crate::psbt::TxOutModel { value: added.value, script_pubkey: added.script_pubkey },
        ),
        witness_script: Some(added.witness_script),
        partial_sigs: with_signature(input.partial_sigs, added.public_key, added.signature),
        ..input
    }
}

/// Whether two inputs are the same, whatever order their signatures stand in.
pub open spec fn is_same_input(
    a: crate::psbt::PsbtInputModel,
    b: crate::psbt::PsbtInputModel,
) -> bool {
    &&& a.witness_utxo == b.witness_utxo
    &&& a.non_witness_utxo == b.non_witness_utxo
    &&& a.sighash_type == b.sighash_type
    &&& a.partial_sigs.to_multiset() == b.partial_sigs.to_multiset()
    &&& a.witness_script == b.witness_script
    &&& a.final_witness_size == b.final_witness_size
}

fn set_signature(sigs: &mut Vec<PartialSig>, key: Vec<u8>, signature: Vec<u8>)
    ensures
        final(sigs).deep_view() == with_signature(old(sigs).deep_view(), key@, signature@),
{
    let ghost before = sigs.deep_view();
    let ghost replaced = before.map_values(
        |s: (Seq<u8>, Seq<u8>)|
            if s.0 == key@ {
                (key@, signature@)
            } else {
                s
            },
    );
    let n: usize = sigs.len();
    let mut found = false;
    let mut i: usize = 0;
    while i < n
        invariant
            i <= n,
            n == before.len(),
            sigs@.len() == n,
            replaced == before.map_values(
                |s: (Seq<u8>, Seq<u8>)|
                    if s.0 == key@ {
                        (key@, signature@)
                    } else {
                        s
                    },
            ),
            found == (exists|j: int| 0 <= j < i && (#[trigger] before[j]).0 == key@),
            forall|j: int| 0 <= j < i ==> (#[trigger] sigs@[j]).deep_view() == replaced[j],
            forall|j: int| i <= j < n ==> (#[trigger] sigs@[j]).deep_view() == before[j],
        decreases n - i,
    {
        assert(sigs@[i as int].deep_view() == before[i as int]);
        if same_bytes(sigs[i].public_key.as_slice(), key.as_slice()) {
            sigs[i].signature = signature.clone();
            found = true;
            assert(sigs@[i as int].deep_view() == replaced[i as int]);
        }
        i = i + 1;
    }
    assert(sigs.deep_view() =~= replaced);
    if !found {
        sigs.push(PartialSig { public_key: key, signature });
        assert(sigs.deep_view() =~= replaced.push((key@, signature@)));
    }
}

fn apply_signature(input: &mut PsbtInput, added: InputSignature)
    ensures
        final(input).deep_view() == with_input_signature(
            old(input).deep_view(),
            added.deep_view(),
        ),
{
    input.witness_script = Some(added.witness_script);
    input.witness_utxo = Some(added.utxo);
    set_signature(&mut input.partial_sigs, added.public_key, added.signature);
}

/// What signing the inputs of a transaction comes to: why it is not signed, if it is not. Every
/// input's hash type is checked before anything else.
pub open spec fn sign_error(
    psbt: Psbt,
    wallet: BuiltDescriptor,
    cfg: WalletConfig,
    key: Seq<char>,
    reports: Seq<InputReport>,
) -> Option<SigningError> {
    let n = reports.len() as int;
    match first_other_sighash(psbt.inputs@, n) {
        Some(e) => Some(e),
        None => match signed_inputs(psbt.text@, wallet, cfg, key, reports, n) {
            Err(e) => Some(e),
            Ok(_) => None,
        },
    }
}

/// Whether `after` is `before` with the server's signature on each reported input.
pub open spec fn is_signed(
    before: Psbt,
    after: Psbt,
    wallet: BuiltDescriptor,
    cfg: WalletConfig,
    key: Seq<char>,
    reports: Seq<InputReport>,
) -> bool {
    let n = reports.len() as int;
    let signed = signed_inputs(before.text@, wallet, cfg, key, reports, n)->Ok_0;
    &&& after.unsigned_tx == before.unsigned_tx
    &&& after.outputs == before.outputs
    &&& after.text@ == signed.0
    &&& after.inputs@.len() == before.inputs@.len()
    &&& forall|i: int|
        0 <= i < n ==> (#[trigger] after.inputs@[i]).deep_view() == with_input_signature(
            before.inputs@[i].deep_view(),
            signed.1[i],
        )
    &&& forall|i: int|
        n <= i < after.inputs@.len() ==> #[trigger] after.inputs@[i] == before.inputs@[i]
}

proof fn lemma_sighash_stays(inputs: Seq<PsbtInput>, i: int, n: int)
    requires
        i <= n,
        first_other_sighash(inputs, i) is Some,
    ensures
        first_other_sighash(inputs, n) == first_other_sighash(inputs, i),
    decreases n - i,
{
    if i < n {
        lemma_sighash_stays(inputs, i, n - 1);
    }
}

proof fn lemma_failure_stays(
    text: Seq<char>,
    wallet: BuiltDescriptor,
    cfg: WalletConfig,
    key: Seq<char>,
    reports: Seq<InputReport>,
    i: int,
    n: int,
)
    requires
        i <= n,
        signed_inputs(text, wallet, cfg, key, reports, i) is Err,
    ensures
        signed_inputs(text, wallet, cfg, key, reports, n) == signed_inputs(
            text,
            wallet,
            cfg,
            key,
            reports,
            i,
        ),
    decreases n - i,
{
    if i < n {
        lemma_failure_stays(text, wallet, cfg, key, reports, i, n - 1);
    }
}

/// Whether the text `after` is that of the transaction `before` with these signatures: read again,
/// it is the same transaction but that each of the first inputs has its signature beside those of
/// other keys, and what it spends filled in. It can be read again where no script is larger than a
/// script may be.
pub open spec fn carries_signatures(
    before: Seq<char>,
    after: Seq<char>,
    added: Seq<InputSignatureModel>,
) -> bool {
    added.len() > 0 ==> {
        &&& decoded_psbt(before) is Some
        &&& (forall|i: int| 0 <= i < added.len() ==> (#[trigger] added[i]).has_small_scripts())
            ==> decoded_psbt(after) is Some
        &&& decoded_psbt(after) matches Some(a) ==> {
            let b = decoded_psbt(before).unwrap();
            &&& a.txid == b.txid
            &&& a.input == b.input
            &&& a.output == b.output
            &&& a.outputs == b.outputs
            &&& a.inputs.len() == b.inputs.len()
            &&& added.len() <= a.inputs.len()
            &&& forall|i: int|
                0 <= i < added.len() ==> is_same_input(
                    #[trigger] a.inputs[i],
                    with_input_signature(b.inputs[i], added[i]),
                )
            &&& forall|i: int|
                added.len() <= i < a.inputs.len() ==> #[trigger] a.inputs[i] == b.inputs[i]
        }
    }
}

/// Signs every reported input with the server's key. A transaction that is not signed is left as
/// it was; the text of one that is carries the signatures.
pub fn sign_hot_inputs(
    psbt: &mut Psbt,
    wallet: &BuiltDescriptor,
    cfg: &WalletConfig,
    server_key: &ServerSigningKey,
    inputs: &Vec<InputReport>,
) -> (r: Result<(), SigningError>)
    requires
        inputs@.len() <= old(psbt).inputs@.len(),
    ensures
        match r {
            Ok(_) => sign_error(*old(psbt), *wallet, *cfg, server_key.text(), inputs@) is None
                && is_signed(
                *old(psbt),
                *final(psbt),
                *wallet,
                *cfg,
                server_key.text(),
                inputs@,
            ) && carries_signatures(
                old(psbt).text@,
                final(psbt).text@,
                signed_inputs(
                    old(psbt).text@,
                    *wallet,
                    *cfg,
                    server_key.text(),
                    inputs@,
                    inputs@.len() as int,
                )->Ok_0.1,
            ),
            Err(e) => sign_error(*old(psbt), *wallet, *cfg, server_key.text(), inputs@) == Some(e)
                && *final(psbt) == *old(psbt),
        },
{
    let n: usize = inputs.len();
    let mut i: usize = 0;
    while i < n
        invariant
            i <= n,
            n == inputs@.len(),
            n <= psbt.inputs@.len(),
            *psbt == *old(psbt),
            first_other_sighash(psbt.inputs@, i as int) is None,
        decreases n - i,
    {
        if let Some(ty) = psbt.inputs[i].sighash_type {
            if ty != 0x01 {
                let standard = ty == 0x02 || ty == 0x03 || ty == 0x81 || ty == 0x82 || ty == 0x83;
                proof {
                    lemma_sighash_stays(psbt.inputs@, i + 1, n as int);
                }
                return Err(
                    SigningError::UnsupportedSighashType {
                        input_index: i,
                        requested: if standard {
                            ty
                        } else {
                            0x01
                        },
                    },
                );
            }
        }
        i = i + 1;
    }
    let ghost key = server_key.text();
    let ghost first_text = psbt.text@;
    let mut text = psbt.text.clone();
    let mut signatures: Vec<InputSignature> = Vec::new();
    assert(signatures.deep_view() =~= Seq::<InputSignatureModel>::empty());
    let mut k: usize = 0;
    while k < n
        invariant
            k <= n,
            n == inputs@.len(),
            n <= psbt.inputs@.len(),
            *psbt == *old(psbt),
            first_other_sighash(psbt.inputs@, n as int) is None,
            key == server_key.text(),
            first_text == psbt.text@,
            signed_inputs(first_text, *wallet, *cfg, key, inputs@, k as int) == Ok::<
                (Seq<char>, Seq<InputSignatureModel>),
                SigningError,
            >((text@, signatures.deep_view())),
            signatures@.len() == k,
            k == 0 ==> text@ == first_text,
            carries_signatures(first_text, text@, signatures.deep_view()),
        decreases n - k,
    {
        match sign_input(text.as_str(), wallet, cfg, server_key, &inputs[k], k) {
            Err(e) => {
                proof {
                    lemma_failure_stays(
                        first_text,
                        *wallet,
                        *cfg,
                        key,
                        inputs@,
                        k + 1,
                        n as int,
                    );
                }
                return Err(e);
            },
            Ok(added) => {
                match encode_signature(text.as_str(), k, &added) {
                    None => {
                        proof {
                            lemma_failure_stays(
                                first_text,
                                *wallet,
                                *cfg,
                                key,
                                inputs@,
                                k + 1,
                                n as int,
                            );
                        }
                        return Err(SigningError::Sign { input_index: k });
                    },
                    Some(t) => {
                        let ghost before = signatures.deep_view();
                        let ghost model = added.deep_view();
                        let ghost now = before.push(model);
                        assert(now[k as int] == model);
                        assert(forall|i: int| 0 <= i < k ==> #[trigger] now[i] == before[i]);
                        text = t;
                        signatures.push(added);
                        assert(signatures.deep_view() =~= now);
                    },
                }
            },
        }
        k = k + 1;
    }
    let ghost all = signatures.deep_view();
    let ghost last_text = text@;
    psbt.text = text;
    let mut j: usize = n;
    while j > 0
        invariant
            j <= n,
            n == inputs@.len(),
            n == all.len(),
            signatures@.len() == j,
            signatures.deep_view() == all.take(j as int),
            psbt.unsigned_tx == old(psbt).unsigned_tx,
            psbt.outputs == old(psbt).outputs,
            psbt.text@ == last_text,
            psbt.inputs@.len() == old(psbt).inputs@.len(),
            n <= psbt.inputs@.len(),
            forall|i: int|
                j <= i < n ==> (#[trigger] psbt.inputs@[i]).deep_view() == with_input_signature(
                    old(psbt).inputs@[i].deep_view(),
                    all[i],
                ),
            forall|i: int|
                0 <= i < j ==> #[trigger] psbt.inputs@[i] == old(psbt).inputs@[i],
            forall|i: int|
                n <= i < psbt.inputs@.len() ==> #[trigger] psbt.inputs@[i] == old(psbt).inputs@[i],
        decreases j,
    {
        let ghost upto = signatures.deep_view();
        let added = signatures.pop().unwrap();
        assert(added.deep_view() == upto[j - 1]);
        assert(signatures.deep_view() =~= all.take(j - 1));
        j = j - 1;
        apply_signature(&mut psbt.inputs[j], added);
    }
    Ok(())
}

/// The name of a hash type.
pub open spec fn sighash_name(ty: u32) -> Seq<char> {
    if ty == 0x02 {
        "None"@
    } else if ty == 0x03 {
        "Single"@
    } else if ty == 0x81 {
        "AllPlusAnyoneCanPay"@
    } else if ty == 0x82 {
        "NonePlusAnyoneCanPay"@
    } else if ty == 0x83 {
        "SinglePlusAnyoneCanPay"@
    } else {
        "All"@
    }
}

fn name_of_sighash(ty: u32) -> (r: &'static str)
    ensures
        r@ == sighash_name(ty),
{
    if ty == 0x02 {
        "None"
    } else if ty == 0x03 {
        "Single"
    } else if ty == 0x81 {
        "AllPlusAnyoneCanPay"
    } else if ty == 0x82 {
        "NonePlusAnyoneCanPay"
    } else if ty == 0x83 {
        "SinglePlusAnyoneCanPay"
    } else {
        "All"
    }
}

/// The text of an error.
pub open spec fn signing_error_text(e: SigningError) -> Seq<char> {
    match e {
        SigningError::UnsupportedSighashType { input_index, requested } => "input "@ + decimal(
            input_index as nat,
        ) + " requests sighash type "@ + sighash_name(requested)
            + ", but this service only ever signs SIGHASH_ALL"@,
        SigningError::Sighash { input_index } => "input "@ + decimal(input_index as nat)
            + ": computing the signature hash"@,
        SigningError::KeyMismatch { input_index } => "input "@ + decimal(input_index as nat)
            + ": derived signing key's public key does not match the expected SERVER role key - refusing to attach a signature that could not possibly be valid"@,
        SigningError::Descriptor(x) => descriptor_error_text(x),
        SigningError::DeriveKey { input_index } => "input "@ + decimal(input_index as nat)
            + ": deriving child signing key"@,
        SigningError::Sign { input_index } => "input "@ + decimal(input_index as nat)
            + ": attaching the signature"@,
    }
}

fn input_sentence(i: usize, rest: &str) -> (r: String)
    ensures
        r@ == "input "@ + decimal(i as nat) + rest@,
{
    let mut out = "input ".to_owned();
    push_decimal(&mut out, i as u64);
    out.append(rest);
    out
}

impl SigningError {
    /// What a person is told.
    pub fn message(&self) -> (r: String)
        ensures
            r@ == signing_error_text(*self),
    {
        match self {
            SigningError::UnsupportedSighashType { input_index, requested } => {
                let mut out = input_sentence(*input_index, " requests sighash type ");
                out.append(name_of_sighash(*requested));
                out.append(", but this service only ever signs SIGHASH_ALL");
                out
            },
            SigningError::Sighash { input_index } => input_sentence(
                *input_index,
                ": computing the signature hash",
            ),
            SigningError::KeyMismatch { input_index } => input_sentence(
                *input_index,
                ": derived signing key's public key does not match the expected SERVER role key - refusing to attach a signature that could not possibly be valid",
            ),
            SigningError::Descriptor(x) => x.message(),
            SigningError::DeriveKey { input_index } => input_sentence(
                *input_index,
                ": deriving child signing key",
            ),
            SigningError::Sign { input_index } => input_sentence(
                *input_index,
                ": attaching the signature",
            ),
        }
    }
}

proof fn lemma_sighash_none(inputs: Seq<PsbtInput>, n: int)
    requires
        first_other_sighash(inputs, n) is None,
    ensures
        forall|i: int| 0 <= i < n ==> other_sighash(#[trigger] inputs[i]) is None,
    decreases n,
{
    if n > 0 {
        lemma_sighash_none(inputs, n - 1);
    }
}

proof fn lemma_signed_inputs(
    text: Seq<char>,
    wallet: BuiltDescriptor,
    cfg: WalletConfig,
    key: Seq<char>,
    reports: Seq<InputReport>,
    n: int,
)
    requires
        0 <= n <= reports.len(),
        signed_inputs(text, wallet, cfg, key, reports, n) is Ok,
    ensures
        ({
            let added = signed_inputs(text, wallet, cfg, key, reports, n)->Ok_0.1;
            &&& added.len() == n
            &&& forall|i: int|
                0 <= i < n ==> {
                    &&& (#[trigger] added[i]).value == reports[i].amount
                    &&& derived_script(wallet.of_chain(reports[i].chain), reports[i].index)
                        == Some(added[i].script_pubkey)
                    &&& role_keys_of(wallet, cfg, reports[i].chain, reports[i].index) matches Ok(
                        roles,
                    ) && added[i].public_key == roles.1
                }
        }),
    decreases n,
{
    if n > 0 {
        lemma_signed_inputs(text, wallet, cfg, key, reports, n - 1);
    }
}

/// Only `SIGHASH_ALL` is ever signed: a transaction of which one reported input asks for another
/// hash type is not signed at all.
pub proof fn law_only_sighash_all_is_signed(
    psbt: Psbt,
    wallet: BuiltDescriptor,
    cfg: WalletConfig,
    key: Seq<char>,
    reports: Seq<InputReport>,
    i: int,
)
    requires
        0 <= i < reports.len(),
        reports.len() <= psbt.inputs@.len(),
        sign_error(psbt, wallet, cfg, key, reports) is None,
    ensures
        psbt.inputs@[i].sighash_type is None || psbt.inputs@[i].sighash_type == Some(1u32),
{
    lemma_sighash_none(psbt.inputs@, reports.len() as int);
    assert(other_sighash(psbt.inputs@[i]) is None);
}

/// What is signed is what was derived and asked of the node: each signed input has the server's own
/// key at that place of the wallet, the wallet's script there, and the amount of the report.
pub proof fn law_a_signature_is_the_servers_on_the_wallets_script(
    before: Psbt,
    after: Psbt,
    wallet: BuiltDescriptor,
    cfg: WalletConfig,
    key: Seq<char>,
    reports: Seq<InputReport>,
    i: int,
)
    requires
        sign_error(before, wallet, cfg, key, reports) is None,
        is_signed(before, after, wallet, cfg, key, reports),
        reports.len() <= before.inputs@.len(),
        0 <= i < reports.len(),
    ensures
        ({
            let utxo = after.inputs@[i].deep_view().witness_utxo;
            &&& utxo matches Some(u) && u.value == reports[i].amount && derived_script(
                wallet.of_chain(reports[i].chain),
                reports[i].index,
            ) == Some(u.script_pubkey)
            &&& role_keys_of(wallet, cfg, reports[i].chain, reports[i].index) matches Ok(roles)
                && has_key(after.inputs@[i].deep_view().partial_sigs, roles.1)
        }),
{
    lemma_signed_inputs(before.text@, wallet, cfg, key, reports, reports.len() as int);
    let added = signed_inputs(
        before.text@,
        wallet,
        cfg,
        key,
        reports,
        reports.len() as int,
    )->Ok_0.1[i];
    let sigs = before.inputs@[i].deep_view().partial_sigs;
    let now = with_signature(sigs, added.public_key, added.signature);
    assert(after.inputs@[i].deep_view().partial_sigs == now);
    if exists|j: int| 0 <= j < sigs.len() && (#[trigger] sigs[j]).0 == added.public_key {
        let j = choose|j: int| 0 <= j < sigs.len() && (#[trigger] sigs[j]).0 == added.public_key;
        assert(now[j].0 == added.public_key);
    } else {
        assert(now[sigs.len() as int].0 == added.public_key);
    }
}

/// Whether one of the signatures is of `key`.
pub open spec fn has_key(sigs: Seq<(Seq<u8>, Seq<u8>)>, key: Seq<u8>) -> bool {
    exists|j: int| 0 <= j < sigs.len() && (#[trigger] sigs[j]).0 == key
}

/// Every reported input has to be signed as a whole: signing goes on past the hash types exactly where
/// each input asks for none or for `SIGHASH_ALL`, and otherwise the first that asks for another is
/// named.
pub proof fn law_every_input_is_signed_as_a_whole(inputs: Seq<PsbtInput>, n: int)
    requires
        0 <= n <= inputs.len() <= usize::MAX,
    ensures
        match first_other_sighash(inputs, n) {
            None => forall|i: int|
                0 <= i < n ==> (#[trigger] inputs[i]).sighash_type is None
                    || inputs[i].sighash_type == Some(1u32),
            Some(e) => e matches SigningError::UnsupportedSighashType { input_index, .. } && {
                &&& input_index < n
                &&& inputs[input_index as int].sighash_type matches Some(ty) && ty != 1
                &&& forall|i: int|
                    0 <= i < input_index ==> (#[trigger] inputs[i]).sighash_type is None
                        || inputs[i].sighash_type == Some(1u32)
            },
        },
    decreases n,
{
    if n > 0 {
        law_every_input_is_signed_as_a_whole(inputs, n - 1);
    }
}

/// A signature that is added is there, under its key, and the signatures of all other keys stay as they
/// were.
pub proof fn law_an_added_signature_leaves_the_others(
    sigs: Seq<(Seq<u8>, Seq<u8>)>,
    key: Seq<u8>,
    signature: Seq<u8>,
    other: (Seq<u8>, Seq<u8>),
)
    ensures
        with_signature(sigs, key, signature).contains((key, signature)),
        other.0 != key ==> (with_signature(sigs, key, signature).contains(other) <==> sigs.contains(
            other,
        )),
        other.0 == key && with_signature(sigs, key, signature).contains(other) ==> other.1
            == signature,
{
    let all = with_signature(sigs, key, signature);
    if exists|i: int| 0 <= i < sigs.len() && (#[trigger] sigs[i]).0 == key {
        let i = choose|i: int| 0 <= i < sigs.len() && (#[trigger] sigs[i]).0 == key;
        assert(all[i] == (key, signature));
    } else {
        assert(all[all.len() - 1] == (key, signature));
    }
    if sigs.contains(other) {
        let i = choose|i: int| 0 <= i < sigs.len() && sigs[i] == other;
        assert(other.0 != key ==> all[i] == other);
    }
    if all.contains(other) {
        let i = choose|i: int| 0 <= i < all.len() && all[i] == other;
        if i < sigs.len() {
            assert(other.0 != key ==> sigs[i] == other);
        }
    }
}

/// The server's key is taken exactly where it is an extended private key whose public part is the one
/// that is registered, and a reason is given where it is not.
pub proof fn law_the_servers_key_is_the_registered_one(
    raw: Seq<char>,
    expected_server_xpub: Seq<char>,
)
    ensures
        load_error(raw, expected_server_xpub) is None <==> public_of_xprv(trimmed(raw)) is Some
            && public_of_xprv(trimmed(raw)) == canonical_xpub(trimmed(expected_server_xpub)),
        load_error(raw, expected_server_xpub) == Some(KeyLoadError::InvalidXprv)
            <==> public_of_xprv(trimmed(raw)) is None,
        load_error(raw, expected_server_xpub) == Some(KeyLoadError::Mismatch) <==> public_of_xprv(
            trimmed(raw),
        ) is Some && canonical_xpub(trimmed(expected_server_xpub)) is Some && public_of_xprv(
            trimmed(raw),
        ) != canonical_xpub(trimmed(expected_server_xpub)),
{
}

/// What is attached to an input is the signature, by the server's child key of the chain and the index
/// that the input spends, on the hash of the transaction for that input with the script and the amount
/// of what it spends; and that child key is the server's in the wallet.
pub proof fn law_the_signature_is_by_the_child_key_on_the_inputs_hash(
    text: Seq<char>,
    wallet: BuiltDescriptor,
    cfg: WalletConfig,
    key: Seq<char>,
    reports: Seq<InputReport>,
    n: int,
    i: int,
)
    requires
        0 <= i < n <= reports.len(),
        signed_inputs(text, wallet, cfg, key, reports, n) is Ok,
    ensures
        ({
            let added = signed_inputs(text, wallet, cfg, key, reports, n)->Ok_0.1;
            let before = signed_inputs(text, wallet, cfg, key, reports, i)->Ok_0.0;
            let report = reports[i];
            let desc = wallet.of_chain(report.chain);
            let chain = if report.chain == Chain::External {
                0u32
            } else {
                1u32
            };
            &&& added.len() == n
            &&& signed_inputs(text, wallet, cfg, key, reports, i) is Ok
            &&& derived_witness_script(desc, report.index) == Some(added[i].witness_script)
            &&& derived_script(desc, report.index) == Some(added[i].script_pubkey)
            &&& added[i].value == report.amount
            &&& child_of_xprv(key, chain, report.index) matches Some((secret, public)) && (
            signature_hash(
                before,
                i,
                added[i].witness_script,
                added[i].value,
                added[i].script_pubkey,
            ) matches Some(hash) && {
                &&& ecdsa_signature(secret, hash) == Some(added[i].signature)
                &&& added[i].public_key == public
                &&& role_keys_of(wallet, cfg, report.chain, report.index) matches Ok(roles)
                    && roles.1 == public
            })
        }),
    decreases n,
{
    if n > 0 {
        lemma_signed_inputs(text, wallet, cfg, key, reports, n);
        if i < n - 1 {
            law_the_signature_is_by_the_child_key_on_the_inputs_hash(
                text,
                wallet,
                cfg,
                key,
                reports,
                n - 1,
                i,
            );
        } else {
            lemma_signed_inputs(text, wallet, cfg, key, reports, n - 1);
        }
    }
}

/// Signing leaves the transaction, its outputs and every input that is not reported as they were, and of a
/// reported one all but the signature and what it spends.
pub proof fn law_signing_adds_nothing_but_signatures(
    before: Psbt,
    after: Psbt,
    wallet: BuiltDescriptor,
    cfg: WalletConfig,
    key: Seq<char>,
    reports: Seq<InputReport>,
    i: int,
)
    requires
        is_signed(before, after, wallet, cfg, key, reports),
        0 <= i < before.inputs@.len(),
    ensures
        after.unsigned_tx == before.unsigned_tx,
        after.outputs == before.outputs,
        after.inputs@.len() == before.inputs@.len(),
        i >= reports.len() ==> after.inputs@[i] == before.inputs@[i],
        i < reports.len() ==> {
            let a = after.inputs@[i].deep_view();
            let b = before.inputs@[i].deep_view();
            &&& a.non_witness_utxo == b.non_witness_utxo
            &&& a.sighash_type == b.sighash_type
            &&& a.final_witness_size == b.final_witness_size
            &&& forall|s: (Seq<u8>, Seq<u8>)|
                b.partial_sigs.contains(s) && s.0 != signed_inputs(
                    before.text@,
                    wallet,
                    cfg,
                    key,
                    reports,
                    reports.len() as int,
                )->Ok_0.1[i].public_key ==> #[trigger] a.partial_sigs.contains(s)
        },
{
    if i < reports.len() {
        let added = signed_inputs(
            before.text@,
            wallet,
            cfg,
            key,
            reports,
            reports.len() as int,
        )->Ok_0.1[i];
        let a = after.inputs@[i].deep_view();
        let b = before.inputs@[i].deep_view();
        assert(a == with_input_signature(b, added));
        assert forall|s: (Seq<u8>, Seq<u8>)|
            b.partial_sigs.contains(s) && s.0
                != added.public_key implies #[trigger] a.partial_sigs.contains(s) by {
            law_an_added_signature_leaves_the_others(
                b.partial_sigs,
                added.public_key,
                added.signature,
                s,
            );
        }
    }
}

}
