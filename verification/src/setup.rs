//! Setting a wallet up from the browser: the keys that are entered, the key that the server makes,
//! the codes that are scanned, and the configuration that comes of it.

use bitcoin::secp256k1::rand::RngCore;
use vstd::prelude::*;
use vstd::string::*;
use zeroize::Zeroize;

use crate::config::{config_error_text, network_kind, ChainNetwork, KeySpec, WalletConfig};
use crate::descriptor::{
    address_at, address_at_index, build_descriptor, build_error, build_error_text,
    canonical_descriptor, configured_policy, descriptor_error_text, is_derivable, key_expression_text, path_text, single_paths, write_path,
    DescriptorError,
};
use crate::keys::{derivation_steps, parse_derivation_path};
use crate::policy::FeeRate;
use crate::signing::{
    derive_account, descendant_of_xprv, fingerprint_of_xprv, is_unbroken, kept, kept_text,
    load_error, master_of_seed, new_master, public_of_xprv, xprv_fingerprint, xprv_public,
    KeptSecret,
};
use crate::text::{
    after_first, before_first, behind, first_at, has_prefix, is_hex_of_len,
    law_a_cut_text_is_put_together_again, law_a_text_is_cut_at_the_first_place,
    lemma_contains_pushed, lowercase, position, same_text,
    starts_with, trim, trimmed, until, uppercase, white_space,
};
use crate::wizard::{
    is_sound_key, lemma_lower_case_hex, path_complaint, validate_derivation_path, validate_fingerprint,
    validate_xpub_for, xpub_complaint, BitcoindAuthAnswer, KeyAnswer, NotifyAnswer, PolicyAnswer,
    ServerSigningAnswer, SmtpAnswer, WizardAnswers,
};

verus! {

/// What the deployment knows without being asked.
#[derive(Clone, Debug)]
pub struct Deployment {
    pub network: ChainNetwork,
    pub config_dir: String,
    pub data_dir: String,
    pub bind_addr: String,
    pub bitcoind_rpc_url: String,
}

/// The name of the file that the server's key is kept in.
pub const SERVER_XPRV_FILENAME: &'static str = "server.xprv";

/// The name of the configuration file.
pub const WALLET_TOML_FILENAME: &'static str = "wallet.toml";

/// The name of the ledger's file.
pub const LEDGER_FILENAME: &'static str = "ledger.sqlite3";

/// The timelock that is proposed, in blocks.
pub const DEFAULT_TIMELOCK_BLOCKS: u16 = 12960;

/// The largest image that is decoded, in bytes.
pub const MAX_IMAGE_BYTES: usize = 12_582_912;

/// The path of a file in a directory.
pub open spec fn file_in(dir: Seq<char>, name: Seq<char>) -> Seq<char> {
    if dir.len() == 0 || dir.last() == '/' {
        dir + name
    } else {
        dir + "/"@ + name
    }
}

fn path_in(dir: &str, name: &str) -> (r: String)
    ensures
        r@ == file_in(dir@, name@),
{
    let n: usize = dir.unicode_len();
    let mut out = dir.to_owned();
    if n > 0 && dir.get_char(n - 1) != '/' {
        out.append("/");
    }
    out.append(name);
    out
}

impl Deployment {
    /// Where the configuration file is.
    pub fn wallet_toml_path(&self) -> (r: String)
        ensures
            r@ == file_in(self.config_dir@, WALLET_TOML_FILENAME@),
    {
        path_in(self.config_dir.as_str(), WALLET_TOML_FILENAME)
    }

    /// Where the server's key is kept.
    pub fn server_xprv_path(&self) -> (r: String)
        ensures
            r@ == file_in(self.config_dir@, SERVER_XPRV_FILENAME@),
    {
        path_in(self.config_dir.as_str(), SERVER_XPRV_FILENAME)
    }
}

/// The steps of making a key.
#[derive(Clone, Copy, Debug, PartialEq, Eq, Structural)]
pub enum KeyStep {
    /// Reading the derivation path.
    Path,
    /// Getting fresh randomness.
    Randomness,
    /// Deriving the master key.
    Master,
    /// Deriving the account's key.
    Account,
}

/// How a step of making a key is called.
pub open spec fn step_name(step: KeyStep) -> Seq<char> {
    match step {
        KeyStep::Path => "parsing the default derivation path"@,
        KeyStep::Randomness => "drawing fresh entropy"@,
        KeyStep::Master => "deriving a BIP32 master key from fresh entropy"@,
        KeyStep::Account => "deriving the account key"@,
    }
}

impl KeyStep {
    /// How the step is called.
    pub fn name(self) -> (r: &'static str)
        ensures
            r@ == step_name(self),
    {
        match self {
            KeyStep::Path => "parsing the default derivation path",
            KeyStep::Randomness => "drawing fresh entropy",
            KeyStep::Master => "deriving a BIP32 master key from fresh entropy",
            KeyStep::Account => "deriving the account key",
        }
    }
}

/// Why setting up cannot go on.
#[derive(Clone, Debug)]
pub enum SetupError {
    /// There is a configuration already.
    AlreadyConfigured,
    /// There is no configuration yet.
    NotConfigured,
    /// A key is refused, for this reason.
    Key(String),
    /// The server has made no key yet.
    NoServerKey,
    /// The timelock is zero.
    ZeroTimelock,
    /// There is no channel to tell the owner by.
    NoChannel,
    /// Two of the keys are the same.
    SameKey,
    /// One of the keys is the server's.
    ServersOwnKey,
    /// The configuration is refused, for this reason.
    Config(String),
    /// The keys make no wallet, for this reason.
    Wallet(String),
    /// The wallet has no first address.
    FirstAddress(DescriptorError),
    /// No key could be made, because of this step.
    KeyGeneration(KeyStep),
    /// No image came.
    NoImage,
    /// The image is too large.
    ImageTooLarge,
    /// What came is no image.
    NotAnImage,
    /// There is no code in the image.
    NoCode,
}

/// The HTTP status of an error.
pub open spec fn setup_status(e: SetupError) -> u16 {
    match e {
        SetupError::FirstAddress(_) | SetupError::KeyGeneration(_) => 500,
        _ => 400,
    }
}

/// What the person at the keyboard is told of an error.
pub open spec fn setup_text(e: SetupError) -> Seq<char> {
    match e {
        SetupError::AlreadyConfigured => {
            "this cosigner is already configured; refusing to overwrite wallet.toml"@
        },
        SetupError::NotConfigured => {
            "setup hasn't been completed yet - there's no config to start with"@
        },
        SetupError::Key(reason) => reason@,
        SetupError::NoServerKey => {
            "no SERVER key has been generated yet - go back and generate one"@
        },
        SetupError::ZeroTimelock => "the recovery timelock must be at least 1 block"@,
        SetupError::NoChannel => NO_CHANNEL@,
        SetupError::SameKey => {
            "the SATOCHIP and Bitcoin Keeper keys are the same xpub - each key must be a different device"@
        },
        SetupError::ServersOwnKey => {
            "one of the keys you entered is the SERVER key this box just generated"@
        },
        SetupError::Config(reason) => reason@,
        SetupError::Wallet(reason) => "these keys don't form a valid wallet: "@ + reason@,
        SetupError::FirstAddress(e) => "deriving the first address failed: "@
            + descriptor_error_text(e),
        SetupError::KeyGeneration(step) => "generating the SERVER key failed: "@ + step_name(step),
        SetupError::NoImage => "no image was uploaded"@,
        SetupError::ImageTooLarge => {
            "that image is larger than 12 MB - try a screenshot, or a lower-resolution photo"@
        },
        SetupError::NotAnImage => "that file doesn't look like a PNG, JPEG or WebP image"@,
        SetupError::NoCode => {
            "no QR code found in that image - make sure the whole code is in frame and in focus"@
        },
    }
}

/// What is said where there is no channel to tell the owner by.
pub const NO_CHANNEL: &'static str =
    "a notification channel is required - either an ntfy URL or SMTP email. A hold window with no notification channel would wait silently and then sign, with nobody in a position to veto it";

impl SetupError {
    /// The HTTP status of the error.
    pub fn status(&self) -> (r: u16)
        ensures
            r == setup_status(*self),
    {
        match self {
            SetupError::FirstAddress(_) | SetupError::KeyGeneration(_) => 500,
            _ => 400,
        }
    }

    /// What the person at the keyboard is told of the error.
    pub fn message(&self) -> (r: String)
        ensures
            r@ == setup_text(*self),
    {
        match self {
            SetupError::AlreadyConfigured => {
                "this cosigner is already configured; refusing to overwrite wallet.toml".to_owned()
            },
            SetupError::NotConfigured => {
                "setup hasn't been completed yet - there's no config to start with".to_owned()
            },
            SetupError::Key(reason) => reason.as_str().to_owned(),
            SetupError::NoServerKey => {
                "no SERVER key has been generated yet - go back and generate one".to_owned()
            },
            SetupError::ZeroTimelock => {
                "the recovery timelock must be at least 1 block".to_owned()
            },
            SetupError::NoChannel => NO_CHANNEL.to_owned(),
            SetupError::SameKey => {
                "the SATOCHIP and Bitcoin Keeper keys are the same xpub - each key must be a different device".to_owned()
            },
            SetupError::ServersOwnKey => {
                "one of the keys you entered is the SERVER key this box just generated".to_owned()
            },
            SetupError::Config(reason) => reason.as_str().to_owned(),
            SetupError::Wallet(reason) => {
                let mut out = "these keys don't form a valid wallet: ".to_owned();
                out.append(reason.as_str());
                out
            },
            SetupError::FirstAddress(e) => {
                let mut out = "deriving the first address failed: ".to_owned();
                out.append(e.message().as_str());
                out
            },
            SetupError::KeyGeneration(step) => {
                let mut out = "generating the SERVER key failed: ".to_owned();
                out.append(step.name());
                out
            },
            SetupError::NoImage => "no image was uploaded".to_owned(),
            SetupError::ImageTooLarge => {
                "that image is larger than 12 MB - try a screenshot, or a lower-resolution photo".to_owned()
            },
            SetupError::NotAnImage => {
                "that file doesn't look like a PNG, JPEG or WebP image".to_owned()
            },
            SetupError::NoCode => {
                "no QR code found in that image - make sure the whole code is in frame and in focus".to_owned()
            },
        }
    }
}

/// The path that keys are proposed at: BIP48's for scripts of the kind `wsh()`, with the coin type
/// of the network.
pub open spec fn default_path(network: ChainNetwork) -> Seq<char> {
    match network {
        ChainNetwork::Mainnet => "48h/0h/0h/2h"@,
        _ => "48h/1h/0h/2h"@,
    }
}

/// The path that keys are proposed at.
pub fn default_derivation_path(network: ChainNetwork) -> (r: String)
    ensures
        r@ == default_path(network),
{
    match network {
        ChainNetwork::Mainnet => "48h/0h/0h/2h".to_owned(),
        ChainNetwork::Testnet | ChainNetwork::Signet | ChainNetwork::Regtest => {
            "48h/1h/0h/2h".to_owned()
        },
    }
}

/// A key as it was typed in.
#[derive(Clone, Debug)]
pub struct ValidateKeyRequest {
    pub fingerprint: String,
    pub derivation_path: String,
    pub xpub: String,
}

/// What is wrong with a key that was typed in: the first of its parts that is.
pub open spec fn key_complaint(network: ChainNetwork, req: ValidateKeyRequest) -> Option<
    Seq<char>,
> {
    let path = trimmed(req.derivation_path@);
    if !is_hex_of_len(lowercase(trimmed(req.fingerprint@)), 8) {
        Some("must be exactly 8 hex characters"@)
    } else if derivation_steps(path) is None {
        Some(path_complaint(path))
    } else {
        xpub_complaint(network, derivation_steps(path)->Some_0.len(), trimmed(req.xpub@))
    }
}

/// Whether a key is the one that was typed in, tidied up.
pub open spec fn is_key_typed(req: ValidateKeyRequest, key: KeyAnswer) -> bool {
    &&& key.fingerprint@ == lowercase(trimmed(req.fingerprint@))
    &&& key.derivation_path@ == trimmed(req.derivation_path@)
    &&& key.xpub@ == trimmed(req.xpub@)
}

/// Checks a key that was typed in, by the same rules as in an interview.
pub fn validate_key(network: ChainNetwork, req: &ValidateKeyRequest) -> (r: Result<
    KeyAnswer,
    SetupError,
>)
    ensures
        match r {
            Ok(key) => key_complaint(network, *req) is None && is_key_typed(*req, key)
                && is_sound_key(network, key),
            Err(e) => e matches SetupError::Key(m) && key_complaint(network, *req) == Some(m@),
        },
{
    let fingerprint = trim(req.fingerprint.as_str()).to_lowercase();
    let derivation_path = trim(req.derivation_path.as_str()).to_owned();
    let xpub = trim(req.xpub.as_str()).to_owned();
    if let Err(m) = validate_fingerprint(fingerprint.as_str()) {
        return Err(SetupError::Key(m));
    }
    let steps: usize = match validate_derivation_path(derivation_path.as_str()) {
        Ok(n) => n,
        Err(m) => {
            return Err(SetupError::Key(m));
        },
    };
    if let Err(m) = validate_xpub_for(network, steps, xpub.as_str()) {
        return Err(SetupError::Key(m));
    }
    Ok(KeyAnswer { fingerprint, derivation_path, xpub })
}

/// A key that the server has made. Of the private key only the account's is kept: the master key
/// that it comes from is gone once the account's has been derived.
pub struct GeneratedServerKey {
    master_fingerprint: String,
    derivation_path: String,
    xpub: String,
    account_xprv: KeptSecret,
}

impl GeneratedServerKey {
    /// The public part.
    pub closed spec fn public_part(self) -> (Seq<char>, Seq<char>, Seq<char>) {
        (self.master_fingerprint@, self.derivation_path@, self.xpub@)
    }

    /// The private key of the account.
    pub closed spec fn private_part(self) -> Seq<char> {
        kept_text(self.account_xprv)
    }

    /// The fingerprint of the master key.
    pub fn fingerprint(&self) -> (r: &str)
        ensures
            r@ == self.public_part().0,
    {
        self.master_fingerprint.as_str()
    }

    /// The path to the account.
    pub fn path(&self) -> (r: &str)
        ensures
            r@ == self.public_part().1,
    {
        self.derivation_path.as_str()
    }

    /// The extended public key of the account.
    pub fn xpub(&self) -> (r: &str)
        ensures
            r@ == self.public_part().2,
    {
        self.xpub.as_str()
    }

    /// The extended private key of the account, to be written where the service reads it.
    pub fn account_xprv(&self) -> (r: &str)
        ensures
            r@ == self.private_part(),
    {
        kept(&self.account_xprv)
    }
}

/// Whether a seed gives a key at a path.
pub open spec fn seed_gives_key(network: ChainNetwork, path: Seq<char>, seed: Seq<u8>) -> bool {
    &&& derivation_steps(path) is Some
    &&& master_of_seed(network_kind(network), seed) is Some
    &&& ({
        let master = master_of_seed(network_kind(network), seed)->Some_0;
        &&& fingerprint_of_xprv(master) is Some
        &&& descendant_of_xprv(master, derivation_steps(path)->Some_0) is Some
    })
}

/// Whether `key` is the server's key that a seed gives at a path.
pub open spec fn is_key_of_seed(
    network: ChainNetwork,
    path: Seq<char>,
    seed: Seq<u8>,
    key: GeneratedServerKey,
) -> bool {
    let master = master_of_seed(network_kind(network), seed)->Some_0;
    let account = descendant_of_xprv(master, derivation_steps(path)->Some_0)->Some_0;
    &&& key.public_part().0 == lowercase(fingerprint_of_xprv(master)->Some_0)
    &&& key.public_part().1 == path
    &&& Some(key.public_part().2) == public_of_xprv(account)
    &&& key.private_part() == account
}

/// Whether a key that the server has made can be used: it is a sound key of the network, and the
/// service will take the private part for the public one.
pub open spec fn is_usable(network: ChainNetwork, key: GeneratedServerKey) -> bool {
    let (fingerprint, path, xpub) = key.public_part();
    &&& is_hex_of_len(fingerprint, 8)
    &&& derivation_steps(path) is Some
    &&& xpub_complaint(network, derivation_steps(path)->Some_0.len(), xpub) is None
    &&& load_error(key.private_part(), xpub) is None
}

proof fn lemma_unbroken_is_trimmed(s: Seq<char>)
    requires
        is_unbroken(s),
    ensures
        trimmed(s) == s,
{
    if s.len() > 0 {
        assert(!white_space(s[0]));
        assert(!white_space(s[s.len() - 1]));
    }
}

/// The step at which a seed that gives no key at a path fails.
pub open spec fn failing_step(network: ChainNetwork, path: Seq<char>, seed: Seq<u8>) -> KeyStep {
    if derivation_steps(path) is None {
        KeyStep::Path
    } else if master_of_seed(network_kind(network), seed) is None {
        KeyStep::Master
    } else {
        KeyStep::Account
    }
}

/// The server's key that a seed gives at a path.
pub fn server_key_of_seed(network: ChainNetwork, path: &str, seed: &Vec<u8>) -> (r: Result<
    GeneratedServerKey,
    SetupError,
>)
    ensures
        match r {
            Ok(key) => seed_gives_key(network, path@, seed@) && is_key_of_seed(
                network,
                path@,
                seed@,
                key,
            ) && is_usable(network, key),
            Err(e) => !seed_gives_key(network, path@, seed@) && e == SetupError::KeyGeneration(
                failing_step(network, path@, seed@),
            ),
        },
{
    let steps: Vec<u32> = match parse_derivation_path(path) {
        Some(steps) => steps,
        None => {
            return Err(SetupError::KeyGeneration(KeyStep::Path));
        },
    };
    let master = match new_master(network.xpub_network_kind(), seed) {
        Some(k) => k,
        None => {
            return Err(SetupError::KeyGeneration(KeyStep::Master));
        },
    };
    let raw = match xprv_fingerprint(&master) {
        Some(f) => f,
        None => {
            return Err(SetupError::KeyGeneration(KeyStep::Account));
        },
    };
    let account_xprv = match derive_account(&master, &steps) {
        Some(k) => k,
        None => {
            return Err(SetupError::KeyGeneration(KeyStep::Account));
        },
    };
    let xpub = match xprv_public(kept(&account_xprv)) {
        Some(x) => x,
        None => {
            assert(false);
            return Err(SetupError::KeyGeneration(KeyStep::Account));
        },
    };
    proof {
        lemma_lower_case_hex(raw@);
        lemma_unbroken_is_trimmed(xpub@);
        lemma_unbroken_is_trimmed(kept_text(account_xprv));
    }
    let master_fingerprint = raw.as_str().to_lowercase();
    Ok(
        GeneratedServerKey {
            master_fingerprint,
            derivation_path: path.to_owned(),
            xpub,
            account_xprv,
        },
    )
}

/// `bitcoin::secp256k1::rand::rngs::OsRng::try_fill_bytes`: 32 bytes of the operating system's
/// randomness. Which bytes come is not stated, nor whether any do.
#[verifier::external_body]
fn fresh_seed() -> (r: Option<Vec<u8>>)
    ensures
        r matches Some(seed) ==> seed@.len() == 32,
{
    let mut seed = vec![0u8; 32];
    bitcoin::secp256k1::rand::rngs::OsRng.try_fill_bytes(seed.as_mut_slice()).ok()?;
    Some(seed)
}

/// `<Vec<u8> as zeroize::Zeroize>::zeroize`: overwrites the bytes and empties the list.
#[verifier::external_body]
fn wipe(bytes: &mut Vec<u8>)
    ensures
        final(bytes)@.len() == 0,
{
    bytes.zeroize();
}

/// Whether `key` is the server's key that some seed of 32 bytes gives at a path.
pub open spec fn is_key_of_some_seed(
    network: ChainNetwork,
    path: Seq<char>,
    key: GeneratedServerKey,
) -> bool {
    exists|seed: Seq<u8>|
        seed.len() == 32 && #[trigger] is_key_of_seed(network, path, seed, key)
}

/// Whether `e` is why some seed of 32 bytes gives no key at a path.
pub open spec fn fails_on_some_seed(
    network: ChainNetwork,
    path: Seq<char>,
    e: SetupError,
) -> bool {
    exists|seed: Seq<u8>|
        seed.len() == 32 && !seed_gives_key(network, path, seed) && e == SetupError::KeyGeneration(
            #[trigger] failing_step(network, path, seed),
        )
}

/// Makes a key for the server from fresh randomness.
pub fn generate_server_key(network: ChainNetwork, path_str: &str) -> (r: Result<
    GeneratedServerKey,
    SetupError,
>)
    ensures
        match r {
            Ok(key) => is_key_of_some_seed(network, path_str@, key) && is_usable(network, key)
                && key.public_part().1 == path_str@,
            Err(e) => e == SetupError::KeyGeneration(KeyStep::Randomness) || fails_on_some_seed(
                network,
                path_str@,
                e,
            ),
        },
{
    match fresh_seed() {
        Some(seed) => {
            let mut seed = seed;
            let r = server_key_of_seed(network, path_str, &seed);
            wipe(&mut seed);
            r
        },
        None => Err(SetupError::KeyGeneration(KeyStep::Randomness)),
    }
}

/// A text without the given character in front.
pub open spec fn without_leading(s: Seq<char>, a: char, b: char) -> Seq<char>
    decreases s.len(),
{
    if s.len() > 0 && (s[0] == a || s[0] == b) {
        without_leading(s.skip(1), a, b)
    } else {
        s
    }
}

fn strip_leading(s: &str, a: char, b: char) -> (r: &str)
    ensures
        r@ == without_leading(s@, a, b),
{
    let n: usize = s.unicode_len();
    let mut i: usize = 0;
    assert(s@.skip(0) =~= s@);
    while i < n && (s.get_char(i) == a || s.get_char(i) == b)
        invariant
            i <= n,
            n == s@.len(),
            without_leading(s@, a, b) == without_leading(s@.skip(i as int), a, b),
        decreases n - i,
    {
        assert(s@.skip(i as int).skip(1) =~= s@.skip(i + 1));
        i = i + 1;
    }
    assert(s@.subrange(i as int, n as int) =~= s@.skip(i as int));
    s.substring_char(i, n)
}

/// A derivation path without the master key in front.
pub open spec fn relative_path(path: Seq<char>) -> Seq<char> {
    without_leading(without_leading(trimmed(path), 'm', 'M'), '/', '/')
}

fn strip_master(path: &str) -> (r: &str)
    ensures
        r@ == relative_path(path@),
{
    strip_leading(strip_leading(trim(path), 'm', 'M'), '/', '/')
}

/// A key as another wallet takes it: its origin in brackets, and the extended key. Hardened steps
/// are marked by an apostrophe, whatever marks them in `derivation_path`.
pub open spec fn key_with_origin(
    fingerprint: Seq<char>,
    derivation_path: Seq<char>,
    xpub: Seq<char>,
) -> Seq<char> {
    let fp = lowercase(trimmed(fingerprint));
    let raw = relative_path(derivation_path);
    if raw.len() == 0 {
        "["@ + fp + "]"@ + trimmed(xpub)
    } else {
        "["@ + fp + "/"@ + (match derivation_steps(raw) {
            Some(steps) => path_text(steps),
            None => raw,
        }) + "]"@ + trimmed(xpub)
    }
}

/// Writes a key as another wallet takes it.
pub fn key_expression(fingerprint: &str, derivation_path: &str, xpub: &str) -> (r: String)
    ensures
        r@ == key_with_origin(fingerprint@, derivation_path@, xpub@),
{
    let fp = trim(fingerprint).to_lowercase();
    let raw = strip_master(derivation_path);
    let mut out = "[".to_owned();
    out.append(fp.as_str());
    if raw.unicode_len() > 0 {
        out.append("/");
        match parse_derivation_path(raw) {
            Some(steps) => {
                out.append(write_path(&steps).as_str());
            },
            None => {
                out.append(raw);
            },
        }
    }
    out.append("]");
    out.append(trim(xpub));
    out
}

/// A key is handed out in the very notation in which the wallet's descriptor has it: the
/// descriptor's expression of the key is what is handed out, with the two chains behind it.
pub proof fn law_a_key_is_handed_out_as_the_descriptor_has_it(key: KeySpec)
    requires
        relative_path(key.derivation_path@) == trimmed(key.derivation_path@),
        trimmed(key.derivation_path@).len() > 0,
        derivation_steps(trimmed(key.derivation_path@)) matches Some(steps) && steps.len() > 0,
    ensures
        key_expression_text(key) == key_with_origin(
            key.master_fingerprint@,
            key.derivation_path@,
            key.xpub@,
        ) + "/<0;1>/*"@,
{
    assert(key_expression_text(key) =~= key_with_origin(
        key.master_fingerprint@,
        key.derivation_path@,
        key.xpub@,
    ) + "/<0;1>/*"@);
}

/// A key in the form of an export that many wallets import.
#[derive(Clone, Debug)]
pub struct KeyExport {
    /// The fingerprint, in capitals.
    pub xfp: String,
    /// The path, from the master key, with apostrophes.
    pub deriv: String,
    /// The extended key.
    pub xpub: String,
}

/// A path from the master key, with apostrophes.
pub open spec fn export_path(path: Seq<char>) -> Seq<char> {
    "m/"@ + path.map_values(
        |c: char|
            if c == 'h' {
                '\''
            } else {
                c
            },
    )
}

/// What a key that the server has made is exported as.
pub fn key_export(key: &GeneratedServerKey) -> (r: KeyExport)
    ensures
        r.xfp@ == uppercase(key.public_part().0),
        r.deriv@ == export_path(key.public_part().1),
        r.xpub@ == key.public_part().2,
{
    let path = key.derivation_path.as_str();
    let ghost want = path@.map_values(
        |c: char|
            if c == 'h' {
                '\''
            } else {
                c
            },
    );
    let mut tail = String::new();
    let n: usize = path.unicode_len();
    let mut i: usize = 0;
    while i < n
        invariant
            i <= n,
            n == path@.len(),
            want == path@.map_values(
                |c: char|
                    if c == 'h' {
                        '\''
                    } else {
                        c
                    },
            ),
            tail@ == want.take(i as int),
        decreases n - i,
    {
        let c = path.get_char(i);
        if c == 'h' {
            tail.push('\'');
        } else {
            tail.push(c);
        }
        assert(want.take(i + 1) =~= want.take(i as int).push(want[i as int]));
        i = i + 1;
    }
    assert(want.take(i as int) =~= want);
    let mut deriv = "m/".to_owned();
    deriv.append(tail.as_str());
    KeyExport {
        xfp: key.master_fingerprint.as_str().to_uppercase(),
        deriv,
        xpub: key.xpub.as_str().to_owned(),
    }
}

/// How much of a code can be lost without its text being lost.
#[derive(Clone, Copy, Debug, PartialEq, Eq, Structural)]
pub enum CodeLevel {
    Low,
    Medium,
    Quartile,
    High,
}

/// The least width and height of a code in pixels.
pub const CODE_PIXELS: u32 = 240;

/// The colour of the dark parts of a code.
pub const CODE_DARK: &'static str = "#000000";

/// The colour of the light parts of a code.
pub const CODE_LIGHT: &'static str = "#ffffff";

/// The picture of a text as a code at a level, at least so many pixels wide and high, in two
/// colours; nothing where the text is too long for one.
pub uninterp spec fn code_picture(
    data: Seq<char>,
    level: CodeLevel,
    pixels: u32,
    dark: Seq<char>,
    light: Seq<char>,
) -> Option<Seq<char>>;

/// `qrcode::QrCode::with_error_correction_level`, rendered as SVG. The picture is named
/// [`code_picture`].
#[verifier::external_body]
fn draw_code(data: &str, level: CodeLevel, pixels: u32, dark: &str, light: &str) -> (r: Option<
    String,
>)
    requires
        0 < pixels <= 10_000,
    ensures
        match r {
            Some(svg) => code_picture(data@, level, pixels, dark@, light@) == Some(svg@),
            None => code_picture(data@, level, pixels, dark@, light@) is None,
        },
{
    let level = match level {
        CodeLevel::Low => qrcode::EcLevel::L,
        CodeLevel::Medium => qrcode::EcLevel::M,
        CodeLevel::Quartile => qrcode::EcLevel::Q,
        CodeLevel::High => qrcode::EcLevel::H,
    };
    let code = qrcode::QrCode::with_error_correction_level(data.as_bytes(), level).ok()?;
    let mut picture = code.render::<qrcode::render::svg::Color>();
    picture.min_dimensions(pixels, pixels);
    picture.dark_color(qrcode::render::svg::Color(dark));
    picture.light_color(qrcode::render::svg::Color(light));
    Some(picture.build())
}

/// The picture of a text as a code to be scanned; nothing where the text is too long for one.
pub open spec fn qr_picture(data: Seq<char>) -> Option<Seq<char>> {
    code_picture(data, CodeLevel::Low, CODE_PIXELS, CODE_DARK@, CODE_LIGHT@)
}

/// Draws a text as a code to be scanned, where it fits one.
pub(crate) fn qr_svg(data: &str) -> (r: Option<String>)
    ensures
        match r {
            Some(svg) => qr_picture(data@) == Some(svg@),
            None => qr_picture(data@) is None,
        },
{
    draw_code(data, CodeLevel::Low, CODE_PIXELS, CODE_DARK, CODE_LIGHT)
}

/// What is shown of a key that the server has made.
#[derive(Clone, Debug)]
pub struct ServerKeyShown {
    pub master_fingerprint: String,
    pub derivation_path: String,
    pub xpub: String,
    pub key_expression: String,
    /// The key with its origin as a code, where it fits one.
    pub key_expression_qr_svg: Option<String>,
    pub export: KeyExport,
}

/// Whether a picture is that of a text.
pub open spec fn is_picture_of(data: Seq<char>, svg: Option<String>) -> bool {
    match svg {
        Some(s) => qr_picture(data) == Some(s@),
        None => qr_picture(data) is None,
    }
}

/// What is shown of a key that the server has made.
pub fn show_server_key(key: &GeneratedServerKey) -> (r: ServerKeyShown)
    ensures
        r.master_fingerprint@ == key.public_part().0,
        r.derivation_path@ == key.public_part().1,
        r.xpub@ == key.public_part().2,
        r.key_expression@ == key_with_origin(
            key.public_part().0,
            key.public_part().1,
            key.public_part().2,
        ),
        is_picture_of(r.key_expression@, r.key_expression_qr_svg),
        r.export.xfp@ == uppercase(key.public_part().0),
        r.export.deriv@ == export_path(key.public_part().1),
        r.export.xpub@ == key.public_part().2,
{
    let expr = key_expression(
        key.master_fingerprint.as_str(),
        key.derivation_path.as_str(),
        key.xpub.as_str(),
    );
    let key_expression_qr_svg = qr_svg(expr.as_str());
    ServerKeyShown {
        master_fingerprint: key.master_fingerprint.as_str().to_owned(),
        derivation_path: key.derivation_path.as_str().to_owned(),
        xpub: key.xpub.as_str().to_owned(),
        key_expression: expr,
        key_expression_qr_svg,
        export: key_export(key),
    }
}

/// The channel of mail, as it was typed in.
#[derive(Clone, Debug)]
pub struct SmtpRequest {
    pub host: String,
    pub port: u16,
    pub username: String,
    pub password: String,
    pub from: String,
    pub to: String,
}

/// The limits of the policy, as they were typed in.
#[derive(Clone, Debug)]
pub struct PolicyRequest {
    pub max_tx_sat: u64,
    pub max_daily_sat: u64,
    pub max_weekly_sat: u64,
    pub max_monthly_sat: u64,
    pub max_fee_sat: u64,
    pub max_fee_rate_sat_per_vb: FeeRate,
    /// The fee rate in decimal.
    pub max_fee_rate_text: String,
}

/// The form, filled in.
#[derive(Clone, Debug)]
pub struct FinishRequest {
    pub timelock_blocks: u16,
    pub satochip: ValidateKeyRequest,
    pub mobile: ValidateKeyRequest,
    pub policy: PolicyRequest,
    pub hold_seconds: i64,
    pub recovery_hold_seconds: i64,
    pub ntfy_url: Option<String>,
    pub smtp: Option<SmtpRequest>,
}

/// Whether a form names a channel of ntfy.
pub open spec fn names_ntfy(req: FinishRequest) -> bool {
    req.ntfy_url matches Some(url) && trimmed(url@).len() > 0
}

/// Whether a form names a channel of mail.
pub open spec fn names_smtp(req: FinishRequest) -> bool {
    req.smtp matches Some(s) && trimmed(s.host@).len() > 0 && trimmed(s.to@).len() > 0
}

/// Why a form is refused, if it is. `generated` is the key that the server has made, by its
/// extended public key.
pub open spec fn form_error(
    configured: bool,
    network: ChainNetwork,
    req: FinishRequest,
    generated: Option<Seq<char>>,
) -> Option<FormFault> {
    let satochip = trimmed(req.satochip.xpub@);
    let mobile = trimmed(req.mobile.xpub@);
    if configured {
        Some(FormFault::AlreadyConfigured)
    } else if key_complaint(network, req.satochip) is Some {
        Some(FormFault::Key(key_complaint(network, req.satochip)->Some_0))
    } else if key_complaint(network, req.mobile) is Some {
        Some(FormFault::Key(key_complaint(network, req.mobile)->Some_0))
    } else if generated is None {
        Some(FormFault::NoServerKey)
    } else if req.timelock_blocks == 0 {
        Some(FormFault::ZeroTimelock)
    } else if !names_ntfy(req) && !names_smtp(req) {
        Some(FormFault::NoChannel)
    } else if satochip == mobile {
        Some(FormFault::SameKey)
    } else if Some(satochip) == generated || Some(mobile) == generated {
        Some(FormFault::ServersOwnKey)
    } else {
        None
    }
}

/// A [`SetupError`] of a form as a value.
pub enum FormFault {
    AlreadyConfigured,
    Key(Seq<char>),
    NoServerKey,
    ZeroTimelock,
    NoChannel,
    SameKey,
    ServersOwnKey,
}

/// Whether an error states a fault of a form.
pub open spec fn states(e: SetupError, fault: FormFault) -> bool {
    match fault {
        FormFault::AlreadyConfigured => e is AlreadyConfigured,
        FormFault::Key(m) => e matches SetupError::Key(text) && text@ == m,
        FormFault::NoServerKey => e is NoServerKey,
        FormFault::ZeroTimelock => e is ZeroTimelock,
        FormFault::NoChannel => e is NoChannel,
        FormFault::SameKey => e is SameKey,
        FormFault::ServersOwnKey => e is ServersOwnKey,
    }
}

/// Whether `key` is the server's, in the words of an interview.
pub open spec fn is_servers(generated: GeneratedServerKey, key: KeyAnswer) -> bool {
    &&& key.fingerprint@ == generated.public_part().0
    &&& key.derivation_path@ == generated.public_part().1
    &&& key.xpub@ == generated.public_part().2
}

/// Whether `a` is what a form says, on a deployment.
pub open spec fn are_of_form(
    deployment: Deployment,
    req: FinishRequest,
    generated: GeneratedServerKey,
    a: WizardAnswers,
) -> bool {
    &&& a.network == deployment.network
    &&& a.timelock_blocks == req.timelock_blocks
    &&& is_servers(generated, a.server)
    &&& a.server_signing matches ServerSigningAnswer::File(path) && path@ == file_in(
        deployment.config_dir@,
        SERVER_XPRV_FILENAME@,
    )
    &&& a.bitcoind_rpc_url@ == deployment.bitcoind_rpc_url@
    &&& a.bitcoind_auth matches BitcoindAuthAnswer::UserPass(user, pass) && user@.len() == 0
        && pass@.len() == 0
    &&& a.bind_addr@ == deployment.bind_addr@
    &&& a.gap_limit == 1000
    &&& a.ledger_db_path@ == file_in(deployment.data_dir@, LEDGER_FILENAME@)
    &&& a.policy.max_tx_sat == req.policy.max_tx_sat
    &&& a.policy.max_daily_sat == req.policy.max_daily_sat
    &&& a.policy.max_weekly_sat == req.policy.max_weekly_sat
    &&& a.policy.max_monthly_sat == req.policy.max_monthly_sat
    &&& a.policy.max_fee_sat == req.policy.max_fee_sat
    &&& a.policy.max_fee_rate_sat_per_vb == req.policy.max_fee_rate_sat_per_vb
    &&& a.policy.max_fee_rate_text@ == req.policy.max_fee_rate_text@
    &&& a.policy.destination_whitelist is None
    &&& a.notify.hold_seconds == req.hold_seconds
    &&& a.notify.sweep_interval_seconds == 30
    &&& a.notify.renotify_interval_seconds == 3600
    &&& match a.notify.ntfy_url {
        Some(url) => names_ntfy(req) && url@ == trimmed(req.ntfy_url->Some_0@),
        None => !names_ntfy(req),
    }
    &&& a.notify.ntfy_auth_token is None
    &&& match (req.smtp, a.notify.smtp) {
        (None, None) => true,
        (Some(asked), Some(smtp)) => {
            &&& smtp.host@ == trimmed(asked.host@)
            &&& smtp.port == asked.port
            &&& smtp.username@ == trimmed(asked.username@)
            &&& smtp.password@ == asked.password@
            &&& smtp.from@ == trimmed(asked.from@)
            &&& smtp.to@ == trimmed(asked.to@)
        },
        _ => false,
    }
    &&& a.recovery_hold_seconds == req.recovery_hold_seconds
    &&& a.recovery_destination_whitelist is None
    &&& a.nostr_transport is None
}

/// The answers that a form comes to, with the keys that were checked.
pub fn build_answers(
    deployment: &Deployment,
    req: &FinishRequest,
    satochip: KeyAnswer,
    mobile: KeyAnswer,
    generated: &GeneratedServerKey,
) -> (r: WizardAnswers)
    ensures
        are_of_form(*deployment, *req, *generated, r),
        r.hardware == satochip,
        r.mobile == mobile,
{
    let mut ntfy_url: Option<String> = None;
    if let Some(url) = &req.ntfy_url {
        let url = trim(url.as_str());
        if url.unicode_len() > 0 {
            ntfy_url = Some(url.to_owned());
        }
    }
    let smtp = match &req.smtp {
        Some(s) => Some(
            SmtpAnswer {
                host: trim(s.host.as_str()).to_owned(),
                port: s.port,
                username: trim(s.username.as_str()).to_owned(),
                password: s.password.as_str().to_owned(),
                from: trim(s.from.as_str()).to_owned(),
                to: trim(s.to.as_str()).to_owned(),
            },
        ),
        None => None,
    };
    WizardAnswers {
        network: deployment.network,
        timelock_blocks: req.timelock_blocks,
        hardware: satochip,
        mobile,
        server: KeyAnswer {
            fingerprint: generated.master_fingerprint.as_str().to_owned(),
            derivation_path: generated.derivation_path.as_str().to_owned(),
            xpub: generated.xpub.as_str().to_owned(),
        },
        server_signing: ServerSigningAnswer::File(deployment.server_xprv_path()),
        bitcoind_rpc_url: deployment.bitcoind_rpc_url.as_str().to_owned(),
        bitcoind_auth: BitcoindAuthAnswer::UserPass(String::new(), String::new()),
        bind_addr: deployment.bind_addr.as_str().to_owned(),
        gap_limit: 1000,
        ledger_db_path: path_in(deployment.data_dir.as_str(), LEDGER_FILENAME),
        policy: PolicyAnswer {
            max_tx_sat: req.policy.max_tx_sat,
            max_daily_sat: req.policy.max_daily_sat,
            max_weekly_sat: req.policy.max_weekly_sat,
            max_monthly_sat: req.policy.max_monthly_sat,
            max_fee_sat: req.policy.max_fee_sat,
            max_fee_rate_sat_per_vb: req.policy.max_fee_rate_sat_per_vb,
            max_fee_rate_text: req.policy.max_fee_rate_text.as_str().to_owned(),
            destination_whitelist: None,
        },
        notify: NotifyAnswer {
            hold_seconds: req.hold_seconds,
            sweep_interval_seconds: 30,
            renotify_interval_seconds: 3600,
            ntfy_url,
            ntfy_auth_token: None,
            smtp,
        },
        recovery_hold_seconds: req.recovery_hold_seconds,
        recovery_destination_whitelist: None,
        nostr_transport: None,
    }
}

fn form_names_ntfy(req: &FinishRequest) -> (r: bool)
    ensures
        r == names_ntfy(*req),
{
    match &req.ntfy_url {
        Some(url) => trim(url.as_str()).unicode_len() > 0,
        None => false,
    }
}

fn form_names_smtp(req: &FinishRequest) -> (r: bool)
    ensures
        r == names_smtp(*req),
{
    match &req.smtp {
        Some(s) => trim(s.host.as_str()).unicode_len() > 0 && trim(s.to.as_str()).unicode_len()
            > 0,
        None => false,
    }
}

/// The extended public key of the server's key, where there is one.
pub open spec fn xpub_of(generated: Option<GeneratedServerKey>) -> Option<Seq<char>> {
    match generated {
        Some(g) => Some(g.public_part().2),
        None => None,
    }
}

/// Takes a form, once it is filled in: the answers to write the configuration from, or why it is
/// refused. `configured` says whether there is a configuration already.
pub fn take_form(
    deployment: &Deployment,
    configured: bool,
    req: &FinishRequest,
    generated: &Option<GeneratedServerKey>,
) -> (r: Result<WizardAnswers, SetupError>)
    ensures
        match r {
            Ok(a) => {
                &&& form_error(configured, deployment.network, *req, xpub_of(*generated)) is None
                &&& *generated matches Some(g) && are_of_form(*deployment, *req, g, a)
                &&& is_key_typed(req.satochip, a.hardware)
                &&& is_key_typed(req.mobile, a.mobile)
                &&& is_sound_key(a.network, a.hardware)
                &&& is_sound_key(a.network, a.mobile)
            },
            Err(e) => {
                &&& form_error(configured, deployment.network, *req, xpub_of(*generated)) is Some
                &&& states(
                    e,
                    form_error(configured, deployment.network, *req, xpub_of(*generated))->Some_0,
                )
            },
        },
{
    if configured {
        return Err(SetupError::AlreadyConfigured);
    }
    let satochip = validate_key(deployment.network, &req.satochip)?;
    let mobile = validate_key(deployment.network, &req.mobile)?;
    let generated = match generated {
        Some(g) => g,
        None => {
            return Err(SetupError::NoServerKey);
        },
    };
    if req.timelock_blocks == 0 {
        return Err(SetupError::ZeroTimelock);
    }
    if !form_names_ntfy(req) && !form_names_smtp(req) {
        return Err(SetupError::NoChannel);
    }
    if same_text(satochip.xpub.as_str(), mobile.xpub.as_str()) {
        return Err(SetupError::SameKey);
    }
    if same_text(satochip.xpub.as_str(), generated.xpub.as_str()) || same_text(
        mobile.xpub.as_str(),
        generated.xpub.as_str(),
    ) {
        return Err(SetupError::ServersOwnKey);
    }
    Ok(build_answers(deployment, req, satochip, mobile, generated))
}

/// A wallet that has been set up, as it is shown.
#[derive(Clone, Debug)]
pub struct Finished {
    pub descriptor: String,
    pub receive_descriptor: String,
    pub change_descriptor: String,
    /// The first address to receive at, to be compared with what another wallet shows.
    pub first_address: String,
    pub descriptor_qr_svg: Option<String>,
    pub receive_qr_svg: Option<String>,
    pub change_qr_svg: Option<String>,
}

/// Whether the wallet of a configuration has a first address.
pub open spec fn has_first_address(cfg: WalletConfig) -> bool {
    let external = single_paths(canonical_descriptor(configured_policy(cfg))->Some_0)->Some_0[0];
    is_derivable(external) && address_at_index(external, 0, cfg.network) is Some
}

/// Whether `e` is why a configuration that has been written out is refused.
pub open spec fn is_refused_for(cfg: WalletConfig, e: SetupError) -> bool {
    match e {
        SetupError::Config(reason) => cfg.problem() matches Some(x) && reason@
            == config_error_text(cfg, x),
        SetupError::Wallet(reason) => cfg.problem() is None && (build_error(cfg) matches Some(x)
            && reason@ == build_error_text(cfg, x)),
        SetupError::FirstAddress(x) => build_error(cfg) is None && !has_first_address(cfg) && x == (
        DescriptorError::Derive { index: 0 }),
        _ => false,
    }
}

/// Checks a configuration that has been written out, and derives the wallet that it describes. No
/// configuration is kept that the service would refuse to start with.
pub fn conclude(cfg: &WalletConfig) -> (r: Result<Finished, SetupError>)
    ensures
        match r {
            Ok(f) => {
                let multipath = canonical_descriptor(configured_policy(*cfg))->Some_0;
                let singles = single_paths(multipath)->Some_0;
                &&& build_error(*cfg) is None
                &&& has_first_address(*cfg)
                &&& f.descriptor@ == multipath
                &&& f.receive_descriptor@ == singles[0]
                &&& f.change_descriptor@ == singles[1]
                &&& address_at_index(singles[0], 0, cfg.network) == Some(f.first_address@)
                &&& is_picture_of(f.descriptor@, f.descriptor_qr_svg)
                &&& is_picture_of(f.receive_descriptor@, f.receive_qr_svg)
                &&& is_picture_of(f.change_descriptor@, f.change_qr_svg)
            },
            Err(e) => is_refused_for(*cfg, e),
        },
{
    if let Err(e) = cfg.validate() {
        return Err(SetupError::Config(e.message(cfg)));
    }
    let built = match build_descriptor(cfg) {
        Ok(built) => built,
        Err(e) => {
            return Err(SetupError::Wallet(e.build_message(cfg)));
        },
    };
    let first_address = match address_at(built.external(), 0, cfg.network) {
        Ok(a) => a,
        Err(e) => {
            return Err(SetupError::FirstAddress(e));
        },
    };
    let descriptor = built.multipath().to_owned();
    let receive_descriptor = built.external().to_owned();
    let change_descriptor = built.internal().to_owned();
    let descriptor_qr_svg = qr_svg(descriptor.as_str());
    let receive_qr_svg = qr_svg(receive_descriptor.as_str());
    let change_qr_svg = qr_svg(change_descriptor.as_str());
    Ok(
        Finished {
            descriptor,
            receive_descriptor,
            change_descriptor,
            first_address,
            descriptor_qr_svg,
            receive_qr_svg,
            change_qr_svg,
        },
    )
}

/// Whether the service may be started: only once there is a configuration.
pub fn may_start(configured: bool) -> (r: Result<(), SetupError>)
    ensures
        match r {
            Ok(_) => configured,
            Err(e) => !configured && e is NotConfigured,
        },
{
    if configured {
        Ok(())
    } else {
        Err(SetupError::NotConfigured)
    }
}

/// A text in an option as a value.
pub open spec fn text_in(s: Option<String>) -> Option<Seq<char>> {
    match s {
        Some(t) => Some(t@),
        None => None,
    }
}

/// The distinct texts that are not empty, among the first `n` codes, each where it first comes.
pub open spec fn distinct_texts(codes: Seq<Option<Seq<char>>>, n: int) -> Seq<Seq<char>>
    decreases n,
{
    if n <= 0 {
        Seq::empty()
    } else {
        let before = distinct_texts(codes, n - 1);
        match codes[n - 1] {
            Some(t) => if t.len() > 0 && !before.contains(t) {
                before.push(t)
            } else {
                before
            },
            None => before,
        }
    }
}

fn holds_text(all: &Vec<String>, t: &str) -> (r: bool)
    ensures
        r == all.deep_view().contains(t@),
{
    let mut i: usize = 0;
    while i < all.len()
        invariant
            i <= all.len(),
            forall|j: int| 0 <= j < i ==> (#[trigger] all@[j])@ != t@,
        decreases all.len() - i,
    {
        if same_text(all[i].as_str(), t) {
            assert(all.deep_view()[i as int] == t@);
            return true;
        }
        i = i + 1;
    }
    proof {
        if all.deep_view().contains(t@) {
            let k = choose|k: int| 0 <= k < all.deep_view().len() && all.deep_view()[k] == t@;
            assert(all@[k]@ == t@);
        }
    }
    false
}

/// The distinct texts of the codes that were found.
pub fn distinct_payloads(codes: &Vec<Option<String>>) -> (r: Vec<String>)
    ensures
        r.deep_view() == distinct_texts(
            codes@.map_values(|s: Option<String>| text_in(s)),
            codes@.len() as int,
        ),
{
    let ghost want = codes@.map_values(|s: Option<String>| text_in(s));
    let mut out: Vec<String> = Vec::new();
    let mut i: usize = 0;
    assert(out.deep_view() =~= Seq::<Seq<char>>::empty());
    while i < codes.len()
        invariant
            i <= codes.len(),
            want == codes@.map_values(|s: Option<String>| text_in(s)),
            out.deep_view() == distinct_texts(want, i as int),
        decreases codes.len() - i,
    {
        assert(want[i as int] == text_in(codes@[i as int]));
        if let Some(t) = &codes[i] {
            if t.as_str().unicode_len() > 0 && !holds_text(&out, t.as_str()) {
                let ghost before = out.deep_view();
                out.push(t.clone());
                assert(out.deep_view() =~= before.push(t@));
            }
        }
        i = i + 1;
    }
    out
}

/// Checks the size of an image before it is decoded.
pub fn check_image_size(len: usize) -> (r: Result<(), SetupError>)
    ensures
        match r {
            Ok(_) => 0 < len <= MAX_IMAGE_BYTES,
            Err(e) => if len == 0 {
                e is NoImage
            } else {
                len > MAX_IMAGE_BYTES && e is ImageTooLarge
            },
        },
{
    if len == 0 {
        return Err(SetupError::NoImage);
    }
    if len > MAX_IMAGE_BYTES {
        return Err(SetupError::ImageTooLarge);
    }
    Ok(())
}

/// What stands at a place in a text that may be JSON.
#[derive(Debug)]
pub enum JsonFound {
    /// The text is no JSON.
    NotJson,
    /// There is nothing at the place.
    Nothing,
    /// There is a text.
    Text(String),
    /// There is something else.
    Other,
}

/// A [`JsonFound`] as a value.
pub enum JsonAt {
    NotJson,
    Nothing,
    Text(Seq<char>),
    Other,
}

/// A finding as a value.
pub open spec fn finding(found: JsonFound) -> JsonAt {
    match found {
        JsonFound::NotJson => JsonAt::NotJson,
        JsonFound::Nothing => JsonAt::Nothing,
        JsonFound::Text(t) => JsonAt::Text(t@),
        JsonFound::Other => JsonAt::Other,
    }
}

/// What stands in a JSON text at the place that an RFC 6901 pointer gives.
pub uninterp spec fn json_at(s: Seq<char>, pointer: Seq<char>) -> JsonAt;

/// `serde_json::from_str` and `serde_json::Value::pointer`. What is found is named [`json_at`].
#[verifier::external_body]
fn json_lookup(s: &str, pointer: &str) -> (r: JsonFound)
    ensures
        finding(r) == json_at(s@, pointer@),
{
    let value: serde_json::Value = match serde_json::from_str(s) {
        Ok(value) => value,
        Err(_) => return JsonFound::NotJson,
    };
    match value.pointer(pointer) {
        None => JsonFound::Nothing,
        Some(serde_json::Value::String(text)) => JsonFound::Text(text.clone()),
        Some(_) => JsonFound::Other,
    }
}

/// The place of a member of a section.
pub open spec fn member(section: Seq<char>, name: Seq<char>) -> Seq<char> {
    section + "/"@ + name
}

/// The first text among the members of a section that have one of the given names, in the order of
/// the names from the `n`th on.
pub open spec fn first_text(
    s: Seq<char>,
    section: Seq<char>,
    names: Seq<Seq<char>>,
    n: int,
) -> Option<Seq<char>>
    decreases names.len() - n,
{
    if n >= names.len() {
        None
    } else {
        match json_at(s, member(section, names[n])) {
            JsonAt::Text(t) => Some(t),
            _ => first_text(s, section, names, n + 1),
        }
    }
}

/// The names of a list of them.
pub open spec fn names_of(names: Seq<&'static str>) -> Seq<Seq<char>> {
    names.map_values(|n: &'static str| n@)
}

fn find_text(s: &str, section: &str, names: &Vec<&'static str>) -> (r: Option<String>)
    ensures
        text_in(r) == first_text(s@, section@, names_of(names@), 0),
{
    let mut i: usize = 0;
    while i < names.len()
        invariant
            i <= names.len(),
            first_text(s@, section@, names_of(names@), 0) == first_text(
                s@,
                section@,
                names_of(names@),
                i as int,
            ),
        decreases names.len() - i,
    {
        let mut pointer = section.to_owned();
        pointer.append("/");
        pointer.append(names[i]);
        assert(names_of(names@)[i as int] == names@[i as int]@);
        if let JsonFound::Text(t) = json_lookup(s, pointer.as_str()) {
            return Some(t);
        }
        i = i + 1;
    }
    None
}

/// The first of the given sections that is there, from the `n`th on: the whole where none is.
pub open spec fn first_section(s: Seq<char>, names: Seq<Seq<char>>, n: int) -> Seq<char>
    decreases names.len() - n,
{
    if n >= names.len() {
        ""@
    } else if json_at(s, member(""@, names[n])) is Nothing || json_at(s, member(""@, names[n]))
        is NotJson {
        first_section(s, names, n + 1)
    } else {
        member(""@, names[n])
    }
}

fn find_section(s: &str, names: &Vec<&'static str>) -> (r: String)
    ensures
        r@ == first_section(s@, names_of(names@), 0),
{
    let mut i: usize = 0;
    while i < names.len()
        invariant
            i <= names.len(),
            first_section(s@, names_of(names@), 0) == first_section(
                s@,
                names_of(names@),
                i as int,
            ),
        decreases names.len() - i,
    {
        let mut pointer = "".to_owned();
        pointer.append("/");
        pointer.append(names[i]);
        assert(names_of(names@)[i as int] == names@[i as int]@);
        match json_lookup(s, pointer.as_str()) {
            JsonFound::Nothing | JsonFound::NotJson => {},
            _ => {
                return pointer;
            },
        }
        i = i + 1;
    }
    "".to_owned()
}

/// A key that was read from a code.
#[derive(Clone, Debug)]
pub struct ScannedKey {
    pub fingerprint: Option<String>,
    pub derivation_path: Option<String>,
    pub xpub: String,
}

/// A [`ScannedKey`] as a value.
#[verifier::ext_equal]
pub struct Scanned {
    pub fingerprint: Option<Seq<char>>,
    pub derivation_path: Option<Seq<char>>,
    pub xpub: Seq<char>,
}

/// A scanned key as a value.
pub open spec fn scanned_key(key: ScannedKey) -> Scanned {
    Scanned {
        fingerprint: text_in(key.fingerprint),
        derivation_path: text_in(key.derivation_path),
        xpub: key.xpub@,
    }
}

/// The key in a text of the form `[fingerprint/path]xpub`, with or without chains behind it.
pub open spec fn bracketed_key(s: Seq<char>) -> Option<Scanned> {
    let rest = s.skip(1);
    let origin = before_first(rest, ']');
    let xpub = trimmed(before_first(after_first(rest, ']'), '/'));
    if s.len() > 0 && s[0] == '[' && first_at(rest, ']') < rest.len() && xpub.len() > 0 {
        Some(
            Scanned {
                fingerprint: Some(lowercase(trimmed(before_first(origin, '/')))),
                derivation_path: if first_at(origin, '/') < origin.len() {
                    Some(after_first(origin, '/'))
                } else {
                    None
                },
                xpub,
            },
        )
    } else {
        None
    }
}

fn parse_bracketed(s: &str) -> (r: Option<ScannedKey>)
    ensures
        match r {
            Some(k) => bracketed_key(s@) == Some(scanned_key(k)),
            None => bracketed_key(s@) is None,
        },
{
    let n: usize = s.unicode_len();
    if n == 0 || s.get_char(0) != '[' {
        return None;
    }
    let rest = s.substring_char(1, n);
    assert(rest@ =~= s@.skip(1));
    if position(rest, ']') >= rest.unicode_len() {
        return None;
    }
    let origin = until(rest, ']');
    let xpub = trim(until(behind(rest, ']'), '/'));
    if xpub.unicode_len() == 0 {
        return None;
    }
    let derivation_path = if position(origin, '/') < origin.unicode_len() {
        Some(behind(origin, '/').to_owned())
    } else {
        None
    };
    Some(
        ScannedKey {
            fingerprint: Some(trim(until(origin, '/')).to_lowercase()),
            derivation_path,
            xpub: xpub.to_owned(),
        },
    )
}

/// The names that a fingerprint goes by.
pub open spec fn fingerprint_names() -> Seq<Seq<char>> {
    seq!["xfp"@, "master_fingerprint"@, "fingerprint"@]
}

/// The names that the account for scripts of the kind `wsh()` goes by.
pub open spec fn section_names() -> Seq<Seq<char>> {
    seq!["p2wsh"@, "bip48_2"@, "p2wsh_multisig"@]
}

/// The names that an extended key goes by.
pub open spec fn xpub_names() -> Seq<Seq<char>> {
    seq!["xpub"@, "_pub"@, "Zpub"@, "zpub"@]
}

/// The names that a path goes by.
pub open spec fn path_names() -> Seq<Seq<char>> {
    seq!["deriv"@, "derivation"@, "path"@, "derivation_path"@]
}

/// The key in an export in JSON.
pub open spec fn exported_key(s: Seq<char>) -> Option<Scanned> {
    let section = first_section(s, section_names(), 0);
    match first_text(s, section, xpub_names(), 0) {
        None => None,
        Some(xpub) => Some(
            Scanned {
                fingerprint: match first_text(s, ""@, fingerprint_names(), 0) {
                    Some(f) => Some(lowercase(trimmed(f))),
                    None => None,
                },
                derivation_path: match first_text(s, section, path_names(), 0) {
                    Some(d) => Some(relative_path(d)),
                    None => None,
                },
                xpub: trimmed(xpub),
            },
        ),
    }
}

fn parse_export(s: &str) -> (r: Option<ScannedKey>)
    ensures
        match r {
            Some(k) => exported_key(s@) == Some(scanned_key(k)),
            None => exported_key(s@) is None,
        },
{
    let names = vec!["xfp", "master_fingerprint", "fingerprint"];
    assert(names_of(names@) =~= fingerprint_names());
    let fp = find_text(s, "", &names);
    let names = vec!["p2wsh", "bip48_2", "p2wsh_multisig"];
    assert(names_of(names@) =~= section_names());
    let section = find_section(s, &names);
    let names = vec!["xpub", "_pub", "Zpub", "zpub"];
    assert(names_of(names@) =~= xpub_names());
    let xpub = match find_text(s, section.as_str(), &names) {
        Some(x) => x,
        None => {
            return None;
        },
    };
    let names = vec!["deriv", "derivation", "path", "derivation_path"];
    assert(names_of(names@) =~= path_names());
    let deriv = find_text(s, section.as_str(), &names);
    Some(
        ScannedKey {
            fingerprint: match fp {
                Some(f) => Some(trim(f.as_str()).to_lowercase()),
                None => None,
            },
            derivation_path: match deriv {
                Some(d) => Some(strip_master(d.as_str()).to_owned()),
                None => None,
            },
            xpub: trim(xpub.as_str()).to_owned(),
        },
    )
}

/// The first word of a text.
pub open spec fn first_word(s: Seq<char>) -> Seq<char>
    decreases s.len(),
{
    if s.len() == 0 || white_space(s[0]) {
        Seq::empty()
    } else {
        seq![s[0]] + first_word(s.skip(1))
    }
}

/// Whether a character is a letter or a digit of ASCII.
pub open spec fn is_alphanumeric(c: char) -> bool {
    '0' <= c && c <= '9' || 'A' <= c && c <= 'Z' || 'a' <= c && c <= 'z'
}

/// Whether a word begins as an extended public key does.
pub open spec fn begins_as_key(w: Seq<char>) -> bool {
    ||| has_prefix(w, "xpub"@)
    ||| has_prefix(w, "tpub"@)
    ||| has_prefix(w, "ypub"@)
    ||| has_prefix(w, "zpub"@)
    ||| has_prefix(w, "Vpub"@)
    ||| has_prefix(w, "Zpub"@)
    ||| has_prefix(w, "upub"@)
    ||| has_prefix(w, "vpub"@)
}

/// Whether a word looks like an extended public key.
pub open spec fn looks_like_key(w: Seq<char>) -> bool {
    &&& w.len() > 100
    &&& forall|i: int| 0 <= i < w.len() ==> is_alphanumeric(#[trigger] w[i])
    &&& begins_as_key(w)
}

fn word_of(s: &str) -> (r: &str)
    ensures
        r@ == first_word(s@),
{
    let n: usize = s.unicode_len();
    let mut i: usize = 0;
    assert(s@.skip(0) =~= s@);
    assert(s@.take(0) + first_word(s@) =~= first_word(s@));
    while i < n && !s.get_char(i).is_whitespace()
        invariant
            i <= n,
            n == s@.len(),
            first_word(s@) == s@.take(i as int) + first_word(s@.skip(i as int)),
        decreases n - i,
    {
        assert(s@.skip(i as int).skip(1) =~= s@.skip(i + 1));
        assert(s@.take(i as int) + (seq![s@[i as int]] + first_word(s@.skip(i + 1))) =~= s@.take(
            i + 1,
        ) + first_word(s@.skip(i + 1)));
        i = i + 1;
    }
    assert(s@.take(i as int) + Seq::<char>::empty() =~= s@.subrange(0, i as int));
    s.substring_char(0, i)
}

fn all_alphanumeric(w: &str) -> (r: bool)
    ensures
        r == (forall|i: int| 0 <= i < w@.len() ==> is_alphanumeric(#[trigger] w@[i])),
{
    let n: usize = w.unicode_len();
    let mut i: usize = 0;
    while i < n
        invariant
            i <= n,
            n == w@.len(),
            forall|j: int| 0 <= j < i ==> is_alphanumeric(#[trigger] w@[j]),
        decreases n - i,
    {
        let c = w.get_char(i);
        if !('0' <= c && c <= '9' || 'A' <= c && c <= 'Z' || 'a' <= c && c <= 'z') {
            assert(!is_alphanumeric(w@[i as int]));
            return false;
        }
        i = i + 1;
    }
    true
}

/// The key that a code holds: with its origin in brackets, in an export in JSON, or alone. Nothing
/// where it is none of these.
pub open spec fn key_in_code(payload: Seq<char>) -> Option<Scanned> {
    let s = trimmed(payload);
    if bracketed_key(s) is Some {
        bracketed_key(s)
    } else if has_prefix(s, "{"@) && !(json_at(s, ""@) is NotJson) {
        exported_key(s)
    } else if looks_like_key(first_word(s)) {
        Some(Scanned { fingerprint: None, derivation_path: None, xpub: first_word(s) })
    } else {
        None
    }
}

/// Reads the key that a code holds. Where it is unclear there is none: a wrong key filled in is
/// worse than none.
pub fn parse_scanned_key(payload: &str) -> (r: Option<ScannedKey>)
    ensures
        match r {
            Some(k) => key_in_code(payload@) == Some(scanned_key(k)),
            None => key_in_code(payload@) is None,
        },
{
    let s = trim(payload);
    if let Some(k) = parse_bracketed(s) {
        return Some(k);
    }
    if starts_with(s, "{") {
        match json_lookup(s, "") {
            JsonFound::NotJson => {},
            _ => {
                return parse_export(s);
            },
        }
    }
    let bare = word_of(s);
    if bare.unicode_len() > 100 && all_alphanumeric(bare) && (starts_with(bare, "xpub")
        || starts_with(bare, "tpub") || starts_with(bare, "ypub") || starts_with(bare, "zpub")
        || starts_with(bare, "Vpub") || starts_with(bare, "Zpub") || starts_with(bare, "upub")
        || starts_with(bare, "vpub")) {
        return Some(
            ScannedKey { fingerprint: None, derivation_path: None, xpub: bare.to_owned() },
        );
    }
    None
}

/// What an image holds: the texts of its codes, and the key in the first of them.
#[derive(Clone, Debug)]
pub struct DecodedImage {
    pub payloads: Vec<String>,
    pub key: Option<ScannedKey>,
}

/// What is made of the texts that were found in an image: an image without any is refused.
pub fn interpret_payloads(payloads: Vec<String>) -> (r: Result<DecodedImage, SetupError>)
    ensures
        match r {
            Ok(d) => {
                &&& d.payloads == payloads
                &&& payloads@.len() > 0
                &&& match d.key {
                    Some(k) => key_in_code(payloads@[0]@) == Some(scanned_key(k)),
                    None => key_in_code(payloads@[0]@) is None,
                }
            },
            Err(e) => payloads@.len() == 0 && e is NoCode,
        },
{
    if payloads.len() == 0 {
        return Err(SetupError::NoCode);
    }
    let key = parse_scanned_key(payloads[0].as_str());
    Ok(DecodedImage { payloads, key })
}

/// The texts of codes are all that were read and are not empty, each once.
pub proof fn law_each_code_is_kept_once(codes: Seq<Option<Seq<char>>>, n: int, t: Seq<char>)
    requires
        0 <= n <= codes.len(),
    ensures
        distinct_texts(codes, n).no_duplicates(),
        distinct_texts(codes, n).contains(t) <==> t.len() > 0 && exists|i: int|
            0 <= i < n && #[trigger] codes[i] == Some(t),
    decreases n,
{
    if n > 0 {
        law_each_code_is_kept_once(codes, n - 1, t);
        let before = distinct_texts(codes, n - 1);
        if codes[n - 1] is Some {
            let last = codes[n - 1]->Some_0;
            lemma_contains_pushed(before, last, t);
            if last.len() > 0 && !before.contains(last) {
                let all = before.push(last);
                assert forall|i: int, j: int| 0 <= i < all.len() && 0 <= j < all.len() && i
                    != j implies all[i] != all[j] by {
                    if i == before.len() {
                        assert(before.contains(before[j]));
                    } else if j == before.len() {
                        assert(before.contains(before[i]));
                    }
                }
            }
            if t.len() > 0 && last == t {
                assert(codes[n - 1] == Some(t));
                assert(distinct_texts(codes, n).contains(t));
            }
        }
    }
}

/// A form is taken exactly where nothing is configured yet, both keys pass, the server's was made, the
/// timelock is a block or more, someone is to be told, and the three extended keys are different.
pub proof fn law_a_form_is_taken_where_all_of_it_is_there(
    configured: bool,
    network: ChainNetwork,
    req: FinishRequest,
    generated: Option<Seq<char>>,
)
    ensures
        form_error(configured, network, req, generated) is None <==> {
            let satochip = trimmed(req.satochip.xpub@);
            let mobile = trimmed(req.mobile.xpub@);
            &&& !configured
            &&& key_complaint(network, req.satochip) is None
            &&& key_complaint(network, req.mobile) is None
            &&& req.timelock_blocks >= 1
            &&& (req.ntfy_url matches Some(url) && trimmed(url@).len() > 0) || (
            req.smtp matches Some(s) && trimmed(s.host@).len() > 0 && trimmed(s.to@).len() > 0)
            &&& satochip != mobile
            &&& generated matches Some(server) && server != satochip && server != mobile
        },
{
}

/// A key that is typed passes exactly where its fingerprint is eight hex digits, its path can be read,
/// and its extended key is of the network and as deep as the path has steps.
pub proof fn law_a_typed_key_is_of_the_network_and_at_its_path(
    network: ChainNetwork,
    req: ValidateKeyRequest,
)
    ensures
        key_complaint(network, req) is None <==> {
            &&& is_hex_of_len(lowercase(trimmed(req.fingerprint@)), 8)
            &&& derivation_steps(trimmed(req.derivation_path@)) matches Some(steps) && (
            crate::keys::xpub_info(trimmed(req.xpub@)) matches Some(info) && info.depth
                == steps.len() && ((info.network == crate::config::NetworkKind::Main) == (network
                == ChainNetwork::Mainnet)))
        },
{
}

/// A key in the form `[fingerprint/path]xpub`, with or without chains behind it, is read as what it is
/// made of.
pub proof fn law_a_key_with_its_origin_is_read_back(
    fingerprint: Seq<char>,
    path: Seq<char>,
    xpub: Seq<char>,
    chains: Seq<char>,
)
    requires
        !fingerprint.contains('/'),
        !fingerprint.contains(']'),
        !path.contains(']'),
        !xpub.contains('/'),
        trimmed(xpub).len() > 0,
    ensures
        bracketed_key(
            seq!['['] + (fingerprint + seq!['/'] + path) + seq![']'] + (xpub + seq!['/'] + chains),
        ) == Some(
            Scanned {
                fingerprint: Some(lowercase(trimmed(fingerprint))),
                derivation_path: Some(path),
                xpub: trimmed(xpub),
            },
        ),
        bracketed_key(seq!['['] + fingerprint + seq![']'] + (xpub + seq!['/'] + chains)) == Some(
            Scanned {
                fingerprint: Some(lowercase(trimmed(fingerprint))),
                derivation_path: None,
                xpub: trimmed(xpub),
            },
        ),
{
    let origin = fingerprint + seq!['/'] + path;
    let behind_it = xpub + seq!['/'] + chains;
    assert(!origin.contains(']')) by {
        if origin.contains(']') {
            let i = choose|i: int| 0 <= i < origin.len() && origin[i] == ']';
            if i < fingerprint.len() {
                assert(fingerprint[i] == ']');
            } else if i > fingerprint.len() {
                assert(path[i - fingerprint.len() - 1] == ']');
            }
        }
    }
    law_a_cut_text_is_put_together_again(fingerprint, '/', path);
    law_a_cut_text_is_put_together_again(xpub, '/', chains);
    law_a_cut_text_is_put_together_again(origin, ']', behind_it);
    law_a_cut_text_is_put_together_again(fingerprint, ']', behind_it);
    let with_path = seq!['['] + origin + seq![']'] + behind_it;
    assert(with_path.skip(1) =~= origin + seq![']'] + behind_it);
    let without = seq!['['] + fingerprint + seq![']'] + behind_it;
    assert(without.skip(1) =~= fingerprint + seq![']'] + behind_it);
    law_a_text_is_cut_at_the_first_place(fingerprint, '/');
    assert(before_first(fingerprint, '/') == fingerprint);
    assert(first_at(fingerprint, '/') >= fingerprint.len()) by {
        assert(before_first(fingerprint, '/').len() == fingerprint.len());
    }
}

/// The first word of a text is all of it up to the first white space.
pub proof fn law_a_word_ends_at_white_space(s: Seq<char>)
    ensures
        ({
            let w = first_word(s);
            &&& w.len() <= s.len()
            &&& s.take(w.len() as int) == w
            &&& forall|i: int| 0 <= i < w.len() ==> !white_space(#[trigger] w[i])
            &&& w.len() < s.len() ==> white_space(s[w.len() as int])
        }),
    decreases s.len(),
{
    if s.len() > 0 && !white_space(s[0]) {
        let rest = s.skip(1);
        law_a_word_ends_at_white_space(rest);
        let w = first_word(s);
        let v = first_word(rest);
        assert forall|i: int| 0 <= i < w.len() implies !white_space(#[trigger] w[i]) by {
            if i > 0 {
                assert(w[i] == v[i - 1]);
            }
        }
        assert(s.take(w.len() as int) =~= w) by {
            assert forall|i: int| 0 <= i < w.len() implies s[i] == w[i] by {
                if i > 0 {
                    assert(rest.take(v.len() as int)[i - 1] == rest[i - 1]);
                    assert(w[i] == v[i - 1]);
                }
            }
        }
        if w.len() < s.len() {
            assert(rest[v.len() as int] == s[w.len() as int]);
        }
    } else {
        assert(s.take(0) =~= Seq::<char>::empty());
    }
}

/// Taking leading characters off leaves a text that starts with neither of them, and takes off no other.
pub proof fn law_only_leading_characters_are_taken_off(s: Seq<char>, a: char, b: char)
    ensures
        ({
            let t = without_leading(s, a, b);
            &&& t.len() <= s.len()
            &&& t == s.skip(s.len() - t.len())
            &&& t.len() > 0 ==> t[0] != a && t[0] != b
            &&& forall|i: int|
                0 <= i < s.len() - t.len() ==> (#[trigger] s[i] == a || s[i] == b)
        }),
    decreases s.len(),
{
    if s.len() > 0 && (s[0] == a || s[0] == b) {
        let rest = s.skip(1);
        law_only_leading_characters_are_taken_off(rest, a, b);
        let t = without_leading(rest, a, b);
        assert(rest.skip(rest.len() - t.len()) =~= s.skip(s.len() - t.len()));
        assert forall|i: int| 0 <= i < s.len() - t.len() implies (#[trigger] s[i] == a || s[i]
            == b) by {
            if i > 0 {
                assert(rest[i - 1] == s[i]);
            }
        }
    } else {
        assert(s.skip(0) =~= s);
    }
}

/// A file is in its directory: its path is the directory, a slash unless the directory ends with one or
/// is empty, and the name.
pub proof fn law_a_file_is_in_its_directory(dir: Seq<char>, name: Seq<char>)
    ensures
        ({
            let path = file_in(dir, name);
            &&& path.take(dir.len() as int) == dir
            &&& path.skip(path.len() - name.len()) == name
            &&& dir.len() > 0 ==> path[path.len() - name.len() - 1] == '/'
            &&& path.len() <= dir.len() + 1 + name.len()
            &&& dir.len() == 0 || dir.last() == '/' ==> path.len() == dir.len() + name.len()
        }),
{
    reveal_strlit("/");
    let path = file_in(dir, name);
    assert(path.take(dir.len() as int) =~= dir);
    assert(path.skip(path.len() - name.len()) =~= name);
}

/// What is found in an export is under the first of the names that holds a text.
pub proof fn law_the_first_name_that_holds_a_text_is_taken(
    s: Seq<char>,
    section: Seq<char>,
    names: Seq<Seq<char>>,
    n: int,
    k: int,
    t: Seq<char>,
)
    requires
        0 <= n <= k < names.len(),
        json_at(s, member(section, names[k])) == JsonAt::Text(t),
        forall|j: int| n <= j < k ==> !(json_at(s, member(section, #[trigger] names[j])) is Text),
    ensures
        first_text(s, section, names, n) == Some(t),
    decreases k - n,
{
    if n < k {
        assert(!(json_at(s, member(section, names[n])) is Text));
        law_the_first_name_that_holds_a_text_is_taken(s, section, names, n + 1, k, t);
    }
}

/// What the form says is what the configuration is written with, each field by its own, and what the form
/// does not ask for is as the deployment has it.
pub proof fn law_a_form_fills_its_own_fields(
    deployment: Deployment,
    req: FinishRequest,
    generated: GeneratedServerKey,
    a: WizardAnswers,
)
    requires
        are_of_form(deployment, req, generated, a),
    ensures
        a.network == deployment.network,
        a.timelock_blocks == req.timelock_blocks,
        a.server.xpub@ == generated.public_part().2,
        a.policy.max_tx_sat == req.policy.max_tx_sat,
        a.policy.max_daily_sat == req.policy.max_daily_sat,
        a.policy.max_weekly_sat == req.policy.max_weekly_sat,
        a.policy.max_monthly_sat == req.policy.max_monthly_sat,
        a.policy.max_fee_sat == req.policy.max_fee_sat,
        a.policy.max_fee_rate_sat_per_vb == req.policy.max_fee_rate_sat_per_vb,
        a.notify.hold_seconds == req.hold_seconds,
        a.recovery_hold_seconds == req.recovery_hold_seconds,
        a.notify.ntfy_url is Some <==> (req.ntfy_url matches Some(u) && trimmed(u@).len() > 0),
        (a.notify.smtp is Some) == (req.smtp is Some),
        a.bitcoind_rpc_url@ == deployment.bitcoind_rpc_url@,
        a.bind_addr@ == deployment.bind_addr@,
{
}

/// A code that is nothing but a word of more than a hundred letters and digits that begins as an extended
/// key is that key, with nothing known of where it comes from.
pub proof fn law_a_key_alone_is_read_as_it_is(payload: Seq<char>)
    requires
        trimmed(payload) == payload,
        payload.len() > 100,
        forall|i: int| 0 <= i < payload.len() ==> is_alphanumeric(#[trigger] payload[i]),
        has_prefix(payload, "xpub"@) || has_prefix(payload, "tpub"@),
    ensures
        key_in_code(payload) == Some(
            Scanned { fingerprint: None, derivation_path: None, xpub: payload },
        ),
{
    reveal_strlit("{");
    assert(is_alphanumeric(payload[0]));
    assert(!has_prefix(payload, "{"@)) by {
        if has_prefix(payload, "{"@) {
            assert(payload.take(1)[0] == payload[0]);
            assert("{"@[0] == '{');
        }
    }
    law_a_word_ends_at_white_space(payload);
    let w = first_word(payload);
    if w.len() < payload.len() {
        assert(is_alphanumeric(payload[w.len() as int]));
    }
    assert(w =~= payload) by {
        assert(payload.take(payload.len() as int) =~= payload);
    }
}

/// A code in brackets is read as a key with its origin, before anything else is tried.
pub proof fn law_a_key_with_its_origin_comes_first(payload: Seq<char>)
    requires
        bracketed_key(trimmed(payload)) is Some,
    ensures
        key_in_code(payload) == bracketed_key(trimmed(payload)),
{
}

/// A path is handed out from the root, with a mark for every hardened step.
pub proof fn law_an_exported_path_starts_at_the_root(path: Seq<char>, i: int)
    requires
        0 <= i < path.len(),
    ensures
        export_path(path).len() == path.len() + 2,
        export_path(path)[0] == 'm',
        export_path(path)[1] == '/',
        path[i] == 'h' ==> export_path(path)[i + 2] == '\'',
        path[i] != 'h' ==> export_path(path)[i + 2] == path[i],
{
    reveal_strlit("m/");
}

/// A key that is made from a seed is the account's at the path below the seed's master key: its
/// fingerprint is the master's, and its public part is that of the private one that is kept.
pub proof fn law_a_made_key_is_the_seeds_account(
    network: ChainNetwork,
    path: Seq<char>,
    seed: Seq<u8>,
    key: GeneratedServerKey,
)
    requires
        seed_gives_key(network, path, seed),
        is_key_of_seed(network, path, seed, key),
    ensures
        derivation_steps(path) matches Some(steps) && (master_of_seed(
            if network == ChainNetwork::Mainnet {
                crate::config::NetworkKind::Main
            } else {
                crate::config::NetworkKind::Test
            },
            seed,
        ) matches Some(master) && (descendant_of_xprv(master, steps) matches Some(account) && {
            &&& key.private_part() == account
            &&& public_of_xprv(account) == Some(key.public_part().2)
            &&& key.public_part().1 == path
            &&& fingerprint_of_xprv(master) matches Some(f) && key.public_part().0 == lowercase(f)
        })),
{
}

/// The account's path says the coin: 0 on the main network and 1 on every other.
pub proof fn law_the_default_path_is_of_the_networks_coin(network: ChainNetwork)
    ensures
        network == ChainNetwork::Mainnet ==> default_path(network)[4] == '0',
        network != ChainNetwork::Mainnet ==> default_path(network)[4] == '1',
        default_path(ChainNetwork::Mainnet).len() == default_path(network).len(),
        forall|i: int|
            0 <= i < default_path(network).len() && i != 4 ==> #[trigger] default_path(network)[i]
                == default_path(ChainNetwork::Mainnet)[i],
{
    reveal_strlit("48h/0h/0h/2h");
    reveal_strlit("48h/1h/0h/2h");
}

/// A key in an export is under the section that was found, its fingerprint at the top, and nothing is made
/// up that is not there.
pub proof fn law_an_exported_key_is_what_the_export_says(s: Seq<char>)
    ensures
        ({
            let section = first_section(s, section_names(), 0);
            let xpub = first_text(s, section, xpub_names(), 0);
            let fingerprint = first_text(s, ""@, fingerprint_names(), 0);
            let path = first_text(s, section, path_names(), 0);
            &&& exported_key(s) is Some <==> xpub is Some
            &&& exported_key(s) matches Some(k) ==> {
                &&& k.xpub == trimmed(xpub->Some_0)
                &&& (k.fingerprint is Some) == (fingerprint is Some)
                &&& (k.derivation_path is Some) == (path is Some)
                &&& k.fingerprint matches Some(f) ==> f == lowercase(trimmed(fingerprint->Some_0))
                &&& k.derivation_path matches Some(p) ==> p == relative_path(path->Some_0)
            }
        }),
{
}

/// The section that is looked into is the first of the names that is there, and the top where none is.
pub proof fn law_the_first_section_that_is_there_is_taken(
    s: Seq<char>,
    names: Seq<Seq<char>>,
    n: int,
    k: int,
)
    requires
        0 <= n <= k < names.len(),
        json_at(s, member(""@, names[k])) is Text || json_at(s, member(""@, names[k])) is Other,
        forall|j: int|
            n <= j < k ==> (json_at(s, member(""@, #[trigger] names[j])) is Nothing || json_at(
                s,
                member(""@, names[j]),
            ) is NotJson),
    ensures
        first_section(s, names, n) == ""@ + "/"@ + names[k],
    decreases k - n,
{
    if n < k {
        assert(json_at(s, member(""@, names[n])) is Nothing || json_at(
            s,
            member(""@, names[n]),
        ) is NotJson);
        law_the_first_section_that_is_there_is_taken(s, names, n + 1, k);
    }
}

/// A key without an origin is read only from a word that is as long and begins as an extended key.
pub proof fn law_no_key_is_made_up(payload: Seq<char>)
    requires
        bracketed_key(trimmed(payload)) is None,
        !has_prefix(trimmed(payload), "{"@),
    ensures
        key_in_code(payload) is Some <==> {
            let w = first_word(trimmed(payload));
            &&& w.len() > 100
            &&& forall|i: int| 0 <= i < w.len() ==> is_alphanumeric(#[trigger] w[i])
            &&& begins_as_key(w)
        },
        key_in_code(payload) matches Some(k) ==> k.xpub == first_word(trimmed(payload))
            && k.fingerprint is None && k.derivation_path is None,
{
}

/// A seed that gives no key fails at the path where it cannot be read, at the master key where the seed has
/// none, and at the account otherwise.
pub proof fn law_a_failed_key_names_the_step(network: ChainNetwork, path: Seq<char>, seed: Seq<u8>)
    ensures
        failing_step(network, path, seed) == KeyStep::Path <==> derivation_steps(path) is None,
        failing_step(network, path, seed) == KeyStep::Master <==> derivation_steps(path) is Some
            && master_of_seed(
            if network == ChainNetwork::Mainnet {
                crate::config::NetworkKind::Main
            } else {
                crate::config::NetworkKind::Test
            },
            seed,
        ) is None,
        failing_step(network, path, seed) == KeyStep::Account <==> derivation_steps(path) is Some
            && master_of_seed(
            if network == ChainNetwork::Mainnet {
                crate::config::NetworkKind::Main
            } else {
                crate::config::NetworkKind::Test
            },
            seed,
        ) is Some,
{
}

} // verus!
