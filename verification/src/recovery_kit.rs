//! An encrypted backup of the machine: its configuration and the server's key, for the case that
//! the machine is lost while all three keys are safe.

use vstd::prelude::*;
use vstd::string::*;

use crate::config::WalletConfig;
use crate::signing::KeySource;
use crate::text::{decimal, push_decimal, trim, trimmed};

verus! {

/// The version of the form that a backup has.
pub const PAYLOAD_VERSION: u32 = 1;

/// The fewest characters that a passphrase may have: a backup is kept where others can get at it.
pub const MIN_PASSPHRASE_CHARS: usize = 12;

/// What goes into a backup.
#[derive(Clone, Debug)]
pub struct RecoveryKitPayload {
    pub version: u32,
    /// When the backup was made, in Unix seconds.
    pub created_at: i64,
    /// The configuration file, as it is.
    pub wallet_toml: String,
    /// The extended private key of the server.
    pub server_xprv: String,
}

/// What comes out of a backup.
#[derive(Clone, Debug)]
pub struct RecoveryKitContents {
    pub created_at: i64,
    pub wallet_toml: String,
    pub server_xprv: String,
}

/// Why there is no backup, or nothing in it.
#[derive(Clone, Debug, PartialEq, Eq)]
pub enum KitError {
    /// The passphrase is too short.
    WeakPassphrase,
    /// The configuration has no key of the server.
    NothingToBackUp,
    /// No place to find the server's key is configured.
    NoSource,
    /// The backup could not be encrypted.
    Encryption,
    /// The backup could not be decrypted, for this reason: the passphrase is wrong, or the backup
    /// is damaged.
    Decryption(String),
    /// The backup has a form of another version.
    Version(u32),
}

/// What a person is told of an error.
pub open spec fn kit_error_text(e: KitError) -> Seq<char> {
    match e {
        KitError::WeakPassphrase => WEAK_PASSPHRASE@,
        KitError::NothingToBackUp => {
            "config has no [server_signing] section - nothing to back up"@
        },
        KitError::NoSource => {
            "server_signing: one of xprv_file or xprv_env_var is required"@
        },
        KitError::Encryption => "age-encrypting recovery kit"@,
        KitError::Decryption(cause) => {
            "decryption failed (wrong passphrase, or a corrupt/truncated backup): "@ + cause@
        },
        KitError::Version(v) => "recovery kit is format version "@ + decimal(v as nat)
            + ", this build only understands version "@ + decimal(PAYLOAD_VERSION as nat),
    }
}

/// What is said of a passphrase that is too short.
pub const WEAK_PASSPHRASE: &'static str =
    "recovery kit passphrase must be at least 12 characters - this blob may end up stored somewhere less trusted than this machine";

impl KitError {
    /// What a person is told.
    pub fn message(&self) -> (r: String)
        ensures
            r@ == kit_error_text(*self),
    {
        match self {
            KitError::WeakPassphrase => WEAK_PASSPHRASE.to_owned(),
            KitError::NothingToBackUp => {
                "config has no [server_signing] section - nothing to back up".to_owned()
            },
            KitError::NoSource => {
                "server_signing: one of xprv_file or xprv_env_var is required".to_owned()
            },
            KitError::Encryption => "age-encrypting recovery kit".to_owned(),
            KitError::Decryption(cause) => {
                let mut out =
                    "decryption failed (wrong passphrase, or a corrupt/truncated backup): ".to_owned();
                out.append(cause.as_str());
                out
            },
            KitError::Version(v) => {
                let mut out = "recovery kit is format version ".to_owned();
                push_decimal(&mut out, *v as u64);
                out.append(", this build only understands version ");
                push_decimal(&mut out, PAYLOAD_VERSION as u64);
                out
            },
        }
    }
}

/// Checks that a passphrase is long enough.
pub fn check_passphrase_strength(passphrase: &str) -> (r: Result<(), KitError>)
    ensures
        match r {
            Ok(_) => passphrase@.len() >= MIN_PASSPHRASE_CHARS,
            Err(e) => passphrase@.len() < MIN_PASSPHRASE_CHARS && e == KitError::WeakPassphrase,
        },
{
    if passphrase.unicode_len() < MIN_PASSPHRASE_CHARS {
        Err(KitError::WeakPassphrase)
    } else {
        Ok(())
    }
}

/// Where the key that is to be backed up is read from.
pub fn key_to_back_up(cfg: &WalletConfig) -> (r: Result<KeySource<'_>, KitError>)
    ensures
        match cfg.server_signing {
            None => r matches Err(e) && e == KitError::NothingToBackUp,
            Some(s) => match r {
                Ok(KeySource::File(path)) => s.xprv_file matches Some(f) && f@ == path@,
                Ok(KeySource::EnvVar(var)) => s.xprv_file is None && (
                s.xprv_env_var matches Some(v) && v@ == var@),
                Err(e) => s.xprv_file is None && s.xprv_env_var is None && e == KitError::NoSource,
            },
        },
{
    match &cfg.server_signing {
        None => Err(KitError::NothingToBackUp),
        Some(s) => match s.source() {
            Ok(source) => Ok(source),
            Err(_) => Err(KitError::NoSource),
        },
    }
}

/// Whether `p` is the backup of a configuration file and of what the place of the key holds.
pub open spec fn is_payload_of(
    p: RecoveryKitPayload,
    created_at: i64,
    wallet_toml: Seq<char>,
    raw_xprv: Seq<char>,
) -> bool {
    &&& p.version == PAYLOAD_VERSION
    &&& p.created_at == created_at
    &&& p.wallet_toml@ == wallet_toml
    &&& p.server_xprv@ == trimmed(raw_xprv)
}

/// What goes into a backup of a configuration file, kept as it is, and of what the place of the
/// server's key holds.
pub fn payload(created_at: i64, wallet_toml: String, raw_xprv: &str) -> (r: RecoveryKitPayload)
    ensures
        is_payload_of(r, created_at, wallet_toml@, raw_xprv@),
{
    RecoveryKitPayload {
        version: PAYLOAD_VERSION,
        created_at,
        wallet_toml,
        server_xprv: trim(raw_xprv).to_owned(),
    }
}

/// What is sealed under a passphrase in an armored text; nothing where the text is none, or was
/// sealed under another passphrase.
pub uninterp spec fn sealed_under(armored: Seq<char>, passphrase: Seq<char>) -> Option<Seq<u8>>;

/// `age::encrypt_and_armor` for an `age::scrypt::Recipient`: seals the bytes under the passphrase,
/// which for one such recipient and a text in memory does not fail. The text depends on chance and
/// on how fast the machine is, so which one comes is not stated; what is sealed in it is named
/// [`sealed_under`].
#[verifier::external_body]
fn encrypt(plaintext: &Vec<u8>, passphrase: &str) -> (r: Option<String>)
    ensures
        r is Some,
        sealed_under(r->Some_0@, passphrase@) == Some(plaintext@),
{
    let secret = age::secrecy::SecretString::from(passphrase.to_string());
    age::encrypt_and_armor(&age::scrypt::Recipient::new(secret), plaintext.as_slice()).ok()
}

/// `age::decrypt` for an `age::scrypt::Identity`: opens what was sealed under the passphrase. What
/// comes out is named [`sealed_under`]. That anything does is not stated, nor what the error says
/// where nothing does: a machine refuses what it would take too long to open.
#[verifier::external_body]
fn decrypt(armored: &str, passphrase: &str) -> (r: Result<Vec<u8>, String>)
    ensures
        r matches Ok(bytes) ==> sealed_under(armored@, passphrase@) == Some(bytes@),
{
    let secret = age::secrecy::SecretString::from(passphrase.to_string());
    let identity = age::scrypt::Identity::new(secret);
    age::decrypt(&identity, armored.as_bytes()).map_err(|e| e.to_string())
}

/// Seals a backup, once it is written out, under a passphrase that is long enough.
pub fn seal(plaintext: &Vec<u8>, passphrase: &str) -> (r: Result<String, KitError>)
    ensures
        match r {
            Ok(text) => passphrase@.len() >= MIN_PASSPHRASE_CHARS && sealed_under(
                text@,
                passphrase@,
            ) == Some(plaintext@),
            Err(e) => passphrase@.len() < MIN_PASSPHRASE_CHARS && e == KitError::WeakPassphrase,
        },
{
    check_passphrase_strength(passphrase)?;
    match encrypt(plaintext, passphrase) {
        Some(text) => Ok(text),
        None => Err(KitError::Encryption),
    }
}

/// Opens a backup. What comes out is what was sealed.
pub fn unseal(armored: &str, passphrase: &str) -> (r: Result<Vec<u8>, KitError>)
    ensures
        match r {
            Ok(bytes) => sealed_under(armored@, passphrase@) == Some(bytes@),
            Err(e) => e is Decryption,
        },
{
    match decrypt(armored, passphrase) {
        Ok(bytes) => Ok(bytes),
        Err(cause) => Err(KitError::Decryption(cause)),
    }
}

/// What a backup that was read again gives back, if its form is of a version that is known.
pub open spec fn contents_of(payload: RecoveryKitPayload) -> Result<RecoveryKitContents, KitError> {
    if payload.version != PAYLOAD_VERSION {
        Err(KitError::Version(payload.version))
    } else {
        Ok(
            RecoveryKitContents {
                created_at: payload.created_at,
                wallet_toml: payload.wallet_toml,
                server_xprv: payload.server_xprv,
            },
        )
    }
}

/// Takes a backup that was read again, if its form is of a version that is known.
pub fn contents(payload: RecoveryKitPayload) -> (r: Result<RecoveryKitContents, KitError>)
    ensures
        r == contents_of(payload),
{
    if payload.version != PAYLOAD_VERSION {
        return Err(KitError::Version(payload.version));
    }
    Ok(
        RecoveryKitContents {
            created_at: payload.created_at,
            wallet_toml: payload.wallet_toml,
            server_xprv: payload.server_xprv,
        },
    )
}

/// A backup gives back what was put in it: whatever opens under the passphrase that it was sealed
/// under is what was sealed, and of a backup of a configuration file and a key the file comes out
/// as it was, the key without white space around it, and the time at which it was made.
pub proof fn law_a_backup_is_read_back(
    armored: Seq<char>,
    passphrase: Seq<char>,
    sealed: Seq<u8>,
    opened: Seq<u8>,
    payload: RecoveryKitPayload,
    created_at: i64,
    wallet_toml: Seq<char>,
    raw_xprv: Seq<char>,
)
    requires
        sealed_under(armored, passphrase) == Some(sealed),
        sealed_under(armored, passphrase) == Some(opened),
        is_payload_of(payload, created_at, wallet_toml, raw_xprv),
    ensures
        opened == sealed,
        contents_of(payload) matches Ok(c) && {
            &&& c.created_at == created_at
            &&& c.wallet_toml@ == wallet_toml
            &&& c.server_xprv@ == trimmed(raw_xprv)
        },
{
}

/// A backup is taken exactly where it is of the first version, and then holds all that went in; one of
/// another version is refused by its number.
pub proof fn law_only_the_version_that_is_understood_is_taken(payload: RecoveryKitPayload)
    ensures
        contents_of(payload) is Ok <==> payload.version == 1,
        payload.version == 1 ==> (contents_of(payload) matches Ok(c) && c.created_at
            == payload.created_at && c.wallet_toml == payload.wallet_toml && c.server_xprv
            == payload.server_xprv),
        payload.version != 1 ==> contents_of(payload) == Err::<RecoveryKitContents, KitError>(
            KitError::Version(payload.version),
        ),
{
}

/// A backup holds the configuration as it is and the key without the white space around it.
pub proof fn law_a_backup_holds_the_configuration_and_the_key(
    p: RecoveryKitPayload,
    created_at: i64,
    wallet_toml: Seq<char>,
    raw_xprv: Seq<char>,
)
    requires
        is_payload_of(p, created_at, wallet_toml, raw_xprv),
    ensures
        p.version == 1,
        p.created_at == created_at,
        p.wallet_toml@ == wallet_toml,
        p.server_xprv@ == trimmed(raw_xprv),
{
}

} // verus!
