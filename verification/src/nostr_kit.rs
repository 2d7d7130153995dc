//! Keeping a backup on Nostr relays, under an identity that comes from the backup's own
//! passphrase, so that there is one secret to remember.

use nostr_sdk::prelude::{Keys, PublicKey, SecretKey, ToBech32};
use vstd::prelude::*;
use vstd::string::*;

verus! {

/// What keeps this use of a passphrase apart from any other. It never changes: another would give
/// another identity, and backups would be lost.
pub const NOSTR_IDENTITY_DOMAIN: &'static str = "bitme-cosigner/recovery-kit/nostr-identity/v1";

/// The tag that marks a backup among whatever else an identity publishes.
pub const RECOVERY_KIT_D_TAG: &'static str = "bitme-cosigner-recovery-kit";

/// How long relays are given to answer, in seconds.
pub const FETCH_TIMEOUT_SECONDS: u64 = 15;

/// Why nothing is published or fetched.
#[derive(Clone, Copy, Debug, PartialEq, Eq, Structural)]
pub enum NostrKitError {
    /// No relay is named.
    NoRelays,
    /// No key could be derived.
    Derivation,
}

/// The text of an error on publishing or fetching.
pub open spec fn kit_identity_error_text(e: NostrKitError) -> Seq<char> {
    match e {
        NostrKitError::NoRelays => {
            "at least one relay URL is required"@
        },
        NostrKitError::Derivation => {
            "derived bytes are not a valid secp256k1 secret key (astronomically unlikely - scrypt output is effectively uniform)"@
        },
    }
}

impl NostrKitError {
    /// What a person is told.
    pub fn message(self) -> (r: &'static str)
        ensures
            r@ == kit_identity_error_text(self),
    {
        match self {
            NostrKitError::NoRelays => {
                "at least one relay URL is required"
            },
            NostrKitError::Derivation => {
                "derived bytes are not a valid secp256k1 secret key (astronomically unlikely - scrypt output is effectively uniform)"
            },
        }
    }
}

/// The rounds that stretching a passphrase takes, as a power of two.
pub const SCRYPT_LOG_N: u8 = 15;

/// The size of the blocks that a passphrase is stretched in.
pub const SCRYPT_R: u32 = 8;

/// How many lanes a passphrase is stretched in.
pub const SCRYPT_P: u32 = 1;

/// The size of a secret key in bytes.
pub const SECRET_BYTES: usize = 32;

/// The `len` bytes that scrypt makes of a passphrase and a salt in `2^log_n` rounds, in blocks of
/// `r` and `p` lanes; nothing where it takes no such parameters.
pub uninterp spec fn scrypt_key(
    passphrase: Seq<char>,
    salt: Seq<char>,
    log_n: u8,
    r: u32,
    p: u32,
    len: usize,
) -> Option<Seq<u8>>;

/// `scrypt::Params::new` and `scrypt::scrypt`. The bytes are named [`scrypt_key`]. The bounds keep
/// what it allocates within a gigabyte.
#[verifier::external_body]
fn stretch(passphrase: &str, salt: &str, log_n: u8, r: u32, p: u32, len: usize) -> (k: Option<
    Vec<u8>,
>)
    requires
        log_n <= 20,
        r <= 8,
        p <= 8,
        len <= 64,
    ensures
        match k {
            Some(k) => scrypt_key(passphrase@, salt@, log_n, r, p, len) == Some(k@),
            None => scrypt_key(passphrase@, salt@, log_n, r, p, len) is None,
        },
{
    let params = scrypt::Params::new(log_n, r, p, len).ok()?;
    let mut output = vec![0u8; len];
    scrypt::scrypt(passphrase.as_bytes(), salt.as_bytes(), &params, output.as_mut_slice()).ok()?;
    Some(output)
}

/// The secret key that a passphrase is stretched to; nothing where that fails.
pub open spec fn stretched(passphrase: Seq<char>) -> Option<Seq<u8>> {
    scrypt_key(
        passphrase,
        NOSTR_IDENTITY_DOMAIN@,
        SCRYPT_LOG_N,
        SCRYPT_R,
        SCRYPT_P,
        SECRET_BYTES,
    )
}

/// The public key of a Nostr secret key; nothing where the bytes are none.
pub uninterp spec fn nostr_public(secret: Seq<u8>) -> Option<Seq<u8>>;

/// `nostr_sdk::SecretKey::from_slice`, `nostr_sdk::Keys::new` and `public_key`, as bytes. The key is
/// named [`nostr_public`].
#[verifier::external_body]
fn public_of(secret: &Vec<u8>) -> (r: Option<Vec<u8>>)
    ensures
        match r {
            Some(k) => nostr_public(secret@) == Some(k@),
            None => nostr_public(secret@) is None,
        },
{
    let secret = SecretKey::from_slice(secret.as_slice()).ok()?;
    Some(Keys::new(secret).public_key().to_bytes().to_vec())
}

/// The `npub` of a Nostr public key; nothing where the bytes are none.
pub uninterp spec fn npub_of(public: Seq<u8>) -> Option<Seq<char>>;

/// `<nostr_sdk::PublicKey as ToBech32>::to_bech32`. The text is named [`npub_of`].
#[verifier::external_body]
fn npub_text(public: &Vec<u8>) -> (r: Option<String>)
    ensures
        match r {
            Some(t) => npub_of(public@) == Some(t@),
            None => npub_of(public@) is None,
        },
{
    PublicKey::from_slice(public.as_slice()).ok()?.to_bech32().ok()
}

/// The identity that a backup is published under.
#[derive(Debug)]
pub struct NostrIdentity {
    pub secret: Vec<u8>,
    pub public: Vec<u8>,
    /// The public key as it is shown.
    pub npub: String,
}

/// Whether a passphrase gives an identity.
pub open spec fn gives_identity(passphrase: Seq<char>) -> bool {
    let secret = stretched(passphrase);
    &&& secret is Some
    &&& nostr_public(secret->Some_0) is Some
    &&& npub_of(nostr_public(secret->Some_0)->Some_0) is Some
}

/// Derives the identity of a passphrase, which is always the same one.
pub fn derive_nostr_keys(passphrase: &str) -> (r: Result<NostrIdentity, NostrKitError>)
    ensures
        match r {
            Ok(id) => {
                &&& gives_identity(passphrase@)
                &&& stretched(passphrase@) == Some(id.secret@)
                &&& nostr_public(id.secret@) == Some(id.public@)
                &&& npub_of(id.public@) == Some(id.npub@)
            },
            Err(e) => !gives_identity(passphrase@) && e == NostrKitError::Derivation,
        },
{
    let secret = match stretch(
        passphrase,
        NOSTR_IDENTITY_DOMAIN,
        SCRYPT_LOG_N,
        SCRYPT_R,
        SCRYPT_P,
        SECRET_BYTES,
    ) {
        Some(k) => k,
        None => {
            return Err(NostrKitError::Derivation);
        },
    };
    let public = match public_of(&secret) {
        Some(k) => k,
        None => {
            return Err(NostrKitError::Derivation);
        },
    };
    let npub = match npub_text(&public) {
        Some(t) => t,
        None => {
            return Err(NostrKitError::Derivation);
        },
    };
    Ok(NostrIdentity { secret, public, npub })
}

/// Derives the identity to publish or fetch under, where there is a relay to do so at.
pub fn identity_for(passphrase: &str, relay_urls: &Vec<String>) -> (r: Result<
    NostrIdentity,
    NostrKitError,
>)
    ensures
        match r {
            Ok(id) => {
                &&& relay_urls@.len() > 0
                &&& gives_identity(passphrase@)
                &&& stretched(passphrase@) == Some(id.secret@)
                &&& nostr_public(id.secret@) == Some(id.public@)
                &&& npub_of(id.public@) == Some(id.npub@)
            },
            Err(e) => if relay_urls@.len() == 0 {
                e == NostrKitError::NoRelays
            } else {
                !gives_identity(passphrase@) && e == NostrKitError::Derivation
            },
        },
{
    if relay_urls.len() == 0 {
        return Err(NostrKitError::NoRelays);
    }
    derive_nostr_keys(passphrase)
}

/// A backup as a relay has it.
#[derive(Clone, Debug)]
pub struct FoundKit {
    pub created_at: u64,
    pub content: String,
}

/// Whether the `i`th is the newest of the backups, and the last of those that are equally new.
pub open spec fn is_newest(found: Seq<FoundKit>, i: int) -> bool {
    &&& 0 <= i < found.len()
    &&& forall|j: int| 0 <= j < i ==> #[trigger] found[j].created_at <= found[i].created_at
    &&& forall|j: int| i < j < found.len() ==> #[trigger] found[j].created_at < found[i].created_at
}

/// Picks the newest of the backups that relays have: a relay may be behind the others.
pub fn newest(found: &Vec<FoundKit>) -> (r: Option<usize>)
    ensures
        match r {
            Some(i) => is_newest(found@, i as int),
            None => found@.len() == 0,
        },
{
    if found.len() == 0 {
        return None;
    }
    let mut best: usize = 0;
    let mut i: usize = 1;
    while i < found.len()
        invariant
            1 <= i <= found.len(),
            best < i,
            forall|j: int| 0 <= j < best ==> #[trigger] found@[j].created_at <= found@[best as int].created_at,
            forall|j: int| best < j < i ==> #[trigger] found@[j].created_at < found@[best as int].created_at,
        decreases found.len() - i,
    {
        if found[i].created_at >= found[best].created_at {
            best = i;
        }
        i = i + 1;
    }
    Some(best)
}

/// No two of the backups are both the newest.
pub proof fn law_one_backup_is_the_newest(found: Seq<FoundKit>, i: int, j: int)
    requires
        is_newest(found, i),
        is_newest(found, j),
    ensures
        i == j,
{
    if i < j {
        assert(found[i].created_at <= found[j].created_at);
        assert(found[j].created_at < found[i].created_at);
    } else if j < i {
        assert(found[j].created_at <= found[i].created_at);
        assert(found[i].created_at < found[j].created_at);
    }
}

/// No backup was made after the newest, and of those made at the same time the newest is the last.
pub proof fn law_no_backup_is_newer_than_the_newest(found: Seq<FoundKit>, i: int, j: int)
    requires
        is_newest(found, i),
        0 <= j < found.len(),
    ensures
        found[j].created_at <= found[i].created_at,
        found[j].created_at == found[i].created_at ==> j <= i,
{
}

/// The identity of a passphrase is what scrypt makes of it under this library's own salt, in 32768 rounds,
/// blocks of 8 and one lane, in 32 bytes.
pub proof fn law_a_passphrase_is_stretched_under_the_librarys_own_salt(passphrase: Seq<char>)
    ensures
        stretched(passphrase) == scrypt_key(
            passphrase,
            "bitme-cosigner/recovery-kit/nostr-identity/v1"@,
            15,
            8,
            1,
            32,
        ),
        gives_identity(passphrase) <==> (stretched(passphrase) matches Some(secret) && (
        nostr_public(secret) matches Some(public) && npub_of(public) is Some)),
{
}

} // verus!
