//! The same answers by another way in: requests that come as private messages over Nostr.
//!
//! A message says by itself who sent it. Only those on a list are answered, each message once, and
//! nothing is written down for anyone else.

use core::str::FromStr;

use nostr_sdk::prelude::{FromBech32, SecretKey};
use vstd::prelude::*;
use vstd::string::*;

use crate::byteset::ByteSet;
use crate::http::{may_pass, presented_token, Route};
use crate::ledger::{was_seen, Ledger, SeenEvent, Tables};
use crate::recovery_contacts::{compiled_keys, contact_keys, first_invalid, ContactsError};
use crate::signing::KeySource;
use crate::text::{quote, quoted, same_text, trim, trimmed, uppercase};

verus! {

/// The section of the configuration on Nostr.
#[derive(Clone, Debug)]
pub struct NostrTransportConfig {
    pub nsec_file: Option<String>,
    pub nsec_env_var: Option<String>,
    pub relays: Vec<String>,
    pub allowed_npubs: Vec<String>,
}

/// Why the service cannot be reached over Nostr.
#[derive(Clone, Copy, Debug, PartialEq, Eq, Structural)]
pub enum NostrError {
    /// No place to find the secret key is configured.
    NoSource,
    /// The text is no secret key.
    InvalidNsec,
    /// An entry of the list is no `npub`.
    Allowlist(ContactsError),
}

/// The text of an error on the section, of which `npubs` are those who are answered.
pub open spec fn nostr_error_text(e: NostrError, npubs: Seq<Seq<char>>) -> Seq<char> {
    match e {
        NostrError::NoSource => "nostr_transport: one of nsec_file or nsec_env_var is required"@,
        NostrError::InvalidNsec => {
            "nostr_transport nsec is not a valid Nostr secret key (bech32 nsec or hex)"@
        },
        NostrError::Allowlist(ContactsError::InvalidNpub { entry }) if entry < npubs.len() => {
            "nostr_transport.allowed_npubs entry "@ + quoted(npubs[entry as int])
                + " is not a valid npub"@
        },
        NostrError::Allowlist(_) => "nostr_transport.allowed_npubs"@,
    }
}

impl NostrError {
    /// What a person is told, where `npubs` are those who are answered.
    pub fn message(self, npubs: &Vec<String>) -> (r: String)
        ensures
            r@ == nostr_error_text(self, npubs.deep_view()),
    {
        match self {
            NostrError::NoSource => {
                "nostr_transport: one of nsec_file or nsec_env_var is required".to_owned()
            },
            NostrError::InvalidNsec => {
                "nostr_transport nsec is not a valid Nostr secret key (bech32 nsec or hex)".to_owned()
            },
            NostrError::Allowlist(ContactsError::InvalidNpub { entry }) if entry < npubs.len() => {
                let mut out = "nostr_transport.allowed_npubs entry ".to_owned();
                out.append(quote(npubs[entry].as_str()).as_str());
                out.append(" is not a valid npub");
                assert(npubs.deep_view()[entry as int] == npubs@[entry as int]@);
                out
            },
            NostrError::Allowlist(_) => "nostr_transport.allowed_npubs".to_owned(),
        }
    }
}

/// The secret key of an `nsec`; nothing where the text is none.
pub uninterp spec fn nsec_secret(s: Seq<char>) -> Option<Seq<u8>>;

/// `<nostr_sdk::SecretKey as FromBech32>::from_bech32`, as bytes. The key is named
/// [`nsec_secret`].
#[verifier::external_body]
fn parse_nsec(s: &str) -> (r: Option<Vec<u8>>)
    ensures
        match r {
            Some(k) => nsec_secret(s@) == Some(k@),
            None => nsec_secret(s@) is None,
        },
{
    Some(SecretKey::from_bech32(s).ok()?.as_secret_bytes().to_vec())
}

/// The secret key that a text spells in any form; nothing where it spells none.
pub uninterp spec fn spelled_secret(s: Seq<char>) -> Option<Seq<u8>>;

/// `<nostr_sdk::SecretKey as FromStr>::from_str`, as bytes. The key is named [`spelled_secret`].
#[verifier::external_body]
fn parse_secret(s: &str) -> (r: Option<Vec<u8>>)
    ensures
        match r {
            Some(k) => spelled_secret(s@) == Some(k@),
            None => spelled_secret(s@) is None,
        },
{
    Some(SecretKey::from_str(s).ok()?.as_secret_bytes().to_vec())
}

/// The secret key in what a file or a variable holds.
pub open spec fn service_secret(raw: Seq<char>) -> Option<Seq<u8>> {
    if nsec_secret(trimmed(raw)) is Some {
        nsec_secret(trimmed(raw))
    } else {
        spelled_secret(trimmed(raw))
    }
}

/// Reads the secret key of the service: an `nsec`, or hexadecimal.
pub fn read_nsec(raw: &str) -> (r: Result<Vec<u8>, NostrError>)
    ensures
        match r {
            Ok(k) => service_secret(raw@) == Some(k@),
            Err(e) => service_secret(raw@) is None && e == NostrError::InvalidNsec,
        },
{
    let s = trim(raw);
    if let Some(k) = parse_nsec(s) {
        return Ok(k);
    }
    match parse_secret(s) {
        Some(k) => Ok(k),
        None => Err(NostrError::InvalidNsec),
    }
}

impl NostrTransportConfig {
    /// Where the secret key is to be read from. A file is preferred.
    pub fn source(&self) -> (r: Result<KeySource<'_>, NostrError>)
        ensures
            match r {
                Ok(KeySource::File(path)) => self.nsec_file matches Some(f) && f@ == path@,
                Ok(KeySource::EnvVar(var)) => self.nsec_file is None && (
                self.nsec_env_var matches Some(v) && v@ == var@),
                Err(e) => e == NostrError::NoSource && self.nsec_file is None
                    && self.nsec_env_var is None,
            },
    {
        if let Some(path) = &self.nsec_file {
            Ok(KeySource::File(path.as_str()))
        } else if let Some(var) = &self.nsec_env_var {
            Ok(KeySource::EnvVar(var.as_str()))
        } else {
            Err(NostrError::NoSource)
        }
    }

    /// The keys of those who are answered. Fails exactly where an entry is no `npub`.
    pub fn compiled_allowlist(&self) -> (r: Result<ByteSet, NostrError>)
        ensures
            match r {
                Ok(keys) => first_invalid(
                    self.allowed_npubs.deep_view(),
                    self.allowed_npubs@.len() as int,
                ) is None && keys@ == contact_keys(
                    self.allowed_npubs.deep_view(),
                    self.allowed_npubs@.len() as int,
                ),
                Err(e) => first_invalid(
                    self.allowed_npubs.deep_view(),
                    self.allowed_npubs@.len() as int,
                ) matches Some(x) && e == NostrError::Allowlist(x),
            },
    {
        match compiled_keys(&self.allowed_npubs) {
            Ok(keys) => Ok(keys),
            Err(e) => Err(NostrError::Allowlist(e)),
        }
    }
}

/// What is done with a message that has come in, before it is opened.
#[derive(Clone, Copy, Debug, PartialEq, Eq, Structural)]
pub enum Arrival {
    /// It was handled before: a relay may deliver it any number of times.
    Skip,
    /// It is opened, which tells who sent it.
    Open,
}

/// What is done with a message that has come in.
pub open spec fn arrival(seen: Seq<SeenEvent>, event_id: Seq<char>) -> Arrival {
    if was_seen(seen, event_id) {
        Arrival::Skip
    } else {
        Arrival::Open
    }
}

/// Decides what is done with a message that has come in.
pub fn on_arrival(ledger: &Ledger, event_id: &str) -> (r: Arrival)
    ensures
        r == arrival(ledger@.seen, event_id@),
{
    if ledger.has_seen_nostr_event(event_id) {
        Arrival::Skip
    } else {
        Arrival::Open
    }
}

/// What is done with a message that has been opened.
#[derive(Clone, Copy, Debug, PartialEq, Eq, Structural)]
pub enum Opened {
    /// Its sender is not on the list: nothing.
    Ignore,
    /// It is answered.
    Answer,
}

/// Decides what is done with a message from `sender`. One that will be answered is recorded first,
/// so that it is not answered again whatever happens; of any other there is no trace.
pub fn on_opened(
    ledger: &mut Ledger,
    allowed: &ByteSet,
    sender: &Vec<u8>,
    event_id: &str,
    now: i64,
) -> (r: Opened)
    requires
        old(ledger).wf(),
    ensures
        final(ledger).wf(),
        opens(old(ledger)@, allowed@, sender@, event_id@, now, r, final(ledger)@),
        r == Opened::Answer ==> arrival(final(ledger)@.seen, event_id@) == Arrival::Skip,
{
    if !allowed.contains(sender) {
        return Opened::Ignore;
    }
    ledger.mark_nostr_event_seen(event_id, now);
    proof {
        let rows = ledger@.seen;
        if !was_seen(old(ledger)@.seen, event_id@) {
            assert(rows[rows.len() - 1].event_id@ == event_id@);
        }
    }
    Opened::Answer
}

/// A message that was recorded is skipped ever after, as long as its record is kept: whatever else
/// is recorded in between.
pub proof fn law_a_message_is_answered_once(
    before: Seq<SeenEvent>,
    after: Seq<SeenEvent>,
    event_id: Seq<char>,
)
    requires
        was_seen(before, event_id),
        before.len() <= after.len(),
        after.take(before.len() as int) == before,
    ensures
        arrival(after, event_id) == Arrival::Skip,
{
    let i = choose|i: int| 0 <= i < before.len() && (#[trigger] before[i]).event_id@ == event_id;
    assert(after.take(before.len() as int)[i] == after[i]);
}

/// A request in a message.
#[derive(Clone, Debug)]
pub struct InboundEnvelope {
    pub method: String,
    pub path: String,
    /// The body in JSON, where there is one.
    pub body: Option<String>,
}

/// The methods of requests that can be made by message.
#[derive(Clone, Copy, Debug, PartialEq, Eq, Structural)]
pub enum Method {
    Get,
    Post,
}

/// A request as it is handed on.
#[derive(Clone, Debug)]
pub struct Prepared {
    pub method: Method,
    pub path: String,
    /// The body, empty where there is none.
    pub body: String,
    /// Whether there is a body, in JSON.
    pub has_json: bool,
    /// The value of the `Authorization` header, where a token is configured.
    pub authorization: Option<String>,
}

/// A refusal of a message.
#[derive(Clone, Debug)]
pub struct Refused {
    pub status: u16,
    pub error: &'static str,
    pub message: String,
}

/// The value of the `Authorization` header that presents a token.
pub open spec fn bearer(token: Seq<char>) -> Seq<char> {
    "Bearer "@ + token
}

/// Makes a request of a message. The token is presented for the sender, who is known better than
/// by a token.
pub fn prepare(env: &InboundEnvelope, api_token: &Option<String>) -> (r: Result<Prepared, Refused>)
    ensures
        ({
            let method = uppercase(env.method@);
            match r {
                Ok(p) => {
                    &&& match p.method {
                        Method::Get => method == "GET"@,
                        Method::Post => method == "POST"@,
                    }
                    &&& p.path@ == env.path@
                    &&& p.has_json == (env.body is Some)
                    &&& match env.body {
                        Some(b) => p.body@ == b@,
                        None => p.body@.len() == 0,
                    }
                    &&& match (*api_token, p.authorization) {
                        (None, None) => true,
                        (Some(t), Some(a)) => a@ == bearer(t@),
                        _ => false,
                    }
                },
                Err(e) => {
                    &&& method != "GET"@ && method != "POST"@
                    &&& e.status == 400
                    &&& e.error@ == "unsupported_method"@
                    &&& e.message@ == method + " is not supported over the Nostr transport"@
                },
            }
        }),
{
    let upper = env.method.as_str().to_uppercase();
    let method = if same_text(upper.as_str(), "GET") {
        Method::Get
    } else if same_text(upper.as_str(), "POST") {
        Method::Post
    } else {
        let mut message = upper;
        message.append(" is not supported over the Nostr transport");
        return Err(Refused { status: 400, error: "unsupported_method", message });
    };
    let authorization = match api_token {
        Some(t) => {
            let mut a = "Bearer ".to_owned();
            a.append(t.as_str());
            Some(a)
        },
        None => None,
    };
    Ok(
        Prepared {
            method,
            path: env.path.as_str().to_owned(),
            body: match &env.body {
                Some(b) => b.as_str().to_owned(),
                None => String::new(),
            },
            has_json: env.body.is_some(),
            authorization,
        },
    )
}

/// The refusal of a message that is no request, for this reason.
pub fn not_a_request(cause: &str) -> (r: Refused)
    ensures
        r.status == 400,
        r.error@ == "bad_request"@,
        r.message@ == "not a valid request envelope: "@ + cause@,
{
    let mut message = "not a valid request envelope: ".to_owned();
    message.append(cause);
    Refused { status: 400, error: "bad_request", message }
}

/// What comes by message is never turned away for want of the token: the header that a request is
/// given presents the token that is asked for.
pub proof fn law_a_message_presents_the_token(route: Route, token: String, header: &str)
    requires
        header@ == bearer(token@),
    ensures
        may_pass(route, Some(token), Some(header)),
{
    let k = "Bearer "@.len() as int;
    assert(header@.take(k) =~= "Bearer "@);
    assert(header@.skip(k) =~= token@);
    assert(presented_token(Some(header)) == token@);
}

/// The service's key is read in either spelling, without the white space around it, and there is none
/// exactly where neither spelling gives one.
pub proof fn law_the_services_key_is_read_in_either_spelling(raw: Seq<char>)
    ensures
        nsec_secret(trimmed(raw)) matches Some(k) ==> service_secret(raw) == Some(k),
        nsec_secret(trimmed(raw)) is None ==> service_secret(raw) == spelled_secret(trimmed(raw)),
{
}

/// A message is opened exactly where no event with its id was seen.
pub proof fn law_only_a_new_message_is_opened(seen: Seq<SeenEvent>, event_id: Seq<char>)
    ensures
        arrival(seen, event_id) == Arrival::Open <==> forall|i: int|
            0 <= i < seen.len() ==> (#[trigger] seen[i]).event_id@ != event_id,
{
}

/// Whether `r` and `after` are what opening a message comes to: one from who is listed is remembered and
/// answered, any other leaves no trace.
pub open spec fn opens(
    before: Tables,
    allowed: Set<Seq<u8>>,
    sender: Seq<u8>,
    event_id: Seq<char>,
    now: i64,
    r: Opened,
    after: Tables,
) -> bool {
    &&& r == Opened::Answer <==> allowed.contains(sender)
    &&& r == Opened::Ignore ==> after == before
    &&& r == Opened::Answer ==> {
        &&& after == (Tables { seen: after.seen, ..before })
        &&& was_seen(after.seen, event_id)
        &&& was_seen(before.seen, event_id) ==> after == before
        &&& !was_seen(before.seen, event_id) ==> {
            &&& after.seen.len() == before.seen.len() + 1
            &&& after.seen.drop_last() == before.seen
            &&& after.seen.last().event_id@ == event_id
            &&& after.seen.last().seen_at == now
        }
    }
}

/// Only who is listed is answered, and then once: the message is not opened again. A stranger's leaves no
/// trace. Neither touches the spends.
pub proof fn law_only_who_is_listed_is_answered_and_once(
    before: Tables,
    allowed: Set<Seq<u8>>,
    sender: Seq<u8>,
    event_id: Seq<char>,
    now: i64,
    r: Opened,
    after: Tables,
)
    requires
        opens(before, allowed, sender, event_id, now, r, after),
    ensures
        !allowed.contains(sender) ==> r == Opened::Ignore && after == before,
        allowed.contains(sender) ==> r == Opened::Answer && arrival(after.seen, event_id)
            == Arrival::Skip,
        after.spends == before.spends,
        after.pending == before.pending,
        after.policy == before.policy,
        after.freeze == before.freeze,
{
}

} // verus!
