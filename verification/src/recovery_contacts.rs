//! Recovery contacts: people whose word, by a quorum, ends the wait of a spend.
//!
//! A quorum does one thing. It brings the hold of a spend to an end that the policy allowed when
//! the spend was queued and is held against again when it is signed. It cannot make a spend, raise
//! a cap, reach an address that the policy forbids, or revive a spend that was stopped.
//!
//! A contact is a Nostr key, and vouches by signing an event whose content is
//! [`canonical_approval_message`]. Contacts hold nothing of the wallet.

use nostr_sdk::prelude::{Event, FromBech32, JsonUtil, PublicKey};
use vstd::prelude::*;
use vstd::string::*;

use crate::byteset::ByteSet;
use crate::ledger::{changed, pending_of, released, Ledger, PendingEntry, PendingStatus, Tables};
use crate::text::{
    decimal, explained, or_empty, push_decimal, quote, quoted, same_text, trim, trimmed,
};

verus! {

/// The Nostr public key of an `npub`; nothing where the text is none.
pub uninterp spec fn npub_key(s: Seq<char>) -> Option<Seq<u8>>;

/// `<nostr_sdk::PublicKey as FromBech32>::from_bech32`, as bytes. The key is named [`npub_key`].
#[verifier::external_body]
pub(crate) fn parse_npub(s: &str) -> (r: Option<Vec<u8>>)
    ensures
        match r {
            Some(k) => npub_key(s@) == Some(k@),
            None => npub_key(s@) is None,
        },
{
    Some(PublicKey::from_bech32(s).ok()?.to_bytes().to_vec())
}

/// Why a text is no `npub`, in the words of who read it; nothing where it is one.
pub uninterp spec fn npub_failure(s: Seq<char>) -> Option<Seq<char>>;

/// `<nostr_sdk::PublicKey as FromBech32>::from_bech32`, of which the error is kept, written out by
/// `Display`.
/// It is named [`npub_failure`].
#[verifier::external_body]
pub(crate) fn npub_error(s: &str) -> (r: Option<String>)
    ensures
        match r {
            Some(e) => npub_failure(s@) == Some(e@),
            None => npub_failure(s@) is None,
        },
        (r is Some) == (npub_key(s@) is None),
{
    Some(PublicKey::from_bech32(s).err()?.to_string())
}

/// The content and the author of a signed Nostr event in JSON; nothing where the text is none, or
/// its id or its signature is false.
pub uninterp spec fn signed_event(json: Seq<char>) -> Option<(Seq<char>, Seq<u8>)>;

/// A signed event.
#[derive(Debug)]
pub struct SignedEvent {
    pub content: String,
    pub author: Vec<u8>,
}

/// `<nostr_sdk::Event as JsonUtil>::from_json` and `nostr_sdk::Event::verify`. The content and the
/// author are named [`signed_event`].
#[verifier::external_body]
fn verified_event(json: &str) -> (r: Option<SignedEvent>)
    ensures
        match r {
            Some(e) => signed_event(json@) == Some((e.content@, e.author@)),
            None => signed_event(json@) is None,
        },
{
    let event = Event::from_json(json).ok()?;
    event.verify().ok()?;
    Some(SignedEvent { author: event.pubkey.to_bytes().to_vec(), content: event.content })
}

/// Why a text is no signed Nostr event, in the words of who read it; nothing where it is one.
pub uninterp spec fn event_failure(s: Seq<char>) -> Option<Seq<char>>;

/// `<nostr_sdk::Event as JsonUtil>::from_json` and `nostr_sdk::Event::verify`, of which the error is
/// kept, written out by `Display`.
/// It is named [`event_failure`].
#[verifier::external_body]
fn event_error(s: &str) -> (r: Option<String>)
    ensures
        match r {
            Some(e) => event_failure(s@) == Some(e@),
            None => event_failure(s@) is None,
        },
        (r is Some) == (signed_event(s@) is None),
{
    match Event::from_json(s) {
        Ok(event) => Some(event.verify().err()?.to_string()),
        Err(e) => Some(e.to_string()),
    }
}

/// The contacts, and how many of them it takes. Where there is no such section, nobody's word
/// counts.
#[derive(Clone, Debug)]
pub struct RecoveryContactsConfig {
    /// The contacts' keys. Each counts once, however often they sign.
    pub npubs: Vec<String>,
    /// How many contacts have to agree: at least 2, at most all of them.
    pub threshold: usize,
}

/// What is wrong with the section.
#[derive(Clone, Copy, Debug, PartialEq, Eq, Structural)]
pub enum ContactsError {
    NoContacts,
    /// One contact could act alone.
    ThresholdTooLow,
    /// No quorum could ever be reached.
    ThresholdTooHigh,
    /// An entry is no `npub`.
    InvalidNpub { entry: usize },
    /// An entry is a contact that is there already, who would have several votes.
    Duplicate { entry: usize },
}

/// The keys of the first `n` contacts.
pub open spec fn contact_keys(npubs: Seq<Seq<char>>, n: int) -> Set<Seq<u8>>
    decreases n,
{
    if n <= 0 {
        Set::empty()
    } else {
        contact_keys(npubs, n - 1).insert(npub_key(trimmed(npubs[n - 1])).unwrap())
    }
}

/// What is wrong with the first of the `n` contacts that has something wrong with it.
pub open spec fn first_contact_problem(npubs: Seq<Seq<char>>, n: int) -> Option<ContactsError>
    decreases n,
{
    if n <= 0 {
        None
    } else {
        match first_contact_problem(npubs, n - 1) {
            Some(e) => Some(e),
            None => match npub_key(trimmed(npubs[n - 1])) {
                None => Some(ContactsError::InvalidNpub { entry: (n - 1) as usize }),
                Some(k) => if contact_keys(npubs, n - 1).contains(k) {
                    Some(ContactsError::Duplicate { entry: (n - 1) as usize })
                } else {
                    None
                },
            },
        }
    }
}

proof fn lemma_contact_problem_stays(npubs: Seq<Seq<char>>, i: int, n: int)
    requires
        i <= n,
        first_contact_problem(npubs, i) is Some,
    ensures
        first_contact_problem(npubs, n) == first_contact_problem(npubs, i),
    decreases n - i,
{
    if i < n {
        lemma_contact_problem_stays(npubs, i, n - 1);
    }
}

/// The first of the `n` contacts that is no `npub`.
pub open spec fn first_invalid(npubs: Seq<Seq<char>>, n: int) -> Option<ContactsError>
    decreases n,
{
    if n <= 0 {
        None
    } else {
        match first_invalid(npubs, n - 1) {
            Some(e) => Some(e),
            None => if npub_key(trimmed(npubs[n - 1])) is None {
                Some(ContactsError::InvalidNpub { entry: (n - 1) as usize })
            } else {
                None
            },
        }
    }
}

proof fn lemma_invalid_stays(npubs: Seq<Seq<char>>, i: int, n: int)
    requires
        i <= n,
        first_invalid(npubs, i) is Some,
    ensures
        first_invalid(npubs, n) == first_invalid(npubs, i),
    decreases n - i,
{
    if i < n {
        lemma_invalid_stays(npubs, i, n - 1);
    }
}

impl RecoveryContactsConfig {
    /// What is wrong with the section.
    pub open spec fn problem(self) -> Option<ContactsError> {
        let n = self.npubs@.len();
        if n == 0 {
            Some(ContactsError::NoContacts)
        } else if self.threshold < 2 {
            Some(ContactsError::ThresholdTooLow)
        } else if self.threshold > n {
            Some(ContactsError::ThresholdTooHigh)
        } else {
            first_contact_problem(self.npubs.deep_view(), n as int)
        }
    }

    /// Checks the section: contacts, a threshold of at least 2 that can be reached, and each entry
    /// another contact.
    pub fn validate(&self) -> (r: Result<(), ContactsError>)
        ensures
            match r {
                Ok(_) => self.problem() is None,
                Err(e) => self.problem() == Some(e),
            },
    {
        let n: usize = self.npubs.len();
        if n == 0 {
            return Err(ContactsError::NoContacts);
        }
        if self.threshold < 2 {
            return Err(ContactsError::ThresholdTooLow);
        }
        if self.threshold > n {
            return Err(ContactsError::ThresholdTooHigh);
        }
        let ghost all = self.npubs.deep_view();
        let mut seen = ByteSet::new();
        let mut i: usize = 0;
        while i < n
            invariant
                i <= n,
                n == self.npubs@.len(),
                all == self.npubs.deep_view(),
                n > 0,
                2 <= self.threshold <= n,
                first_contact_problem(all, i as int) is None,
                seen@ == contact_keys(all, i as int),
            decreases n - i,
        {
            assert(all[i as int] == self.npubs@[i as int]@);
            match parse_npub(trim(self.npubs[i].as_str())) {
                None => {
                    proof {
                        lemma_contact_problem_stays(all, i + 1, n as int);
                    }
                    return Err(ContactsError::InvalidNpub { entry: i });
                },
                Some(k) => {
                    if seen.contains(&k) {
                        proof {
                            lemma_contact_problem_stays(all, i + 1, n as int);
                        }
                        return Err(ContactsError::Duplicate { entry: i });
                    }
                    seen.insert(k);
                },
            }
            i = i + 1;
        }
        Ok(())
    }

    /// The contacts' keys. Fails exactly where an entry is no `npub`, with the first such entry.
    pub fn compiled(&self) -> (r: Result<ByteSet, ContactsError>)
        ensures
            match r {
                Ok(keys) => first_invalid(
                    self.npubs.deep_view(),
                    self.npubs@.len() as int,
                ) is None && keys@ == contact_keys(
                    self.npubs.deep_view(),
                    self.npubs@.len() as int,
                ),
                Err(e) => first_invalid(self.npubs.deep_view(), self.npubs@.len() as int) == Some(
                    e,
                ),
            },
    {
        compiled_keys(&self.npubs)
    }
}

/// The keys of a list of `npub`s. Fails exactly where an entry is none, with the first such entry.
pub fn compiled_keys(npubs: &Vec<String>) -> (r: Result<ByteSet, ContactsError>)
    ensures
        match r {
            Ok(keys) => first_invalid(npubs.deep_view(), npubs@.len() as int) is None && keys@
                == contact_keys(npubs.deep_view(), npubs@.len() as int),
            Err(e) => first_invalid(npubs.deep_view(), npubs@.len() as int) == Some(e),
        },
{
    let n: usize = npubs.len();
    let ghost all = npubs.deep_view();
    let mut keys = ByteSet::new();
    let mut i: usize = 0;
    while i < n
        invariant
            i <= n,
            n == npubs@.len(),
            all == npubs.deep_view(),
            first_invalid(all, i as int) is None,
            keys@ == contact_keys(all, i as int),
        decreases n - i,
    {
        assert(all[i as int] == npubs@[i as int]@);
        match parse_npub(trim(npubs[i].as_str())) {
            None => {
                proof {
                    lemma_invalid_stays(all, i + 1, n as int);
                }
                return Err(ContactsError::InvalidNpub { entry: i });
            },
            Some(k) => {
                keys.insert(k);
            },
        }
        i = i + 1;
    }
    Ok(keys)
}


/// The text of an error on `cfg`.
pub open spec fn contacts_error_text(cfg: RecoveryContactsConfig, e: ContactsError) -> Seq<char> {
    match e {
        ContactsError::NoContacts =>
            "recovery_contacts.npubs must not be empty - remove the section instead"@,
        ContactsError::ThresholdTooLow =>
            "recovery_contacts.threshold must be at least 2 - a threshold of 1 means any single contact can act alone, which is not meaningfully different from having no contacts at all"@,
        ContactsError::ThresholdTooHigh => "recovery_contacts.threshold ("@ + decimal(
            cfg.threshold as nat,
        ) + ") exceeds the number of contacts ("@ + decimal(cfg.npubs@.len())
            + ") - no quorum could ever be reached"@,
        ContactsError::InvalidNpub { entry } => "recovery_contacts.npubs entry "@ + quoted(
            cfg.npubs@[entry as int]@,
        ) + " is not a valid npub"@,
        ContactsError::Duplicate { entry } => "recovery_contacts.npubs contains "@ + quoted(
            cfg.npubs@[entry as int]@,
        ) + " more than once - duplicates would let one person cast several votes"@,
    }
}

impl ContactsError {
    /// Whether the error speaks of an entry that `cfg` has.
    pub open spec fn is_about(self, cfg: RecoveryContactsConfig) -> bool {
        match self {
            ContactsError::InvalidNpub { entry } => entry < cfg.npubs@.len(),
            ContactsError::Duplicate { entry } => entry < cfg.npubs@.len(),
            _ => true,
        }
    }

    /// What an operator is told of this error on `cfg`.
    pub fn message(self, cfg: &RecoveryContactsConfig) -> (r: String)
        requires
            self.is_about(*cfg),
        ensures
            r@ == contacts_error_text(*cfg, self),
    {
        match self {
            ContactsError::NoContacts =>
                "recovery_contacts.npubs must not be empty - remove the section instead".to_owned(),
            ContactsError::ThresholdTooLow =>
                "recovery_contacts.threshold must be at least 2 - a threshold of 1 means any single contact can act alone, which is not meaningfully different from having no contacts at all".to_owned(),
            ContactsError::ThresholdTooHigh => {
                let mut out = "recovery_contacts.threshold (".to_owned();
                push_decimal(&mut out, cfg.threshold as u64);
                out.append(") exceeds the number of contacts (");
                push_decimal(&mut out, cfg.npubs.len() as u64);
                out.append(") - no quorum could ever be reached");
                out
            },
            ContactsError::InvalidNpub { entry } => {
                let mut out = "recovery_contacts.npubs entry ".to_owned();
                out.append(quote(cfg.npubs[entry].as_str()).as_str());
                out.append(" is not a valid npub");
                out
            },
            ContactsError::Duplicate { entry } => {
                let mut out = "recovery_contacts.npubs contains ".to_owned();
                out.append(quote(cfg.npubs[entry].as_str()).as_str());
                out.append(" more than once - duplicates would let one person cast several votes");
                out
            },
        }
    }
}

/// The text that a contact signs to vouch for the spend `txid`.
pub open spec fn approval_message(txid: Seq<char>) -> Seq<char> {
    "cosigner recovery approval v1\ntxid: "@ + txid + "\naction: release the remaining hold"@
}

/// The text that a contact signs to vouch for one spend.
pub fn canonical_approval_message(txid: &str) -> (r: String)
    ensures
        r@ == approval_message(txid@),
{
    let mut out = "cosigner recovery approval v1\ntxid: ".to_owned();
    out.append(txid);
    out.append("\naction: release the remaining hold");
    out
}

/// Why approvals are refused.
#[derive(Clone, Copy, Debug, PartialEq, Eq, Structural)]
pub enum ApprovalError {
    /// There are no contacts.
    NotConfigured,
    /// The spend is not waiting.
    NotPending,
    /// An approval is no event with a true signature.
    Malformed { index: usize },
    /// An approval vouches for another text.
    WrongMessage { index: usize },
    /// Too few contacts have approved.
    ShortOfQuorum { got: usize, needed: usize },
}

/// Why the first `n` approvals are refused, if they are: the first that is.
pub open spec fn first_bad_approval(events: Seq<Seq<char>>, txid: Seq<char>, n: int) -> Option<
    ApprovalError,
>
    decreases n,
{
    if n <= 0 {
        None
    } else {
        match first_bad_approval(events, txid, n - 1) {
            Some(e) => Some(e),
            None => match signed_event(trimmed(events[n - 1])) {
                None => Some(ApprovalError::Malformed { index: (n - 1) as usize }),
                Some((content, _)) => if content != approval_message(txid) {
                    Some(ApprovalError::WrongMessage { index: (n - 1) as usize })
                } else {
                    None
                },
            },
        }
    }
}

/// The contacts among the authors of the first `n` approvals.
pub open spec fn voters(events: Seq<Seq<char>>, allowed: Set<Seq<u8>>, n: int) -> Set<Seq<u8>>
    decreases n,
{
    if n <= 0 {
        Set::empty()
    } else {
        let before = voters(events, allowed, n - 1);
        let author = signed_event(trimmed(events[n - 1])).unwrap().1;
        if allowed.contains(author) {
            before.insert(author)
        } else {
            before
        }
    }
}

proof fn lemma_bad_approval_stays(events: Seq<Seq<char>>, txid: Seq<char>, i: int, n: int)
    requires
        i <= n,
        first_bad_approval(events, txid, i) is Some,
    ensures
        first_bad_approval(events, txid, n) == first_bad_approval(events, txid, i),
    decreases n - i,
{
    if i < n {
        lemma_bad_approval_stays(events, txid, i, n - 1);
    }
}

/// The contacts who vouch for the spend. Every approval has to be signed and to carry exactly the
/// text of this spend; the first that does not is named. Who is no contact is passed over. However often a
/// contact signs, that is one vote.
pub fn count_distinct_approvals(txid: &str, events: &Vec<String>, allowed: &ByteSet) -> (r: Result<
    ByteSet,
    ApprovalError,
>)
    ensures
        match r {
            Ok(v) => first_bad_approval(
                events.deep_view(),
                txid@,
                events@.len() as int,
            ) is None && v@ == voters(events.deep_view(), allowed@, events@.len() as int),
            Err(e) => first_bad_approval(events.deep_view(), txid@, events@.len() as int) == Some(
                e,
            ),
        },
{
    let expected = canonical_approval_message(txid);
    let n: usize = events.len();
    let ghost all = events.deep_view();
    let mut found = ByteSet::new();
    let mut i: usize = 0;
    while i < n
        invariant
            i <= n,
            n == events@.len(),
            all == events.deep_view(),
            expected@ == approval_message(txid@),
            first_bad_approval(all, txid@, i as int) is None,
            found@ == voters(all, allowed@, i as int),
        decreases n - i,
    {
        assert(all[i as int] == events@[i as int]@);
        match verified_event(trim(events[i].as_str())) {
            None => {
                proof {
                    lemma_bad_approval_stays(all, txid@, i + 1, n as int);
                }
                return Err(ApprovalError::Malformed { index: i });
            },
            Some(event) => {
                if !same_text(event.content.as_str(), expected.as_str()) {
                    proof {
                        lemma_bad_approval_stays(all, txid@, i + 1, n as int);
                    }
                    return Err(ApprovalError::WrongMessage { index: i });
                }
                if allowed.contains(&event.author) {
                    found.insert(event.author);
                }
            },
        }
        i = i + 1;
    }
    Ok(found)
}

/// The contacts and the quorum, as they are used.
pub struct Quorum {
    pub allowed: ByteSet,
    pub threshold: usize,
}

/// What a quorum did.
#[derive(Clone, Copy, Debug, PartialEq, Eq, Structural)]
pub struct Release {
    pub approvals: usize,
    pub threshold: usize,
    pub released: bool,
}

/// Why a release is refused, if it is: there are no contacts, the spend is not waiting, an approval
/// is bad, or there are too few.
pub open spec fn release_error(
    tables: Tables,
    quorum: Option<Quorum>,
    id: Seq<char>,
    events: Seq<Seq<char>>,
) -> Option<ApprovalError> {
    let waiting = pending_of(tables.pending, id) matches Some(e) && e.row.status
        == PendingStatus::Pending;
    match quorum {
        None => Some(ApprovalError::NotConfigured),
        Some(q) => {
            let bad = first_bad_approval(events, id, events.len() as int);
            let got = voters(events, q.allowed@, events.len() as int).len();
            if !waiting {
                Some(ApprovalError::NotPending)
            } else if bad is Some {
                bad
            } else if got < q.threshold {
                Some(ApprovalError::ShortOfQuorum { got: got as usize, needed: q.threshold })
            } else {
                None
            }
        },
    }
}

/// Ends the wait of a spend on the word of a quorum. What is refused changes nothing, and what is
/// not refused changes the end of the hold and nothing else.
pub fn approve_release(
    ledger: &mut Ledger,
    quorum: &Option<Quorum>,
    id: &str,
    events: &Vec<String>,
    now: i64,
) -> (r: Result<Release, ApprovalError>)
    requires
        old(ledger).wf(),
    ensures
        final(ledger).wf(),
        ends_hold(old(ledger)@, *quorum, id@, events.deep_view(), now, r, final(ledger)@),
{
    let q = match quorum {
        Some(q) => q,
        None => {
            return Err(ApprovalError::NotConfigured);
        },
    };
    let waiting = match ledger.get_pending(id) {
        Some(row) => row.status == PendingStatus::Pending,
        None => false,
    };
    if !waiting {
        return Err(ApprovalError::NotPending);
    }
    let found = match count_distinct_approvals(id, events, &q.allowed) {
        Ok(v) => v,
        Err(e) => {
            return Err(e);
        },
    };
    let approvals: usize = found.len();
    if approvals < q.threshold {
        return Err(ApprovalError::ShortOfQuorum { got: approvals, needed: q.threshold });
    }
    let released = ledger.release_hold(id, now);
    Ok(Release { approvals, threshold: q.threshold, released })
}

/// The text of an error about the spend `id` and the approvals `events` of it.
pub open spec fn approval_error_text(
    e: ApprovalError,
    id: Seq<char>,
    events: Seq<Seq<char>>,
) -> Seq<char> {
    match e {
        ApprovalError::NotConfigured => "no recovery contacts are configured on this service"@,
        ApprovalError::NotPending => "no spend with id "@ + id + " is currently pending"@,
        ApprovalError::Malformed { index } => "signature "@ + decimal(index as nat)
            + " is not a valid signed Nostr event: "@ + or_empty(
            if index < events.len() {
                event_failure(trimmed(events[index as int]))
            } else {
                None
            },
        ),
        ApprovalError::WrongMessage { index } => "signature "@ + decimal(index as nat)
            + " vouches for different text than this spend's approval message - it may have been signed for a different transaction"@,
        ApprovalError::ShortOfQuorum { got, needed } => "only "@ + decimal(got as nat) + " of "@
            + decimal(needed as nat) + " required contacts have approved"@,
    }
}

impl ApprovalError {
    /// What a person is told about the spend `id` and the approvals `events` of it.
    pub fn message(self, id: &str, events: &Vec<String>) -> (r: String)
        ensures
            r@ == approval_error_text(self, id@, events.deep_view()),
    {
        match self {
            ApprovalError::NotConfigured =>
                "no recovery contacts are configured on this service".to_owned(),
            ApprovalError::NotPending => {
                let mut out = "no spend with id ".to_owned();
                out.append(id);
                out.append(" is currently pending");
                out
            },
            ApprovalError::Malformed { index } => {
                let mut out = "signature ".to_owned();
                push_decimal(&mut out, index as u64);
                out.append(" is not a valid signed Nostr event: ");
                let cause = if index < events.len() {
                    assert(events.deep_view()[index as int] == events@[index as int]@);
                    event_error(trim(events[index].as_str()))
                } else {
                    None
                };
                explained(out.as_str(), cause)
            },
            ApprovalError::WrongMessage { index } => {
                let mut out = "signature ".to_owned();
                push_decimal(&mut out, index as u64);
                out.append(
                    " vouches for different text than this spend's approval message - it may have been signed for a different transaction",
                );
                out
            },
            ApprovalError::ShortOfQuorum { got, needed } => {
                let mut out = "only ".to_owned();
                push_decimal(&mut out, got as u64);
                out.append(" of ");
                push_decimal(&mut out, needed as u64);
                out.append(" required contacts have approved");
                out
            },
        }
    }
}

/// An approval is for one spend: the texts of two ids differ.
pub proof fn law_an_approval_is_for_one_spend(a: Seq<char>, b: Seq<char>)
    ensures
        approval_message(a) == approval_message(b) <==> a == b,
{
    let head = "cosigner recovery approval v1\ntxid: "@;
    let tail = "\naction: release the remaining hold"@;
    if approval_message(a) == approval_message(b) {
        assert(approval_message(a).len() == head.len() + a.len() + tail.len());
        assert(a =~= approval_message(a).subrange(head.len() as int, (head.len() + a.len()) as int));
        assert(b =~= approval_message(b).subrange(head.len() as int, (head.len() + b.len()) as int));
    }
}

/// Only contacts count, and each once: the voters are contacts, and they are at most as many as
/// the contacts and at most as many as the approvals.
pub proof fn law_each_contact_has_one_vote(events: Seq<Seq<char>>, allowed: Set<Seq<u8>>, n: int)
    requires
        0 <= n <= events.len(),
    ensures
        voters(events, allowed, n).finite(),
        voters(events, allowed, n).subset_of(allowed),
        voters(events, allowed, n).len() <= n,
    decreases n,
{
    if n > 0 {
        law_each_contact_has_one_vote(events, allowed, n - 1);
    }
}

/// To repeat an approval changes nothing.
pub proof fn law_a_repeated_approval_adds_no_vote(
    events: Seq<Seq<char>>,
    allowed: Set<Seq<u8>>,
    i: int,
)
    requires
        0 <= i < events.len(),
    ensures
        voters(events.push(events[i]), allowed, events.len() as int + 1) == voters(
            events,
            allowed,
            events.len() as int,
        ),
{
    let more = events.push(events[i]);
    lemma_voters_of_a_prefix(events, more, allowed, events.len() as int);
    lemma_voter_is_counted(events, allowed, i, events.len() as int);
    assert(voters(more, allowed, events.len() as int + 1) =~= voters(
        events,
        allowed,
        events.len() as int,
    ));
}

proof fn lemma_voters_of_a_prefix(
    events: Seq<Seq<char>>,
    more: Seq<Seq<char>>,
    allowed: Set<Seq<u8>>,
    n: int,
)
    requires
        0 <= n <= events.len() <= more.len(),
        forall|i: int| 0 <= i < n ==> events[i] == more[i],
    ensures
        voters(more, allowed, n) == voters(events, allowed, n),
    decreases n,
{
    if n > 0 {
        lemma_voters_of_a_prefix(events, more, allowed, n - 1);
    }
}

proof fn lemma_voter_is_counted(events: Seq<Seq<char>>, allowed: Set<Seq<u8>>, i: int, n: int)
    requires
        0 <= i < n <= events.len(),
    ensures
        allowed.contains(signed_event(trimmed(events[i])).unwrap().1) ==> voters(
            events,
            allowed,
            n,
        ).contains(signed_event(trimmed(events[i])).unwrap().1),
    decreases n,
{
    if i < n - 1 {
        lemma_voter_is_counted(events, allowed, i, n - 1);
    }
}

/// A quorum never revives what was stopped, and never moves anything but the end of a hold: a spend
/// that is not waiting is refused, whoever vouches for it.
pub proof fn law_a_quorum_cannot_revive_a_settled_spend(
    tables: Tables,
    quorum: Option<Quorum>,
    id: Seq<char>,
    events: Seq<Seq<char>>,
)
    requires
        pending_of(tables.pending, id) matches Some(e) ==> e.row.status != PendingStatus::Pending,
    ensures
        release_error(tables, quorum, id, events) is Some,
{
}

/// The contacts who vouch are those, and only those, who are allowed and signed one of the approvals.
pub proof fn law_who_is_allowed_and_signed_has_a_vote(
    events: Seq<Seq<char>>,
    allowed: Set<Seq<u8>>,
    n: int,
    key: Seq<u8>,
)
    requires
        0 <= n <= events.len(),
    ensures
        voters(events, allowed, n).contains(key) <==> allowed.contains(key) && exists|i: int|
            0 <= i < n && signed_event(trimmed(#[trigger] events[i])).unwrap().1 == key,
    decreases n,
{
    if n > 0 {
        law_who_is_allowed_and_signed_has_a_vote(events, allowed, n - 1, key);
        assert(signed_event(trimmed(events[n - 1])).unwrap().1 == key || !(exists|i: int|
            0 <= i < n && signed_event(trimmed(#[trigger] events[i])).unwrap().1 == key)
            || exists|i: int|
            0 <= i < n - 1 && signed_event(trimmed(#[trigger] events[i])).unwrap().1 == key);
    }
}

/// Approvals are taken exactly where each is a truly signed event that carries the text of this spend.
pub proof fn law_every_approval_is_signed_and_for_this_spend(
    events: Seq<Seq<char>>,
    txid: Seq<char>,
    n: int,
)
    requires
        0 <= n <= events.len(),
    ensures
        first_bad_approval(events, txid, n) is None <==> forall|i: int|
            0 <= i < n ==> (signed_event(trimmed(#[trigger] events[i])) matches Some((content, _))
                && content == "cosigner recovery approval v1\ntxid: "@ + txid
                + "\naction: release the remaining hold"@),
    decreases n,
{
    if n > 0 {
        law_every_approval_is_signed_and_for_this_spend(events, txid, n - 1);
    }
}

/// The first approval that is not taken is the one that is named, as no signed event or as one for
/// another text.
pub proof fn law_the_first_bad_approval_is_named(
    events: Seq<Seq<char>>,
    txid: Seq<char>,
    n: int,
    i: int,
)
    requires
        0 <= i < n <= events.len() <= usize::MAX,
        first_bad_approval(events, txid, i) is None,
    ensures
        signed_event(trimmed(events[i])) is None ==> first_bad_approval(events, txid, n) == Some(
            ApprovalError::Malformed { index: i as usize },
        ),
        signed_event(trimmed(events[i])) matches Some((content, _)) && content
            != approval_message(txid) ==> first_bad_approval(events, txid, n) == Some(
            ApprovalError::WrongMessage { index: i as usize },
        ),
{
    if first_bad_approval(events, txid, i + 1) is Some {
        lemma_bad_approval_stays(events, txid, i + 1, n);
    }
}

/// A hold is ended only by at least as many distinct contacts as the threshold that is configured. With
/// all else in order, the release is refused as short of the quorum exactly where the contacts are
/// fewer than the threshold, and the refusal names how many there are and how many it takes.
pub proof fn law_a_hold_is_ended_only_by_a_full_quorum(
    tables: Tables,
    q: Quorum,
    id: Seq<char>,
    events: Seq<Seq<char>>,
)
    requires
        events.len() <= usize::MAX,
    ensures
        ({
            let got = voters(events, q.allowed@, events.len() as int).len();
            let refusal = release_error(tables, Some(q), id, events);
            let waiting = pending_of(tables.pending, id) matches Some(e) && e.row.status
                == PendingStatus::Pending;
            let in_order = waiting && first_bad_approval(events, id, events.len() as int) is None;
            &&& refusal is None ==> in_order && got >= q.threshold
            &&& in_order ==> (got < q.threshold <==> refusal is Some)
            &&& in_order && got < q.threshold ==> refusal == Some(
                ApprovalError::ShortOfQuorum { got: got as usize, needed: q.threshold },
            )
            &&& !waiting ==> refusal == Some(ApprovalError::NotPending)
            &&& waiting && !in_order ==> refusal == first_bad_approval(
                events,
                id,
                events.len() as int,
            )
        }),
        release_error(tables, None, id, events) == Some(ApprovalError::NotConfigured),
        voters(events, q.allowed@, events.len() as int).len() <= events.len(),
{
    law_each_contact_has_one_vote(events, q.allowed@, events.len() as int);
}

/// The keys of contacts are those that their entries spell.
pub proof fn law_the_keys_are_those_of_the_entries(npubs: Seq<Seq<char>>, n: int, key: Seq<u8>)
    requires
        0 <= n <= npubs.len(),
    ensures
        contact_keys(npubs, n).contains(key) <==> exists|i: int|
            0 <= i < n && npub_key(trimmed(#[trigger] npubs[i])).unwrap() == key,
    decreases n,
{
    if n > 0 {
        law_the_keys_are_those_of_the_entries(npubs, n - 1, key);
    }
}

/// Contacts are taken exactly where there is one at least, every entry is an `npub`, no two are the same
/// key, and the threshold is two at least and no more than the contacts.
pub proof fn law_contacts_are_distinct_and_can_reach_the_threshold(cfg: RecoveryContactsConfig)
    ensures
        cfg.problem() is None <==> {
            let n = cfg.npubs@.len();
            &&& 2 <= cfg.threshold <= n
            &&& forall|i: int|
                0 <= i < n ==> npub_key(trimmed((#[trigger] cfg.npubs@[i])@)) is Some
            &&& forall|i: int, j: int|
                0 <= i < j < n ==> npub_key(trimmed((#[trigger] cfg.npubs@[i])@)) != npub_key(
                    trimmed((#[trigger] cfg.npubs@[j])@),
                )
        },
{
    let npubs = cfg.npubs.deep_view();
    let n = npubs.len() as int;
    assert(forall|i: int| 0 <= i < n ==> npubs[i] == (#[trigger] cfg.npubs@[i])@);
    lemma_contacts(npubs, n);
    if first_contact_problem(npubs, n) is None {
        assert forall|i: int, j: int| 0 <= i < j < n implies npub_key(
            trimmed((#[trigger] cfg.npubs@[i])@),
        ) != npub_key(trimmed((#[trigger] cfg.npubs@[j])@)) by {
            assert(npub_key(trimmed(npubs[i])) != npub_key(trimmed(npubs[j])));
        }
        assert forall|i: int| 0 <= i < n implies npub_key(trimmed((#[trigger] cfg.npubs@[i])@))
            is Some by {
            assert(npub_key(trimmed(npubs[i])) is Some);
        }
    } else if (forall|i: int|
        0 <= i < n ==> npub_key(trimmed((#[trigger] cfg.npubs@[i])@)) is Some) && (forall|
        i: int,
        j: int,
    |
        0 <= i < j < n ==> npub_key(trimmed((#[trigger] cfg.npubs@[i])@)) != npub_key(
            trimmed((#[trigger] cfg.npubs@[j])@),
        )) {
        assert forall|i: int| 0 <= i < n implies npub_key(trimmed(#[trigger] npubs[i])) is Some by {
            assert(npubs[i] == cfg.npubs@[i]@);
        }
        assert forall|i: int, j: int| 0 <= i < j < n implies npub_key(trimmed(#[trigger] npubs[i]))
            != npub_key(trimmed(#[trigger] npubs[j])) by {
            assert(npubs[i] == cfg.npubs@[i]@);
            assert(npubs[j] == cfg.npubs@[j]@);
        }
        assert(false);
    }
}

proof fn lemma_contacts(npubs: Seq<Seq<char>>, n: int)
    requires
        0 <= n <= npubs.len(),
    ensures
        first_contact_problem(npubs, n) is None <==> {
            &&& forall|i: int| 0 <= i < n ==> npub_key(trimmed(#[trigger] npubs[i])) is Some
            &&& forall|i: int, j: int|
                0 <= i < j < n ==> npub_key(trimmed(#[trigger] npubs[i])) != npub_key(
                    trimmed(#[trigger] npubs[j]),
                )
        },
    decreases n,
{
    if n > 0 {
        lemma_contacts(npubs, n - 1);
        let last = npub_key(trimmed(npubs[n - 1]));
        if last is Some {
            law_the_keys_are_those_of_the_entries(npubs, n - 1, last->Some_0);
        }
        if first_contact_problem(npubs, n) is None {
            assert forall|i: int, j: int| 0 <= i < j < n implies npub_key(
                trimmed(#[trigger] npubs[i]),
            ) != npub_key(trimmed(#[trigger] npubs[j])) by {
                if j == n - 1 {
                    assert(npub_key(trimmed(npubs[i])).unwrap() != last->Some_0);
                }
            }
        } else if first_contact_problem(npubs, n - 1) is None && last is Some {
            let i = choose|i: int|
                0 <= i < n - 1 && npub_key(trimmed(#[trigger] npubs[i])).unwrap() == last->Some_0;
            assert(npub_key(trimmed(npubs[i])) is Some);
            assert(npub_key(trimmed(npubs[i])) == npub_key(trimmed(npubs[n - 1])));
        }
    }
}

/// A list of `npub`s is refused exactly where one of them is none.
pub proof fn law_every_entry_is_an_npub(npubs: Seq<Seq<char>>, n: int)
    requires
        0 <= n <= npubs.len(),
    ensures
        first_invalid(npubs, n) is None <==> forall|i: int|
            0 <= i < n ==> npub_key(trimmed(#[trigger] npubs[i])) is Some,
    decreases n,
{
    if n > 0 {
        law_every_entry_is_an_npub(npubs, n - 1);
    }
}

/// A refusal for want of contacts says how many there are and how many it takes.
pub proof fn law_a_refusal_says_how_many_it_takes(
    got: usize,
    needed: usize,
    id: Seq<char>,
    events: Seq<Seq<char>>,
)
    ensures
        approval_error_text(ApprovalError::ShortOfQuorum { got, needed }, id, events) == "only "@
            + decimal(got as nat) + " of "@ + decimal(needed as nat)
            + " required contacts have approved"@,
{
}

/// Whether `r` and `after` are what asking to end a hold by the contacts comes to.
pub open spec fn ends_hold(
    before: Tables,
    quorum: Option<Quorum>,
    id: Seq<char>,
    events: Seq<Seq<char>>,
    now: i64,
    r: Result<Release, ApprovalError>,
    after: Tables,
) -> bool {
    match r {
        Ok(release) => {
            &&& release_error(before, quorum, id, events) is None
            &&& quorum matches Some(q) && release == (Release {
                approvals: voters(
                    events,
                    q.allowed@,
                    events.len() as int,
                ).len() as usize,
                threshold: q.threshold,
                released: true,
            })
            &&& after == (Tables {
                pending: changed(
                    before.pending,
                    id,
                    |e: PendingEntry| released(e, now),
                ),
                ..before
            })
        },
        Err(e) => release_error(before, quorum, id, events) == Some(e)
            && after == before,
    }
}

/// A hold ends exactly where the spend waits, every approval is for it, and as many distinct contacts as
/// the threshold asks for have signed; the answer counts them. Whatever the answer, no other spend changes,
/// nothing is recorded, and a refusal changes nothing.
pub proof fn law_the_contacts_end_a_hold_only_together(
    before: Tables,
    q: Quorum,
    id: Seq<char>,
    events: Seq<Seq<char>>,
    now: i64,
    r: Result<Release, ApprovalError>,
    after: Tables,
    other: Seq<char>,
)
    requires
        ends_hold(before, Some(q), id, events, now, r, after),
        events.len() <= usize::MAX,
    ensures
        r matches Ok(release) ==> {
            &&& release.approvals >= q.threshold
            &&& release.approvals <= events.len()
            &&& release.threshold == q.threshold
            &&& release.released
            &&& pending_of(before.pending, id) matches Some(b) && b.row.status
                == PendingStatus::Pending
            &&& pending_of(after.pending, id) matches Some(a) && a.row.status
                == PendingStatus::Pending && a.row.hold_until <= now
            &&& forall|i: int|
                0 <= i < events.len() ==> (signed_event(
                    trimmed(#[trigger] events[i]),
                ) matches Some(s) && s.0 == approval_message(id))
        },
        r is Err ==> after == before,
        other != id ==> pending_of(after.pending, other) == pending_of(before.pending, other),
        after.spends == before.spends,
        after.freeze == before.freeze,
        after.policy == before.policy,
{
    crate::ledger::law_only_the_named_spend_changes(
        before.pending,
        id,
        other,
        |e: PendingEntry| released(e, now),
    );
    law_each_contact_has_one_vote(events, q.allowed@, events.len() as int);
    law_every_approval_is_signed_and_for_this_spend(events, id, events.len() as int);
}

}
