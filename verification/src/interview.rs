//! The questions that a wallet is set up by, one after another.
//!
//! An answer is taken or refused as soon as it is given, so that a mistyped fingerprint or
//! extended key is caught where it was typed. Whoever runs the interview prints what it says and
//! hands it the lines that come back.

use vstd::prelude::*;
use vstd::string::*;

use crate::config::{ChainNetwork, Role};
use crate::keys::{address_for_network, address_is_for, derivation_steps};
use crate::policy::FeeRate;
use crate::recovery_contacts::npub_key;
use crate::text::{
    decimal, is_hex_of_len, law_a_number_within_the_limit_is_read, lowercase, parse_i64, parse_unsigned, parsed_i64, parsed_unsigned, pieces,
    push_decimal, quote, quoted, same_text, split, trim, trimmed,
};
use crate::wizard::{
    bitcoind_port, default_bitcoind_port, is_relay_url, is_sound_key, lemma_lower_case_hex,
    npub_complaint, path_complaint, validate_derivation_path,
    validate_fingerprint, validate_npub, validate_relay_url, validate_xpub_for, xpub_complaint,
    BitcoindAuthAnswer, KeyAnswer, NostrNsecAnswer, NostrTransportAnswer, NotifyAnswer,
    PolicyAnswer, ServerSigningAnswer, SmtpAnswer, WizardAnswers, NO_RELAY_URL,
};

verus! {

/// What is asked, in the order in which it is asked.
#[derive(Clone, Copy, Debug, PartialEq, Eq, Structural)]
pub enum Question {
    Network,
    ConfirmMainnet,
    Timelock,
    Fingerprint(Role),
    DerivationPath(Role),
    ExtendedKey(Role),
    SigningSource,
    SigningFile,
    SigningVariable,
    RpcUrl,
    RpcAuth,
    RpcCookie,
    RpcUser,
    RpcPassword,
    BindAddress,
    GapLimit,
    LedgerPath,
    MaxTx,
    MaxDaily,
    MaxWeekly,
    MaxMonthly,
    MaxFee,
    MaxFeeRate,
    Whitelist,
    NotifyChannel,
    NtfyUrl,
    NtfyToken,
    SmtpHost,
    SmtpPort,
    SmtpUsername,
    SmtpPassword,
    SmtpFrom,
    SmtpTo,
    HoldSeconds,
    SweepInterval,
    RenotifyInterval,
    RecoveryHold,
    RecoveryWhitelist,
    EnableNostr,
    NsecSource,
    NsecFile,
    NsecVariable,
    Relays,
    AllowedNpubs,
    /// Nothing is left to ask.
    Finished,
}

/// The questions that only certain words answer.
#[derive(Clone, Copy, Debug, PartialEq, Eq, Structural)]
pub enum Choice {
    FileOrEnv,
    CookieOrUserpass,
    Channel,
    YesOrNo,
}

/// What an answer has to be.
#[derive(Clone, Copy, Debug, PartialEq, Eq, Structural)]
pub enum Kind {
    /// Any text.
    Text,
    /// The name of a network.
    Network,
    /// The word YES.
    Confirmation,
    /// A number of blocks.
    Blocks,
    /// A fingerprint.
    Fingerprint,
    /// A derivation path.
    Path,
    /// An extended public key of a role.
    ExtendedKey(Role),
    /// One of a few words.
    Word(Choice),
    /// A whole number that is not negative, and not above this.
    Natural(u64),
    /// A whole number.
    Integer,
    /// A fee rate.
    Rate,
    /// A list of addresses, which may be empty.
    Addresses,
    /// A list of relays.
    Relays,
    /// A list of Nostr public keys.
    Npubs,
}

impl Question {
    /// What the question's answer has to be.
    pub open spec fn kind(self) -> Kind {
        match self {
            Question::Network => Kind::Network,
            Question::ConfirmMainnet => Kind::Confirmation,
            Question::Timelock => Kind::Blocks,
            Question::Fingerprint(_) => Kind::Fingerprint,
            Question::DerivationPath(_) => Kind::Path,
            Question::ExtendedKey(role) => Kind::ExtendedKey(role),
            Question::SigningSource | Question::NsecSource => Kind::Word(Choice::FileOrEnv),
            Question::RpcAuth => Kind::Word(Choice::CookieOrUserpass),
            Question::NotifyChannel => Kind::Word(Choice::Channel),
            Question::EnableNostr => Kind::Word(Choice::YesOrNo),
            Question::GapLimit => Kind::Natural(0xffff_ffff),
            Question::SmtpPort => Kind::Natural(0xffff),
            Question::MaxTx | Question::MaxDaily | Question::MaxWeekly | Question::MaxMonthly
            | Question::MaxFee | Question::SweepInterval => Kind::Natural(u64::MAX),
            Question::HoldSeconds | Question::RenotifyInterval | Question::RecoveryHold => {
                Kind::Integer
            },
            Question::MaxFeeRate => Kind::Rate,
            Question::Whitelist | Question::RecoveryWhitelist => Kind::Addresses,
            Question::Relays => Kind::Relays,
            Question::AllowedNpubs => Kind::Npubs,
            _ => Kind::Text,
        }
    }

    fn answer_kind(self) -> (r: Kind)
        ensures
            r == self.kind(),
    {
        match self {
            Question::Network => Kind::Network,
            Question::ConfirmMainnet => Kind::Confirmation,
            Question::Timelock => Kind::Blocks,
            Question::Fingerprint(_) => Kind::Fingerprint,
            Question::DerivationPath(_) => Kind::Path,
            Question::ExtendedKey(role) => Kind::ExtendedKey(role),
            Question::SigningSource | Question::NsecSource => Kind::Word(Choice::FileOrEnv),
            Question::RpcAuth => Kind::Word(Choice::CookieOrUserpass),
            Question::NotifyChannel => Kind::Word(Choice::Channel),
            Question::EnableNostr => Kind::Word(Choice::YesOrNo),
            Question::GapLimit => Kind::Natural(0xffff_ffff),
            Question::SmtpPort => Kind::Natural(0xffff),
            Question::MaxTx | Question::MaxDaily | Question::MaxWeekly | Question::MaxMonthly
            | Question::MaxFee | Question::SweepInterval => Kind::Natural(u64::MAX),
            Question::HoldSeconds | Question::RenotifyInterval | Question::RecoveryHold => {
                Kind::Integer
            },
            Question::MaxFeeRate => Kind::Rate,
            Question::Whitelist | Question::RecoveryWhitelist => Kind::Addresses,
            Question::Relays => Kind::Relays,
            Question::AllowedNpubs => Kind::Npubs,
            _ => Kind::Text,
        }
    }

    /// The place of the question in the order.
    pub open spec fn rank(self) -> int {
        match self {
            Question::Network => 0,
            Question::ConfirmMainnet => 1,
            Question::Timelock => 2,
            Question::Fingerprint(role) => 3 + 3 * role_rank(role),
            Question::DerivationPath(role) => 4 + 3 * role_rank(role),
            Question::ExtendedKey(role) => 5 + 3 * role_rank(role),
            Question::SigningSource => 12,
            Question::SigningFile => 13,
            Question::SigningVariable => 14,
            Question::RpcUrl => 15,
            Question::RpcAuth => 16,
            Question::RpcCookie => 17,
            Question::RpcUser => 18,
            Question::RpcPassword => 19,
            Question::BindAddress => 20,
            Question::GapLimit => 21,
            Question::LedgerPath => 22,
            Question::MaxTx => 23,
            Question::MaxDaily => 24,
            Question::MaxWeekly => 25,
            Question::MaxMonthly => 26,
            Question::MaxFee => 27,
            Question::MaxFeeRate => 28,
            Question::Whitelist => 29,
            Question::NotifyChannel => 30,
            Question::NtfyUrl => 31,
            Question::NtfyToken => 32,
            Question::SmtpHost => 33,
            Question::SmtpPort => 34,
            Question::SmtpUsername => 35,
            Question::SmtpPassword => 36,
            Question::SmtpFrom => 37,
            Question::SmtpTo => 38,
            Question::HoldSeconds => 39,
            Question::SweepInterval => 40,
            Question::RenotifyInterval => 41,
            Question::RecoveryHold => 42,
            Question::RecoveryWhitelist => 43,
            Question::EnableNostr => 44,
            Question::NsecSource => 45,
            Question::NsecFile => 46,
            Question::NsecVariable => 47,
            Question::Relays => 48,
            Question::AllowedNpubs => 49,
            Question::Finished => 50,
        }
    }
}

/// The place of a role in the order.
pub open spec fn role_rank(role: Role) -> int {
    match role {
        Role::Satochip => 0,
        Role::Mobile => 1,
        Role::Server => 2,
    }
}

/// How a role is called in a question.
pub open spec fn role_word(role: Role) -> Seq<char> {
    match role {
        Role::Satochip => "HARDWARE"@,
        Role::Mobile => "MOBILE"@,
        Role::Server => "SERVER"@,
    }
}

fn role_label(role: Role) -> (r: &'static str)
    ensures
        r@ == role_word(role),
{
    match role {
        Role::Satochip => "HARDWARE",
        Role::Mobile => "MOBILE",
        Role::Server => "SERVER",
    }
}

/// The answers that have been taken.
pub type Answers = Map<Question, Seq<char>>;

/// The network of that name; regtest for what names no other.
pub open spec fn network_called(name: Seq<char>) -> ChainNetwork {
    if name == "mainnet"@ {
        ChainNetwork::Mainnet
    } else if name == "testnet"@ {
        ChainNetwork::Testnet
    } else if name == "signet"@ {
        ChainNetwork::Signet
    } else {
        ChainNetwork::Regtest
    }
}

fn network_of_name(name: &str) -> (r: ChainNetwork)
    ensures
        r == network_called(name@),
{
    if same_text(name, "mainnet") {
        ChainNetwork::Mainnet
    } else if same_text(name, "testnet") {
        ChainNetwork::Testnet
    } else if same_text(name, "signet") {
        ChainNetwork::Signet
    } else {
        ChainNetwork::Regtest
    }
}

/// Whether a text names a network.
pub open spec fn is_network_name(name: Seq<char>) -> bool {
    name == "mainnet"@ || name == "testnet"@ || name == "signet"@ || name == "regtest"@
}

/// Whether a text is one of the words of a choice.
pub open spec fn is_word(choice: Choice, w: Seq<char>) -> bool {
    match choice {
        Choice::FileOrEnv => w == "file"@ || w == "env"@,
        Choice::CookieOrUserpass => w == "cookie"@ || w == "userpass"@,
        Choice::Channel => w == "ntfy"@ || w == "smtp"@ || w == "both"@,
        Choice::YesOrNo => w == "y"@ || w == "n"@,
    }
}

fn is_word_of(choice: Choice, w: &str) -> (r: bool)
    ensures
        r == is_word(choice, w@),
{
    match choice {
        Choice::FileOrEnv => same_text(w, "file") || same_text(w, "env"),
        Choice::CookieOrUserpass => same_text(w, "cookie") || same_text(w, "userpass"),
        Choice::Channel => {
            same_text(w, "ntfy") || same_text(w, "smtp") || same_text(w, "both")
        },
        Choice::YesOrNo => same_text(w, "y") || same_text(w, "n"),
    }
}

/// What is said where none of the words of a choice was given.
pub open spec fn word_complaint(choice: Choice) -> Seq<char> {
    match choice {
        Choice::FileOrEnv => "please enter one of: file/env"@,
        Choice::CookieOrUserpass => "please enter one of: cookie/userpass"@,
        Choice::Channel => "please enter one of: ntfy/smtp/both"@,
        Choice::YesOrNo => "please enter one of: y/n"@,
    }
}

fn complaint_of_word(choice: Choice) -> (r: &'static str)
    ensures
        r@ == word_complaint(choice),
{
    match choice {
        Choice::FileOrEnv => "please enter one of: file/env",
        Choice::CookieOrUserpass => "please enter one of: cookie/userpass",
        Choice::Channel => "please enter one of: ntfy/smtp/both",
        Choice::YesOrNo => "please enter one of: y/n",
    }
}

/// What a question says.
pub open spec fn label(q: Question) -> Seq<char> {
    match q {
        Question::Network => "Network"@,
        Question::ConfirmMainnet => "Type YES to confirm this is really mainnet"@,
        Question::Timelock => "Recovery timelock in blocks (4320 = ~30 days)"@,
        Question::Fingerprint(role) => role_word(role) + " master fingerprint (8 hex chars)"@,
        Question::DerivationPath(role) => role_word(role) + " derivation path"@,
        Question::ExtendedKey(role) => role_word(role) + " extended public key (xpub/tpub)"@,
        Question::SigningSource => "Where does the SERVER private key live? (file/env)"@,
        Question::SigningFile => "Path to the SERVER xprv file"@,
        Question::SigningVariable => "Environment variable holding the SERVER xprv"@,
        Question::RpcUrl => "bitcoind RPC URL"@,
        Question::RpcAuth => "bitcoind auth (cookie/userpass)"@,
        Question::RpcCookie => "Path to bitcoind's .cookie file"@,
        Question::RpcUser => "bitcoind RPC username"@,
        Question::RpcPassword => "bitcoind RPC password"@,
        Question::BindAddress => "Bind address"@,
        Question::GapLimit => "Gap limit"@,
        Question::LedgerPath => "Ledger database path"@,
        Question::MaxTx => "Max sat per transaction"@,
        Question::MaxDaily => "Max sat per trailing 24h"@,
        Question::MaxWeekly => "Max sat per trailing 7d"@,
        Question::MaxMonthly => "Max sat per trailing 30d"@,
        Question::MaxFee => "Max fee per transaction, in sat"@,
        Question::MaxFeeRate => "Max fee rate (sat/vB)"@,
        Question::Whitelist => "Destination whitelist addresses (comma-separated, optional)"@,
        Question::NotifyChannel => "Notification channel (ntfy/smtp/both)"@,
        Question::NtfyUrl => "ntfy topic URL"@,
        Question::NtfyToken => "ntfy auth token (optional)"@,
        Question::SmtpHost => "SMTP host"@,
        Question::SmtpPort => "SMTP port"@,
        Question::SmtpUsername => "SMTP username"@,
        Question::SmtpPassword => "SMTP password"@,
        Question::SmtpFrom => "SMTP from address"@,
        Question::SmtpTo => "SMTP to address"@,
        Question::HoldSeconds => "Hold time before signing an ordinary spend, in seconds"@,
        Question::SweepInterval => "Sweeper check interval, in seconds"@,
        Question::RenotifyInterval => "Reminder interval while a spend holds, in seconds"@,
        Question::RecoveryHold => "Hold time before signing a recovery spend, in seconds"@,
        Question::RecoveryWhitelist => {
            "Recovery destination whitelist addresses (comma-separated, optional)"@
        },
        Question::EnableNostr => "Enable it now? (y/n)"@,
        Question::NsecSource => "Where does this service's Nostr nsec live? (file/env)"@,
        Question::NsecFile => "Path to the nsec file"@,
        Question::NsecVariable => "Environment variable holding the nsec"@,
        Question::Relays => "Relay URLs (comma-separated)"@,
        Question::AllowedNpubs => {
            "Allowed npubs (one per device that may submit requests) (comma-separated)"@
        },
        Question::Finished => ""@,
    }
}

fn fixed_label(q: Question) -> (r: &'static str)
    requires
        !(q is Fingerprint),
        !(q is DerivationPath),
        !(q is ExtendedKey),
    ensures
        r@ == label(q),
{
    match q {
        Question::Network => "Network",
        Question::ConfirmMainnet => "Type YES to confirm this is really mainnet",
        Question::Timelock => "Recovery timelock in blocks (4320 = ~30 days)",
        Question::SigningSource => "Where does the SERVER private key live? (file/env)",
        Question::SigningFile => "Path to the SERVER xprv file",
        Question::SigningVariable => "Environment variable holding the SERVER xprv",
        Question::RpcUrl => "bitcoind RPC URL",
        Question::RpcAuth => "bitcoind auth (cookie/userpass)",
        Question::RpcCookie => "Path to bitcoind's .cookie file",
        Question::RpcUser => "bitcoind RPC username",
        Question::RpcPassword => "bitcoind RPC password",
        Question::BindAddress => "Bind address",
        Question::GapLimit => "Gap limit",
        Question::LedgerPath => "Ledger database path",
        Question::MaxTx => "Max sat per transaction",
        Question::MaxDaily => "Max sat per trailing 24h",
        Question::MaxWeekly => "Max sat per trailing 7d",
        Question::MaxMonthly => "Max sat per trailing 30d",
        Question::MaxFee => "Max fee per transaction, in sat",
        Question::MaxFeeRate => "Max fee rate (sat/vB)",
        Question::Whitelist => "Destination whitelist addresses (comma-separated, optional)",
        Question::NotifyChannel => "Notification channel (ntfy/smtp/both)",
        Question::NtfyUrl => "ntfy topic URL",
        Question::NtfyToken => "ntfy auth token (optional)",
        Question::SmtpHost => "SMTP host",
        Question::SmtpPort => "SMTP port",
        Question::SmtpUsername => "SMTP username",
        Question::SmtpPassword => "SMTP password",
        Question::SmtpFrom => "SMTP from address",
        Question::SmtpTo => "SMTP to address",
        Question::HoldSeconds => "Hold time before signing an ordinary spend, in seconds",
        Question::SweepInterval => "Sweeper check interval, in seconds",
        Question::RenotifyInterval => "Reminder interval while a spend holds, in seconds",
        Question::RecoveryHold => "Hold time before signing a recovery spend, in seconds",
        Question::RecoveryWhitelist => {
            "Recovery destination whitelist addresses (comma-separated, optional)"
        },
        Question::EnableNostr => "Enable it now? (y/n)",
        Question::NsecSource => "Where does this service's Nostr nsec live? (file/env)",
        Question::NsecFile => "Path to the nsec file",
        Question::NsecVariable => "Environment variable holding the nsec",
        Question::Relays => "Relay URLs (comma-separated)",
        Question::AllowedNpubs => {
            "Allowed npubs (one per device that may submit requests) (comma-separated)"
        },
        _ => "",
    }
}

fn push_label(out: &mut String, q: Question)
    ensures
        final(out)@ == old(out)@ + label(q),
{
    match q {
        Question::Fingerprint(role) => {
            out.append(role_label(role));
            out.append(" master fingerprint (8 hex chars)");
            assert(out@ =~= old(out)@ + label(q));
        },
        Question::DerivationPath(role) => {
            out.append(role_label(role));
            out.append(" derivation path");
            assert(out@ =~= old(out)@ + label(q));
        },
        Question::ExtendedKey(role) => {
            out.append(role_label(role));
            out.append(" extended public key (xpub/tpub)");
            assert(out@ =~= old(out)@ + label(q));
        },
        _ => {
            out.append(fixed_label(q));
        },
    }
}

/// What an empty answer stands for: nothing where an answer is owed.
pub open spec fn default_answer(m: Answers, q: Question) -> Option<Seq<char>> {
    match q {
        Question::Network => Some("signet"@),
        Question::Timelock => Some("4320"@),
        Question::DerivationPath(_) => Some("48h/1h/0h/2h"@),
        Question::SigningSource => Some("file"@),
        Question::SigningFile => Some("/etc/cosigner/server.xprv"@),
        Question::SigningVariable => Some("COSIGNER_SERVER_XPRV"@),
        Question::RpcUrl => Some(
            "http://127.0.0.1:"@ + bitcoind_port(network_called(m[Question::Network])),
        ),
        Question::RpcAuth => Some("cookie"@),
        Question::BindAddress => Some("127.0.0.1:8080"@),
        Question::GapLimit => Some("1000"@),
        Question::LedgerPath => Some("/var/lib/cosigner/ledger.sqlite3"@),
        Question::MaxTx => Some("500000"@),
        Question::MaxDaily => Some("1000000"@),
        Question::MaxWeekly => Some("3000000"@),
        Question::MaxMonthly => Some("8000000"@),
        Question::MaxFee => Some("50000"@),
        Question::MaxFeeRate => Some("200.0"@),
        Question::Whitelist | Question::RecoveryWhitelist | Question::NtfyToken => Some(""@),
        Question::NotifyChannel => Some("ntfy"@),
        Question::NtfyUrl => Some("https://ntfy.sh/replace-with-a-private-topic-name"@),
        Question::SmtpPort => Some("587"@),
        Question::HoldSeconds => Some("900"@),
        Question::SweepInterval => Some("5"@),
        Question::RenotifyInterval => Some("21600"@),
        Question::RecoveryHold => Some("172800"@),
        Question::EnableNostr => Some("n"@),
        Question::NsecSource => Some("env"@),
        Question::NsecFile => Some("/etc/cosigner/nostr.nsec"@),
        Question::NsecVariable => Some("COSIGNER_NOSTR_NSEC"@),
        _ => None,
    }
}

fn fixed_default(q: Question) -> (r: Option<&'static str>)
    requires
        q != Question::RpcUrl,
    ensures
        forall|m: Answers|
            #![trigger default_answer(m, q)]
            match r {
                Some(s) => default_answer(m, q) == Some(s@),
                None => default_answer(m, q) is None,
            },
{
    match q {
        Question::Network => Some("signet"),
        Question::Timelock => Some("4320"),
        Question::DerivationPath(_) => Some("48h/1h/0h/2h"),
        Question::SigningSource => Some("file"),
        Question::SigningFile => Some("/etc/cosigner/server.xprv"),
        Question::SigningVariable => Some("COSIGNER_SERVER_XPRV"),
        Question::RpcAuth => Some("cookie"),
        Question::BindAddress => Some("127.0.0.1:8080"),
        Question::GapLimit => Some("1000"),
        Question::LedgerPath => Some("/var/lib/cosigner/ledger.sqlite3"),
        Question::MaxTx => Some("500000"),
        Question::MaxDaily => Some("1000000"),
        Question::MaxWeekly => Some("3000000"),
        Question::MaxMonthly => Some("8000000"),
        Question::MaxFee => Some("50000"),
        Question::MaxFeeRate => Some("200.0"),
        Question::Whitelist | Question::RecoveryWhitelist | Question::NtfyToken => Some(""),
        Question::NotifyChannel => Some("ntfy"),
        Question::NtfyUrl => Some("https://ntfy.sh/replace-with-a-private-topic-name"),
        Question::SmtpPort => Some("587"),
        Question::HoldSeconds => Some("900"),
        Question::SweepInterval => Some("5"),
        Question::RenotifyInterval => Some("21600"),
        Question::RecoveryHold => Some("172800"),
        Question::EnableNostr => Some("n"),
        Question::NsecSource => Some("env"),
        Question::NsecFile => Some("/etc/cosigner/nostr.nsec"),
        Question::NsecVariable => Some("COSIGNER_NOSTR_NSEC"),
        _ => None,
    }
}

/// The title that a question comes under, printed above it; empty where it comes under the title
/// of the question before it.
pub open spec fn heading(q: Question) -> Seq<char> {
    match q {
        Question::Fingerprint(role) => "\n-- "@ + role_word(role) + " key --\n"@,
        Question::SigningSource => "\n-- SERVER signing key --\n"@,
        Question::RpcUrl => "\n-- bitcoind --\n"@,
        Question::BindAddress => "\n-- this service --\n"@,
        Question::MaxTx => {
            "\n-- spending policy (bootstraps the ledger on first start only) --\n"@
        },
        Question::NotifyChannel => "\n-- notifications (at least one channel is required) --\n"@,
        Question::RecoveryHold => "\n-- recovery (MOBILE + SERVER, if HARDWARE is lost) --\n"@,
        Question::EnableNostr => NOSTR_HEADING@,
        _ => ""@,
    }
}

/// The title of the questions on Nostr.
pub const NOSTR_HEADING: &'static str =
    "\n-- Nostr transport (optional - an alternate, authenticated front door for the same API, no open port needed) --\n";

fn push_heading(out: &mut String, q: Question)
    ensures
        final(out)@ == old(out)@ + heading(q),
{
    match q {
        Question::Fingerprint(role) => {
            out.append("\n-- ");
            out.append(role_label(role));
            out.append(" key --\n");
            assert(out@ =~= old(out)@ + heading(q));
        },
        Question::SigningSource => {
            out.append("\n-- SERVER signing key --\n");
        },
        Question::RpcUrl => {
            out.append("\n-- bitcoind --\n");
        },
        Question::BindAddress => {
            out.append("\n-- this service --\n");
        },
        Question::MaxTx => {
            out.append("\n-- spending policy (bootstraps the ledger on first start only) --\n");
        },
        Question::NotifyChannel => {
            out.append("\n-- notifications (at least one channel is required) --\n");
        },
        Question::RecoveryHold => {
            out.append("\n-- recovery (MOBILE + SERVER, if HARDWARE is lost) --\n");
        },
        Question::EnableNostr => {
            out.append(NOSTR_HEADING);
        },
        _ => {
            out.append("");
        },
    }
}

/// A question as it is printed: what it says, and what an empty answer stands for.
pub open spec fn asking(m: Answers, q: Question) -> Seq<char> {
    if q == Question::Finished {
        ""@
    } else {
        match default_answer(m, q) {
            Some(d) => label(q) + " ["@ + d + "]: "@,
            None => label(q) + ": "@,
        }
    }
}

/// The entries of a list with commas between them, without the white space around each.
pub open spec fn entries(v: Seq<char>) -> Seq<Seq<char>> {
    pieces(v, ',').map_values(|s: Seq<char>| trimmed(s))
}

/// The entries of a list that hold anything, among the first `n`.
pub open spec fn filled_entries(all: Seq<Seq<char>>, n: int) -> Seq<Seq<char>>
    decreases n,
{
    if n <= 0 {
        Seq::empty()
    } else if all[n - 1].len() > 0 {
        filled_entries(all, n - 1).push(all[n - 1])
    } else {
        filled_entries(all, n - 1)
    }
}

/// The entries of a list that hold anything.
pub open spec fn required_entries(v: Seq<char>) -> Seq<Seq<char>> {
    filled_entries(entries(v), entries(v).len() as int)
}

fn list_entries(v: &str) -> (r: Vec<String>)
    ensures
        r.deep_view() == entries(v@),
{
    let parts = split(v, ',');
    let mut out: Vec<String> = Vec::new();
    let mut i: usize = 0;
    while i < parts.len()
        invariant
            i <= parts.len(),
            parts.deep_view() == pieces(v@, ','),
            out.deep_view() == entries(v@).take(i as int),
        decreases parts.len() - i,
    {
        let ghost before = out.deep_view();
        let part = trim(parts[i].as_str()).to_owned();
        assert(parts.deep_view()[i as int] == parts[i as int]@);
        out.push(part);
        assert(out.deep_view() =~= before.push(part@));
        assert(entries(v@).take(i + 1) =~= entries(v@).take(i as int).push(entries(v@)[i as int]));
        i = i + 1;
    }
    assert(entries(v@).take(i as int) =~= entries(v@));
    out
}

fn list_of_required(v: &str) -> (r: Vec<String>)
    ensures
        r.deep_view() == required_entries(v@),
{
    let all = list_entries(v);
    let mut out: Vec<String> = Vec::new();
    let mut i: usize = 0;
    while i < all.len()
        invariant
            i <= all.len(),
            all.deep_view() == entries(v@),
            out.deep_view() == filled_entries(entries(v@), i as int),
        decreases all.len() - i,
    {
        assert(all.deep_view()[i as int] == all[i as int]@);
        if all[i].as_str().unicode_len() > 0 {
            let ghost before = out.deep_view();
            let item = all[i].clone();
            out.push(item);
            assert(out.deep_view() =~= before.push(all[i as int]@));
        }
        i = i + 1;
    }
    assert(all.deep_view().len() == all.len());
    out
}

/// What is said of an entry that is no address.
pub const NO_ADDRESS: &'static str = "not a valid address of this network";

/// What is wrong with an entry of a list.
pub open spec fn entry_complaint(kind: Kind, network: ChainNetwork, entry: Seq<char>) -> Option<
    Seq<char>,
> {
    match kind {
        Kind::Addresses => if address_is_for(entry, network) {
            None
        } else {
            Some(NO_ADDRESS@)
        },
        Kind::Relays => if is_relay_url(entry) {
            None
        } else {
            Some(NO_RELAY_URL@)
        },
        Kind::Npubs => if npub_key(trimmed(entry)) is Some {
            None
        } else {
            Some(npub_complaint(entry))
        },
        _ => None,
    }
}

/// What is wrong with the first entry that is not in order, among the first `n`.
pub open spec fn list_complaint(
    kind: Kind,
    network: ChainNetwork,
    all: Seq<Seq<char>>,
    n: int,
) -> Option<Seq<char>>
    decreases n,
{
    if n <= 0 {
        None
    } else {
        match list_complaint(kind, network, all, n - 1) {
            Some(c) => Some(c),
            None => match entry_complaint(kind, network, all[n - 1]) {
                Some(e) => Some(quoted(all[n - 1]) + ": "@ + e),
                None => None,
            },
        }
    }
}

proof fn lemma_list_complaint_stays(
    kind: Kind,
    network: ChainNetwork,
    all: Seq<Seq<char>>,
    i: int,
    n: int,
)
    requires
        0 <= i <= n,
        list_complaint(kind, network, all, i) is Some,
    ensures
        list_complaint(kind, network, all, n) == list_complaint(kind, network, all, i),
    decreases n - i,
{
    if i < n {
        lemma_list_complaint_stays(kind, network, all, i, n - 1);
    }
}

fn check_list(kind: Kind, network: ChainNetwork, items: &Vec<String>) -> (r: Result<(), String>)
    requires
        kind == Kind::Relays || kind == Kind::Npubs || kind == Kind::Addresses,
    ensures
        match r {
            Ok(_) => list_complaint(kind, network, items.deep_view(), items@.len() as int) is None,
            Err(c) => list_complaint(kind, network, items.deep_view(), items@.len() as int) == Some(c@),
        },
{
    let mut i: usize = 0;
    let ghost all = items.deep_view();
    while i < items.len()
        invariant
            i <= items.len(),
            kind == Kind::Relays || kind == Kind::Npubs || kind == Kind::Addresses,
            all == items.deep_view(),
            list_complaint(kind, network, all, i as int) is None,
        decreases items.len() - i,
    {
        assert(all[i as int] == items[i as int]@);
        let verdict = if kind == Kind::Relays {
            validate_relay_url(items[i].as_str())
        } else if kind == Kind::Addresses {
            if address_for_network(items[i].as_str(), network) {
                Ok(())
            } else {
                Err(NO_ADDRESS.to_owned())
            }
        } else {
            validate_npub(items[i].as_str())
        };
        match verdict {
            Ok(_) => {},
            Err(e) => {
                let mut out = quote(items[i].as_str());
                out.append(": ");
                out.append(e.as_str());
                proof {
                    lemma_list_complaint_stays(kind, network, all, i + 1, items.len() as int);
                }
                return Err(out);
            },
        }
        i = i + 1;
    }
    Ok(())
}

/// How an answer is judged.
pub enum Judgement {
    /// It is taken, in this spelling.
    Taken(Seq<char>),
    /// It is refused, and this is said.
    Refused(Seq<char>),
}

/// The number of steps in the path that was given for a role's key.
pub open spec fn steps_given(m: Answers, role: Role) -> nat {
    derivation_steps(m[Question::DerivationPath(role)])->Some_0.len()
}

/// How the answer `v` to a question of that kind is judged.
pub open spec fn judged(m: Answers, kind: Kind, v: Seq<char>) -> Judgement {
    match kind {
        Kind::Network => if is_network_name(lowercase(v)) {
            Judgement::Taken(lowercase(v))
        } else {
            Judgement::Refused("please enter one of: mainnet/testnet/signet/regtest"@)
        },
        Kind::Confirmation => if v == "YES"@ {
            Judgement::Taken(v)
        } else {
            Judgement::Refused("not confirmed - staying on network selection"@)
        },
        Kind::Blocks => match parsed_unsigned(v, 0xffff) {
            None => Judgement::Refused("not a valid number of blocks (max 65535)"@),
            Some(n) => if n == 0 {
                Judgement::Refused("must be non-zero"@)
            } else {
                Judgement::Taken(v)
            },
        },
        Kind::Fingerprint => if is_hex_of_len(v, 8) {
            Judgement::Taken(v)
        } else {
            Judgement::Refused("must be exactly 8 hex characters"@)
        },
        Kind::Path => if derivation_steps(v) is Some {
            Judgement::Taken(v)
        } else {
            Judgement::Refused(path_complaint(v))
        },
        Kind::ExtendedKey(role) => match xpub_complaint(
            network_called(m[Question::Network]),
            steps_given(m, role),
            v,
        ) {
            None => Judgement::Taken(v),
            Some(c) => Judgement::Refused(c),
        },
        Kind::Word(choice) => if is_word(choice, lowercase(v)) {
            Judgement::Taken(lowercase(v))
        } else {
            Judgement::Refused(word_complaint(choice))
        },
        Kind::Natural(most) => match parsed_unsigned(v, u64::MAX as nat) {
            None => Judgement::Refused("not a whole number"@),
            Some(n) => if n > most {
                Judgement::Refused("must be at most "@ + decimal(most as nat))
            } else {
                Judgement::Taken(v)
            },
        },
        Kind::Integer => if parsed_i64(v) is Some {
            Judgement::Taken(v)
        } else {
            Judgement::Refused("not a whole number"@)
        },
        Kind::Addresses => {
            let items = entries(v);
            if trimmed(v).len() == 0 {
                Judgement::Taken(v)
            } else {
                match list_complaint(
                    kind,
                    network_called(m[Question::Network]),
                    items,
                    items.len() as int,
                ) {
                    None => Judgement::Taken(v),
                    Some(c) => Judgement::Refused(c),
                }
            }
        },
        Kind::Relays | Kind::Npubs => {
            let network = network_called(m[Question::Network]);
            let items = required_entries(v);
            if items.len() == 0 {
                Judgement::Refused("at least one is required"@)
            } else {
                match list_complaint(kind, network, items, items.len() as int) {
                    None => Judgement::Taken(v),
                    Some(c) => Judgement::Refused(c),
                }
            }
        },
        Kind::Rate | Kind::Text => Judgement::Taken(v),
    }
}

/// What an answer to a question of that kind is known to be once it has been taken.
pub open spec fn fits(m: Answers, kind: Kind, t: Seq<char>) -> bool {
    match kind {
        Kind::Network => is_network_name(t),
        Kind::Confirmation => false,
        Kind::Blocks => parsed_unsigned(t, 0xffff) is Some && parsed_unsigned(t, 0xffff)->Some_0
            != 0,
        Kind::Fingerprint => is_hex_of_len(t, 8),
        Kind::Path => derivation_steps(t) is Some,
        Kind::ExtendedKey(role) => xpub_complaint(
            network_called(m[Question::Network]),
            steps_given(m, role),
            t,
        ) is None,
        Kind::Word(choice) => is_word(choice, t),
        Kind::Natural(most) => parsed_unsigned(t, u64::MAX as nat) matches Some(n) && n <= most,
        Kind::Integer => parsed_i64(t) is Some,
        Kind::Addresses => trimmed(t).len() > 0 ==> list_complaint(
            kind,
            network_called(m[Question::Network]),
            entries(t),
            entries(t).len() as int,
        ) is None,
        Kind::Relays | Kind::Npubs => {
            let network = network_called(m[Question::Network]);
            let items = required_entries(t);
            items.len() > 0 && list_complaint(kind, network, items, items.len() as int) is None
        },
        Kind::Rate | Kind::Text => true,
    }
}

/// Whether a question is among those asked, going by the choices made before it.
pub open spec fn asked(m: Answers, q: Question) -> bool {
    match q {
        Question::ConfirmMainnet | Question::Finished => false,
        Question::SigningFile => m[Question::SigningSource] == "file"@,
        Question::SigningVariable => m[Question::SigningSource] != "file"@,
        Question::RpcCookie => m[Question::RpcAuth] == "cookie"@,
        Question::RpcUser | Question::RpcPassword => m[Question::RpcAuth] != "cookie"@,
        Question::NtfyUrl | Question::NtfyToken => by_ntfy(m),
        Question::SmtpHost | Question::SmtpPort | Question::SmtpUsername | Question::SmtpPassword
        | Question::SmtpFrom | Question::SmtpTo => by_smtp(m),
        Question::NsecSource | Question::Relays | Question::AllowedNpubs => by_nostr(m),
        Question::NsecFile => by_nostr(m) && m[Question::NsecSource] == "file"@,
        Question::NsecVariable => by_nostr(m) && m[Question::NsecSource] != "file"@,
        _ => true,
    }
}

/// Whether ntfy was chosen.
pub open spec fn by_ntfy(m: Answers) -> bool {
    m[Question::NotifyChannel] == "ntfy"@ || m[Question::NotifyChannel] == "both"@
}

/// Whether mail was chosen.
pub open spec fn by_smtp(m: Answers) -> bool {
    m[Question::NotifyChannel] == "smtp"@ || m[Question::NotifyChannel] == "both"@
}

/// Whether Nostr was chosen.
pub open spec fn by_nostr(m: Answers) -> bool {
    m[Question::EnableNostr] == "y"@
}

/// The question that follows `q` once it has been answered.
pub open spec fn following(m: Answers, q: Question) -> Question {
    match q {
        Question::Network => if m[Question::Network] == "mainnet"@ {
            Question::ConfirmMainnet
        } else {
            Question::Timelock
        },
        Question::ConfirmMainnet => Question::Timelock,
        Question::Timelock => Question::Fingerprint(Role::Satochip),
        Question::Fingerprint(role) => Question::DerivationPath(role),
        Question::DerivationPath(role) => Question::ExtendedKey(role),
        Question::ExtendedKey(Role::Satochip) => Question::Fingerprint(Role::Mobile),
        Question::ExtendedKey(Role::Mobile) => Question::Fingerprint(Role::Server),
        Question::ExtendedKey(Role::Server) => Question::SigningSource,
        Question::SigningSource => if m[Question::SigningSource] == "file"@ {
            Question::SigningFile
        } else {
            Question::SigningVariable
        },
        Question::SigningFile | Question::SigningVariable => Question::RpcUrl,
        Question::RpcUrl => Question::RpcAuth,
        Question::RpcAuth => if m[Question::RpcAuth] == "cookie"@ {
            Question::RpcCookie
        } else {
            Question::RpcUser
        },
        Question::RpcUser => Question::RpcPassword,
        Question::RpcCookie | Question::RpcPassword => Question::BindAddress,
        Question::BindAddress => Question::GapLimit,
        Question::GapLimit => Question::LedgerPath,
        Question::LedgerPath => Question::MaxTx,
        Question::MaxTx => Question::MaxDaily,
        Question::MaxDaily => Question::MaxWeekly,
        Question::MaxWeekly => Question::MaxMonthly,
        Question::MaxMonthly => Question::MaxFee,
        Question::MaxFee => Question::MaxFeeRate,
        Question::MaxFeeRate => Question::Whitelist,
        Question::Whitelist => Question::NotifyChannel,
        Question::NotifyChannel => if by_ntfy(m) {
            Question::NtfyUrl
        } else {
            Question::SmtpHost
        },
        Question::NtfyUrl => Question::NtfyToken,
        Question::NtfyToken => if by_smtp(m) {
            Question::SmtpHost
        } else {
            Question::HoldSeconds
        },
        Question::SmtpHost => Question::SmtpPort,
        Question::SmtpPort => Question::SmtpUsername,
        Question::SmtpUsername => Question::SmtpPassword,
        Question::SmtpPassword => Question::SmtpFrom,
        Question::SmtpFrom => Question::SmtpTo,
        Question::SmtpTo => Question::HoldSeconds,
        Question::HoldSeconds => Question::SweepInterval,
        Question::SweepInterval => Question::RenotifyInterval,
        Question::RenotifyInterval => Question::RecoveryHold,
        Question::RecoveryHold => Question::RecoveryWhitelist,
        Question::RecoveryWhitelist => Question::EnableNostr,
        Question::EnableNostr => if by_nostr(m) {
            Question::NsecSource
        } else {
            Question::Finished
        },
        Question::NsecSource => if m[Question::NsecSource] == "file"@ {
            Question::NsecFile
        } else {
            Question::NsecVariable
        },
        Question::NsecFile | Question::NsecVariable => Question::Relays,
        Question::Relays => Question::AllowedNpubs,
        Question::AllowedNpubs | Question::Finished => Question::Finished,
    }
}

/// What holds of the answers while `q` is asked: exactly the questions before it that the choices
/// call for have been answered, and each answer is one that its question takes.
pub open spec fn in_order(m: Answers, q: Question) -> bool {
    &&& asked(m, q) || q == Question::ConfirmMainnet || q == Question::Finished
    &&& forall|p: Question| #[trigger]
        m.contains_key(p) <==> p.rank() < q.rank() && asked(m, p)
    &&& forall|p: Question| #[trigger] m.contains_key(p) ==> fits(m, p.kind(), m[p])
}

proof fn lemma_taken_fits(m: Answers, kind: Kind, v: Seq<char>)
    requires
        kind != Kind::Confirmation,
    ensures
        judged(m, kind, v) matches Judgement::Taken(t) ==> fits(m, kind, t),
{
}

proof fn lemma_words()
    ensures
        "ntfy"@ != "smtp"@,
        "ntfy"@ != "both"@,
        "smtp"@ != "both"@,
{
    reveal_strlit("ntfy");
    reveal_strlit("smtp");
    reveal_strlit("both");
    assert("ntfy"@[0] != "smtp"@[0]);
    assert("ntfy"@[0] != "both"@[0]);
    assert("smtp"@[0] != "both"@[0]);
}

proof fn lemma_ranks_differ(p: Question, q: Question)
    requires
        p.rank() == q.rank(),
    ensures
        p == q,
{
}

proof fn lemma_asked_before_stays(m: Answers, q: Question, t: Seq<char>, p: Question)
    requires
        p.rank() <= q.rank(),
    ensures
        asked(m.insert(q, t), p) == asked(m, p),
{
    let after = m.insert(q, t);
    assert(q != Question::SigningSource ==> after[Question::SigningSource]
        == m[Question::SigningSource]);
    assert(q != Question::RpcAuth ==> after[Question::RpcAuth] == m[Question::RpcAuth]);
    assert(q != Question::NotifyChannel ==> after[Question::NotifyChannel]
        == m[Question::NotifyChannel]);
    assert(q != Question::EnableNostr ==> after[Question::EnableNostr]
        == m[Question::EnableNostr]);
    assert(q != Question::NsecSource ==> after[Question::NsecSource] == m[Question::NsecSource]);
}

proof fn lemma_none_asked_between(m: Answers, q: Question, p: Question)
    requires
        asked(m, q),
        q.rank() < p.rank() < following(m, q).rank(),
        q == Question::NotifyChannel ==> is_word(Choice::Channel, m[q]),
    ensures
        !asked(m, p),
{
    lemma_words();
}

proof fn lemma_next_is_asked(m: Answers, q: Question)
    requires
        asked(m, q),
        by_ntfy(m) || by_smtp(m) || q.rank() < Question::NotifyChannel.rank(),
    ensures
        following(m, q).rank() > q.rank(),
        asked(m, following(m, q)) || following(m, q) == Question::ConfirmMainnet || following(m, q)
            == Question::Finished,
{
}

proof fn lemma_still_fits(m: Answers, q: Question, t: Seq<char>, p: Question)
    requires
        in_order(m, q),
        m.contains_key(p),
    ensures
        fits(m.insert(q, t), p.kind(), m[p]),
{
    assert(p.rank() < q.rank());
    assert(fits(m, p.kind(), m[p]));
    match p {
        Question::ExtendedKey(role) => {
            assert(q != Question::Network);
            assert(q != Question::DerivationPath(role));
        },
        Question::Whitelist | Question::RecoveryWhitelist | Question::Relays
        | Question::AllowedNpubs => {
            assert(q != Question::Network);
        },
        _ => {},
    }
}

proof fn lemma_answer_keeps_order(m: Answers, q: Question, t: Seq<char>)
    requires
        in_order(m, q),
        asked(m, q),
        fits(m, q.kind(), t),
    ensures
        in_order(m.insert(q, t), following(m.insert(q, t), q)),
{
    let after = m.insert(q, t);
    let next = following(after, q);
    lemma_asked_before_stays(m, q, t, q);
    assert(by_ntfy(after) || by_smtp(after) || q.rank() < Question::NotifyChannel.rank()) by {
        if q.rank() > Question::NotifyChannel.rank() {
            assert(m.contains_key(Question::NotifyChannel));
            assert(fits(m, Question::NotifyChannel.kind(), m[Question::NotifyChannel]));
        } else if q.rank() == Question::NotifyChannel.rank() {
            lemma_ranks_differ(q, Question::NotifyChannel);
        }
    }
    lemma_next_is_asked(after, q);
    assert forall|p: Question| #[trigger]
        after.contains_key(p) <==> p.rank() < next.rank() && asked(after, p) by {
        assert(m.contains_key(p) <==> p.rank() < q.rank() && asked(m, p));
        if p.rank() < q.rank() {
            lemma_asked_before_stays(m, q, t, p);
        } else if p.rank() == q.rank() {
            lemma_ranks_differ(p, q);
        } else if p.rank() < next.rank() {
            lemma_none_asked_between(after, q, p);
        }
    }
    assert forall|p: Question| #[trigger] after.contains_key(p) implies fits(
        after,
        p.kind(),
        after[p],
    ) by {
        if p != q {
            lemma_still_fits(m, q, t, p);
        } else {
            lemma_own_answer_fits(m, q, t);
        }
    }
}

proof fn lemma_own_answer_fits(m: Answers, q: Question, t: Seq<char>)
    requires
        fits(m, q.kind(), t),
    ensures
        fits(m.insert(q, t), q.kind(), t),
{
}

proof fn lemma_confirmed_keeps_order(m: Answers)
    requires
        in_order(m, Question::ConfirmMainnet),
    ensures
        in_order(m, Question::Timelock),
{
    assert forall|p: Question| #[trigger]
        m.contains_key(p) <==> p.rank() < 2 && asked(m, p) by {
        assert(m.contains_key(p) <==> p.rank() < 1 && asked(m, p));
    }
}

/// An answer that has been taken.
#[derive(Clone, Debug)]
pub struct Given {
    pub question: Question,
    pub text: String,
}

/// The answers in a list of them; the last to a question counts.
pub open spec fn given(all: Seq<Given>) -> Answers
    decreases all.len(),
{
    if all.len() == 0 {
        Map::empty()
    } else {
        given(all.drop_last()).insert(all.last().question, all.last().text@)
    }
}

/// What follows from a line that was given in answer to a question.
pub struct Turn {
    pub answers: Answers,
    pub question: Question,
    /// What is printed before the next line is read.
    pub printed: Seq<char>,
}

/// The turn to the next question after an answer was taken.
pub open spec fn onward(m: Answers, next: Question) -> Turn {
    Turn { answers: m, question: next, printed: heading(next) + asking(m, next) }
}

/// The turn that asks `q` again after an answer that is found fault with.
pub open spec fn again(m: Answers, q: Question, complaint: Seq<char>) -> Turn {
    Turn { answers: m, question: q, printed: "  "@ + complaint + "\n"@ + asking(m, q) }
}

/// What a line says: itself without the white space around it, or what an empty answer stands for.
pub open spec fn said(m: Answers, q: Question, line: Seq<char>) -> Option<Seq<char>> {
    if trimmed(line).len() > 0 {
        Some(trimmed(line))
    } else {
        default_answer(m, q)
    }
}

/// What follows from a line in answer to any question but the fee rate.
pub open spec fn turned(m: Answers, q: Question, line: Seq<char>) -> Turn {
    match said(m, q, line) {
        None => again(m, q, "this field is required"@),
        Some(v) => match judged(m, q.kind(), v) {
            Judgement::Taken(t) => if q == Question::ConfirmMainnet {
                onward(m, Question::Timelock)
            } else {
                onward(m.insert(q, t), following(m.insert(q, t), q))
            },
            Judgement::Refused(c) => if q == Question::ConfirmMainnet {
                again(Map::empty(), Question::Network, c)
            } else {
                again(m, q, c)
            },
        },
    }
}

/// What an interview wants of whoever runs it.
#[derive(Debug)]
pub enum Reply {
    /// Print this and read a line.
    Print(String),
    /// Read this as a fee rate.
    ReadRate(String),
}

/// An interview: the question that is being asked, and the answers so far.
#[derive(Debug)]
pub struct Interview {
    question: Question,
    taken: Vec<Given>,
    rate: FeeRate,
}

/// What is printed first.
pub const GREETING: &'static str =
    "Bitme Cosigner setup wizard\nPress enter to accept a default shown in [brackets].\n\n";

/// What is said where the fee rate is no number; the interview ends there.
pub const NO_RATE: &'static str = "max fee rate must be a number";

impl Interview {
    /// The answers so far.
    pub closed spec fn answers(self) -> Answers {
        given(self.taken@)
    }

    /// The question that is being asked.
    pub closed spec fn asks(self) -> Question {
        self.question
    }

    /// The fee rate, once it has been given.
    pub closed spec fn fee_rate(self) -> FeeRate {
        self.rate
    }

    /// Whether the answers are those that lead to the question.
    pub open spec fn wf(self) -> bool {
        in_order(self.answers(), self.asks())
    }

    /// Begins an interview, and gives what is printed first.
    pub fn start() -> (r: (Interview, String))
        ensures
            r.0.wf(),
            r.0.asks() == Question::Network,
            r.0.answers() == Map::<Question, Seq<char>>::empty(),
            r.1@ == GREETING@ + asking(r.0.answers(), Question::Network),
    {
        let it = Interview {
            question: Question::Network,
            taken: Vec::new(),
            rate: FeeRate { bits: 0 },
        };
        assert(it.answers() == Map::<Question, Seq<char>>::empty());
        let mut out = GREETING.to_owned();
        it.push_asking(&mut out);
        (it, out)
    }

    /// Whether nothing is left to ask.
    pub fn is_finished(&self) -> (r: bool)
        ensures
            r == (self.asks() == Question::Finished),
    {
        self.question == Question::Finished
    }

    /// The question that is being asked.
    pub fn current(&self) -> (r: Question)
        ensures
            r == self.asks(),
    {
        self.question
    }

    fn text_of(&self, q: Question) -> (r: &str)
        requires
            self.answers().contains_key(q),
        ensures
            r@ == self.answers()[q],
    {
        let mut i: usize = self.taken.len();
        assert(self.taken@.take(i as int) =~= self.taken@);
        while i > 0
            invariant
                i <= self.taken.len(),
                given(self.taken@.take(i as int)).contains_key(q),
                given(self.taken@.take(i as int))[q] == self.answers()[q],
            decreases i,
        {
            let ghost upto = self.taken@.take(i as int);
            assert(upto.drop_last() =~= self.taken@.take(i - 1));
            assert(upto.last() == self.taken@[i - 1]);
            if self.taken[i - 1].question == q {
                return self.taken[i - 1].text.as_str();
            }
            i = i - 1;
        }
        assert(self.taken@.take(0) =~= Seq::<Given>::empty());
        ""
    }

    fn network(&self) -> (r: ChainNetwork)
        requires
            self.answers().contains_key(Question::Network),
        ensures
            r == network_called(self.answers()[Question::Network]),
    {
        network_of_name(self.text_of(Question::Network))
    }

    fn default_of(&self) -> (r: Option<String>)
        requires
            self.wf(),
        ensures
            match r {
                Some(s) => default_answer(self.answers(), self.asks()) == Some(s@),
                None => default_answer(self.answers(), self.asks()) is None,
            },
    {
        if self.question == Question::RpcUrl {
            assert(self.answers().contains_key(Question::Network));
            let mut url = "http://127.0.0.1:".to_owned();
            url.append(default_bitcoind_port(self.network()));
            return Some(url);
        }
        match fixed_default(self.question) {
            Some(s) => {
                assert(default_answer(self.answers(), self.question) == Some(s@));
                Some(s.to_owned())
            },
            None => {
                assert(default_answer(self.answers(), self.question) is None);
                None
            },
        }
    }

    fn push_asking(&self, out: &mut String)
        requires
            self.wf(),
        ensures
            final(out)@ == old(out)@ + asking(self.answers(), self.asks()),
    {
        if self.question == Question::Finished {
            out.append("");
            return;
        }
        let d = self.default_of();
        push_label(out, self.question);
        match d {
            Some(d) => {
                out.append(" [");
                out.append(d.as_str());
                out.append("]: ");
            },
            None => {
                out.append(": ");
            },
        }
        assert(out@ =~= old(out)@ + asking(self.answers(), self.asks()));
    }

    /// Judges the answer `v` to the question: the text that is taken, or what is said against it.
    fn judge(&self, v: &str) -> (r: Result<String, String>)
        requires
            self.wf(),
        ensures
            match r {
                Ok(t) => judged(self.answers(), self.asks().kind(), v@) == Judgement::Taken(t@),
                Err(c) => judged(self.answers(), self.asks().kind(), v@) == Judgement::Refused(c@),
            },
    {
        let kind = self.question.answer_kind();
        match kind {
            Kind::Network => {
                let w = v.to_lowercase();
                if same_text(w.as_str(), "mainnet") || same_text(w.as_str(), "testnet") || same_text(
                    w.as_str(),
                    "signet",
                ) || same_text(w.as_str(), "regtest") {
                    Ok(w)
                } else {
                    Err("please enter one of: mainnet/testnet/signet/regtest".to_owned())
                }
            },
            Kind::Confirmation => if same_text(v, "YES") {
                Ok(v.to_owned())
            } else {
                Err("not confirmed - staying on network selection".to_owned())
            },
            Kind::Blocks => match parse_unsigned(v, 0xffff) {
                None => Err("not a valid number of blocks (max 65535)".to_owned()),
                Some(n) => if n == 0 {
                    Err("must be non-zero".to_owned())
                } else {
                    Ok(v.to_owned())
                },
            },
            Kind::Fingerprint => match validate_fingerprint(v) {
                Ok(_) => Ok(v.to_owned()),
                Err(c) => Err(c),
            },
            Kind::Path => match validate_derivation_path(v) {
                Ok(_) => Ok(v.to_owned()),
                Err(c) => Err(c),
            },
            Kind::ExtendedKey(role) => {
                assert(self.answers().contains_key(Question::Network));
                assert(self.answers().contains_key(Question::DerivationPath(role)));
                let network = self.network();
                let steps: usize = match validate_derivation_path(
                    self.text_of(Question::DerivationPath(role)),
                ) {
                    Ok(n) => n,
                    Err(_) => {
                        assert(false);
                        0
                    },
                };
                match validate_xpub_for(network, steps, v) {
                    Ok(_) => Ok(v.to_owned()),
                    Err(c) => Err(c),
                }
            },
            Kind::Word(choice) => {
                let w = v.to_lowercase();
                if is_word_of(choice, w.as_str()) {
                    Ok(w)
                } else {
                    Err(complaint_of_word(choice).to_owned())
                }
            },
            Kind::Natural(most) => match parse_unsigned(v, u64::MAX) {
                None => Err("not a whole number".to_owned()),
                Some(n) => if n > most {
                    let mut out = "must be at most ".to_owned();
                    push_decimal(&mut out, most);
                    Err(out)
                } else {
                    Ok(v.to_owned())
                },
            },
            Kind::Integer => match parse_i64(v) {
                Some(_) => Ok(v.to_owned()),
                None => Err("not a whole number".to_owned()),
            },
            Kind::Addresses => {
                if trim(v).unicode_len() == 0 {
                    return Ok(v.to_owned());
                }
                assert(self.answers().contains_key(Question::Network));
                let items = list_entries(v);
                assert(items.deep_view().len() == items@.len());
                match check_list(kind, self.network(), &items) {
                    Ok(_) => Ok(v.to_owned()),
                    Err(c) => Err(c),
                }
            },
            Kind::Relays | Kind::Npubs => {
                let items = list_of_required(v);
                assert(items.deep_view().len() == items@.len());
                if items.len() == 0 {
                    return Err("at least one is required".to_owned());
                }
                assert(self.answers().contains_key(Question::Network));
                match check_list(kind, self.network(), &items) {
                    Ok(_) => Ok(v.to_owned()),
                    Err(c) => Err(c),
                }
            },
            Kind::Rate | Kind::Text => Ok(v.to_owned()),
        }
    }

    fn next(&self) -> (r: Question)
        requires
            asked(self.answers(), self.asks()) || self.asks() == Question::ConfirmMainnet,
            self.answers().contains_key(self.asks()) || self.asks() == Question::ConfirmMainnet,
            self.asks() == Question::NtfyToken ==> self.answers().contains_key(
                Question::NotifyChannel,
            ),
        ensures
            r == following(self.answers(), self.asks()),
    {
        let q = self.question;
        match q {
            Question::Network => if same_text(self.text_of(q), "mainnet") {
                Question::ConfirmMainnet
            } else {
                Question::Timelock
            },
            Question::ConfirmMainnet => Question::Timelock,
            Question::Timelock => Question::Fingerprint(Role::Satochip),
            Question::Fingerprint(role) => Question::DerivationPath(role),
            Question::DerivationPath(role) => Question::ExtendedKey(role),
            Question::ExtendedKey(Role::Satochip) => Question::Fingerprint(Role::Mobile),
            Question::ExtendedKey(Role::Mobile) => Question::Fingerprint(Role::Server),
            Question::ExtendedKey(Role::Server) => Question::SigningSource,
            Question::SigningSource => if same_text(self.text_of(q), "file") {
                Question::SigningFile
            } else {
                Question::SigningVariable
            },
            Question::SigningFile | Question::SigningVariable => Question::RpcUrl,
            Question::RpcUrl => Question::RpcAuth,
            Question::RpcAuth => if same_text(self.text_of(q), "cookie") {
                Question::RpcCookie
            } else {
                Question::RpcUser
            },
            Question::RpcUser => Question::RpcPassword,
            Question::RpcCookie | Question::RpcPassword => Question::BindAddress,
            Question::BindAddress => Question::GapLimit,
            Question::GapLimit => Question::LedgerPath,
            Question::LedgerPath => Question::MaxTx,
            Question::MaxTx => Question::MaxDaily,
            Question::MaxDaily => Question::MaxWeekly,
            Question::MaxWeekly => Question::MaxMonthly,
            Question::MaxMonthly => Question::MaxFee,
            Question::MaxFee => Question::MaxFeeRate,
            Question::MaxFeeRate => Question::Whitelist,
            Question::Whitelist => Question::NotifyChannel,
            Question::NotifyChannel => {
                let channel = self.text_of(q);
                if same_text(channel, "ntfy") || same_text(channel, "both") {
                    Question::NtfyUrl
                } else {
                    Question::SmtpHost
                }
            },
            Question::NtfyUrl => Question::NtfyToken,
            Question::NtfyToken => {
                let channel = self.text_of(Question::NotifyChannel);
                if same_text(channel, "smtp") || same_text(channel, "both") {
                    Question::SmtpHost
                } else {
                    Question::HoldSeconds
                }
            },
            Question::SmtpHost => Question::SmtpPort,
            Question::SmtpPort => Question::SmtpUsername,
            Question::SmtpUsername => Question::SmtpPassword,
            Question::SmtpPassword => Question::SmtpFrom,
            Question::SmtpFrom => Question::SmtpTo,
            Question::SmtpTo => Question::HoldSeconds,
            Question::HoldSeconds => Question::SweepInterval,
            Question::SweepInterval => Question::RenotifyInterval,
            Question::RenotifyInterval => Question::RecoveryHold,
            Question::RecoveryHold => Question::RecoveryWhitelist,
            Question::RecoveryWhitelist => Question::EnableNostr,
            Question::EnableNostr => if same_text(self.text_of(q), "y") {
                Question::NsecSource
            } else {
                Question::Finished
            },
            Question::NsecSource => if same_text(self.text_of(q), "file") {
                Question::NsecFile
            } else {
                Question::NsecVariable
            },
            Question::NsecFile | Question::NsecVariable => Question::Relays,
            Question::Relays => Question::AllowedNpubs,
            Question::AllowedNpubs | Question::Finished => Question::Finished,
        }
    }

    fn take(self, text: String) -> (r: (Interview, String))
        requires
            self.wf(),
            asked(self.answers(), self.asks()),
            fits(self.answers(), self.asks().kind(), text@),
        ensures
            r.0.wf(),
            r.0.fee_rate() == self.fee_rate(),
            ({
                let m = self.answers().insert(self.asks(), text@);
                onward(m, following(m, self.asks())) == (Turn {
                    answers: r.0.answers(),
                    question: r.0.asks(),
                    printed: r.1@,
                })
            }),
    {
        let ghost m = self.answers().insert(self.question, text@);
        proof {
            lemma_answer_keeps_order(self.answers(), self.question, text@);
            if self.question == Question::NtfyToken {
                assert(self.answers().contains_key(Question::NotifyChannel));
            }
        }
        let mut it = self;
        let ghost before = it.taken@;
        it.taken.push(Given { question: it.question, text });
        assert(it.taken@.drop_last() =~= before);
        assert(it.answers() == m);
        let next = it.next();
        it.question = next;
        let mut out = String::new();
        push_heading(&mut out, next);
        it.push_asking(&mut out);
        assert(out@ =~= heading(next) + asking(m, next));
        (it, out)
    }

    fn retry(&self, complaint: &str) -> (r: String)
        requires
            self.wf(),
        ensures
            r@ == again(self.answers(), self.asks(), complaint@).printed,
    {
        let mut out = "  ".to_owned();
        out.append(complaint);
        out.append("\n");
        self.push_asking(&mut out);
        out
    }

    /// Takes the line that was given in answer to the question, and says what to do next. The
    /// answer on the fee rate is handed back to be read as a number (see [`Interview::rate_read`]).
    pub fn answer(self, line: &str) -> (r: (Interview, Reply))
        requires
            self.wf(),
            self.asks() != Question::Finished,
        ensures
            r.0.wf(),
            r.0.fee_rate() == self.fee_rate(),
            match r.1 {
                Reply::Print(out) => self.asks() != Question::MaxFeeRate && turned(
                    self.answers(),
                    self.asks(),
                    line@,
                ) == (Turn { answers: r.0.answers(), question: r.0.asks(), printed: out@ }),
                Reply::ReadRate(v) => self.asks() == Question::MaxFeeRate && r.0 == self && said(
                    self.answers(),
                    self.asks(),
                    line@,
                ) == Some(v@),
            },
    {
        let t = trim(line);
        let v: String = if t.unicode_len() > 0 {
            t.to_owned()
        } else {
            match self.default_of() {
                Some(d) => d,
                None => {
                    let out = self.retry("this field is required");
                    return (self, Reply::Print(out));
                },
            }
        };
        if self.question == Question::MaxFeeRate {
            return (self, Reply::ReadRate(v));
        }
        match self.judge(v.as_str()) {
            Ok(t) => {
                if self.question == Question::ConfirmMainnet {
                    proof {
                        lemma_confirmed_keeps_order(self.answers());
                    }
                    let it = Interview {
                        question: Question::Timelock,
                        taken: self.taken,
                        rate: self.rate,
                    };
                    let mut out = String::new();
                    push_heading(&mut out, Question::Timelock);
                    it.push_asking(&mut out);
                    assert(out@ =~= heading(Question::Timelock) + asking(
                        it.answers(),
                        Question::Timelock,
                    ));
                    return (it, Reply::Print(out));
                }
                proof {
                    lemma_taken_fits(self.answers(), self.question.kind(), v@);
                }
                let (it, out) = self.take(t);
                (it, Reply::Print(out))
            },
            Err(c) => {
                if self.question == Question::ConfirmMainnet {
                    let it = Interview {
                        question: Question::Network,
                        taken: Vec::new(),
                        rate: self.rate,
                    };
                    assert(it.answers() == Map::<Question, Seq<char>>::empty());
                    let out = it.retry(c.as_str());
                    return (it, Reply::Print(out));
                }
                let out = self.retry(c.as_str());
                (self, Reply::Print(out))
            },
        }
    }

    /// Takes the fee rate that an answer was read as, with its spelling in decimal.
    pub fn rate_read(self, rate: FeeRate, text: &str) -> (r: (Interview, String))
        requires
            self.wf(),
            self.asks() == Question::MaxFeeRate,
        ensures
            r.0.wf(),
            r.0.fee_rate() == rate,
            onward(
                self.answers().insert(Question::MaxFeeRate, text@),
                Question::Whitelist,
            ) == (Turn { answers: r.0.answers(), question: r.0.asks(), printed: r.1@ }),
    {
        let it = Interview { question: self.question, taken: self.taken, rate };
        it.take(text.to_owned())
    }
}

/// The number that an answer spells.
pub open spec fn natural(t: Seq<char>) -> u64 {
    parsed_unsigned(t, u64::MAX as nat)->Some_0 as u64
}

/// The signed number that an answer spells.
pub open spec fn integer(t: Seq<char>) -> i64 {
    parsed_i64(t)->Some_0 as i64
}

/// Whether a list is the one that an optional answer spells.
pub open spec fn is_optional_list(t: Seq<char>, list: Option<Vec<String>>) -> bool {
    match list {
        None => trimmed(t).len() == 0,
        Some(items) => trimmed(t).len() > 0 && items.deep_view() == entries(t),
    }
}

/// Whether a key is the one that was given for a role.
pub open spec fn is_key_given(m: Answers, role: Role, key: KeyAnswer) -> bool {
    &&& key.fingerprint@ == lowercase(m[Question::Fingerprint(role)])
    &&& key.derivation_path@ == m[Question::DerivationPath(role)]
    &&& key.xpub@ == m[Question::ExtendedKey(role)]
}

/// Whether the policy is the one that was given.
pub open spec fn is_policy_given(m: Answers, rate: FeeRate, p: PolicyAnswer) -> bool {
    &&& p.max_tx_sat == natural(m[Question::MaxTx])
    &&& p.max_daily_sat == natural(m[Question::MaxDaily])
    &&& p.max_weekly_sat == natural(m[Question::MaxWeekly])
    &&& p.max_monthly_sat == natural(m[Question::MaxMonthly])
    &&& p.max_fee_sat == natural(m[Question::MaxFee])
    &&& p.max_fee_rate_sat_per_vb == rate
    &&& p.max_fee_rate_text@ == m[Question::MaxFeeRate]
    &&& is_optional_list(m[Question::Whitelist], p.destination_whitelist)
}

/// Whether the channels are those that were given.
pub open spec fn is_notify_given(m: Answers, n: NotifyAnswer) -> bool {
    &&& n.hold_seconds == integer(m[Question::HoldSeconds])
    &&& n.sweep_interval_seconds == natural(m[Question::SweepInterval])
    &&& n.renotify_interval_seconds == integer(m[Question::RenotifyInterval])
    &&& match n.ntfy_url {
        None => !by_ntfy(m),
        Some(url) => by_ntfy(m) && url@ == m[Question::NtfyUrl],
    }
    &&& match n.ntfy_auth_token {
        None => !by_ntfy(m) || m[Question::NtfyToken].len() == 0,
        Some(token) => by_ntfy(m) && token@ == m[Question::NtfyToken] && token@.len() > 0,
    }
    &&& match n.smtp {
        None => !by_smtp(m),
        Some(s) => {
            &&& by_smtp(m)
            &&& s.host@ == m[Question::SmtpHost]
            &&& s.port == natural(m[Question::SmtpPort])
            &&& s.username@ == m[Question::SmtpUsername]
            &&& s.password@ == m[Question::SmtpPassword]
            &&& s.from@ == m[Question::SmtpFrom]
            &&& s.to@ == m[Question::SmtpTo]
        },
    }
}

/// Whether the section on Nostr is the one that was given.
pub open spec fn is_nostr_given(m: Answers, nostr: Option<NostrTransportAnswer>) -> bool {
    match nostr {
        None => !by_nostr(m),
        Some(n) => {
            &&& by_nostr(m)
            &&& match n.nsec {
                NostrNsecAnswer::File(path) => m[Question::NsecSource] == "file"@ && path@
                    == m[Question::NsecFile],
                NostrNsecAnswer::EnvVar(var) => m[Question::NsecSource] != "file"@ && var@
                    == m[Question::NsecVariable],
            }
            &&& n.relays.deep_view() == required_entries(m[Question::Relays])
            &&& n.allowed_npubs.deep_view() == required_entries(m[Question::AllowedNpubs])
        },
    }
}

/// Whether `a` is what was given in an interview.
pub open spec fn are_given(m: Answers, rate: FeeRate, a: WizardAnswers) -> bool {
    &&& a.network == network_called(m[Question::Network])
    &&& Some(a.timelock_blocks as nat) == parsed_unsigned(m[Question::Timelock], 0xffff)
    &&& is_key_given(m, Role::Satochip, a.hardware)
    &&& is_key_given(m, Role::Mobile, a.mobile)
    &&& is_key_given(m, Role::Server, a.server)
    &&& match a.server_signing {
        ServerSigningAnswer::File(path) => m[Question::SigningSource] == "file"@ && path@
            == m[Question::SigningFile],
        ServerSigningAnswer::EnvVar(var) => m[Question::SigningSource] != "file"@ && var@
            == m[Question::SigningVariable],
    }
    &&& a.bitcoind_rpc_url@ == m[Question::RpcUrl]
    &&& match a.bitcoind_auth {
        BitcoindAuthAnswer::Cookie(path) => m[Question::RpcAuth] == "cookie"@ && path@
            == m[Question::RpcCookie],
        BitcoindAuthAnswer::UserPass(user, pass) => m[Question::RpcAuth] != "cookie"@ && user@
            == m[Question::RpcUser] && pass@ == m[Question::RpcPassword],
    }
    &&& a.bind_addr@ == m[Question::BindAddress]
    &&& a.gap_limit == natural(m[Question::GapLimit])
    &&& a.ledger_db_path@ == m[Question::LedgerPath]
    &&& is_policy_given(m, rate, a.policy)
    &&& is_notify_given(m, a.notify)
    &&& a.recovery_hold_seconds == integer(m[Question::RecoveryHold])
    &&& is_optional_list(m[Question::RecoveryWhitelist], a.recovery_destination_whitelist)
    &&& is_nostr_given(m, a.nostr_transport)
}

/// Whether every entry of a list, where there is one, is an address of the network.
pub open spec fn are_addresses(list: Option<Vec<String>>, network: ChainNetwork) -> bool {
    list matches Some(items) ==> forall|i: int|
        0 <= i < items@.len() ==> address_is_for((#[trigger] items@[i])@, network)
}

/// What every finished interview promises of its answers: keys and addresses that belong to the
/// wallet's network, a timelock, a channel to be told of spends by, and, where Nostr is used,
/// relays and senders that are what they should be.
pub open spec fn are_sound(a: WizardAnswers) -> bool {
    &&& a.timelock_blocks != 0
    &&& is_sound_key(a.network, a.hardware)
    &&& is_sound_key(a.network, a.mobile)
    &&& is_sound_key(a.network, a.server)
    &&& are_addresses(a.policy.destination_whitelist, a.network)
    &&& are_addresses(a.recovery_destination_whitelist, a.network)
    &&& a.notify.ntfy_url is Some || a.notify.smtp is Some
    &&& a.nostr_transport matches Some(n) ==> are_sound_peers(n)
}

/// Whether there are relays and senders, each what it should be.
pub open spec fn are_sound_peers(n: NostrTransportAnswer) -> bool {
    &&& n.relays@.len() > 0
    &&& forall|i: int| 0 <= i < n.relays@.len() ==> is_relay_url(#[trigger] n.relays@[i]@)
    &&& n.allowed_npubs@.len() > 0
    &&& forall|i: int|
        0 <= i < n.allowed_npubs@.len() ==> npub_key(trimmed(#[trigger] n.allowed_npubs@[i]@))
            is Some
}

proof fn lemma_no_complaint_about_any(
    kind: Kind,
    network: ChainNetwork,
    all: Seq<Seq<char>>,
    n: int,
    i: int,
)
    requires
        list_complaint(kind, network, all, n) is None,
        0 <= i < n,
    ensures
        entry_complaint(kind, network, all[i]) is None,
    decreases n,
{
    if i < n - 1 {
        lemma_no_complaint_about_any(kind, network, all, n - 1, i);
    }
}

impl Interview {
    fn number(&self, q: Question) -> (r: u64)
        requires
            self.answers().contains_key(q),
            parsed_unsigned(self.answers()[q], u64::MAX as nat) is Some,
        ensures
            r == natural(self.answers()[q]),
    {
        match parse_unsigned(self.text_of(q), u64::MAX) {
            Some(n) => n,
            None => 0,
        }
    }

    fn signed(&self, q: Question) -> (r: i64)
        requires
            self.answers().contains_key(q),
            parsed_i64(self.answers()[q]) is Some,
        ensures
            r == integer(self.answers()[q]),
    {
        match parse_i64(self.text_of(q)) {
            Some(n) => n,
            None => 0,
        }
    }

    fn optional_list(&self, q: Question) -> (r: Option<Vec<String>>)
        requires
            self.answers().contains_key(q),
            fits(self.answers(), Kind::Addresses, self.answers()[q]),
        ensures
            is_optional_list(self.answers()[q], r),
            are_addresses(r, network_called(self.answers()[Question::Network])),
    {
        let ghost network = network_called(self.answers()[Question::Network]);
        let t = self.text_of(q);
        if trim(t).unicode_len() == 0 {
            None
        } else {
            let items = list_entries(t);
            proof {
                let all = items.deep_view();
                assert forall|i: int| 0 <= i < items@.len() implies address_is_for(
                    (#[trigger] items@[i])@,
                    network,
                ) by {
                    lemma_no_complaint_about_any(
                        Kind::Addresses,
                        network,
                        all,
                        all.len() as int,
                        i,
                    );
                    assert(all[i] == items@[i]@);
                }
            }
            Some(items)
        }
    }

    fn key(&self, role: Role) -> (r: KeyAnswer)
        requires
            self.wf(),
            self.asks() == Question::Finished,
        ensures
            is_key_given(self.answers(), role, r),
            is_sound_key(network_called(self.answers()[Question::Network]), r),
    {
        let ghost m = self.answers();
        proof {
            assert(m.contains_key(Question::Fingerprint(role)));
            assert(m.contains_key(Question::DerivationPath(role)));
            assert(m.contains_key(Question::ExtendedKey(role)));
            lemma_lower_case_hex(m[Question::Fingerprint(role)]);
        }
        KeyAnswer {
            fingerprint: self.text_of(Question::Fingerprint(role)).to_lowercase(),
            derivation_path: self.text_of(Question::DerivationPath(role)).to_owned(),
            xpub: self.text_of(Question::ExtendedKey(role)).to_owned(),
        }
    }

    fn policy(&self) -> (r: PolicyAnswer)
        requires
            self.wf(),
            self.asks() == Question::Finished,
        ensures
            is_policy_given(self.answers(), self.fee_rate(), r),
            are_addresses(
                r.destination_whitelist,
                network_called(self.answers()[Question::Network]),
            ),
    {
        let ghost m = self.answers();
        proof {
            assert(m.contains_key(Question::MaxTx));
            assert(m.contains_key(Question::MaxDaily));
            assert(m.contains_key(Question::MaxWeekly));
            assert(m.contains_key(Question::MaxMonthly));
            assert(m.contains_key(Question::MaxFee));
            assert(m.contains_key(Question::MaxFeeRate));
            assert(m.contains_key(Question::Whitelist));
        }
        PolicyAnswer {
            max_tx_sat: self.number(Question::MaxTx),
            max_daily_sat: self.number(Question::MaxDaily),
            max_weekly_sat: self.number(Question::MaxWeekly),
            max_monthly_sat: self.number(Question::MaxMonthly),
            max_fee_sat: self.number(Question::MaxFee),
            max_fee_rate_sat_per_vb: self.rate,
            max_fee_rate_text: self.text_of(Question::MaxFeeRate).to_owned(),
            destination_whitelist: self.optional_list(Question::Whitelist),
        }
    }

    fn notify(&self) -> (r: NotifyAnswer)
        requires
            self.wf(),
            self.asks() == Question::Finished,
        ensures
            is_notify_given(self.answers(), r),
            r.ntfy_url is Some || r.smtp is Some,
    {
        let ghost m = self.answers();
        proof {
            assert(m.contains_key(Question::NotifyChannel));
            assert(m.contains_key(Question::HoldSeconds));
            assert(m.contains_key(Question::SweepInterval));
            assert(m.contains_key(Question::RenotifyInterval));
        }
        let channel = self.text_of(Question::NotifyChannel);
        let both = same_text(channel, "both");
        let mut ntfy_url: Option<String> = None;
        let mut ntfy_auth_token: Option<String> = None;
        if both || same_text(channel, "ntfy") {
            assert(m.contains_key(Question::NtfyUrl));
            assert(m.contains_key(Question::NtfyToken));
            ntfy_url = Some(self.text_of(Question::NtfyUrl).to_owned());
            let token = self.text_of(Question::NtfyToken);
            if token.unicode_len() > 0 {
                ntfy_auth_token = Some(token.to_owned());
            }
        }
        let mut smtp: Option<SmtpAnswer> = None;
        if both || same_text(channel, "smtp") {
            proof {
                assert(m.contains_key(Question::SmtpHost));
                assert(m.contains_key(Question::SmtpPort));
                assert(m.contains_key(Question::SmtpUsername));
                assert(m.contains_key(Question::SmtpPassword));
                assert(m.contains_key(Question::SmtpFrom));
                assert(m.contains_key(Question::SmtpTo));
            }
            smtp = Some(
                SmtpAnswer {
                    host: self.text_of(Question::SmtpHost).to_owned(),
                    port: self.number(Question::SmtpPort) as u16,
                    username: self.text_of(Question::SmtpUsername).to_owned(),
                    password: self.text_of(Question::SmtpPassword).to_owned(),
                    from: self.text_of(Question::SmtpFrom).to_owned(),
                    to: self.text_of(Question::SmtpTo).to_owned(),
                },
            );
        }
        NotifyAnswer {
            hold_seconds: self.signed(Question::HoldSeconds),
            sweep_interval_seconds: self.number(Question::SweepInterval),
            renotify_interval_seconds: self.signed(Question::RenotifyInterval),
            ntfy_url,
            ntfy_auth_token,
            smtp,
        }
    }

    fn nostr(&self) -> (r: Option<NostrTransportAnswer>)
        requires
            self.wf(),
            self.asks() == Question::Finished,
        ensures
            is_nostr_given(self.answers(), r),
            r matches Some(n) ==> are_sound_peers(n),
    {
        let ghost m = self.answers();
        assert(m.contains_key(Question::EnableNostr));
        if !same_text(self.text_of(Question::EnableNostr), "y") {
            return None;
        }
        proof {
            assert(m.contains_key(Question::NsecSource));
            assert(m.contains_key(Question::Relays));
            assert(m.contains_key(Question::AllowedNpubs));
        }
        let nsec = if same_text(self.text_of(Question::NsecSource), "file") {
            assert(m.contains_key(Question::NsecFile));
            NostrNsecAnswer::File(self.text_of(Question::NsecFile).to_owned())
        } else {
            assert(m.contains_key(Question::NsecVariable));
            NostrNsecAnswer::EnvVar(self.text_of(Question::NsecVariable).to_owned())
        };
        let relays = list_of_required(self.text_of(Question::Relays));
        let allowed_npubs = list_of_required(self.text_of(Question::AllowedNpubs));
        proof {
            let rs = relays.deep_view();
            assert(rs.len() == relays@.len());
            assert forall|i: int| 0 <= i < relays@.len() implies is_relay_url(
                #[trigger] relays@[i]@,
            ) by {
                lemma_no_complaint_about_any(Kind::Relays, network_called(m[Question::Network]), rs, rs.len() as int, i);
                assert(rs[i] == relays@[i]@);
            }
            let ns = allowed_npubs.deep_view();
            assert(ns.len() == allowed_npubs@.len());
            assert forall|i: int| 0 <= i < allowed_npubs@.len() implies npub_key(
                trimmed(#[trigger] allowed_npubs@[i]@),
            ) is Some by {
                lemma_no_complaint_about_any(Kind::Npubs, network_called(m[Question::Network]), ns, ns.len() as int, i);
                assert(ns[i] == allowed_npubs@[i]@);
            }
        }
        Some(NostrTransportAnswer { nsec, relays, allowed_npubs })
    }

    /// The answers of an interview in which nothing is left to ask.
    pub fn finish(&self) -> (r: WizardAnswers)
        requires
            self.wf(),
            self.asks() == Question::Finished,
        ensures
            are_given(self.answers(), self.fee_rate(), r),
            are_sound(r),
    {
        let ghost m = self.answers();
        proof {
            assert(m.contains_key(Question::Network));
            assert(m.contains_key(Question::Timelock));
            assert(m.contains_key(Question::SigningSource));
            assert(m.contains_key(Question::RpcUrl));
            assert(m.contains_key(Question::RpcAuth));
            assert(m.contains_key(Question::BindAddress));
            assert(m.contains_key(Question::GapLimit));
            assert(m.contains_key(Question::LedgerPath));
            assert(m.contains_key(Question::RecoveryHold));
            assert(m.contains_key(Question::RecoveryWhitelist));
        }
        let timelock_blocks: u16 = match parse_unsigned(self.text_of(Question::Timelock), 0xffff) {
            Some(n) => n as u16,
            None => 0,
        };
        let server_signing = if same_text(self.text_of(Question::SigningSource), "file") {
            assert(m.contains_key(Question::SigningFile));
            ServerSigningAnswer::File(self.text_of(Question::SigningFile).to_owned())
        } else {
            assert(m.contains_key(Question::SigningVariable));
            ServerSigningAnswer::EnvVar(self.text_of(Question::SigningVariable).to_owned())
        };
        let bitcoind_auth = if same_text(self.text_of(Question::RpcAuth), "cookie") {
            assert(m.contains_key(Question::RpcCookie));
            BitcoindAuthAnswer::Cookie(self.text_of(Question::RpcCookie).to_owned())
        } else {
            assert(m.contains_key(Question::RpcUser));
            assert(m.contains_key(Question::RpcPassword));
            BitcoindAuthAnswer::UserPass(
                self.text_of(Question::RpcUser).to_owned(),
                self.text_of(Question::RpcPassword).to_owned(),
            )
        };
        WizardAnswers {
            network: self.network(),
            timelock_blocks,
            hardware: self.key(Role::Satochip),
            mobile: self.key(Role::Mobile),
            server: self.key(Role::Server),
            server_signing,
            bitcoind_rpc_url: self.text_of(Question::RpcUrl).to_owned(),
            bitcoind_auth,
            bind_addr: self.text_of(Question::BindAddress).to_owned(),
            gap_limit: self.number(Question::GapLimit) as u32,
            ledger_db_path: self.text_of(Question::LedgerPath).to_owned(),
            policy: self.policy(),
            notify: self.notify(),
            recovery_hold_seconds: self.signed(Question::RecoveryHold),
            recovery_destination_whitelist: self.optional_list(Question::RecoveryWhitelist),
            nostr_transport: self.nostr(),
        }
    }
}

/// A blank line never answers a question that has no default: the question is asked again, and the
/// answers stay as they are.
pub proof fn law_an_owed_answer_cannot_be_skipped(m: Answers, q: Question, line: Seq<char>)
    requires
        trimmed(line).len() == 0,
        default_answer(m, q) is None,
    ensures
        turned(m, q, line).answers == m,
        turned(m, q, line).question == q,
{
}

/// An answer that is refused is not kept, and its question is asked again.
pub proof fn law_a_refused_answer_changes_nothing(
    m: Answers,
    q: Question,
    line: Seq<char>,
    v: Seq<char>,
)
    requires
        q != Question::ConfirmMainnet,
        said(m, q, line) == Some(v),
        judged(m, q.kind(), v) is Refused,
    ensures
        turned(m, q, line).answers == m,
        turned(m, q, line).question == q,
{
}

/// Nobody gets past the choice of the network onto mainnet without typing YES: a line that leads
/// on to the timelock either names another network, or is the word itself.
pub proof fn law_mainnet_has_to_be_confirmed(m: Answers, q: Question, line: Seq<char>)
    requires
        q == Question::Network || q == Question::ConfirmMainnet,
        turned(m, q, line).question == Question::Timelock,
    ensures
        q == Question::Network ==> turned(m, q, line).answers[Question::Network] != "mainnet"@,
        q == Question::ConfirmMainnet ==> trimmed(line) == "YES"@,
{
}

/// Of a list, every entry that is not blank is kept, in order, and none that is.
pub proof fn law_every_entry_that_is_not_blank_is_kept(all: Seq<Seq<char>>, e: Seq<char>)
    ensures
        filled_entries(Seq::empty(), 0).len() == 0,
        filled_entries(all.push(e), all.len() as int + 1) == if e.len() > 0 {
            filled_entries(all, all.len() as int).push(e)
        } else {
            filled_entries(all, all.len() as int)
        },
{
    lemma_filled_of_a_prefix(all, all.push(e), all.len() as int);
}

proof fn lemma_filled_of_a_prefix(a: Seq<Seq<char>>, b: Seq<Seq<char>>, n: int)
    requires
        0 <= n <= a.len() <= b.len(),
        forall|i: int| 0 <= i < n ==> a[i] == b[i],
    ensures
        filled_entries(a, n) == filled_entries(b, n),
    decreases n,
{
    if n > 0 {
        lemma_filled_of_a_prefix(a, b, n - 1);
    }
}

/// A list is refused exactly where an entry of it is, for what is wrong with it: an address that is not
/// of the network, a relay that is not reached by a web socket, an `npub` that is none.
pub proof fn law_a_list_is_taken_where_every_entry_is(
    kind: Kind,
    network: ChainNetwork,
    all: Seq<Seq<char>>,
    n: int,
)
    requires
        0 <= n <= all.len(),
    ensures
        list_complaint(kind, network, all, n) is None <==> forall|i: int|
            0 <= i < n ==> entry_complaint(kind, network, #[trigger] all[i]) is None,
        forall|e: Seq<char>|
            #![trigger entry_complaint(kind, network, e)]
            (kind == Kind::Addresses ==> (entry_complaint(kind, network, e) is None
                <==> address_is_for(e, network))) && (kind == Kind::Npubs ==> (entry_complaint(
                kind,
                network,
                e,
            ) is None <==> npub_key(trimmed(e)) is Some)) && (kind == Kind::Relays ==> (
            entry_complaint(kind, network, e) is None <==> is_relay_url(e))),
    decreases n,
{
    if n > 0 {
        law_a_list_is_taken_where_every_entry_is(kind, network, all, n - 1);
    }
}

/// A number is taken exactly where its field can hold it: a timelock from 1 to 65535 blocks, a port up
/// to 65535, a gap limit up to 4294967295, and an amount or an interval up to what 64 bits hold.
pub proof fn law_a_number_is_taken_where_its_field_holds_it(m: Answers, n: nat)
    ensures
        judged(m, Question::Timelock.kind(), decimal(n)) is Taken <==> 1 <= n <= 65_535,
        judged(m, Question::SmtpPort.kind(), decimal(n)) is Taken <==> n <= 65_535,
        judged(m, Question::GapLimit.kind(), decimal(n)) is Taken <==> n <= 4_294_967_295,
        judged(m, Question::MaxTx.kind(), decimal(n)) is Taken <==> n <= u64::MAX,
        judged(m, Question::MaxDaily.kind(), decimal(n)) is Taken <==> n <= u64::MAX,
        judged(m, Question::MaxWeekly.kind(), decimal(n)) is Taken <==> n <= u64::MAX,
        judged(m, Question::MaxMonthly.kind(), decimal(n)) is Taken <==> n <= u64::MAX,
        judged(m, Question::MaxFee.kind(), decimal(n)) is Taken <==> n <= u64::MAX,
        judged(m, Question::SweepInterval.kind(), decimal(n)) is Taken <==> n <= u64::MAX,
        n <= u64::MAX ==> natural(decimal(n)) == n,
{
    law_a_number_within_the_limit_is_read(n, 0xffff);
    law_a_number_within_the_limit_is_read(n, u64::MAX as nat);
}

/// An answer that is taken is what was typed, without the white space around it, in lower case where it
/// is a word, or else what is offered where nothing was typed; it is kept under its question, and no
/// other answer changes.
pub proof fn law_a_taken_answer_is_what_was_said(m: Answers, q: Question, line: Seq<char>)
    requires
        q != Question::ConfirmMainnet,
        turned(m, q, line).question != q,
    ensures
        ({
            let typed = trimmed(line);
            let after = turned(m, q, line).answers;
            let v = if typed.len() > 0 {
                typed
            } else {
                default_answer(m, q)->Some_0
            };
            &&& typed.len() > 0 || default_answer(m, q) is Some
            &&& after.contains_key(q)
            &&& after[q] == v || after[q] == lowercase(v)
            &&& forall|p: Question| p != q ==> (after.contains_key(p) <==> m.contains_key(p))
            &&& forall|p: Question| p != q && m.contains_key(p) ==> #[trigger] after[p] == m[p]
        }),
{
}

/// Questions come in one order, each after all that were asked before it.
pub proof fn law_no_question_comes_back(m: Answers, q: Question)
    requires
        asked(m, q),
        q == Question::NotifyChannel ==> is_word(Choice::Channel, m[q]),
        q == Question::NtfyToken || q == Question::NtfyUrl ==> by_ntfy(m),
    ensures
        following(m, q).rank() > q.rank(),
{
}

/// Each answer fills its own field: the numbers, limits, keys, places and people that were given are those
/// that the configuration is written with.
pub proof fn law_each_answer_fills_its_own_field(
    m: Answers,
    rate: FeeRate,
    a: WizardAnswers,
    q: Question,
    n: nat,
)
    requires
        are_given(m, rate, a),
        m[q] == decimal(n),
        n <= u64::MAX,
    ensures
        q == Question::MaxTx ==> a.policy.max_tx_sat == n,
        q == Question::MaxDaily ==> a.policy.max_daily_sat == n,
        q == Question::MaxWeekly ==> a.policy.max_weekly_sat == n,
        q == Question::MaxMonthly ==> a.policy.max_monthly_sat == n,
        q == Question::MaxFee ==> a.policy.max_fee_sat == n,
        q == Question::SweepInterval ==> a.notify.sweep_interval_seconds == n,
        q == Question::GapLimit && n <= u32::MAX ==> a.gap_limit == n,
        q == Question::Timelock && n <= 0xffff ==> a.timelock_blocks == n,
        q == Question::HoldSeconds && n <= i64::MAX ==> a.notify.hold_seconds == n,
        q == Question::RenotifyInterval && n <= i64::MAX ==> a.notify.renotify_interval_seconds
            == n,
        q == Question::RecoveryHold && n <= i64::MAX ==> a.recovery_hold_seconds == n,
        q == Question::SmtpPort && n <= 0xffff ==> (a.notify.smtp matches Some(s) ==> s.port == n),
        a.policy.max_fee_rate_sat_per_vb == rate,
        a.hardware.xpub@ == m[Question::ExtendedKey(Role::Satochip)],
        a.mobile.xpub@ == m[Question::ExtendedKey(Role::Mobile)],
        a.server.xpub@ == m[Question::ExtendedKey(Role::Server)],
        a.hardware.derivation_path@ == m[Question::DerivationPath(Role::Satochip)],
        a.mobile.derivation_path@ == m[Question::DerivationPath(Role::Mobile)],
        a.server.derivation_path@ == m[Question::DerivationPath(Role::Server)],
        a.hardware.fingerprint@ == lowercase(m[Question::Fingerprint(Role::Satochip)]),
        a.mobile.fingerprint@ == lowercase(m[Question::Fingerprint(Role::Mobile)]),
        a.server.fingerprint@ == lowercase(m[Question::Fingerprint(Role::Server)]),
        a.bitcoind_rpc_url@ == m[Question::RpcUrl],
        a.bind_addr@ == m[Question::BindAddress],
        a.ledger_db_path@ == m[Question::LedgerPath],
        a.notify.smtp matches Some(s) ==> s.host@ == m[Question::SmtpHost] && s.username@
            == m[Question::SmtpUsername] && s.password@ == m[Question::SmtpPassword] && s.from@
            == m[Question::SmtpFrom] && s.to@ == m[Question::SmtpTo],
        a.notify.ntfy_url matches Some(u) ==> u@ == m[Question::NtfyUrl],
        a.nostr_transport matches Some(t) ==> t.relays.deep_view() == required_entries(
            m[Question::Relays],
        ) && t.allowed_npubs.deep_view() == required_entries(m[Question::AllowedNpubs]),
{
    law_a_number_within_the_limit_is_read(n, u64::MAX as nat);
    law_a_number_within_the_limit_is_read(n, 0xffff);
}

/// What is chosen decides what is written: a file or a variable for the server's key, a cookie or a name
/// with a password for the node, and the channels by which the owner is told.
pub proof fn law_what_is_chosen_decides_what_is_written(m: Answers, rate: FeeRate, a: WizardAnswers)
    requires
        are_given(m, rate, a),
    ensures
        m[Question::SigningSource] == "file"@ ==> (
        a.server_signing matches ServerSigningAnswer::File(p) && p@ == m[Question::SigningFile]),
        m[Question::SigningSource] == "env"@ ==> (
        a.server_signing matches ServerSigningAnswer::EnvVar(v) && v@
            == m[Question::SigningVariable]),
        m[Question::RpcAuth] == "cookie"@ ==> (
        a.bitcoind_auth matches BitcoindAuthAnswer::Cookie(p) && p@ == m[Question::RpcCookie]),
        m[Question::RpcAuth] == "userpass"@ ==> (
        a.bitcoind_auth matches BitcoindAuthAnswer::UserPass(u, p) && u@ == m[Question::RpcUser]
            && p@ == m[Question::RpcPassword]),
        m[Question::NotifyChannel] == "ntfy"@ ==> a.notify.ntfy_url is Some && a.notify.smtp
            is None,
        m[Question::NotifyChannel] == "smtp"@ ==> a.notify.ntfy_url is None && a.notify.smtp
            is Some,
        m[Question::NotifyChannel] == "both"@ ==> a.notify.ntfy_url is Some && a.notify.smtp
            is Some,
        a.nostr_transport is Some <==> m[Question::EnableNostr] == "y"@,
        trimmed(m[Question::Whitelist]).len() == 0 <==> a.policy.destination_whitelist is None,
        a.policy.destination_whitelist matches Some(l) ==> l.deep_view() == entries(
            m[Question::Whitelist],
        ),
        a.recovery_destination_whitelist matches Some(l) ==> l.deep_view() == entries(
            m[Question::RecoveryWhitelist],
        ),
        m[Question::Network] == "mainnet"@ <==> a.network == ChainNetwork::Mainnet,
{
    lemma_words();
    reveal_strlit("file");
    reveal_strlit("env");
    reveal_strlit("cookie");
    reveal_strlit("userpass");
    assert("file"@[0] != "env"@[0]);
    assert("cookie"@[0] != "userpass"@[0]);
}

/// Whatever is taken fits its question: a network that there is, a timelock that is not zero, a fingerprint
/// of eight hex digits, a path and an extended key that go together, a word of the choice, a number in its
/// range, and lists of which every entry passes.
pub proof fn law_a_taken_answer_fits_its_question(m: Answers, kind: Kind, v: Seq<char>)
    requires
        kind != Kind::Confirmation,
    ensures
        judged(m, kind, v) matches Judgement::Taken(t) ==> match kind {
            Kind::Network => t == "mainnet"@ || t == "testnet"@ || t == "signet"@ || t
                == "regtest"@,
            Kind::Fingerprint => is_hex_of_len(t, 8) && t == v,
            Kind::Path => derivation_steps(t) is Some && t == v,
            Kind::ExtendedKey(role) => t == v && xpub_complaint(
                network_called(m[Question::Network]),
                steps_given(m, role),
                t,
            ) is None,
            Kind::Word(Choice::Channel) => t == "ntfy"@ || t == "smtp"@ || t == "both"@,
            Kind::Word(Choice::FileOrEnv) => t == "file"@ || t == "env"@,
            Kind::Word(Choice::CookieOrUserpass) => t == "cookie"@ || t == "userpass"@,
            Kind::Word(Choice::YesOrNo) => t == "y"@ || t == "n"@,
            Kind::Addresses => t == v && (trimmed(t).len() > 0 ==> forall|i: int|
                0 <= i < entries(t).len() ==> address_is_for(
                    #[trigger] entries(t)[i],
                    network_called(m[Question::Network]),
                )),
            Kind::Relays => t == v && required_entries(t).len() > 0 && forall|i: int|
                0 <= i < required_entries(t).len() ==> is_relay_url(
                    #[trigger] required_entries(t)[i],
                ),
            Kind::Npubs => t == v && required_entries(t).len() > 0 && forall|i: int|
                0 <= i < required_entries(t).len() ==> npub_key(
                    trimmed(#[trigger] required_entries(t)[i]),
                ) is Some,
            Kind::Integer => t == v && parsed_i64(t) is Some,
            _ => t == v,
        },
{
    let network = network_called(m[Question::Network]);
    let items = if kind == Kind::Addresses {
        entries(v)
    } else {
        required_entries(v)
    };
    law_a_list_is_taken_where_every_entry_is(kind, network, items, items.len() as int);
    assert forall|i: int| 0 <= i < items.len() && list_complaint(
        kind,
        network,
        items,
        items.len() as int,
    ) is None implies entry_complaint(kind, network, #[trigger] items[i]) is None by {}
}

/// A network is the one that its name says.
pub proof fn law_a_network_is_the_one_of_its_name(network: ChainNetwork)
    ensures
        network_called(crate::wizard::network_word(network)) == network,
        is_network_name(crate::wizard::network_word(network)),
{
    reveal_strlit("mainnet");
    reveal_strlit("testnet");
    reveal_strlit("signet");
    reveal_strlit("regtest");
    assert("mainnet"@[0] != "testnet"@[0]);
    assert("mainnet"@[0] != "signet"@[0]);
    assert("mainnet"@[0] != "regtest"@[0]);
    assert("testnet"@[0] != "signet"@[0]);
    assert("testnet"@[0] != "regtest"@[0]);
    assert("signet"@[0] != "regtest"@[0]);
}

} // verus!
