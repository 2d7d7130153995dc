//! The answers that a wallet is set up from, the checks that each is held to, and the
//! configuration file that they are written out as.

use vstd::prelude::*;
use vstd::string::*;

use crate::config::{network_kind, network_label, ChainNetwork, NetworkKind};
use crate::keys::{
    derivation_error, derivation_failure, derivation_steps, parse_derivation_path, parse_xpub,
    xpub_error, xpub_failure, xpub_info,
};
use crate::policy::FeeRate;
use crate::recovery_contacts::{npub_error, npub_failure, npub_key, parse_npub};
use crate::tables::{
    are_lines, are_list_lines, has_line, is_list_line, is_one_line,
    law_the_user_file_has_no_deployment_sections,
};
use crate::text::{
    ascii_lower, decimal, explained, has_prefix, hex_of_len, is_hex_digit, is_hex_of_len, join, joined,
    lemma_occurs_beside, lemma_occurs_in_itself, occurs, push_decimal, or_empty, push_signed, quote, quoted, signed_decimal, starts_with, trim, trimmed,
};

verus! {

/// One of the wallet's keys, as it was given.
#[derive(Clone, Debug)]
pub struct KeyAnswer {
    pub fingerprint: String,
    pub derivation_path: String,
    pub xpub: String,
}

/// Where the private key of the server is kept.
#[derive(Clone, Debug)]
pub enum ServerSigningAnswer {
    File(String),
    EnvVar(String),
}

/// How the service identifies itself to bitcoind.
#[derive(Clone, Debug)]
pub enum BitcoindAuthAnswer {
    Cookie(String),
    UserPass(String, String),
}

/// The policy that the ledger starts with.
#[derive(Clone, Debug)]
pub struct PolicyAnswer {
    pub max_tx_sat: u64,
    pub max_daily_sat: u64,
    pub max_weekly_sat: u64,
    pub max_monthly_sat: u64,
    pub max_fee_sat: u64,
    pub max_fee_rate_sat_per_vb: FeeRate,
    /// The fee rate in decimal, as it is written out.
    pub max_fee_rate_text: String,
    pub destination_whitelist: Option<Vec<String>>,
}

/// How mail is sent.
#[derive(Clone, Debug)]
pub struct SmtpAnswer {
    pub host: String,
    pub port: u16,
    pub username: String,
    pub password: String,
    pub from: String,
    pub to: String,
}

/// How long a spend is held, and by which channels the owner hears of it.
#[derive(Clone, Debug)]
pub struct NotifyAnswer {
    pub hold_seconds: i64,
    pub sweep_interval_seconds: u64,
    pub renotify_interval_seconds: i64,
    pub ntfy_url: Option<String>,
    pub ntfy_auth_token: Option<String>,
    pub smtp: Option<SmtpAnswer>,
}

/// Where the Nostr key of the service is kept.
#[derive(Clone, Debug)]
pub enum NostrNsecAnswer {
    File(String),
    EnvVar(String),
}

/// How the service is reached over Nostr.
#[derive(Clone, Debug)]
pub struct NostrTransportAnswer {
    pub nsec: NostrNsecAnswer,
    pub relays: Vec<String>,
    pub allowed_npubs: Vec<String>,
}

/// Everything that a configuration file is written from.
#[derive(Clone, Debug)]
pub struct WizardAnswers {
    pub network: ChainNetwork,
    pub timelock_blocks: u16,
    pub hardware: KeyAnswer,
    pub mobile: KeyAnswer,
    pub server: KeyAnswer,
    pub server_signing: ServerSigningAnswer,
    pub bitcoind_rpc_url: String,
    pub bitcoind_auth: BitcoindAuthAnswer,
    pub bind_addr: String,
    pub gap_limit: u32,
    pub ledger_db_path: String,
    pub policy: PolicyAnswer,
    pub notify: NotifyAnswer,
    pub recovery_hold_seconds: i64,
    pub recovery_destination_whitelist: Option<Vec<String>>,
    /// Nothing where the service answers over HTTP alone.
    pub nostr_transport: Option<NostrTransportAnswer>,
}

/// Whether a text is a relay's address.
pub open spec fn is_relay_url(v: Seq<char>) -> bool {
    has_prefix(v, "wss://"@) || has_prefix(v, "ws://"@)
}

/// What is said of a text that is no relay's address.
pub const NO_RELAY_URL: &'static str =
    "relay URLs should start with wss:// (or ws:// for a local/test relay)";

/// Checks the address of a relay.
pub fn validate_relay_url(v: &str) -> (r: Result<(), String>)
    ensures
        match r {
            Ok(_) => is_relay_url(v@),
            Err(m) => !is_relay_url(v@) && m@ == NO_RELAY_URL@,
        },
{
    if starts_with(v, "wss://") || starts_with(v, "ws://") {
        Ok(())
    } else {
        Err(NO_RELAY_URL.to_owned())
    }
}

/// What is said of a text that is no Nostr public key.
pub open spec fn npub_complaint(v: Seq<char>) -> Seq<char> {
    "not a valid npub: "@ + or_empty(npub_failure(trimmed(v)))
}

/// Checks a Nostr public key.
pub fn validate_npub(v: &str) -> (r: Result<(), String>)
    ensures
        match r {
            Ok(_) => npub_key(trimmed(v@)) is Some,
            Err(m) => npub_key(trimmed(v@)) is None && m@ == npub_complaint(v@),
        },
{
    match parse_npub(trim(v)) {
        Some(_) => Ok(()),
        None => Err(explained("not a valid npub: ", npub_error(trim(v)))),
    }
}

/// Checks the fingerprint of a master key.
pub fn validate_fingerprint(v: &str) -> (r: Result<(), String>)
    ensures
        match r {
            Ok(_) => is_hex_of_len(v@, 8),
            Err(m) => !is_hex_of_len(v@, 8) && m@ == "must be exactly 8 hex characters"@,
        },
{
    if hex_of_len(v, 8) {
        Ok(())
    } else {
        Err("must be exactly 8 hex characters".to_owned())
    }
}

/// What is said of a text that is no derivation path.
pub open spec fn path_complaint(v: Seq<char>) -> Seq<char> {
    "not a valid derivation path: "@ + or_empty(derivation_failure(v))
}

/// Checks a derivation path, and gives the number of its steps.
pub fn validate_derivation_path(v: &str) -> (r: Result<usize, String>)
    ensures
        match r {
            Ok(n) => derivation_steps(v@) is Some && n == derivation_steps(v@)->Some_0.len(),
            Err(m) => derivation_steps(v@) is None && m@ == path_complaint(v@),
        },
{
    match parse_derivation_path(v) {
        Some(steps) => Ok(steps.len()),
        None => Err(explained("not a valid derivation path: ", derivation_error(v))),
    }
}

/// What is wrong with an extended public key that should be of `network`, `steps` steps below its
/// master key.
pub open spec fn xpub_complaint(network: ChainNetwork, steps: nat, v: Seq<char>) -> Option<
    Seq<char>,
> {
    match xpub_info(v) {
        None => Some("not a valid extended public key: "@ + or_empty(xpub_failure(v))),
        Some(info) => if info.network != network_kind(network) {
            Some(
                "this xpub is for "@ + kind_text(info.network)
                    + ", but the network you chose is "@ + network_label(network),
            )
        } else if info.depth != steps {
            Some(
                "this xpub has depth "@ + decimal(info.depth as nat)
                    + ", but the derivation path above has "@ + decimal(steps) + AT_THE_PATH@,
            )
        } else {
            None
        },
    }
}

/// How the two kinds of network are called.
pub open spec fn kind_text(kind: NetworkKind) -> Seq<char> {
    match kind {
        NetworkKind::Main => "Main"@,
        NetworkKind::Test => "Test"@,
    }
}

/// What an extended key has to be, said where its depth is wrong.
pub const AT_THE_PATH: &'static str =
    " step(s) - it must be the extended public key AT that exact path, not the master key";

/// Checks an extended public key: that it is one, that it is of the network, and that it lies as
/// deep as the path to it has steps.
pub fn validate_xpub_for(network: ChainNetwork, steps: usize, v: &str) -> (r: Result<(), String>)
    ensures
        match r {
            Ok(_) => xpub_complaint(network, steps as nat, v@) is None,
            Err(m) => xpub_complaint(network, steps as nat, v@) == Some(m@),
        },
{
    let info = match parse_xpub(v) {
        Some(info) => info,
        None => {
            return Err(explained("not a valid extended public key: ", xpub_error(v)));
        },
    };
    if info.network != network.xpub_network_kind() {
        let mut out = "this xpub is for ".to_owned();
        match info.network {
            NetworkKind::Main => {
                out.append("Main");
            },
            NetworkKind::Test => {
                out.append("Test");
            },
        }
        out.append(", but the network you chose is ");
        out.append(network.label());
        return Err(out);
    }
    if info.depth as usize != steps {
        let mut out = "this xpub has depth ".to_owned();
        push_decimal(&mut out, info.depth as u64);
        out.append(", but the derivation path above has ");
        push_decimal(&mut out, steps as u64);
        out.append(AT_THE_PATH);
        return Err(out);
    }
    Ok(())
}

/// Whether a key has a fingerprint, a path, and an extended key of the network at that path.
pub open spec fn is_sound_key(network: ChainNetwork, key: KeyAnswer) -> bool {
    &&& is_hex_of_len(key.fingerprint@, 8)
    &&& derivation_steps(key.derivation_path@) is Some
    &&& xpub_complaint(network, derivation_steps(key.derivation_path@)->Some_0.len(), key.xpub@)
        is None
}

/// The lower case of a text in hexadecimal is in hexadecimal.
pub proof fn lemma_lower_case_hex(s: Seq<char>)
    requires
        is_hex_of_len(s, 8),
    ensures
        vstd::utf8::is_ascii_chars(s),
        is_hex_of_len(s.map_values(|c: char| ascii_lower(c)), 8),
{
    assert forall|i: int| 0 <= i < s.len() implies '\0' <= #[trigger] s[i] <= '\u{7f}' by {
        assert(is_hex_digit(s[i]));
    }
    let low = s.map_values(|c: char| ascii_lower(c));
    assert forall|i: int| 0 <= i < low.len() implies is_hex_digit(#[trigger] low[i]) by {
        assert(is_hex_digit(s[i]));
    }
}

/// The name of a network in a configuration file.
pub open spec fn network_word(network: ChainNetwork) -> Seq<char> {
    match network {
        ChainNetwork::Mainnet => "mainnet"@,
        ChainNetwork::Testnet => "testnet"@,
        ChainNetwork::Signet => "signet"@,
        ChainNetwork::Regtest => "regtest"@,
    }
}

/// The name of a network in a configuration file.
pub fn network_str(n: ChainNetwork) -> (r: &'static str)
    ensures
        r@ == network_word(n),
{
    match n {
        ChainNetwork::Mainnet => "mainnet",
        ChainNetwork::Testnet => "testnet",
        ChainNetwork::Signet => "signet",
        ChainNetwork::Regtest => "regtest",
    }
}

/// The port that bitcoind listens on.
pub open spec fn bitcoind_port(network: ChainNetwork) -> Seq<char> {
    match network {
        ChainNetwork::Mainnet => "8332"@,
        ChainNetwork::Testnet => "18332"@,
        ChainNetwork::Signet => "38332"@,
        ChainNetwork::Regtest => "18443"@,
    }
}

/// The port that bitcoind listens on where nothing else is configured.
pub fn default_bitcoind_port(network: ChainNetwork) -> (r: &'static str)
    ensures
        r@ == bitcoind_port(network),
{
    match network {
        ChainNetwork::Mainnet => "8332",
        ChainNetwork::Testnet => "18332",
        ChainNetwork::Signet => "38332",
        ChainNetwork::Regtest => "18443",
    }
}

/// A line of a configuration file that sets `name` to the text `value`.
pub open spec fn text_line(name: Seq<char>, value: Seq<char>) -> Seq<char> {
    name + " = \""@ + value + "\"\n"@
}

fn push_text_line(out: &mut String, name: &str, value: &str)
    ensures
        final(out)@ == old(out)@ + text_line(name@, value@),
{
    out.append(name);
    out.append(" = \"");
    out.append(value);
    out.append("\"\n");
    assert(out@ =~= old(out)@ + text_line(name@, value@));
}

/// A line of a configuration file that sets `name` to what `value` spells.
pub open spec fn value_line(name: Seq<char>, value: Seq<char>) -> Seq<char> {
    name + " = "@ + value + "\n"@
}

fn push_value_line(out: &mut String, name: &str, value: &str)
    ensures
        final(out)@ == old(out)@ + value_line(name@, value@),
{
    out.append(name);
    out.append(" = ");
    out.append(value);
    out.append("\n");
    assert(out@ =~= old(out)@ + value_line(name@, value@));
}

fn push_number_line(out: &mut String, name: &str, value: u64)
    ensures
        final(out)@ == old(out)@ + value_line(name@, decimal(value as nat)),
{
    let mut digits = String::new();
    push_decimal(&mut digits, value);
    assert(digits@ =~= decimal(value as nat));
    push_value_line(out, name, digits.as_str());
}

fn push_signed_line(out: &mut String, name: &str, value: i64)
    ensures
        final(out)@ == old(out)@ + value_line(name@, signed_decimal(value as int)),
{
    let mut digits = String::new();
    push_signed(&mut digits, value);
    assert(digits@ =~= signed_decimal(value as int));
    push_value_line(out, name, digits.as_str());
}

/// A list of texts as a configuration file spells it.
pub open spec fn list_text(items: Seq<Seq<char>>) -> Seq<char> {
    "["@ + joined(items.map_values(|s: Seq<char>| quoted(s)), ", "@) + "]"@
}

proof fn lemma_joined_is_one_line(parts: Seq<Seq<char>>, sep: Seq<char>)
    requires
        forall|i: int| 0 <= i < parts.len() ==> is_one_line(#[trigger] parts[i]),
        is_one_line(sep),
    ensures
        is_one_line(joined(parts, sep)),
    decreases parts.len(),
{
    if parts.len() > 1 {
        assert forall|i: int| 0 <= i < parts.drop_last().len() implies is_one_line(
            #[trigger] parts.drop_last()[i],
        ) by {
            assert(parts.drop_last()[i] == parts[i]);
        }
        lemma_joined_is_one_line(parts.drop_last(), sep);
        assert(is_one_line(parts.last()));
    } else if parts.len() == 1 {
        assert(is_one_line(parts[0]));
    }
}

/// Spells a list of texts as a configuration file does, on one line.
pub fn toml_list(items: &Vec<String>) -> (r: String)
    ensures
        r@ == list_text(items.deep_view()),
        is_one_line(r@),
{
    let mut all: Vec<String> = Vec::new();
    let mut i: usize = 0;
    let ghost want = items.deep_view().map_values(|s: Seq<char>| quoted(s));
    while i < items.len()
        invariant
            i <= items.len(),
            want == items.deep_view().map_values(|s: Seq<char>| quoted(s)),
            all.deep_view() == want.take(i as int),
            forall|j: int| 0 <= j < i ==> is_one_line(#[trigger] want[j]),
        decreases items.len() - i,
    {
        let ghost before = all.deep_view();
        all.push(quote(items[i].as_str()));
        assert(all.deep_view() =~= before.push(quoted(items[i as int]@)));
        assert(want.take(i + 1) =~= want.take(i as int).push(want[i as int]));
        i = i + 1;
    }
    assert(want.take(i as int) =~= want);
    proof {
        reveal_strlit("[");
        reveal_strlit(", ");
        reveal_strlit("]");
        lemma_joined_is_one_line(want, ", "@);
    }
    let mut out = "[".to_owned();
    out.append(join(&all, ", ").as_str());
    out.append("]");
    out
}

/// The lines on the network and the timelock.
pub open spec fn head_part(a: WizardAnswers) -> Seq<char> {
    text_line("network"@, network_word(a.network)) + (if a.network == ChainNetwork::Mainnet {
        "i_understand_this_is_mainnet = true\n"@
    } else {
        ""@
    }) + value_line("timelock_blocks"@, decimal(a.timelock_blocks as nat)) + "\n"@
}

fn push_head(out: &mut String, a: &WizardAnswers)
    ensures
        final(out)@ == old(out)@ + head_part(*a),
{
    push_text_line(out, "network", network_str(a.network));
    if a.network == ChainNetwork::Mainnet {
        out.append("i_understand_this_is_mainnet = true\n");
    } else {
        out.append("");
    }
    push_number_line(out, "timelock_blocks", a.timelock_blocks as u64);
    out.append("\n");
    assert(out@ =~= old(out)@ + head_part(*a));
}

/// The section on one key.
pub open spec fn key_part(section: Seq<char>, key: KeyAnswer) -> Seq<char> {
    "[keys."@ + section + "]\n"@ + text_line("master_fingerprint"@, key.fingerprint@)
        + text_line("derivation_path"@, key.derivation_path@) + text_line("xpub"@, key.xpub@)
        + "\n"@
}

fn push_key(out: &mut String, section: &str, key: &KeyAnswer)
    ensures
        final(out)@ == old(out)@ + key_part(section@, *key),
{
    out.append("[keys.");
    out.append(section);
    out.append("]\n");
    push_text_line(out, "master_fingerprint", key.fingerprint.as_str());
    push_text_line(out, "derivation_path", key.derivation_path.as_str());
    push_text_line(out, "xpub", key.xpub.as_str());
    out.append("\n");
    assert(out@ =~= old(out)@ + key_part(section@, *key));
}

/// The sections on the deployment: the node and the service.
pub open spec fn deployment_part(a: WizardAnswers) -> Seq<char> {
    "[bitcoind]\n"@ + text_line("rpc_url"@, a.bitcoind_rpc_url@) + (match a.bitcoind_auth {
        BitcoindAuthAnswer::Cookie(path) => text_line("rpc_cookie_file"@, path@),
        BitcoindAuthAnswer::UserPass(user, pass) => text_line("rpc_user"@, user@) + text_line(
            "rpc_password"@,
            pass@,
        ),
    }) + "\n[server]\n"@ + text_line("bind_addr"@, a.bind_addr@) + value_line(
        "gap_limit"@,
        decimal(a.gap_limit as nat),
    ) + text_line("ledger_db_path"@, a.ledger_db_path@) + "\n"@
}

fn push_deployment(out: &mut String, a: &WizardAnswers)
    ensures
        final(out)@ == old(out)@ + deployment_part(*a),
{
    out.append("[bitcoind]\n");
    push_text_line(out, "rpc_url", a.bitcoind_rpc_url.as_str());
    let mut auth = String::new();
    match &a.bitcoind_auth {
        BitcoindAuthAnswer::Cookie(path) => {
            push_text_line(&mut auth, "rpc_cookie_file", path.as_str());
            assert(auth@ =~= text_line("rpc_cookie_file"@, path@));
        },
        BitcoindAuthAnswer::UserPass(user, pass) => {
            push_text_line(&mut auth, "rpc_user", user.as_str());
            push_text_line(&mut auth, "rpc_password", pass.as_str());
            assert(auth@ =~= text_line("rpc_user"@, user@) + text_line("rpc_password"@, pass@));
        },
    }
    out.append(auth.as_str());
    out.append("\n[server]\n");
    push_text_line(out, "bind_addr", a.bind_addr.as_str());
    push_number_line(out, "gap_limit", a.gap_limit as u64);
    push_text_line(out, "ledger_db_path", a.ledger_db_path.as_str());
    out.append("\n");
    assert(out@ =~= old(out)@ + deployment_part(*a));
}

/// The section on the private key of the server.
pub open spec fn signing_part(signing: ServerSigningAnswer) -> Seq<char> {
    "[server_signing]\n"@ + (match signing {
        ServerSigningAnswer::File(path) => text_line("xprv_file"@, path@),
        ServerSigningAnswer::EnvVar(var) => text_line("xprv_env_var"@, var@),
    }) + "\n"@
}

fn push_signing(out: &mut String, signing: &ServerSigningAnswer)
    ensures
        final(out)@ == old(out)@ + signing_part(*signing),
{
    out.append("[server_signing]\n");
    match signing {
        ServerSigningAnswer::File(path) => {
            push_text_line(out, "xprv_file", path.as_str());
        },
        ServerSigningAnswer::EnvVar(var) => {
            push_text_line(out, "xprv_env_var", var.as_str());
        },
    }
    out.append("\n");
    assert(out@ =~= old(out)@ + signing_part(*signing));
}

/// The remark above the policy.
pub const POLICY_REMARK: &'static str =
    "# Only consulted once, to seed policy version 1 the first time this service\n# starts against a fresh ledger database - after that the running policy lives\n# in the database and can only change via a HARDWARE-authorized POST /policy.\n";

/// What stands in place of a list of destinations.
pub const ANY_DESTINATION: &'static str =
    "# destination_whitelist = [\"tb1q...\"]  # optional; omit to allow any destination\n";

/// The line on the destinations that are allowed, or `otherwise` where none are named.
pub open spec fn whitelist_part(list: Option<Vec<String>>, otherwise: Seq<char>) -> Seq<char> {
    match list {
        Some(items) => if items@.len() > 0 {
            value_line("destination_whitelist"@, list_text(items.deep_view()))
        } else {
            otherwise
        },
        None => otherwise,
    }
}

fn push_whitelist(out: &mut String, list: &Option<Vec<String>>, otherwise: &str)
    ensures
        final(out)@ == old(out)@ + whitelist_part(*list, otherwise@),
        is_list_line(*list),
{
    match list {
        Some(items) => {
            if items.len() > 0 {
                push_value_line(out, "destination_whitelist", toml_list(items).as_str());
            } else {
                out.append(otherwise);
            }
        },
        None => {
            out.append(otherwise);
        },
    }
}

/// The section on the policy.
pub open spec fn policy_part(p: PolicyAnswer) -> Seq<char> {
    POLICY_REMARK@ + "[policy]\n"@ + value_line("max_tx_sat"@, decimal(p.max_tx_sat as nat))
        + value_line("max_daily_sat"@, decimal(p.max_daily_sat as nat)) + value_line(
        "max_weekly_sat"@,
        decimal(p.max_weekly_sat as nat),
    ) + value_line("max_monthly_sat"@, decimal(p.max_monthly_sat as nat)) + value_line(
        "max_fee_sat"@,
        decimal(p.max_fee_sat as nat),
    ) + value_line("max_fee_rate_sat_per_vb"@, p.max_fee_rate_text@) + whitelist_part(
        p.destination_whitelist,
        ANY_DESTINATION@,
    ) + "\n"@
}

fn push_policy(out: &mut String, p: &PolicyAnswer)
    ensures
        final(out)@ == old(out)@ + policy_part(*p),
        is_list_line(p.destination_whitelist),
{
    out.append(POLICY_REMARK);
    out.append("[policy]\n");
    push_number_line(out, "max_tx_sat", p.max_tx_sat);
    push_number_line(out, "max_daily_sat", p.max_daily_sat);
    push_number_line(out, "max_weekly_sat", p.max_weekly_sat);
    push_number_line(out, "max_monthly_sat", p.max_monthly_sat);
    push_number_line(out, "max_fee_sat", p.max_fee_sat);
    push_value_line(out, "max_fee_rate_sat_per_vb", p.max_fee_rate_text.as_str());
    push_whitelist(out, &p.destination_whitelist, ANY_DESTINATION);
    out.append("\n");
    assert(out@ =~= old(out)@ + policy_part(*p));
}

/// The section on the channel of ntfy.
pub open spec fn ntfy_part(n: NotifyAnswer) -> Seq<char> {
    match n.ntfy_url {
        None => ""@,
        Some(url) => "[notify.ntfy]\n"@ + text_line("url"@, url@) + (match n.ntfy_auth_token {
            None => ""@,
            Some(token) => text_line("auth_token"@, token@),
        }) + "\n"@,
    }
}

fn push_ntfy(out: &mut String, n: &NotifyAnswer)
    ensures
        final(out)@ == old(out)@ + ntfy_part(*n),
{
    match &n.ntfy_url {
        None => {
            out.append("");
        },
        Some(url) => {
            out.append("[notify.ntfy]\n");
            push_text_line(out, "url", url.as_str());
            match &n.ntfy_auth_token {
                None => {
                    out.append("");
                },
                Some(token) => {
                    push_text_line(out, "auth_token", token.as_str());
                },
            }
            out.append("\n");
            assert(out@ =~= old(out)@ + ntfy_part(*n));
        },
    }
}

/// The section on the channel of mail.
pub open spec fn smtp_part(smtp: Option<SmtpAnswer>) -> Seq<char> {
    match smtp {
        None => ""@,
        Some(s) => "[notify.smtp]\n"@ + text_line("host"@, s.host@) + value_line(
            "port"@,
            decimal(s.port as nat),
        ) + text_line("username"@, s.username@) + text_line("password"@, s.password@)
            + text_line("from"@, s.from@) + text_line("to"@, s.to@) + "\n"@,
    }
}

fn push_smtp(out: &mut String, smtp: &Option<SmtpAnswer>)
    ensures
        final(out)@ == old(out)@ + smtp_part(*smtp),
{
    match smtp {
        None => {
            out.append("");
        },
        Some(s) => {
            out.append("[notify.smtp]\n");
            push_text_line(out, "host", s.host.as_str());
            push_number_line(out, "port", s.port as u64);
            push_text_line(out, "username", s.username.as_str());
            push_text_line(out, "password", s.password.as_str());
            push_text_line(out, "from", s.from.as_str());
            push_text_line(out, "to", s.to.as_str());
            out.append("\n");
            assert(out@ =~= old(out)@ + smtp_part(*smtp));
        },
    }
}

/// The sections on holding a spend and telling of it.
pub open spec fn notify_part(n: NotifyAnswer) -> Seq<char> {
    "[notify]\n"@ + value_line("hold_seconds"@, signed_decimal(n.hold_seconds as int))
        + value_line("sweep_interval_seconds"@, decimal(n.sweep_interval_seconds as nat))
        + value_line(
        "renotify_interval_seconds"@,
        signed_decimal(n.renotify_interval_seconds as int),
    ) + "\n"@ + ntfy_part(n) + smtp_part(n.smtp)
}

fn push_notify(out: &mut String, n: &NotifyAnswer)
    ensures
        final(out)@ == old(out)@ + notify_part(*n),
{
    out.append("[notify]\n");
    push_signed_line(out, "hold_seconds", n.hold_seconds);
    push_number_line(out, "sweep_interval_seconds", n.sweep_interval_seconds);
    push_signed_line(out, "renotify_interval_seconds", n.renotify_interval_seconds);
    out.append("\n");
    push_ntfy(out, n);
    push_smtp(out, &n.smtp);
    assert(out@ =~= old(out)@ + notify_part(*n));
}

/// The remark above the recovery.
pub const RECOVERY_REMARK: &'static str =
    "# MOBILE + SERVER path - used if the HARDWARE is lost or destroyed. older(N) is a\n# *relative* timelock: coins already older than timelock_blocks satisfy it right\n# now, so hold_seconds below is the PRIMARY protection against a stolen phone.\n";

/// What stands in place of a list of destinations for a recovery.
pub const ANY_RECOVERY_DESTINATION: &'static str =
    "# destination_whitelist = [\"tb1q...\"]  # strongly recommended: pre-commit to where you'd sweep\n";

/// The section on the recovery.
pub open spec fn recovery_part(a: WizardAnswers) -> Seq<char> {
    RECOVERY_REMARK@ + "[recovery]\n"@ + value_line(
        "hold_seconds"@,
        signed_decimal(a.recovery_hold_seconds as int),
    ) + whitelist_part(a.recovery_destination_whitelist, ANY_RECOVERY_DESTINATION@)
}

fn push_recovery(out: &mut String, a: &WizardAnswers)
    ensures
        final(out)@ == old(out)@ + recovery_part(*a),
        is_list_line(a.recovery_destination_whitelist),
{
    out.append(RECOVERY_REMARK);
    out.append("[recovery]\n");
    push_signed_line(out, "hold_seconds", a.recovery_hold_seconds);
    push_whitelist(out, &a.recovery_destination_whitelist, ANY_RECOVERY_DESTINATION);
    assert(out@ =~= old(out)@ + recovery_part(*a));
}

/// The remark above the section on Nostr.
pub const NOSTR_REMARK: &'static str =
    "\n# Alternate front door for the same HTTP API, over Nostr NIP-17 private\n# messages - no open port needed. Every sender is cryptographically\n# verified before allowed_npubs is even consulted; removing an npub here\n# is how a lost or stolen device is cut off.\n";

/// The section on Nostr.
pub open spec fn nostr_part(nostr: Option<NostrTransportAnswer>) -> Seq<char> {
    match nostr {
        None => ""@,
        Some(n) => NOSTR_REMARK@ + "[nostr_transport]\n"@ + (match n.nsec {
            NostrNsecAnswer::File(path) => text_line("nsec_file"@, path@),
            NostrNsecAnswer::EnvVar(var) => text_line("nsec_env_var"@, var@),
        }) + value_line("relays"@, list_text(n.relays.deep_view())) + value_line(
            "allowed_npubs"@,
            list_text(n.allowed_npubs.deep_view()),
        ),
    }
}

fn push_nostr(out: &mut String, nostr: &Option<NostrTransportAnswer>)
    ensures
        final(out)@ == old(out)@ + nostr_part(*nostr),
        nostr matches Some(n) ==> is_one_line(list_text(n.relays.deep_view())) && is_one_line(
            list_text(n.allowed_npubs.deep_view()),
        ),
{
    match nostr {
        None => {
            out.append("");
        },
        Some(n) => {
            out.append(NOSTR_REMARK);
            out.append("[nostr_transport]\n");
            match &n.nsec {
                NostrNsecAnswer::File(path) => {
                    push_text_line(out, "nsec_file", path.as_str());
                },
                NostrNsecAnswer::EnvVar(var) => {
                    push_text_line(out, "nsec_env_var", var.as_str());
                },
            }
            push_value_line(out, "relays", toml_list(&n.relays).as_str());
            push_value_line(out, "allowed_npubs", toml_list(&n.allowed_npubs).as_str());
            assert(out@ =~= old(out)@ + nostr_part(*nostr));
        },
    }
}

/// What comes before the sections on the deployment.
pub open spec fn wallet_part(a: WizardAnswers) -> Seq<char> {
    head_part(a) + key_part("hardware"@, a.hardware) + key_part("mobile"@, a.mobile) + key_part(
        "server"@,
        a.server,
    )
}

/// What comes after the sections on the deployment.
pub open spec fn rules_part(a: WizardAnswers) -> Seq<char> {
    signing_part(a.server_signing) + policy_part(a.policy) + notify_part(a.notify)
        + recovery_part(a) + nostr_part(a.nostr_transport)
}

/// The configuration file, with or without the sections on the deployment.
pub open spec fn toml_text(a: WizardAnswers, include_deployment: bool) -> Seq<char> {
    if include_deployment {
        wallet_part(a) + deployment_part(a) + rules_part(a)
    } else {
        wallet_part(a) + rules_part(a)
    }
}

proof fn lemma_from_nothing(a: Seq<char>, b: Seq<char>, c: Seq<char>, d: Seq<char>)
    ensures
        Seq::<char>::empty() + a + b + c + d == a + b + c + d,
{
    assert(Seq::<char>::empty() + a =~= a);
}

proof fn lemma_five_more(
    base: Seq<char>,
    a: Seq<char>,
    b: Seq<char>,
    c: Seq<char>,
    d: Seq<char>,
    e: Seq<char>,
)
    ensures
        base + a + b + c + d + e == base + (a + b + c + d + e),
{
    assert(base + a + b + c + d + e =~= base + (a + b + c + d + e));
}

fn render(a: &WizardAnswers, include_deployment: bool) -> (r: String)
    ensures
        r@ == toml_text(*a, include_deployment),
        are_list_lines(*a),
{
    let mut out = String::new();
    push_head(&mut out, a);
    push_key(&mut out, "hardware", &a.hardware);
    push_key(&mut out, "mobile", &a.mobile);
    push_key(&mut out, "server", &a.server);
    proof {
        lemma_from_nothing(
            head_part(*a),
            key_part("hardware"@, a.hardware),
            key_part("mobile"@, a.mobile),
            key_part("server"@, a.server),
        );
    }
    if include_deployment {
        push_deployment(&mut out, a);
    }
    let ghost before = out@;
    push_signing(&mut out, &a.server_signing);
    push_policy(&mut out, &a.policy);
    push_notify(&mut out, &a.notify);
    push_recovery(&mut out, a);
    push_nostr(&mut out, &a.nostr_transport);
    proof {
        lemma_five_more(
            before,
            signing_part(a.server_signing),
            policy_part(a.policy),
            notify_part(a.notify),
            recovery_part(*a),
            nostr_part(a.nostr_transport),
        );
    }
    out
}

/// Writes the answers out as a whole configuration file, which the service can be started with as
/// it is.
pub fn render_toml(a: &WizardAnswers) -> (r: String)
    ensures
        r@ == toml_text(*a, true),
{
    render(a, true)
}

/// Writes the answers out without the sections `[bitcoind]` and `[server]`, for a deployment that
/// adds the two by itself on every start. Where no answer holds a line break, no line of the file
/// begins either section.
pub fn render_user_toml(a: &WizardAnswers) -> (r: String)
    ensures
        r@ == toml_text(*a, false),
        are_lines(*a) ==> !has_line(r@, "[bitcoind]"@) && !has_line(r@, "[server]"@) && has_line(
            r@,
            "[server_signing]\n"@,
        ),
        are_lines(*a) ==> (has_line(r@, "i_understand_this_is_mainnet = true\n"@) <==> a.network
            == ChainNetwork::Mainnet),
{
    let out = render(a, false);
    proof {
        if are_lines(*a) {
            law_the_user_file_has_no_deployment_sections(*a);
        }
    }
    out
}

/// The two files differ by the sections on the deployment and by nothing else: what is left once
/// they are cut out of the whole file is the file without them.
pub proof fn law_the_user_file_leaves_only_the_deployment_out(a: WizardAnswers)
    ensures
        ({
            let from = wallet_part(a).len() as int;
            let to = from + deployment_part(a).len();
            let whole = toml_text(a, true);
            &&& whole.subrange(from, to) == deployment_part(a)
            &&& whole.take(from) + whole.skip(to) == toml_text(a, false)
        }),
{
    lemma_cut_out(wallet_part(a), deployment_part(a), rules_part(a));
}

proof fn lemma_cut_out(a: Seq<char>, b: Seq<char>, c: Seq<char>)
    ensures
        (a + b + c).subrange(a.len() as int, (a.len() + b.len()) as int) == b,
        (a + b + c).take(a.len() as int) + (a + b + c).skip((a.len() + b.len()) as int) == a + c,
{
    let whole = a + b + c;
    assert(whole.subrange(a.len() as int, (a.len() + b.len()) as int) =~= b);
    assert(whole.take(a.len() as int) =~= a);
    assert(whole.skip((a.len() + b.len()) as int) =~= c);
}

/// The file says every limit of the policy, each under its own name.
pub proof fn law_the_file_says_every_limit(p: PolicyAnswer)
    ensures
        occurs(policy_part(p), value_line("max_tx_sat"@, decimal(p.max_tx_sat as nat))),
        occurs(policy_part(p), value_line("max_daily_sat"@, decimal(p.max_daily_sat as nat))),
        occurs(policy_part(p), value_line("max_weekly_sat"@, decimal(p.max_weekly_sat as nat))),
        occurs(policy_part(p), value_line("max_monthly_sat"@, decimal(p.max_monthly_sat as nat))),
        occurs(policy_part(p), value_line("max_fee_sat"@, decimal(p.max_fee_sat as nat))),
        occurs(policy_part(p), value_line("max_fee_rate_sat_per_vb"@, p.max_fee_rate_text@)),
        p.destination_whitelist matches Some(items) ==> (items@.len() > 0 ==> occurs(
            policy_part(p),
            value_line("destination_whitelist"@, list_text(items.deep_view())),
        )),
{
    broadcast use crate::text::lemma_occurs_before;
    broadcast use crate::text::lemma_occurs_behind;

    lemma_occurs_in_itself(value_line("max_tx_sat"@, decimal(p.max_tx_sat as nat)));
    lemma_occurs_in_itself(value_line("max_daily_sat"@, decimal(p.max_daily_sat as nat)));
    lemma_occurs_in_itself(value_line("max_weekly_sat"@, decimal(p.max_weekly_sat as nat)));
    lemma_occurs_in_itself(value_line("max_monthly_sat"@, decimal(p.max_monthly_sat as nat)));
    lemma_occurs_in_itself(value_line("max_fee_sat"@, decimal(p.max_fee_sat as nat)));
    lemma_occurs_in_itself(value_line("max_fee_rate_sat_per_vb"@, p.max_fee_rate_text@));
    if p.destination_whitelist is Some {
        lemma_occurs_in_itself(
            value_line(
                "destination_whitelist"@,
                list_text(p.destination_whitelist->Some_0.deep_view()),
            ),
        );
    }
}

/// The file says all of a key under the section of its role.
pub proof fn law_the_file_says_all_of_a_key(section: Seq<char>, key: KeyAnswer)
    ensures
        occurs(key_part(section, key), "[keys."@ + section + "]\n"@),
        occurs(key_part(section, key), text_line("master_fingerprint"@, key.fingerprint@)),
        occurs(key_part(section, key), text_line("derivation_path"@, key.derivation_path@)),
        occurs(key_part(section, key), text_line("xpub"@, key.xpub@)),
{
    broadcast use crate::text::lemma_occurs_before;
    broadcast use crate::text::lemma_occurs_behind;

    lemma_occurs_in_itself("[keys."@ + section + "]\n"@);
    lemma_occurs_in_itself(text_line("master_fingerprint"@, key.fingerprint@));
    lemma_occurs_in_itself(text_line("derivation_path"@, key.derivation_path@));
    lemma_occurs_in_itself(text_line("xpub"@, key.xpub@));
}

/// The file says how long a spend is held and how often its owner is reminded, and by what channels.
pub proof fn law_the_file_says_who_is_told_and_when(n: NotifyAnswer)
    ensures
        occurs(
            notify_part(n),
            value_line("hold_seconds"@, signed_decimal(n.hold_seconds as int)),
        ),
        occurs(
            notify_part(n),
            value_line("sweep_interval_seconds"@, decimal(n.sweep_interval_seconds as nat)),
        ),
        occurs(
            notify_part(n),
            value_line(
                "renotify_interval_seconds"@,
                signed_decimal(n.renotify_interval_seconds as int),
            ),
        ),
        n.ntfy_url matches Some(url) ==> occurs(notify_part(n), text_line("url"@, url@)),
        n.ntfy_url is Some ==> (n.ntfy_auth_token matches Some(t) ==> occurs(
            notify_part(n),
            text_line("auth_token"@, t@),
        )),
        n.smtp matches Some(s) ==> {
            &&& occurs(notify_part(n), text_line("host"@, s.host@))
            &&& occurs(notify_part(n), value_line("port"@, decimal(s.port as nat)))
            &&& occurs(notify_part(n), text_line("username"@, s.username@))
            &&& occurs(notify_part(n), text_line("password"@, s.password@))
            &&& occurs(notify_part(n), text_line("from"@, s.from@))
            &&& occurs(notify_part(n), text_line("to"@, s.to@))
        },
{
    broadcast use crate::text::lemma_occurs_before;
    broadcast use crate::text::lemma_occurs_behind;

    lemma_occurs_in_itself(value_line("hold_seconds"@, signed_decimal(n.hold_seconds as int)));
    lemma_occurs_in_itself(
        value_line("sweep_interval_seconds"@, decimal(n.sweep_interval_seconds as nat)),
    );
    lemma_occurs_in_itself(
        value_line(
            "renotify_interval_seconds"@,
            signed_decimal(n.renotify_interval_seconds as int),
        ),
    );
    if n.ntfy_url is Some {
        lemma_occurs_in_itself(text_line("url"@, n.ntfy_url->Some_0@));
        if n.ntfy_auth_token is Some {
            lemma_occurs_in_itself(text_line("auth_token"@, n.ntfy_auth_token->Some_0@));
        }
    }
    if n.smtp is Some {
        let s = n.smtp->Some_0;
        lemma_occurs_in_itself(text_line("host"@, s.host@));
        lemma_occurs_in_itself(value_line("port"@, decimal(s.port as nat)));
        lemma_occurs_in_itself(text_line("username"@, s.username@));
        lemma_occurs_in_itself(text_line("password"@, s.password@));
        lemma_occurs_in_itself(text_line("from"@, s.from@));
        lemma_occurs_in_itself(text_line("to"@, s.to@));
    }
}

/// The whole file holds every part, and each key under the section of its own role.
pub proof fn law_the_file_holds_every_part(a: WizardAnswers, include_deployment: bool)
    ensures
        ({
            let file = toml_text(a, include_deployment);
            &&& occurs(file, text_line("network"@, network_word(a.network)))
            &&& occurs(file, value_line("timelock_blocks"@, decimal(a.timelock_blocks as nat)))
            &&& occurs(file, key_part("hardware"@, a.hardware))
            &&& occurs(file, key_part("mobile"@, a.mobile))
            &&& occurs(file, key_part("server"@, a.server))
            &&& occurs(file, policy_part(a.policy))
            &&& occurs(file, notify_part(a.notify))
            &&& occurs(
                file,
                value_line("hold_seconds"@, signed_decimal(a.recovery_hold_seconds as int)),
            )
            &&& a.server_signing matches ServerSigningAnswer::File(p) ==> occurs(
                file,
                text_line("xprv_file"@, p@),
            )
            &&& a.server_signing matches ServerSigningAnswer::EnvVar(v) ==> occurs(
                file,
                text_line("xprv_env_var"@, v@),
            )
            &&& a.nostr_transport matches Some(n) ==> occurs(
                file,
                value_line("allowed_npubs"@, list_text(n.allowed_npubs.deep_view())),
            ) && occurs(file, value_line("relays"@, list_text(n.relays.deep_view())))
            &&& include_deployment ==> {
                &&& occurs(file, text_line("rpc_url"@, a.bitcoind_rpc_url@))
                &&& occurs(file, text_line("bind_addr"@, a.bind_addr@))
                &&& occurs(file, value_line("gap_limit"@, decimal(a.gap_limit as nat)))
                &&& occurs(file, text_line("ledger_db_path"@, a.ledger_db_path@))
            }
        }),
{
    lemma_wallet_holds(a);
    lemma_rules_hold(a);
    let w = wallet_part(a);
    let d = deployment_part(a);
    let rules = rules_part(a);
    if include_deployment {
        lemma_deployment_holds(a);
    }
    assert forall|part: Seq<char>| occurs(w, part) implies #[trigger] occurs(
        toml_text(a, include_deployment),
        part,
    ) by {
        lemma_occurs_beside(w, d, part);
        lemma_occurs_beside(w + d, rules, part);
        lemma_occurs_beside(w, rules, part);
    }
    assert forall|part: Seq<char>| occurs(rules, part) implies #[trigger] occurs(
        toml_text(a, include_deployment),
        part,
    ) by {
        lemma_occurs_beside(w + d, rules, part);
        lemma_occurs_beside(w, rules, part);
    }
    assert forall|part: Seq<char>| include_deployment && occurs(d, part) implies #[trigger] occurs(
        toml_text(a, include_deployment),
        part,
    ) by {
        lemma_occurs_beside(w, d, part);
        lemma_occurs_beside(w + d, rules, part);
    }
}

proof fn lemma_wallet_holds(a: WizardAnswers)
    ensures
        occurs(wallet_part(a), text_line("network"@, network_word(a.network))),
        occurs(wallet_part(a), value_line("timelock_blocks"@, decimal(a.timelock_blocks as nat))),
        occurs(wallet_part(a), key_part("hardware"@, a.hardware)),
        occurs(wallet_part(a), key_part("mobile"@, a.mobile)),
        occurs(wallet_part(a), key_part("server"@, a.server)),
{
    broadcast use crate::text::lemma_occurs_before;
    broadcast use crate::text::lemma_occurs_behind;

    lemma_occurs_in_itself(text_line("network"@, network_word(a.network)));
    lemma_occurs_in_itself(value_line("timelock_blocks"@, decimal(a.timelock_blocks as nat)));
    lemma_occurs_in_itself(key_part("hardware"@, a.hardware));
    lemma_occurs_in_itself(key_part("mobile"@, a.mobile));
    lemma_occurs_in_itself(key_part("server"@, a.server));
    assert(occurs(head_part(a), text_line("network"@, network_word(a.network))));
    assert(occurs(
        head_part(a),
        value_line("timelock_blocks"@, decimal(a.timelock_blocks as nat)),
    ));
}

proof fn lemma_deployment_holds(a: WizardAnswers)
    ensures
        occurs(deployment_part(a), text_line("rpc_url"@, a.bitcoind_rpc_url@)),
        occurs(deployment_part(a), text_line("bind_addr"@, a.bind_addr@)),
        occurs(deployment_part(a), value_line("gap_limit"@, decimal(a.gap_limit as nat))),
        occurs(deployment_part(a), text_line("ledger_db_path"@, a.ledger_db_path@)),
{
    broadcast use crate::text::lemma_occurs_before;
    broadcast use crate::text::lemma_occurs_behind;

    lemma_occurs_in_itself(text_line("rpc_url"@, a.bitcoind_rpc_url@));
    lemma_occurs_in_itself(text_line("bind_addr"@, a.bind_addr@));
    lemma_occurs_in_itself(value_line("gap_limit"@, decimal(a.gap_limit as nat)));
    lemma_occurs_in_itself(text_line("ledger_db_path"@, a.ledger_db_path@));
}

proof fn lemma_rules_hold(a: WizardAnswers)
    ensures
        occurs(rules_part(a), policy_part(a.policy)),
        occurs(rules_part(a), notify_part(a.notify)),
        occurs(
            rules_part(a),
            value_line("hold_seconds"@, signed_decimal(a.recovery_hold_seconds as int)),
        ),
        a.server_signing matches ServerSigningAnswer::File(p) ==> occurs(
            rules_part(a),
            text_line("xprv_file"@, p@),
        ),
        a.server_signing matches ServerSigningAnswer::EnvVar(v) ==> occurs(
            rules_part(a),
            text_line("xprv_env_var"@, v@),
        ),
        a.nostr_transport matches Some(n) ==> occurs(
            rules_part(a),
            value_line("allowed_npubs"@, list_text(n.allowed_npubs.deep_view())),
        ) && occurs(rules_part(a), value_line("relays"@, list_text(n.relays.deep_view()))),
{
    broadcast use crate::text::lemma_occurs_before;
    broadcast use crate::text::lemma_occurs_behind;

    lemma_occurs_in_itself(policy_part(a.policy));
    lemma_occurs_in_itself(notify_part(a.notify));
    let held = value_line("hold_seconds"@, signed_decimal(a.recovery_hold_seconds as int));
    lemma_occurs_in_itself(held);
    assert(occurs(recovery_part(a), held));
    match a.server_signing {
        ServerSigningAnswer::File(p) => {
            lemma_occurs_in_itself(text_line("xprv_file"@, p@));
            assert(occurs(signing_part(a.server_signing), text_line("xprv_file"@, p@)));
        },
        ServerSigningAnswer::EnvVar(v) => {
            lemma_occurs_in_itself(text_line("xprv_env_var"@, v@));
            assert(occurs(signing_part(a.server_signing), text_line("xprv_env_var"@, v@)));
        },
    }
    if a.nostr_transport is Some {
        let n = a.nostr_transport->Some_0;
        let people = value_line("allowed_npubs"@, list_text(n.allowed_npubs.deep_view()));
        let relays = value_line("relays"@, list_text(n.relays.deep_view()));
        lemma_occurs_in_itself(people);
        lemma_occurs_in_itself(relays);
        assert(occurs(nostr_part(a.nostr_transport), people));
        assert(occurs(nostr_part(a.nostr_transport), relays));
    }
}

/// An extended key passes exactly where it can be read, is of the network, and is as deep as the path has
/// steps.
pub proof fn law_an_extended_key_is_of_the_network_and_at_its_path(
    network: ChainNetwork,
    steps: nat,
    v: Seq<char>,
)
    ensures
        xpub_complaint(network, steps, v) is None <==> (xpub_info(v) matches Some(info) && info.depth
            == steps && ((info.network == NetworkKind::Main) == (network
            == ChainNetwork::Mainnet))),
{
}

/// A relay is reached by a web socket, plain or not.
pub proof fn law_a_relay_is_reached_by_a_web_socket(host: Seq<char>)
    ensures
        is_relay_url("wss://"@ + host),
        is_relay_url("ws://"@ + host),
{
    assert(("wss://"@ + host).take("wss://"@.len() as int) =~= "wss://"@);
    assert(("ws://"@ + host).take("ws://"@.len() as int) =~= "ws://"@);
}

/// The main network is acknowledged in the file exactly where it was chosen: any other file goes on from
/// the network to the timelock.
pub proof fn law_the_file_acknowledges_the_main_network_alone(a: WizardAnswers)
    ensures
        head_part(a) == text_line("network"@, network_word(a.network)) + (if a.network
            == ChainNetwork::Mainnet {
            "i_understand_this_is_mainnet = true\n"@
        } else {
            Seq::empty()
        }) + value_line("timelock_blocks"@, decimal(a.timelock_blocks as nat)) + "\n"@,
{
    reveal_strlit("");
    assert(""@ =~= Seq::<char>::empty());
}

/// The node is reached by the credentials that were given: by the cookie, or by both the user and the
/// password.
pub proof fn law_the_file_says_how_the_node_is_reached(a: WizardAnswers)
    ensures
        a.bitcoind_auth matches BitcoindAuthAnswer::Cookie(path) ==> occurs(
            deployment_part(a),
            text_line("rpc_cookie_file"@, path@),
        ),
        a.bitcoind_auth matches BitcoindAuthAnswer::UserPass(user, pass) ==> occurs(
            deployment_part(a),
            text_line("rpc_user"@, user@),
        ) && occurs(deployment_part(a), text_line("rpc_password"@, pass@)),
{
    broadcast use crate::text::lemma_occurs_before;
    broadcast use crate::text::lemma_occurs_behind;

    match a.bitcoind_auth {
        BitcoindAuthAnswer::Cookie(path) => {
            lemma_occurs_in_itself(text_line("rpc_cookie_file"@, path@));
        },
        BitcoindAuthAnswer::UserPass(user, pass) => {
            lemma_occurs_in_itself(text_line("rpc_user"@, user@));
            lemma_occurs_in_itself(text_line("rpc_password"@, pass@));
        },
    }
}

/// The recovery path is limited to every destination that was listed for it, and the service's own key is
/// looked for where it was said to be.
pub proof fn law_the_file_says_where_recovery_may_go(
    a: WizardAnswers,
    nostr: Option<NostrTransportAnswer>,
)
    ensures
        a.recovery_destination_whitelist matches Some(items) ==> (items@.len() > 0 ==> occurs(
            recovery_part(a),
            value_line("destination_whitelist"@, list_text(items.deep_view())),
        )),
        nostr matches Some(n) ==> match n.nsec {
            NostrNsecAnswer::File(path) => occurs(
                nostr_part(nostr),
                text_line("nsec_file"@, path@),
            ),
            NostrNsecAnswer::EnvVar(var) => occurs(
                nostr_part(nostr),
                text_line("nsec_env_var"@, var@),
            ),
        },
{
    broadcast use crate::text::lemma_occurs_before;
    broadcast use crate::text::lemma_occurs_behind;

    if let Some(items) = a.recovery_destination_whitelist {
        lemma_occurs_in_itself(
            value_line("destination_whitelist"@, list_text(items.deep_view())),
        );
    }
    if let Some(n) = nostr {
        match n.nsec {
            NostrNsecAnswer::File(path) => {
                lemma_occurs_in_itself(text_line("nsec_file"@, path@));
            },
            NostrNsecAnswer::EnvVar(var) => {
                lemma_occurs_in_itself(text_line("nsec_env_var"@, var@));
            },
        }
    }
}

} // verus!
