//! Which lines a configuration file has.
//!
//! A file is read by its lines, so what a file leaves out is said of what its lines begin with.

use vstd::prelude::*;
use vstd::string::*;

use crate::config::ChainNetwork;
use crate::text::{decimal, is_digit, lemma_numeral_is_digits, signed_decimal};
use crate::wizard::{
    head_part, key_part, list_text, network_word, nostr_part, notify_part,
    ntfy_part, policy_part, recovery_part, rules_part, signing_part, smtp_part, text_line,
    toml_text, value_line, wallet_part, whitelist_part, KeyAnswer,
    NostrNsecAnswer, NostrTransportAnswer, NotifyAnswer, PolicyAnswer, ServerSigningAnswer,
    SmtpAnswer, WizardAnswers, ANY_DESTINATION, ANY_RECOVERY_DESTINATION, NOSTR_REMARK,
    POLICY_REMARK, RECOVERY_REMARK,
};

verus! {

/// Whether a line of the text starts at `i`.
pub open spec fn starts_line(s: Seq<char>, i: int) -> bool {
    0 <= i <= s.len() && (i == 0 || s[i - 1] == '\n')
}

/// Whether `h` stands at `i`.
pub open spec fn stands_at(s: Seq<char>, h: Seq<char>, i: int) -> bool {
    i + h.len() <= s.len() && s.subrange(i, i + h.len()) == h
}

/// Whether some line of the text begins with `h`.
pub open spec fn has_line(s: Seq<char>, h: Seq<char>) -> bool {
    exists|i: int| #[trigger] starts_line(s, i) && stands_at(s, h, i)
}

/// Whether a text has no line break in it.
pub open spec fn is_one_line(s: Seq<char>) -> bool {
    forall|i: int| 0 <= i < s.len() ==> #[trigger] s[i] != '\n'
}

/// Whether no text of a key has a line break in it.
pub open spec fn is_one_line_each(key: KeyAnswer) -> bool {
    is_one_line(key.fingerprint@) && is_one_line(key.derivation_path@) && is_one_line(key.xpub@)
}

/// Whether no text of the answers has a line break in it. Lists stand apart: what is written of
/// them is quoted.
pub open spec fn are_lines(a: WizardAnswers) -> bool {
    &&& is_one_line_each(a.hardware)
    &&& is_one_line_each(a.mobile)
    &&& is_one_line_each(a.server)
    &&& match a.server_signing {
        ServerSigningAnswer::File(path) => is_one_line(path@),
        ServerSigningAnswer::EnvVar(var) => is_one_line(var@),
    }
    &&& is_one_line(a.policy.max_fee_rate_text@)
    &&& a.notify.ntfy_url matches Some(url) ==> is_one_line(url@)
    &&& a.notify.ntfy_auth_token matches Some(token) ==> is_one_line(token@)
    &&& a.notify.smtp matches Some(s) ==> is_one_line(s.host@) && is_one_line(s.username@)
        && is_one_line(s.password@) && is_one_line(s.from@) && is_one_line(s.to@)
    &&& a.nostr_transport matches Some(n) ==> match n.nsec {
        NostrNsecAnswer::File(path) => is_one_line(path@),
        NostrNsecAnswer::EnvVar(var) => is_one_line(var@),
    }
}

/// Whether a list, where there is one with anything in it, is written on one line.
pub open spec fn is_list_line(list: Option<Vec<String>>) -> bool {
    list matches Some(items) ==> items@.len() > 0 ==> is_one_line(list_text(items.deep_view()))
}

/// Whether every list of the answers is written on one line.
pub open spec fn are_list_lines(a: WizardAnswers) -> bool {
    &&& is_list_line(a.policy.destination_whitelist)
    &&& is_list_line(a.recovery_destination_whitelist)
    &&& a.nostr_transport matches Some(n) ==> is_one_line(list_text(n.relays.deep_view()))
        && is_one_line(list_text(n.allowed_npubs.deep_view()))
}

/// Whether there is no line break from `i` up to `n`.
spec fn is_scanned(s: Seq<char>, i: int, n: int) -> bool
    decreases n - i,
{
    i >= n || (s[i] != '\n' && is_scanned(s, i + 1, n))
}

proof fn lemma_scanned(s: Seq<char>, i: int, n: int)
    requires
        is_scanned(s, i, n),
    ensures
        forall|k: int| i <= k < n ==> #[trigger] s[k] != '\n',
    decreases n - i,
{
    if i < n {
        lemma_scanned(s, i + 1, n);
    }
}

/// Whether no line from `i` on begins with `c`; one starts at `i` where `start` says so.
spec fn begins_none(s: Seq<char>, c: char, i: int, start: bool) -> bool
    decreases s.len() - i,
{
    i >= s.len() || (!(start && s[i] == c) && begins_none(s, c, i + 1, s[i] == '\n'))
}

proof fn lemma_begins_none(s: Seq<char>, c: char, i: int, k: int)
    requires
        0 <= i <= k < s.len(),
        begins_none(s, c, i, starts_line(s, i)),
        starts_line(s, k),
    ensures
        s[k] != c,
    decreases k - i,
{
    if i < k {
        lemma_begins_none(s, c, i + 1, k);
    }
}

/// Whether `h` is a text to be looked for: the line on mainnet, or the head of a section that a
/// file may leave out.
spec fn is_sought(h: Seq<char>) -> bool {
    &&& h.len() >= 8
    &&& forall|k: int| 0 <= k < h.len() - 1 ==> #[trigger] h[k] != '\n'
    &&& h[0] == 'i' || (h[0] == '[' && (h[1] == 'b' || (h[1] == 's' && h[7] == ']')))
}

/// Whether a text is made of whole lines of which none begins with `h`.
spec fn lacks(s: Seq<char>, h: Seq<char>) -> bool {
    (s.len() == 0 || s.last() == '\n') && !has_line(s, h)
}

proof fn lemma_both(a: Seq<char>, b: Seq<char>, h: Seq<char>)
    requires
        lacks(a, h),
        lacks(b, h),
        is_sought(h),
    ensures
        lacks(a + b, h),
{
    let s = a + b;
    assert forall|i: int| #[trigger] starts_line(s, i) implies !stands_at(s, h, i) by {
        if stands_at(s, h, i) {
            let there = s.subrange(i, i + h.len());
            if i >= a.len() {
                assert(starts_line(b, i - a.len()));
                assert(b.subrange(i - a.len(), i - a.len() + h.len()) =~= there);
                assert(stands_at(b, h, i - a.len()));
            } else if i + h.len() <= a.len() {
                assert(starts_line(a, i));
                assert(a.subrange(i, i + h.len()) =~= there);
                assert(stands_at(a, h, i));
            } else {
                let k = a.len() - 1 - i;
                assert(there[k] == a.last());
                assert(h[k] != '\n');
            }
        }
    }
    if b.len() == 0 {
        assert(s =~= a);
    }
}

proof fn lemma_empty(h: Seq<char>)
    requires
        is_sought(h),
    ensures
        lacks(""@, h),
{
    reveal_strlit("");
}

proof fn lemma_one_line(l: Seq<char>, h: Seq<char>)
    requires
        is_sought(h),
        is_one_line(l),
        l.len() > 0 ==> l[0] != h[0] || (l.len() > 7 && (l[1] != h[1] || l[7] != h[7])),
    ensures
        lacks(l + "\n"@, h),
{
    reveal_strlit("\n");
    let s = l + "\n"@;
    assert(s.last() == '\n');
    assert forall|i: int| #[trigger] starts_line(s, i) implies !stands_at(s, h, i) by {
        if stands_at(s, h, i) {
            let there = s.subrange(i, i + h.len());
            if i > 0 && i < s.len() {
                assert(l[i - 1] != '\n');
            }
            if i == 0 {
                assert(there[0] == s[0]);
                assert(there[1] == s[1]);
                assert(there[7] == s[7]);
            }
        }
    }
}

proof fn lemma_blank(h: Seq<char>)
    requires
        is_sought(h),
    ensures
        lacks("\n"@, h),
{
    lemma_one_line(Seq::empty(), h);
    assert(Seq::<char>::empty() + "\n"@ =~= "\n"@);
}

/// The head of a section, with its line break.
proof fn lemma_head_line(s: Seq<char>, h: Seq<char>)
    requires
        is_sought(h),
        s.len() > 8,
        s[s.len() - 1] == '\n',
        is_scanned(s, 0, s.len() - 1),
        s[0] != h[0] || s[1] != h[1] || s[7] != h[7],
    ensures
        lacks(s, h),
{
    lemma_scanned(s, 0, s.len() - 1);
    let l = s.drop_last();
    reveal_strlit("\n");
    lemma_one_line(l, h);
    assert(l + "\n"@ =~= s);
}

/// A remark of some lines.
proof fn lemma_remark(s: Seq<char>, h: Seq<char>)
    requires
        is_sought(h),
        s.len() > 0,
        s[s.len() - 1] == '\n',
        begins_none(s, h[0], 0, true),
    ensures
        lacks(s, h),
{
    assert forall|i: int| #[trigger] starts_line(s, i) implies !stands_at(s, h, i) by {
        if stands_at(s, h, i) {
            assert(s.subrange(i, i + h.len())[0] == s[i]);
            lemma_begins_none(s, h[0], 0, i);
        }
    }
}

proof fn lemma_text_line(name: Seq<char>, value: Seq<char>, h: Seq<char>)
    requires
        is_sought(h),
        is_one_line(value),
        name.len() > 0,
        is_scanned(name, 0, name.len() as int),
        name[0] != '[',
        name[0] != 'i',
    ensures
        lacks(text_line(name, value), h),
{
    lemma_scanned(name, 0, name.len() as int);
    reveal_strlit(" = \"");
    reveal_strlit("\"");
    reveal_strlit("\n");
    reveal_strlit("\"\n");
    let l = name + " = \""@ + value + "\""@;
    assert(is_one_line(l));
    lemma_one_line(l, h);
    assert("\"\n"@ =~= "\""@ + "\n"@);
    assert(l + "\n"@ =~= text_line(name, value));
}

proof fn lemma_value_line(name: Seq<char>, value: Seq<char>, h: Seq<char>)
    requires
        is_sought(h),
        is_one_line(value),
        name.len() > 0,
        is_scanned(name, 0, name.len() as int),
        name[0] != '[',
        name[0] != 'i',
    ensures
        lacks(value_line(name, value), h),
{
    lemma_scanned(name, 0, name.len() as int);
    reveal_strlit(" = ");
    let l = name + " = "@ + value;
    assert(is_one_line(l));
    lemma_one_line(l, h);
}

proof fn lemma_numeral_line(n: nat)
    ensures
        is_one_line(decimal(n)),
{
    lemma_numeral_is_digits(n);
    assert forall|i: int| 0 <= i < decimal(n).len() implies #[trigger] decimal(n)[i] != '\n' by {
        assert(is_digit(decimal(n)[i]));
    }
}

proof fn lemma_signed_numeral_line(n: int)
    ensures
        is_one_line(signed_decimal(n)),
{
    lemma_numeral_line(n as nat);
    lemma_numeral_line((-n) as nat);
}

proof fn lemma_head(a: WizardAnswers, h: Seq<char>)
    requires
        is_sought(h),
        a.network == ChainNetwork::Mainnet ==> h[0] != 'i',
    ensures
        lacks(head_part(a), h),
{
    reveal_with_fuel(is_scanned, 40);
    reveal_strlit("network");
    reveal_strlit("mainnet");
    reveal_strlit("testnet");
    reveal_strlit("signet");
    reveal_strlit("regtest");
    reveal_strlit("timelock_blocks");
    reveal_strlit("i_understand_this_is_mainnet = true\n");
    let w = network_word(a.network);
    lemma_scanned(w, 0, w.len() as int);
    let first = text_line("network"@, w);
    lemma_text_line("network"@, w, h);
    let second = if a.network == ChainNetwork::Mainnet {
        "i_understand_this_is_mainnet = true\n"@
    } else {
        ""@
    };
    if a.network == ChainNetwork::Mainnet {
        lemma_head_line(second, h);
    } else {
        lemma_empty(h);
    }
    lemma_both(first, second, h);
    let third = value_line("timelock_blocks"@, decimal(a.timelock_blocks as nat));
    lemma_numeral_line(a.timelock_blocks as nat);
    lemma_value_line("timelock_blocks"@, decimal(a.timelock_blocks as nat), h);
    lemma_both(first + second, third, h);
    lemma_blank(h);
    lemma_both(first + second + third, "\n"@, h);
}

proof fn lemma_key(section: Seq<char>, key: KeyAnswer, h: Seq<char>)
    requires
        is_sought(h),
        is_one_line_each(key),
        section.len() > 5,
        is_scanned(section, 0, section.len() as int),
    ensures
        lacks(key_part(section, key), h),
{
    reveal_with_fuel(is_scanned, 20);
    reveal_strlit("[keys.");
    reveal_strlit("]");
    reveal_strlit("\n");
    reveal_strlit("]\n");
    reveal_strlit("master_fingerprint");
    reveal_strlit("derivation_path");
    reveal_strlit("xpub");
    lemma_scanned(section, 0, section.len() as int);
    let head = "[keys."@ + section + "]\n"@;
    let l = "[keys."@ + section + "]"@;
    assert(is_one_line(l)) by {
        lemma_scanned("[keys."@, 0, 6);
    }
    lemma_one_line(l, h);
    assert("]\n"@ =~= "]"@ + "\n"@);
    assert(l + "\n"@ =~= head);
    let one = text_line("master_fingerprint"@, key.fingerprint@);
    lemma_text_line("master_fingerprint"@, key.fingerprint@, h);
    lemma_both(head, one, h);
    let two = text_line("derivation_path"@, key.derivation_path@);
    lemma_text_line("derivation_path"@, key.derivation_path@, h);
    lemma_both(head + one, two, h);
    let three = text_line("xpub"@, key.xpub@);
    lemma_text_line("xpub"@, key.xpub@, h);
    lemma_both(head + one + two, three, h);
    lemma_blank(h);
    lemma_both(head + one + two + three, "\n"@, h);
}

proof fn lemma_signing(signing: ServerSigningAnswer, h: Seq<char>)
    requires
        is_sought(h),
        match signing {
            ServerSigningAnswer::File(path) => is_one_line(path@),
            ServerSigningAnswer::EnvVar(var) => is_one_line(var@),
        },
    ensures
        lacks(signing_part(signing), h),
{
    reveal_with_fuel(is_scanned, 20);
    reveal_strlit("[server_signing]\n");
    reveal_strlit("xprv_file");
    reveal_strlit("xprv_env_var");
    lemma_head_line("[server_signing]\n"@, h);
    let source = match signing {
        ServerSigningAnswer::File(path) => text_line("xprv_file"@, path@),
        ServerSigningAnswer::EnvVar(var) => text_line("xprv_env_var"@, var@),
    };
    match signing {
        ServerSigningAnswer::File(path) => {
            lemma_text_line("xprv_file"@, path@, h);
        },
        ServerSigningAnswer::EnvVar(var) => {
            lemma_text_line("xprv_env_var"@, var@, h);
        },
    }
    lemma_both("[server_signing]\n"@, source, h);
    lemma_blank(h);
    lemma_both("[server_signing]\n"@ + source, "\n"@, h);
}

proof fn lemma_whitelist(list: Option<Vec<String>>, otherwise: Seq<char>, h: Seq<char>)
    requires
        is_sought(h),
        is_list_line(list),
        lacks(otherwise, h),
    ensures
        lacks(whitelist_part(list, otherwise), h),
{
    reveal_with_fuel(is_scanned, 30);
    reveal_strlit("destination_whitelist");
    if let Some(items) = list {
        if items@.len() > 0 {
            lemma_value_line("destination_whitelist"@, list_text(items.deep_view()), h);
        }
    }
}

proof fn lemma_remarks(h: Seq<char>)
    requires
        is_sought(h),
    ensures
        lacks(POLICY_REMARK@, h),
        lacks(RECOVERY_REMARK@, h),
        lacks(NOSTR_REMARK@, h),
        lacks(ANY_DESTINATION@, h),
        lacks(ANY_RECOVERY_DESTINATION@, h),
{
    lemma_policy_remark(h);
    lemma_recovery_remark(h);
    lemma_nostr_remark(h);
    reveal_with_fuel(begins_none, 110);
    reveal_strlit(
        "# destination_whitelist = [\"tb1q...\"]  # optional; omit to allow any destination\n",
    );
    lemma_remark(ANY_DESTINATION@, h);
    reveal_strlit(
        "# destination_whitelist = [\"tb1q...\"]  # strongly recommended: pre-commit to where you'd sweep\n",
    );
    lemma_remark(ANY_RECOVERY_DESTINATION@, h);
}

#[verifier::spinoff_prover]
proof fn lemma_policy_remark(h: Seq<char>)
    requires
        is_sought(h),
    ensures
        lacks(POLICY_REMARK@, h),
{
    reveal_with_fuel(begins_none, 80);
    reveal_strlit(
        "# Only consulted once, to seed policy version 1 the first time this service\n# starts against a fresh ledger database - after that the running policy lives\n# in the database and can only change via a HARDWARE-authorized POST /policy.\n",
    );
    assert(begins_none(POLICY_REMARK@, h[0], 210, false));
    assert(begins_none(POLICY_REMARK@, h[0], 140, false));
    assert(begins_none(POLICY_REMARK@, h[0], 70, false));
    assert(begins_none(POLICY_REMARK@, h[0], 35, false));
    lemma_remark(POLICY_REMARK@, h);
}

#[verifier::spinoff_prover]
proof fn lemma_recovery_remark(h: Seq<char>)
    requires
        is_sought(h),
    ensures
        lacks(RECOVERY_REMARK@, h),
{
    reveal_with_fuel(begins_none, 80);
    reveal_strlit(
        "# MOBILE + SERVER path - used if the HARDWARE is lost or destroyed. older(N) is a\n# *relative* timelock: coins already older than timelock_blocks satisfy it right\n# now, so hold_seconds below is the PRIMARY protection against a stolen phone.\n",
    );
    assert(begins_none(RECOVERY_REMARK@, h[0], 210, false));
    assert(begins_none(RECOVERY_REMARK@, h[0], 140, false));
    assert(begins_none(RECOVERY_REMARK@, h[0], 70, false));
    lemma_remark(RECOVERY_REMARK@, h);
}

#[verifier::spinoff_prover]
proof fn lemma_nostr_remark(h: Seq<char>)
    requires
        is_sought(h),
    ensures
        lacks(NOSTR_REMARK@, h),
{
    reveal_with_fuel(begins_none, 80);
    reveal_strlit(
        "\n# Alternate front door for the same HTTP API, over Nostr NIP-17 private\n# messages - no open port needed. Every sender is cryptographically\n# verified before allowed_npubs is even consulted; removing an npub here\n# is how a lost or stolen device is cut off.\n",
    );
    assert(begins_none(NOSTR_REMARK@, h[0], 210, false));
    assert(begins_none(NOSTR_REMARK@, h[0], 140, false));
    assert(begins_none(NOSTR_REMARK@, h[0], 70, false));
    lemma_remark(NOSTR_REMARK@, h);
}

proof fn lemma_policy(p: PolicyAnswer, h: Seq<char>)
    requires
        is_sought(h),
        is_one_line(p.max_fee_rate_text@),
        is_list_line(p.destination_whitelist),
    ensures
        lacks(policy_part(p), h),
{
    reveal_with_fuel(is_scanned, 30);
    reveal_strlit("[policy]\n");
    reveal_strlit("max_tx_sat");
    reveal_strlit("max_daily_sat");
    reveal_strlit("max_weekly_sat");
    reveal_strlit("max_monthly_sat");
    reveal_strlit("max_fee_sat");
    reveal_strlit("max_fee_rate_sat_per_vb");
    lemma_remarks(h);
    lemma_numeral_line(p.max_tx_sat as nat);
    lemma_numeral_line(p.max_daily_sat as nat);
    lemma_numeral_line(p.max_weekly_sat as nat);
    lemma_numeral_line(p.max_monthly_sat as nat);
    lemma_numeral_line(p.max_fee_sat as nat);
    lemma_head_line("[policy]\n"@, h);
    let s0 = POLICY_REMARK@ + "[policy]\n"@;
    lemma_both(POLICY_REMARK@, "[policy]\n"@, h);
    let s1 = s0 + value_line("max_tx_sat"@, decimal(p.max_tx_sat as nat));
    lemma_value_line("max_tx_sat"@, decimal(p.max_tx_sat as nat), h);
    lemma_both(s0, value_line("max_tx_sat"@, decimal(p.max_tx_sat as nat)), h);
    let s2 = s1 + value_line("max_daily_sat"@, decimal(p.max_daily_sat as nat));
    lemma_value_line("max_daily_sat"@, decimal(p.max_daily_sat as nat), h);
    lemma_both(s1, value_line("max_daily_sat"@, decimal(p.max_daily_sat as nat)), h);
    let s3 = s2 + value_line("max_weekly_sat"@, decimal(p.max_weekly_sat as nat));
    lemma_value_line("max_weekly_sat"@, decimal(p.max_weekly_sat as nat), h);
    lemma_both(s2, value_line("max_weekly_sat"@, decimal(p.max_weekly_sat as nat)), h);
    let s4 = s3 + value_line("max_monthly_sat"@, decimal(p.max_monthly_sat as nat));
    lemma_value_line("max_monthly_sat"@, decimal(p.max_monthly_sat as nat), h);
    lemma_both(s3, value_line("max_monthly_sat"@, decimal(p.max_monthly_sat as nat)), h);
    let s5 = s4 + value_line("max_fee_sat"@, decimal(p.max_fee_sat as nat));
    lemma_value_line("max_fee_sat"@, decimal(p.max_fee_sat as nat), h);
    lemma_both(s4, value_line("max_fee_sat"@, decimal(p.max_fee_sat as nat)), h);
    let s6 = s5 + value_line("max_fee_rate_sat_per_vb"@, p.max_fee_rate_text@);
    lemma_value_line("max_fee_rate_sat_per_vb"@, p.max_fee_rate_text@, h);
    lemma_both(s5, value_line("max_fee_rate_sat_per_vb"@, p.max_fee_rate_text@), h);
    let list = whitelist_part(p.destination_whitelist, ANY_DESTINATION@);
    lemma_whitelist(p.destination_whitelist, ANY_DESTINATION@, h);
    lemma_both(s6, list, h);
    lemma_blank(h);
    lemma_both(s6 + list, "\n"@, h);
}

proof fn lemma_ntfy(n: NotifyAnswer, h: Seq<char>)
    requires
        is_sought(h),
        n.ntfy_url matches Some(url) ==> is_one_line(url@),
        n.ntfy_auth_token matches Some(token) ==> is_one_line(token@),
    ensures
        lacks(ntfy_part(n), h),
{
    reveal_with_fuel(is_scanned, 30);
    reveal_strlit("[notify.ntfy]\n");
    reveal_strlit("url");
    reveal_strlit("auth_token");
    lemma_empty(h);
    lemma_blank(h);
    if let Some(url) = n.ntfy_url {
        lemma_head_line("[notify.ntfy]\n"@, h);
        lemma_text_line("url"@, url@, h);
        lemma_both("[notify.ntfy]\n"@, text_line("url"@, url@), h);
        let s0 = "[notify.ntfy]\n"@ + text_line("url"@, url@);
        let token = match n.ntfy_auth_token {
            None => ""@,
            Some(token) => text_line("auth_token"@, token@),
        };
        if let Some(t) = n.ntfy_auth_token {
            lemma_text_line("auth_token"@, t@, h);
        }
        lemma_both(s0, token, h);
        lemma_both(s0 + token, "\n"@, h);
    }
}

proof fn lemma_smtp(smtp: Option<SmtpAnswer>, h: Seq<char>)
    requires
        is_sought(h),
        smtp matches Some(s) ==> is_one_line(s.host@) && is_one_line(s.username@) && is_one_line(
            s.password@,
        ) && is_one_line(s.from@) && is_one_line(s.to@),
    ensures
        lacks(smtp_part(smtp), h),
{
    reveal_with_fuel(is_scanned, 20);
    reveal_strlit("[notify.smtp]\n");
    reveal_strlit("host");
    reveal_strlit("port");
    reveal_strlit("username");
    reveal_strlit("password");
    reveal_strlit("from");
    reveal_strlit("to");
    lemma_empty(h);
    lemma_blank(h);
    if let Some(s) = smtp {
        lemma_head_line("[notify.smtp]\n"@, h);
        lemma_numeral_line(s.port as nat);
        let s0 = "[notify.smtp]\n"@ + text_line("host"@, s.host@);
        lemma_text_line("host"@, s.host@, h);
        lemma_both("[notify.smtp]\n"@, text_line("host"@, s.host@), h);
        let s1 = s0 + value_line("port"@, decimal(s.port as nat));
        lemma_value_line("port"@, decimal(s.port as nat), h);
        lemma_both(s0, value_line("port"@, decimal(s.port as nat)), h);
        let s2 = s1 + text_line("username"@, s.username@);
        lemma_text_line("username"@, s.username@, h);
        lemma_both(s1, text_line("username"@, s.username@), h);
        let s3 = s2 + text_line("password"@, s.password@);
        lemma_text_line("password"@, s.password@, h);
        lemma_both(s2, text_line("password"@, s.password@), h);
        let s4 = s3 + text_line("from"@, s.from@);
        lemma_text_line("from"@, s.from@, h);
        lemma_both(s3, text_line("from"@, s.from@), h);
        let s5 = s4 + text_line("to"@, s.to@);
        lemma_text_line("to"@, s.to@, h);
        lemma_both(s4, text_line("to"@, s.to@), h);
        lemma_both(s5, "\n"@, h);
    }
}

proof fn lemma_notify(n: NotifyAnswer, h: Seq<char>)
    requires
        is_sought(h),
        lacks(ntfy_part(n), h),
        lacks(smtp_part(n.smtp), h),
    ensures
        lacks(notify_part(n), h),
{
    reveal_with_fuel(is_scanned, 30);
    reveal_strlit("[notify]\n");
    reveal_strlit("hold_seconds");
    reveal_strlit("sweep_interval_seconds");
    reveal_strlit("renotify_interval_seconds");
    lemma_head_line("[notify]\n"@, h);
    lemma_signed_numeral_line(n.hold_seconds as int);
    lemma_numeral_line(n.sweep_interval_seconds as nat);
    lemma_signed_numeral_line(n.renotify_interval_seconds as int);
    let hold = value_line("hold_seconds"@, signed_decimal(n.hold_seconds as int));
    lemma_value_line("hold_seconds"@, signed_decimal(n.hold_seconds as int), h);
    lemma_both("[notify]\n"@, hold, h);
    let s0 = "[notify]\n"@ + hold;
    let sweep = value_line("sweep_interval_seconds"@, decimal(n.sweep_interval_seconds as nat));
    lemma_value_line("sweep_interval_seconds"@, decimal(n.sweep_interval_seconds as nat), h);
    lemma_both(s0, sweep, h);
    let again = value_line(
        "renotify_interval_seconds"@,
        signed_decimal(n.renotify_interval_seconds as int),
    );
    lemma_value_line(
        "renotify_interval_seconds"@,
        signed_decimal(n.renotify_interval_seconds as int),
        h,
    );
    lemma_both(s0 + sweep, again, h);
    let s1 = s0 + sweep + again;
    lemma_blank(h);
    lemma_both(s1, "\n"@, h);
    lemma_both(s1 + "\n"@, ntfy_part(n), h);
    lemma_both(s1 + "\n"@ + ntfy_part(n), smtp_part(n.smtp), h);
}

proof fn lemma_recovery(a: WizardAnswers, h: Seq<char>)
    requires
        is_sought(h),
        is_list_line(a.recovery_destination_whitelist),
    ensures
        lacks(recovery_part(a), h),
{
    reveal_with_fuel(is_scanned, 20);
    reveal_strlit("[recovery]\n");
    reveal_strlit("hold_seconds");
    lemma_remarks(h);
    lemma_head_line("[recovery]\n"@, h);
    lemma_both(RECOVERY_REMARK@, "[recovery]\n"@, h);
    let s0 = RECOVERY_REMARK@ + "[recovery]\n"@;
    lemma_signed_numeral_line(a.recovery_hold_seconds as int);
    let hold = value_line("hold_seconds"@, signed_decimal(a.recovery_hold_seconds as int));
    lemma_value_line("hold_seconds"@, signed_decimal(a.recovery_hold_seconds as int), h);
    lemma_both(s0, hold, h);
    let list = whitelist_part(a.recovery_destination_whitelist, ANY_RECOVERY_DESTINATION@);
    lemma_whitelist(a.recovery_destination_whitelist, ANY_RECOVERY_DESTINATION@, h);
    lemma_both(s0 + hold, list, h);
}

proof fn lemma_nostr(nostr: Option<NostrTransportAnswer>, h: Seq<char>)
    requires
        is_sought(h),
        nostr matches Some(n) ==> {
            &&& match n.nsec {
                NostrNsecAnswer::File(path) => is_one_line(path@),
                NostrNsecAnswer::EnvVar(var) => is_one_line(var@),
            }
            &&& is_one_line(list_text(n.relays.deep_view()))
            &&& is_one_line(list_text(n.allowed_npubs.deep_view()))
        },
    ensures
        lacks(nostr_part(nostr), h),
{
    reveal_with_fuel(is_scanned, 20);
    reveal_strlit("[nostr_transport]\n");
    reveal_strlit("nsec_file");
    reveal_strlit("nsec_env_var");
    reveal_strlit("relays");
    reveal_strlit("allowed_npubs");
    lemma_empty(h);
    if let Some(n) = nostr {
        lemma_remarks(h);
        lemma_head_line("[nostr_transport]\n"@, h);
        lemma_both(NOSTR_REMARK@, "[nostr_transport]\n"@, h);
        let s0 = NOSTR_REMARK@ + "[nostr_transport]\n"@;
        let source = match n.nsec {
            NostrNsecAnswer::File(path) => text_line("nsec_file"@, path@),
            NostrNsecAnswer::EnvVar(var) => text_line("nsec_env_var"@, var@),
        };
        match n.nsec {
            NostrNsecAnswer::File(path) => {
                lemma_text_line("nsec_file"@, path@, h);
            },
            NostrNsecAnswer::EnvVar(var) => {
                lemma_text_line("nsec_env_var"@, var@, h);
            },
        }
        lemma_both(s0, source, h);
        let relays = value_line("relays"@, list_text(n.relays.deep_view()));
        lemma_value_line("relays"@, list_text(n.relays.deep_view()), h);
        lemma_both(s0 + source, relays, h);
        let npubs = value_line("allowed_npubs"@, list_text(n.allowed_npubs.deep_view()));
        lemma_value_line("allowed_npubs"@, list_text(n.allowed_npubs.deep_view()), h);
        lemma_both(s0 + source + relays, npubs, h);
    }
}

proof fn lemma_wallet(a: WizardAnswers, h: Seq<char>)
    requires
        is_sought(h),
        are_lines(a),
        a.network == ChainNetwork::Mainnet ==> h[0] != 'i',
    ensures
        lacks(wallet_part(a), h),
{
    lemma_head(a, h);
    lemma_keys(a, h);
    let s0 = head_part(a) + key_part("hardware"@, a.hardware);
    lemma_both(head_part(a), key_part("hardware"@, a.hardware), h);
    lemma_both(s0, key_part("mobile"@, a.mobile), h);
    lemma_both(s0 + key_part("mobile"@, a.mobile), key_part("server"@, a.server), h);
}

proof fn lemma_keys(a: WizardAnswers, h: Seq<char>)
    requires
        is_sought(h),
        are_lines(a),
    ensures
        lacks(key_part("hardware"@, a.hardware), h),
        lacks(key_part("mobile"@, a.mobile), h),
        lacks(key_part("server"@, a.server), h),
{
    reveal_with_fuel(is_scanned, 20);
    reveal_strlit("hardware");
    reveal_strlit("mobile");
    reveal_strlit("server");
    lemma_key("hardware"@, a.hardware, h);
    lemma_key("mobile"@, a.mobile, h);
    lemma_key("server"@, a.server, h);
}

proof fn lemma_rules(a: WizardAnswers, h: Seq<char>)
    requires
        is_sought(h),
        are_lines(a),
        are_list_lines(a),
    ensures
        lacks(rules_part(a), h),
{
    lemma_signing(a.server_signing, h);
    lemma_policy(a.policy, h);
    lemma_ntfy(a.notify, h);
    lemma_smtp(a.notify.smtp, h);
    lemma_notify(a.notify, h);
    lemma_recovery(a, h);
    lemma_nostr(a.nostr_transport, h);
    let s0 = signing_part(a.server_signing) + policy_part(a.policy);
    lemma_both(signing_part(a.server_signing), policy_part(a.policy), h);
    lemma_both(s0, notify_part(a.notify), h);
    let s1 = s0 + notify_part(a.notify);
    lemma_both(s1, recovery_part(a), h);
    lemma_both(s1 + recovery_part(a), nostr_part(a.nostr_transport), h);
}

proof fn lemma_user_file_lacks(a: WizardAnswers, h: Seq<char>)
    requires
        is_sought(h),
        are_lines(a),
        are_list_lines(a),
        a.network == ChainNetwork::Mainnet ==> h[0] != 'i',
    ensures
        lacks(toml_text(a, false), h),
{
    lemma_wallet(a, h);
    lemma_rules(a, h);
    lemma_both(wallet_part(a), rules_part(a), h);
}

proof fn lemma_sought()
    ensures
        is_sought("[bitcoind]"@),
        is_sought("[server]"@),
        is_sought("i_understand_this_is_mainnet = true\n"@),
        "[bitcoind]"@[0] == '[',
        "[server]"@[0] == '[',
{
    reveal_with_fuel(is_scanned, 40);
    reveal_strlit("[bitcoind]");
    reveal_strlit("[server]");
    reveal_strlit("i_understand_this_is_mainnet = true\n");
    lemma_scanned("[bitcoind]"@, 0, 9);
    lemma_scanned("[server]"@, 0, 7);
    lemma_scanned("i_understand_this_is_mainnet = true\n"@, 0, 35);
}

/// A user file has no section on the node or on the service, which the deployment adds, and it has
/// the section on the server's key; and it has the line that stands for an understanding of mainnet
/// exactly on mainnet.
pub proof fn law_the_user_file_has_no_deployment_sections(a: WizardAnswers)
    requires
        are_lines(a),
        are_list_lines(a),
    ensures
        !has_line(toml_text(a, false), "[bitcoind]"@),
        !has_line(toml_text(a, false), "[server]"@),
        has_line(toml_text(a, false), "[server_signing]\n"@),
        has_line(toml_text(a, false), "i_understand_this_is_mainnet = true\n"@) <==> a.network
            == ChainNetwork::Mainnet,
{
    let s = toml_text(a, false);
    lemma_sought();
    lemma_user_file_lacks(a, "[bitcoind]"@);
    lemma_user_file_lacks(a, "[server]"@);
    lemma_wallet(a, "[server]"@);
    let at = wallet_part(a).len() as int;
    let head = "[server_signing]\n"@;
    assert(s.subrange(at, at + head.len()) =~= head);
    assert(starts_line(s, at)) by {
        if at > 0 {
            assert(s[at - 1] == wallet_part(a).last());
        }
    }
    assert(stands_at(s, head, at));
    let line = "i_understand_this_is_mainnet = true\n"@;
    if a.network == ChainNetwork::Mainnet {
        let before = text_line("network"@, "mainnet"@);
        let k = before.len() as int;
        reveal_strlit("\"\n");
        assert(before.last() == '\n');
        assert(s.subrange(k, k + line.len()) =~= line);
        assert(s[k - 1] == before.last());
        assert(starts_line(s, k));
        assert(stands_at(s, line, k));
    } else {
        lemma_user_file_lacks(a, line);
    }
}

} // verus!
