//! The page that a service in operation shows: what it runs with, and the wallet's descriptor in
//! each of its forms, so that it can be had again at any time.
//!
//! Nothing on it is secret.

use vstd::prelude::*;
use vstd::string::*;

use crate::config::{ChainNetwork, WalletConfig};
use crate::descriptor::{address_at, address_at_index, is_derivable, BuiltDescriptor};
use crate::setup::{qr_picture, qr_svg};
use crate::text::{
    decimal, lemma_occurs_at_the_end, lemma_occurs_beside, lemma_occurs_in_itself, occurs, push_decimal,
};
use crate::wizard::{network_str, network_word};

verus! {

/// The page up to the class of the network's badge.
pub const PAGE_HEAD: &'static str =
    "<!doctype html>\n<html lang=\"en\"><head><meta charset=\"utf-8\">\n<meta name=\"viewport\" content=\"width=device-width, initial-scale=1\">\n<title>Bitme Cosigner</title>\n<style>\n:root { --bg:#f6f7f9; --panel:#fff; --ink:#14171a; --muted:#5c6570; --line:#dfe3e8;\n        --accent:#f7931a; --accent-ink:#1a1005; --ok:#1a7f45; --code-bg:#f0f2f5; }\n@media (prefers-color-scheme:dark) { :root { --bg:#111417; --panel:#1a1e22; --ink:#e8eaed;\n        --muted:#98a2ad; --line:#2c3238; --ok:#56d38a; --code-bg:#101316; } }\n*{box-sizing:border-box}\nbody{margin:0;background:var(--bg);color:var(--ink);\n     font:15px/1.55 -apple-system,BlinkMacSystemFont,\"Segoe UI\",Roboto,Helvetica,Arial,sans-serif}\n.wrap{max-width:760px;margin:0 auto;padding:32px 20px 80px}\nheader{display:flex;align-items:baseline;gap:12px}\nh1{font-size:21px;margin:0}\n.net{font-size:12px;font-weight:600;text-transform:uppercase;letter-spacing:.06em;padding:3px 8px;\n     border-radius:999px;border:1px solid var(--line);color:var(--muted)}\n.net.mainnet{color:var(--accent-ink);background:var(--accent);border-color:var(--accent)}\n.sub{color:var(--muted);margin:6px 0 24px;font-size:14px}\n.card{background:var(--panel);border:1px solid var(--line);border-radius:12px;padding:24px;margin-bottom:16px}\n.card h2{font-size:17px;margin:0 0 6px} .card p{color:var(--muted);margin:0 0 16px}\n.kv{display:flex;justify-content:space-between;gap:16px;padding:7px 0;border-bottom:1px solid var(--line);font-size:14px}\n.kv:last-child{border-bottom:0} .kv span:first-child{color:var(--muted)}\n.kv span:last-child{text-align:right;font-family:ui-monospace,Menlo,monospace;font-size:12.5px;word-break:break-all}\n.tabs{display:flex;gap:6px;margin-bottom:14px}\n.tab{flex:1;font:inherit;font-weight:600;padding:8px 12px;border-radius:8px;cursor:pointer;\n     background:transparent;color:var(--muted);border:1px solid var(--line)}\n.tab.on{background:var(--accent);color:var(--accent-ink);border-color:var(--accent)}\npre{font-family:ui-monospace,Menlo,Consolas,monospace;background:var(--code-bg);border:1px solid var(--line);\n    border-radius:6px;padding:12px;font-size:12.5px;white-space:pre-wrap;word-break:break-all;margin:0}\n.qr{text-align:center;margin:16px 0}\n.qr svg{width:min(340px,86vw);height:auto;background:#fff;padding:12px;border-radius:8px}\n.hidden{display:none}\n.note{border-left:3px solid var(--accent);padding:10px 14px;background:var(--code-bg);\n      border-radius:0 8px 8px 0;font-size:13.5px;color:var(--muted);margin:16px 0}\n.note b{color:var(--ink)}\n.ok{color:var(--ok);font-weight:600}\nfooter{color:var(--muted);font-size:12.5px;text-align:center;margin-top:28px}\n</style></head><body><div class=\"wrap\">\n<header><h1>Bitme Cosigner</h1><span class=\"net";

/// What stands behind the class of the badge.
pub const BADGE_END: &'static str =
    "\">";

/// The status up to the version.
pub const STATUS_VERSION: &'static str =
    "</span></header>\n<p class=\"sub\"><span class=\"ok\">Running.</span> This service holds one of three keys and co-signs\nonly when your policy allows. It can never spend on its own.</p>\n\n<div class=\"card\">\n  <h2>Status</h2>\n  <div class=\"kv\"><span>Version</span><span>";

/// What stands behind the version.
pub const STATUS_NETWORK: &'static str =
    "</span></div>\n  <div class=\"kv\"><span>Network</span><span>";

/// What stands behind the network.
pub const STATUS_POLICY: &'static str =
    "</span></div>\n  <div class=\"kv\"><span>Policy version</span><span>";

/// What stands behind the policy's version.
pub const STATUS_TIMELOCK: &'static str =
    "</span></div>\n  <div class=\"kv\"><span>Recovery timelock</span><span>";

/// What stands behind the blocks of the timelock.
pub const STATUS_DAYS: &'static str =
    " blocks (~";

/// What stands behind its days.
pub const STATUS_ADDRESS: &'static str =
    " days)</span></div>\n  <div class=\"kv\"><span>First receive address</span><span>";

/// What stands behind the first address, up to the tabs.
pub const DESCRIPTOR_TABS: &'static str =
    "</span></div>\n</div>\n\n<div class=\"card\">\n  <h2>Wallet descriptor</h2>\n  <p>What your coordinator needs in order to know this wallet. Contains no private keys - safe to\n  store as plain text, and worth keeping a copy: your three keys alone cannot rebuild the wallet\n  without it.</p>\n  <div class=\"tabs\">";

/// What stands behind the tabs, up to the panes.
pub const DESCRIPTOR_NOTE: &'static str =
    "</div>\n  <div class=\"note\"><b>Start with Combined.</b> It carries receive and change in one descriptor\n  using <code>&lt;0;1&gt;</code> (BIP389). If your wallet says the data doesn't match a supported\n  format, it can't read multipath - switch to <b>Receive only</b>, and add <b>Change only</b> if it\n  asks for a second descriptor. All three describe the same wallet.</div>\n  ";

/// The rest of the page.
pub const PAGE_FOOT: &'static str =
    "\n</div>\n\n<div class=\"card\">\n  <h2>API</h2>\n  <p>Everything else happens over HTTP. <code>GET /health</code>, <code>POST /inspect</code>,\n  <code>POST /sign_psbt</code>, <code>GET /sign_psbt/{id}</code>, <code>POST /veto/{id}</code>,\n  <code>GET|POST /policy</code>, <code>GET|POST /freeze</code>, <code>POST /unfreeze</code>.</p>\n  <div class=\"note\"><b>POST /freeze is deliberately unauthenticated.</b> It's the \"my phone was\n  just stolen\" button and has to work in a hurry. Freezing can only cause denial of service, which\n  is strictly better than theft.</div>\n</div>\n\n<footer>Two signatures move funds. This box only ever holds one of them.</footer>\n</div>\n<script>\ndocument.querySelectorAll('.tab').forEach(t => t.onclick = () => {\n  document.querySelectorAll('.tab').forEach(x => x.classList.toggle('on', x === t));\n  document.querySelectorAll('.pane').forEach(p => p.classList.toggle('hidden', p.id !== 'p-' + t.dataset.t));\n});\n</script>\n</body></html>";

/// A character as it is written in HTML.
pub open spec fn escaped_char(c: char) -> Seq<char> {
    if c == '&' {
        "&amp;"@
    } else if c == '<' {
        "&lt;"@
    } else if c == '>' {
        "&gt;"@
    } else if c == '"' {
        "&quot;"@
    } else {
        seq![c]
    }
}

/// A text as it is written in HTML.
pub open spec fn escaped(s: Seq<char>) -> Seq<char>
    decreases s.len(),
{
    if s.len() == 0 {
        Seq::empty()
    } else {
        escaped(s.drop_last()) + escaped_char(s.last())
    }
}

/// Writes a text for HTML.
pub fn esc(s: &str) -> (r: String)
    ensures
        r@ == escaped(s@),
{
    let mut out = String::new();
    let n: usize = s.unicode_len();
    let mut i: usize = 0;
    while i < n
        invariant
            i <= n,
            n == s@.len(),
            out@ == escaped(s@.take(i as int)),
        decreases n - i,
    {
        let c = s.get_char(i);
        let ghost before = out@;
        if c == '&' {
            out.append("&amp;");
        } else if c == '<' {
            out.append("&lt;");
        } else if c == '>' {
            out.append("&gt;");
        } else if c == '"' {
            out.append("&quot;");
        } else {
            out.push(c);
            assert(out@ =~= before + seq![c]);
        }
        assert(s@.take(i + 1).drop_last() =~= s@.take(i as int));
        i = i + 1;
    }
    assert(s@.take(i as int) =~= s@);
    out
}

/// Whatever a text holds, no tag and no attribute begins or ends in what is written of it.
pub proof fn law_what_is_escaped_is_no_markup(s: Seq<char>)
    ensures
        !escaped(s).contains('<'),
        !escaped(s).contains('>'),
        !escaped(s).contains('"'),
    decreases s.len(),
{
    if s.len() > 0 {
        law_what_is_escaped_is_no_markup(s.drop_last());
        reveal_strlit("&amp;");
        reveal_strlit("&lt;");
        reveal_strlit("&gt;");
        reveal_strlit("&quot;");
        let before = escaped(s.drop_last());
        let last = escaped_char(s.last());
        assert forall|i: int| 0 <= i < last.len() implies last[i] != '<' && last[i] != '>'
            && last[i] != '"' by {}
        assert forall|i: int| 0 <= i < escaped(s).len() implies escaped(s)[i] != '<'
            && escaped(s)[i] != '>' && escaped(s)[i] != '"' by {
            if i < before.len() {
                assert(escaped(s)[i] == before[i]);
                assert(before.contains(before[i]));
            } else {
                assert(escaped(s)[i] == last[i - before.len()]);
            }
        }
    }
}

/// The tab of one of the forms of the descriptor.
pub open spec fn tab_text(first: bool, id: Seq<char>, label: Seq<char>) -> Seq<char> {
    "<button class=\"tab"@ + (if first {
        " on"@
    } else {
        ""@
    }) + "\" data-t=\""@ + id + "\">"@ + label + "</button>"@
}

fn push_tab(out: &mut String, first: bool, id: &str, label: &str)
    ensures
        final(out)@ == old(out)@ + tab_text(first, id@, label@),
{
    out.append("<button class=\"tab");
    if first {
        out.append(" on");
    } else {
        out.append("");
    }
    out.append("\" data-t=\"");
    out.append(id);
    out.append("\">");
    out.append(label);
    out.append("</button>");
    assert(out@ =~= old(out)@ + tab_text(first, id@, label@));
}

/// The pane of one of the forms of the descriptor: its picture where there is one, and its text.
pub open spec fn pane_text(first: bool, id: Seq<char>, text: Seq<char>) -> Seq<char> {
    "<div class=\"pane"@ + (if first {
        ""@
    } else {
        " hidden"@
    }) + "\" id=\"p-"@ + id + "\">"@ + (match qr_picture(text) {
        Some(svg) => "<div class=\"qr\">"@ + svg + "</div>"@,
        None => ""@,
    }) + "<pre>"@ + escaped(text) + "</pre></div>"@
}

fn push_pane(out: &mut String, first: bool, id: &str, text: &str)
    ensures
        final(out)@ == old(out)@ + pane_text(first, id@, text@),
{
    out.append("<div class=\"pane");
    if first {
        out.append("");
    } else {
        out.append(" hidden");
    }
    out.append("\" id=\"p-");
    out.append(id);
    out.append("\">");
    match qr_svg(text) {
        Some(svg) => {
            out.append("<div class=\"qr\">");
            out.append(svg.as_str());
            out.append("</div>");
        },
        None => {
            out.append("");
        },
    }
    out.append("<pre>");
    out.append(esc(text).as_str());
    out.append("</pre></div>");
    assert(out@ =~= old(out)@ + pane_text(first, id@, text@));
}

/// The three tabs.
pub open spec fn tabs_text() -> Seq<char> {
    tab_text(true, "combined"@, "Combined"@) + tab_text(false, "receive"@, "Receive only"@)
        + tab_text(false, "change"@, "Change only"@)
}

/// The three panes.
pub open spec fn panes_text(wallet: BuiltDescriptor) -> Seq<char> {
    pane_text(true, "combined"@, wallet.multipath_text()) + pane_text(
        false,
        "receive"@,
        wallet.external_text(),
    ) + pane_text(false, "change"@, wallet.internal_text())
}

/// The first address to receive at, as far as there is one.
pub open spec fn first_address_text(wallet: BuiltDescriptor, network: ChainNetwork) -> Seq<char> {
    let external = wallet.external_text();
    match address_at_index(external, 0, network) {
        Some(a) => if is_derivable(external) {
            a
        } else {
            "unavailable"@
        },
        None => "unavailable"@,
    }
}

/// The page.
pub open spec fn page_text(
    wallet: BuiltDescriptor,
    network: ChainNetwork,
    policy_version: nat,
    version: Seq<char>,
) -> Seq<char> {
    PAGE_HEAD@ + (if network == ChainNetwork::Mainnet {
        " mainnet"@
    } else {
        ""@
    }) + BADGE_END@ + network_word(network) + STATUS_VERSION@ + version + STATUS_NETWORK@
        + network_word(network) + STATUS_POLICY@ + decimal(policy_version) + STATUS_TIMELOCK@
        + decimal(wallet.timelock() as nat) + STATUS_DAYS@ + decimal(
        (wallet.timelock() / 144) as nat,
    ) + STATUS_ADDRESS@ + first_address_text(wallet, network) + DESCRIPTOR_TABS@ + tabs_text()
        + DESCRIPTOR_NOTE@ + panes_text(wallet) + PAGE_FOOT@
}

/// Renders the page for a wallet, the version of its policy, and the version of the service.
pub fn render(
    wallet: &BuiltDescriptor,
    cfg: &WalletConfig,
    policy_version: u64,
    version: &str,
) -> (r: String)
    ensures
        r@ == page_text(*wallet, cfg.network, policy_version as nat, version@),
{
    let network = network_str(cfg.network);
    let first_address = match address_at(wallet.external(), 0, cfg.network) {
        Ok(a) => a,
        Err(_) => "unavailable".to_owned(),
    };
    let timelock: u16 = wallet.timelock_blocks();
    let mut tabs = String::new();
    push_tab(&mut tabs, true, "combined", "Combined");
    push_tab(&mut tabs, false, "receive", "Receive only");
    push_tab(&mut tabs, false, "change", "Change only");
    let mut panes = String::new();
    push_pane(&mut panes, true, "combined", wallet.multipath());
    push_pane(&mut panes, false, "receive", wallet.external());
    push_pane(&mut panes, false, "change", wallet.internal());
    proof {
        lemma_three(
            tab_text(true, "combined"@, "Combined"@),
            tab_text(false, "receive"@, "Receive only"@),
            tab_text(false, "change"@, "Change only"@),
        );
        lemma_three(
            pane_text(true, "combined"@, wallet.multipath_text()),
            pane_text(false, "receive"@, wallet.external_text()),
            pane_text(false, "change"@, wallet.internal_text()),
        );
    }
    let mut out = PAGE_HEAD.to_owned();
    if cfg.network == ChainNetwork::Mainnet {
        out.append(" mainnet");
    } else {
        out.append("");
    }
    out.append(BADGE_END);
    out.append(network);
    out.append(STATUS_VERSION);
    out.append(version);
    out.append(STATUS_NETWORK);
    out.append(network);
    out.append(STATUS_POLICY);
    push_decimal(&mut out, policy_version);
    out.append(STATUS_TIMELOCK);
    push_decimal(&mut out, timelock as u64);
    out.append(STATUS_DAYS);
    push_decimal(&mut out, (timelock / 144) as u64);
    out.append(STATUS_ADDRESS);
    out.append(first_address.as_str());
    out.append(DESCRIPTOR_TABS);
    out.append(tabs.as_str());
    out.append(DESCRIPTOR_NOTE);
    out.append(panes.as_str());
    out.append(PAGE_FOOT);
    out
}

proof fn lemma_three(a: Seq<char>, b: Seq<char>, c: Seq<char>)
    ensures
        Seq::<char>::empty() + a + b + c == a + b + c,
{
    assert(Seq::<char>::empty() + a =~= a);
}

/// Escaping goes character by character: the four characters that mark up are spelled out, and every
/// other stays.
pub proof fn law_escaping_keeps_all_but_markup(a: Seq<char>, b: Seq<char>, c: char)
    ensures
        escaped(a + b) == escaped(a) + escaped(b),
        c != '&' && c != '<' && c != '>' && c != '"' ==> escaped(seq![c]) == seq![c],
        escaped(seq!['&']) == "&amp;"@,
        escaped(seq!['<']) == "&lt;"@,
        escaped(seq!['>']) == "&gt;"@,
        escaped(seq!['"']) == "&quot;"@,
    decreases b.len(),
{
    assert forall|x: char| #[trigger] escaped(seq![x]) == escaped_char(x) by {
        reveal_with_fuel(escaped, 2);
        assert(seq![x].drop_last() =~= Seq::<char>::empty());
        assert(escaped(seq![x]) =~= escaped(Seq::<char>::empty()) + escaped_char(x));
        assert(Seq::<char>::empty() + escaped_char(x) =~= escaped_char(x));
    }
    if b.len() == 0 {
        assert(a + b =~= a);
        assert(escaped(a) + escaped(b) =~= escaped(a));
    } else {
        law_escaping_keeps_all_but_markup(a, b.drop_last(), c);
        assert((a + b).drop_last() =~= a + b.drop_last());
        assert(escaped(a + b) =~= escaped(a) + escaped(b));
    }
}

/// The page shows the whole descriptor, the one for receiving and the one for change, each escaped and
/// under its own name, and the first address.
pub proof fn law_the_page_shows_each_descriptor_and_the_first_address(
    wallet: BuiltDescriptor,
    network: ChainNetwork,
    policy_version: nat,
    version: Seq<char>,
)
    ensures
        ({
            let page = page_text(wallet, network, policy_version, version);
            &&& occurs(page, pane_text(true, "combined"@, wallet.multipath_text()))
            &&& occurs(page, pane_text(false, "receive"@, wallet.external_text()))
            &&& occurs(page, pane_text(false, "change"@, wallet.internal_text()))
            &&& is_derivable(wallet.external_text()) ==> (address_at_index(
                wallet.external_text(),
                0,
                network,
            ) matches Some(a) ==> occurs(page, a))
            &&& occurs(page, STATUS_POLICY@ + decimal(policy_version))
            &&& occurs(page, STATUS_TIMELOCK@ + decimal(wallet.timelock() as nat))
        }),
{
    broadcast use crate::text::lemma_occurs_before;

    let page = page_text(wallet, network, policy_version, version);
    let badge = PAGE_HEAD@ + (if network == ChainNetwork::Mainnet {
        " mainnet"@
    } else {
        ""@
    }) + BADGE_END@ + network_word(network) + STATUS_VERSION@ + version + STATUS_NETWORK@
        + network_word(network);
    let dated = badge + STATUS_POLICY@ + decimal(policy_version);
    let locked = dated + STATUS_TIMELOCK@ + decimal(wallet.timelock() as nat);
    let days = locked + STATUS_DAYS@ + decimal((wallet.timelock() / 144) as nat)
        + STATUS_ADDRESS@;
    let address = first_address_text(wallet, network);
    let tabs = days + address + DESCRIPTOR_TABS@ + tabs_text() + DESCRIPTOR_NOTE@;
    let panes = panes_text(wallet);
    assert(page == tabs + panes + PAGE_FOOT@);
    lemma_occurs_at_the_end(badge, STATUS_POLICY@, decimal(policy_version));
    lemma_occurs_at_the_end(dated, STATUS_TIMELOCK@, decimal(wallet.timelock() as nat));
    lemma_occurs_in_itself(address);
    lemma_occurs_beside(days, address, address);
    let one = pane_text(true, "combined"@, wallet.multipath_text());
    let two = pane_text(false, "receive"@, wallet.external_text());
    let three = pane_text(false, "change"@, wallet.internal_text());
    lemma_occurs_in_itself(one);
    lemma_occurs_in_itself(two);
    lemma_occurs_in_itself(three);
    lemma_occurs_beside(one, two, two);
    lemma_occurs_beside(one + two, three, three);
    assert(occurs(panes, one) && occurs(panes, two) && occurs(panes, three));
    lemma_occurs_beside(tabs, panes, one);
    lemma_occurs_beside(tabs, panes, two);
    lemma_occurs_beside(tabs, panes, three);
}

/// A pane shows its text, escaped, and the code of it where it fits one.
pub proof fn law_a_pane_shows_its_text(first: bool, id: Seq<char>, text: Seq<char>)
    ensures
        occurs(pane_text(first, id, text), "<pre>"@ + escaped(text) + "</pre>"@),
        qr_picture(text) matches Some(svg) ==> occurs(pane_text(first, id, text), svg),
{
    let pane = pane_text(first, id, text);
    let shown = "<pre>"@ + escaped(text) + "</pre>"@;
    reveal_strlit("</pre></div>");
    reveal_strlit("</pre>");
    reveal_strlit("</div>");
    assert("</pre></div>"@ =~= "</pre>"@ + "</div>"@);
    let head = "<div class=\"pane"@ + (if first {
        ""@
    } else {
        " hidden"@
    }) + "\" id=\"p-"@ + id + "\">"@;
    let code = match qr_picture(text) {
        Some(svg) => "<div class=\"qr\">"@ + svg + "</div>"@,
        None => ""@,
    };
    assert(pane =~= head + (code + (shown + "</div>"@)));
    lemma_occurs_in_itself(shown);
    lemma_occurs_beside(shown, "</div>"@, shown);
    lemma_occurs_beside(code, shown + "</div>"@, shown);
    lemma_occurs_beside(head, code + (shown + "</div>"@), shown);
    if qr_picture(text) is Some {
        let svg = qr_picture(text)->Some_0;
        lemma_occurs_in_itself(svg);
        lemma_occurs_beside("<div class=\"qr\">"@, svg, svg);
        lemma_occurs_beside("<div class=\"qr\">"@ + svg, "</div>"@, svg);
        lemma_occurs_beside(code, shown + "</div>"@, svg);
        lemma_occurs_beside(head, code + (shown + "</div>"@), svg);
    }
}

} // verus!
