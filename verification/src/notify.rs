//! What the owner is told of a spend before it is signed, and by which channels.
//!
//! A hold that nobody was told of is no hold, so a notice counts as delivered only once every
//! channel has taken it.

use core::str::FromStr;

use vstd::prelude::*;
use vstd::string::*;

use crate::config::{NotifyConfig, NtfyConfig, SmtpConfig};
use crate::text::{
    decimal, join, joined, law_each_part_is_in_the_joined_text, lemma_occurs_beside, occurs,
    push_decimal, push_signed, quote, quoted, signed_decimal,
};

verus! {

/// What a person needs to decide whether to stop a spend.
#[derive(Clone, Debug)]
pub struct PendingNotice<'a> {
    pub txid: &'a str,
    pub spend_sat: u64,
    pub fee_sat: u64,
    pub destinations: &'a Vec<String>,
    pub hold_until: i64,
}

/// The text of a notice.
pub open spec fn notice_text(
    txid: Seq<char>,
    spend_sat: nat,
    fee_sat: nat,
    destinations: Seq<Seq<char>>,
    hold_until: int,
) -> Seq<char> {
    "cosigner: pending HOT-path spend "@ + txid + "\namount: "@ + decimal(spend_sat)
        + " sat (fee "@ + decimal(fee_sat) + " sat)\ndestinations: "@ + (if destinations.len()
        == 0 {
        "(none)"@
    } else {
        joined(destinations, ", "@)
    }) + "\nwill sign at unix time "@ + signed_decimal(hold_until)
        + " unless vetoed first\nto cancel: POST /veto/"@ + txid
}

/// Writes a notice: what is spent, where it goes, when it will be signed, and how to stop it.
pub fn format_message(notice: &PendingNotice) -> (r: String)
    ensures
        r@ == notice_text(
            notice.txid@,
            notice.spend_sat as nat,
            notice.fee_sat as nat,
            notice.destinations.deep_view(),
            notice.hold_until as int,
        ),
{
    let mut out = "cosigner: pending HOT-path spend ".to_owned();
    out.append(notice.txid);
    out.append("\namount: ");
    push_decimal(&mut out, notice.spend_sat);
    out.append(" sat (fee ");
    push_decimal(&mut out, notice.fee_sat);
    out.append(" sat)\ndestinations: ");
    if notice.destinations.len() == 0 {
        out.append("(none)");
    } else {
        out.append(join(notice.destinations, ", ").as_str());
    }
    out.append("\nwill sign at unix time ");
    push_signed(&mut out, notice.hold_until);
    out.append(" unless vetoed first\nto cancel: POST /veto/");
    out.append(notice.txid);
    out
}

/// The title of a notice.
pub fn notice_title(txid: &str) -> (r: String)
    ensures
        r@ == "cosigner: pending spend "@ + txid@,
{
    let mut out = "cosigner: pending spend ".to_owned();
    out.append(txid);
    out
}

/// A channel that a notice goes out by.
#[derive(Debug)]
pub enum Channel<'a> {
    Ntfy(&'a NtfyConfig),
    Smtp(&'a SmtpConfig),
}

/// Whether a text names a mailbox: an address of mail, with a name in front of it or without.
pub uninterp spec fn is_mailbox(s: Seq<char>) -> bool;

/// `<lettre::message::Mailbox as FromStr>::from_str`: whether it succeeds, which is named
/// [`is_mailbox`].
#[verifier::external_body]
fn parses_as_mailbox(s: &str) -> (r: bool)
    ensures
        r == is_mailbox(s@),
{
    lettre::message::Mailbox::from_str(s).is_ok()
}

/// Why no mail can be sent.
#[derive(Clone, Copy, Debug, PartialEq, Eq, Structural)]
pub enum MailError {
    /// The sender is no mailbox.
    Sender,
    /// The recipient is no mailbox.
    Recipient,
}

/// Why no mail can be sent by a configuration, if none can.
pub open spec fn mail_error(cfg: SmtpConfig) -> Option<MailError> {
    if !is_mailbox(cfg.from@) {
        Some(MailError::Sender)
    } else if !is_mailbox(cfg.to@) {
        Some(MailError::Recipient)
    } else {
        None
    }
}

/// The text of an error.
pub open spec fn mail_error_text(e: MailError, cfg: SmtpConfig) -> Seq<char> {
    match e {
        MailError::Sender => {
            "notify.smtp.from "@ + quoted(cfg.from@) + " is not a valid mailbox"@
        },
        MailError::Recipient => {
            "notify.smtp.to "@ + quoted(cfg.to@) + " is not a valid mailbox"@
        },
    }
}

impl MailError {
    /// What a person is told.
    pub fn message(self, cfg: &SmtpConfig) -> (r: String)
        ensures
            r@ == mail_error_text(self, *cfg),
    {
        let mut out: String = match self {
            MailError::Sender => {
                let mut out = "notify.smtp.from ".to_owned();
                out.append(quote(cfg.from.as_str()).as_str());
                out
            },
            MailError::Recipient => {
                let mut out = "notify.smtp.to ".to_owned();
                out.append(quote(cfg.to.as_str()).as_str());
                out
            },
        };
        out.append(" is not a valid mailbox");
        out
    }
}

/// All configured channels, in the order in which they are used.
#[derive(Debug)]
pub struct MultiNotifier<'a> {
    pub channels: Vec<Channel<'a>>,
}

/// What is to be done next about a notice.
#[derive(Debug)]
pub enum Delivery {
    /// Send it by the channel of this number.
    Send(usize),
    /// Every channel has taken it.
    Delivered,
    /// A channel has not taken it, and why.
    Failed(String),
}

/// The channels of a configuration: push notifications first, then mail.
pub open spec fn channels_of<'a>(cfg: NotifyConfig) -> Seq<Channel<'a>> {
    (match cfg.ntfy {
        Some(n) => seq![Channel::Ntfy(&n)],
        None => Seq::empty(),
    }) + (match cfg.smtp {
        Some(s) => seq![Channel::Smtp(&s)],
        None => Seq::empty(),
    })
}

impl<'a> MultiNotifier<'a> {
    /// The channels of a configuration: push notifications first, then mail. Fails exactly where
    /// mail is configured and its sender or recipient is no mailbox.
    pub fn from_config(cfg: &'a NotifyConfig) -> (r: Result<MultiNotifier<'a>, MailError>)
        ensures
            match r {
                Ok(multi) => {
                    &&& cfg.smtp matches Some(s) ==> mail_error(s) is None
                    &&& multi.channels@ == channels_of(*cfg)
                },
                Err(e) => cfg.smtp matches Some(s) && mail_error(s) == Some(e),
            },
    {
        let mut channels: Vec<Channel<'a>> = Vec::new();
        if let Some(ntfy) = &cfg.ntfy {
            channels.push(Channel::Ntfy(ntfy));
        }
        if let Some(smtp) = &cfg.smtp {
            if !parses_as_mailbox(smtp.from.as_str()) {
                return Err(MailError::Sender);
            }
            if !parses_as_mailbox(smtp.to.as_str()) {
                return Err(MailError::Recipient);
            }
            channels.push(Channel::Smtp(smtp));
        }
        assert(channels@ =~= channels_of(*cfg));
        Ok(MultiNotifier { channels })
    }

    /// What to do first about a notice: to send it by the first channel, if there is one.
    pub fn begin(&self) -> (r: Delivery)
        ensures
            r == next_delivery(self.channels@.len(), 0),
    {
        if self.channels.len() == 0 {
            Delivery::Delivered
        } else {
            Delivery::Send(0)
        }
    }

    /// What to do after the channel `sent` was tried: to go on where it took the notice, and to
    /// give up where it did not.
    pub fn after(&self, sent: usize, result: Result<(), String>) -> (r: Delivery)
        requires
            sent < self.channels@.len(),
        ensures
            match result {
                Ok(_) => r == next_delivery(self.channels@.len(), sent + 1),
                Err(why) => r == Delivery::Failed(why),
            },
    {
        match result {
            Err(why) => Delivery::Failed(why),
            Ok(_) => {
                if self.channels.len() - sent > 1 {
                    Delivery::Send(sent + 1)
                } else {
                    Delivery::Delivered
                }
            },
        }
    }
}

/// What to do once the first `done` of `n` channels have taken a notice.
pub open spec fn next_delivery(n: nat, done: int) -> Delivery {
    if done < n {
        Delivery::Send(done as usize)
    } else {
        Delivery::Delivered
    }
}

/// What sending a notice by `n` channels comes to, given what each would answer, once the first
/// `done` have taken it: each is tried in its turn until one fails.
pub open spec fn delivery_outcome(answers: Seq<Result<(), String>>, done: int) -> Delivery
    decreases answers.len() - done,
{
    match next_delivery(answers.len(), done) {
        Delivery::Send(k) => if 0 <= done < answers.len() && answers[done] is Ok {
            delivery_outcome(answers, done + 1)
        } else {
            Delivery::Failed(answers[done]->Err_0)
        },
        d => d,
    }
}

/// A notice counts as delivered exactly where every channel has taken it.
pub proof fn law_delivered_means_by_every_channel(answers: Seq<Result<(), String>>, done: int)
    requires
        0 <= done <= answers.len() <= usize::MAX,
    ensures
        delivery_outcome(answers, done) is Delivered <==> forall|i: int|
            done <= i < answers.len() ==> (#[trigger] answers[i]) is Ok,
    decreases answers.len() - done,
{
    if done < answers.len() {
        law_delivered_means_by_every_channel(answers, done + 1);
        if answers[done] is Ok {
            assert forall|i: int|
                done <= i < answers.len() && delivery_outcome(answers, done) is Delivered implies (
            #[trigger] answers[i]) is Ok by {
                if i > done {
                    assert(delivery_outcome(answers, done + 1) is Delivered);
                }
            }
        }
    }
}

/// A notice names the spend, what leaves, the fee, every destination and the end of the hold.
pub proof fn law_a_notice_says_all_that_a_veto_is_decided_by(
    txid: Seq<char>,
    spend_sat: nat,
    fee_sat: nat,
    destinations: Seq<Seq<char>>,
    hold_until: int,
)
    ensures
        ({
            let text = notice_text(txid, spend_sat, fee_sat, destinations, hold_until);
            &&& occurs(text, "spend "@ + txid)
            &&& occurs(text, "amount: "@ + decimal(spend_sat) + " sat"@)
            &&& occurs(text, "(fee "@ + decimal(fee_sat) + " sat)"@)
            &&& forall|i: int|
                0 <= i < destinations.len() ==> occurs(text, #[trigger] destinations[i])
            &&& occurs(text, "will sign at unix time "@ + signed_decimal(hold_until))
            &&& occurs(text, "/veto/"@ + txid)
        }),
{
    let text = notice_text(txid, spend_sat, fee_sat, destinations, hold_until);
    let listed = if destinations.len() == 0 {
        "(none)"@
    } else {
        joined(destinations, ", "@)
    };
    let a = "cosigner: pending HOT-path spend "@ + txid;
    let b = "\namount: "@ + decimal(spend_sat) + " sat (fee "@ + decimal(fee_sat)
        + " sat)\ndestinations: "@;
    let c = "\nwill sign at unix time "@ + signed_decimal(hold_until)
        + " unless vetoed first\nto cancel: POST /veto/"@ + txid;
    assert(text =~= a + (b + (listed + c)));
    reveal_strlit("cosigner: pending HOT-path spend ");
    reveal_strlit("spend ");
    reveal_strlit("\namount: ");
    reveal_strlit("amount: ");
    reveal_strlit(" sat (fee ");
    reveal_strlit(" sat");
    reveal_strlit("(fee ");
    reveal_strlit(" sat)");
    reveal_strlit(" sat)\ndestinations: ");
    reveal_strlit("\nwill sign at unix time ");
    reveal_strlit("will sign at unix time ");
    reveal_strlit(" unless vetoed first\nto cancel: POST /veto/");
    reveal_strlit("/veto/");
    let named = "spend "@ + txid;
    assert(a.subrange(a.len() - named.len(), a.len() - named.len() + named.len()) =~= named);
    lemma_occurs_beside(a, b + (listed + c), named);
    let amount = "amount: "@ + decimal(spend_sat) + " sat"@;
    assert(b.subrange(1int, 1int + amount.len()) =~= amount);
    let fee = "(fee "@ + decimal(fee_sat) + " sat)"@;
    let k: int = 9 + decimal(spend_sat).len() as int + 5;
    assert(b.subrange(k, k + fee.len()) =~= fee);
    lemma_occurs_beside(b, listed + c, amount);
    lemma_occurs_beside(a, b + (listed + c), amount);
    lemma_occurs_beside(b, listed + c, fee);
    lemma_occurs_beside(a, b + (listed + c), fee);
    assert forall|i: int| 0 <= i < destinations.len() implies occurs(
        text,
        #[trigger] destinations[i],
    ) by {
        law_each_part_is_in_the_joined_text(destinations, ", "@, i);
        lemma_occurs_beside(listed, c, destinations[i]);
        lemma_occurs_beside(b, listed + c, destinations[i]);
        lemma_occurs_beside(a, b + (listed + c), destinations[i]);
    }
    let until = "will sign at unix time "@ + signed_decimal(hold_until);
    assert(c.subrange(1int, 1int + until.len()) =~= until);
    let veto = "/veto/"@ + txid;
    assert(c.subrange(c.len() - veto.len(), c.len() - veto.len() + veto.len()) =~= veto);
    lemma_occurs_beside(listed, c, until);
    lemma_occurs_beside(b, listed + c, until);
    lemma_occurs_beside(a, b + (listed + c), until);
    lemma_occurs_beside(listed, c, veto);
    lemma_occurs_beside(b, listed + c, veto);
    lemma_occurs_beside(a, b + (listed + c), veto);
}

/// Every channel that is configured is told, each once, and no other.
pub proof fn law_every_configured_channel_is_told(cfg: NotifyConfig)
    ensures
        ({
            let channels = channels_of(cfg);
            &&& channels.len() == (if cfg.ntfy is Some {
                1nat
            } else {
                0nat
            }) + (if cfg.smtp is Some {
                1nat
            } else {
                0nat
            })
            &&& cfg.ntfy matches Some(n) ==> channels.contains(Channel::Ntfy(&n))
            &&& cfg.smtp matches Some(s) ==> channels.contains(Channel::Smtp(&s))
        }),
{
    let channels = channels_of(cfg);
    if cfg.ntfy is Some {
        assert(channels[0] == Channel::Ntfy(&cfg.ntfy->Some_0));
    }
    if cfg.smtp is Some {
        assert(channels[channels.len() - 1] == Channel::Smtp(&cfg.smtp->Some_0));
    }
}

/// Mail can be sent exactly where both ends are mailboxes; the sender is refused first.
pub proof fn law_mail_goes_from_a_mailbox_to_a_mailbox(cfg: SmtpConfig)
    ensures
        mail_error(cfg) is None <==> is_mailbox(cfg.from@) && is_mailbox(cfg.to@),
        mail_error(cfg) == Some(MailError::Sender) <==> !is_mailbox(cfg.from@),
{
}

/// What failed is what the first channel says that could not be told.
pub proof fn law_the_first_channel_that_fails_is_reported(
    answers: Seq<Result<(), String>>,
    done: int,
    i: int,
)
    requires
        0 <= done <= i < answers.len() <= usize::MAX,
        forall|j: int| done <= j < i ==> (#[trigger] answers[j]) is Ok,
        answers[i] is Err,
    ensures
        delivery_outcome(answers, done) == Delivery::Failed(answers[i]->Err_0),
    decreases i - done,
{
    if done < i {
        assert(answers[done] is Ok);
        law_the_first_channel_that_fails_is_reported(answers, done + 1, i);
    }
}

}
