//! What the owner of the wallet is told, and through which channels.

use cosigner::config::{NotifyConfig, NtfyConfig, SmtpConfig};
use cosigner::notify::{
    format_message, notice_title, Channel, Delivery, MailError, MultiNotifier, PendingNotice,
};

#[test]
fn formats_a_human_readable_message() {
    let destinations = vec!["bc1qexample".to_string()];
    let notice = PendingNotice {
        txid: "abc123",
        spend_sat: 50_000,
        fee_sat: 500,
        destinations: &destinations,
        hold_until: 1_700_000_000,
    };
    let msg = format_message(&notice);
    assert!(msg.contains("abc123"));
    assert!(msg.contains("50000"));
    assert!(msg.contains("bc1qexample"));
    assert!(msg.contains("/veto/abc123"));
}

#[test]
fn multi_notifier_with_no_channels_configured_succeeds_trivially() {
    let multi = MultiNotifier { channels: vec![] };
    assert!(matches!(multi.begin(), Delivery::Delivered));
}

#[test]
fn the_message_is_exact() {
    let none = vec![];
    let notice = PendingNotice {
        txid: "ab",
        spend_sat: 1,
        fee_sat: 2,
        destinations: &none,
        hold_until: -3,
    };
    assert_eq!(
        format_message(&notice),
        "cosigner: pending HOT-path spend ab\namount: 1 sat (fee 2 sat)\ndestinations: \
         (none)\nwill sign at unix time -3 unless vetoed first\nto cancel: POST /veto/ab"
    );
    let two = vec!["x".to_string(), "y".to_string()];
    let notice = PendingNotice { destinations: &two, ..notice };
    assert!(format_message(&notice).contains("destinations: x, y\n"));
    assert_eq!(notice_title("ab"), "cosigner: pending spend ab");
}

fn both() -> NotifyConfig {
    NotifyConfig {
        hold_seconds: 60,
        sweep_interval_seconds: 5,
        ntfy: Some(NtfyConfig {
            url: "https://ntfy.example/t".to_string(),
            auth_token: None,
        }),
        smtp: Some(SmtpConfig {
            host: "mail.example".to_string(),
            port: 587,
            username: "u".to_string(),
            password: "p".to_string(),
            from: "Box <a@example.com>".to_string(),
            to: "b@example.com".to_string(),
        }),
    }
}

#[test]
fn every_channel_is_used_in_turn() {
    let cfg = both();
    let multi = MultiNotifier::from_config(&cfg).unwrap();
    assert_eq!(multi.channels.len(), 2);
    assert!(matches!(multi.channels[0], Channel::Ntfy(_)));
    assert!(matches!(multi.channels[1], Channel::Smtp(_)));
    assert!(matches!(multi.begin(), Delivery::Send(0)));
    assert!(matches!(multi.after(0, Ok(())), Delivery::Send(1)));
    assert!(matches!(multi.after(1, Ok(())), Delivery::Delivered));
    match multi.after(0, Err("down".to_string())) {
        Delivery::Failed(text) => assert_eq!(text, "down"),
        other => panic!("{other:?}"),
    }
}

#[test]
fn mail_needs_two_mailboxes() {
    let mut cfg = both();
    cfg.smtp.as_mut().unwrap().to = "nobody".to_string();
    assert_eq!(MultiNotifier::from_config(&cfg).unwrap_err(), MailError::Recipient);
    let smtp = cfg.smtp.as_mut().unwrap();
    assert_eq!(
        MailError::Recipient.message(smtp),
        "notify.smtp.to \"nobody\" is not a valid mailbox"
    );
    smtp.from = "not @ a mailbox".to_string();
    assert_eq!(MultiNotifier::from_config(&cfg).unwrap_err(), MailError::Sender);
    cfg.smtp = None;
    assert_eq!(MultiNotifier::from_config(&cfg).unwrap().channels.len(), 1);
}
