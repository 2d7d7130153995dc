//! The contacts who can end a hold together.

use cosigner::ledger::{Ledger, PendingStatus};
use cosigner::recovery_contacts::{
    approve_release, canonical_approval_message, compiled_keys, count_distinct_approvals,
    ApprovalError, ContactsError, Quorum, RecoveryContactsConfig,
};
use nostr_sdk::{Event, EventBuilder, JsonUtil, Keys, ToBech32};

fn contact() -> Keys {
    Keys::generate()
}

fn approval(keys: &Keys, message: &str) -> String {
    EventBuilder::text_note(message).sign_with_keys(keys).expect("signing").as_json()
}

fn config(contacts: &[&Keys], threshold: usize) -> RecoveryContactsConfig {
    RecoveryContactsConfig {
        npubs: contacts.iter().map(|k| k.public_key().to_bech32().unwrap()).collect(),
        threshold,
    }
}

fn refusal(cfg: &RecoveryContactsConfig) -> String {
    cfg.validate().unwrap_err().message(cfg)
}

#[test]
fn a_quorum_of_distinct_contacts_is_counted() {
    let (a, b, c) = (contact(), contact(), contact());
    let cfg = config(&[&a, &b, &c], 2);
    let allowed = cfg.compiled().unwrap();
    let txid = "aa".repeat(32);
    let msg = canonical_approval_message(&txid);

    let voters =
        count_distinct_approvals(&txid, &vec![approval(&a, &msg), approval(&b, &msg)], &allowed)
            .unwrap();
    assert_eq!(voters.len(), 2);
    assert!(voters.len() >= cfg.threshold);
}

#[test]
fn one_contact_cannot_reach_a_quorum_by_repeating_themselves() {
    let (a, b) = (contact(), contact());
    let cfg = config(&[&a, &b], 2);
    let allowed = cfg.compiled().unwrap();
    let txid = "bb".repeat(32);
    let msg = canonical_approval_message(&txid);

    let sig = approval(&a, &msg);
    let voters =
        count_distinct_approvals(&txid, &vec![sig.clone(), sig.clone(), sig], &allowed).unwrap();
    assert_eq!(voters.len(), 1, "duplicates must collapse to one vote");
    assert!(voters.len() < cfg.threshold);
}

#[test]
fn an_approval_for_one_txid_does_not_authorize_another() {
    let a = contact();
    let cfg = config(&[&a, &contact()], 2);
    let allowed = cfg.compiled().unwrap();

    let signed_for = "cc".repeat(32);
    let event = approval(&a, &canonical_approval_message(&signed_for));

    let other = "dd".repeat(32);
    let err = count_distinct_approvals(&other, &vec![event], &allowed).unwrap_err();
    assert!(matches!(err, ApprovalError::WrongMessage { index: 0 }));
}

#[test]
fn an_approval_with_white_space_around_its_text_is_another_text() {
    let a = contact();
    let cfg = config(&[&a, &contact()], 2);
    let allowed = cfg.compiled().unwrap();
    let txid = "cd".repeat(32);
    let msg = canonical_approval_message(&txid);
    for text in [format!(" {msg}"), format!("{msg}\n")] {
        let events = vec![approval(&a, &msg), approval(&a, &text)];
        let err = count_distinct_approvals(&txid, &events, &allowed).unwrap_err();
        assert_eq!(err, ApprovalError::WrongMessage { index: 1 });
    }
    // White space around the event is no part of what was signed.
    let events = vec![format!("\n{} ", approval(&a, &msg))];
    assert_eq!(count_distinct_approvals(&txid, &events, &allowed).unwrap().len(), 1);
}

#[test]
fn a_stranger_does_not_count_but_does_not_break_the_submission() {
    let (a, b, stranger) = (contact(), contact(), contact());
    let cfg = config(&[&a, &b], 2);
    let allowed = cfg.compiled().unwrap();
    let txid = "ee".repeat(32);
    let msg = canonical_approval_message(&txid);

    let voters = count_distinct_approvals(
        &txid,
        &vec![
            approval(&stranger, &msg),
            approval(&a, &msg),
            approval(&b, &msg),
        ],
        &allowed,
    )
    .unwrap();
    assert_eq!(
        voters.len(),
        2,
        "the stranger is ignored, the rest still count"
    );
}

#[test]
fn a_forged_event_is_rejected() {
    let a = contact();
    let cfg = config(&[&a, &contact()], 2);
    let allowed = cfg.compiled().unwrap();
    let txid = "ff".repeat(32);
    let msg = canonical_approval_message(&txid);

    // Tamper with the content after signing: the id/signature no longer commit to it.
    let mut json: serde_json::Value = serde_json::from_str(&approval(&a, &msg)).unwrap();
    json["content"] = serde_json::Value::String(msg.replace("release", "RELEASE"));
    let err = count_distinct_approvals(&txid, &vec![json.to_string()], &allowed).unwrap_err();
    assert!(matches!(err, ApprovalError::Malformed { .. }), "{err:?}");
}

#[test]
fn a_threshold_of_one_is_refused() {
    let err = refusal(&config(&[&contact(), &contact()], 1));
    assert!(err.contains("at least 2"), "{err}");
}

#[test]
fn a_threshold_nobody_could_reach_is_refused() {
    let err = refusal(&config(&[&contact(), &contact()], 3));
    assert!(err.contains("exceeds"), "{err}");
}

#[test]
fn a_duplicated_contact_is_refused() {
    let a = contact();
    let err = refusal(&config(&[&a, &a], 2));
    assert!(err.contains("more than once"), "{err}");
}

#[test]
fn a_valid_config_validates() {
    config(&[&contact(), &contact(), &contact()], 2)
        .validate()
        .expect("should validate");
}

#[test]
fn a_contact_has_to_be_a_public_key() {
    let a = contact();
    let mut cfg = config(&[&a, &contact()], 2);
    cfg.npubs[1] = "nonsense".to_string();
    assert_eq!(cfg.validate().unwrap_err(), ContactsError::InvalidNpub { entry: 1 });
    assert!(refusal(&cfg).contains("nonsense"));
    assert_eq!(
        compiled_keys(&cfg.npubs).err().unwrap(),
        ContactsError::InvalidNpub { entry: 1 }
    );
    let none = config(&[], 2);
    assert_eq!(none.validate().unwrap_err(), ContactsError::NoContacts);
    let keys = compiled_keys(&vec![a.public_key().to_bech32().unwrap()]).unwrap();
    assert!(keys.contains(&a.public_key().to_bytes().to_vec()));
    assert_eq!(keys.len(), 1);
}

#[test]
fn a_release_needs_a_pending_spend_and_enough_voices() {
    let (a, b) = (contact(), contact());
    let cfg = config(&[&a, &b], 2);
    let quorum = Some(Quorum { allowed: cfg.compiled().unwrap(), threshold: 2 });
    let txid = "ab".repeat(32);
    let msg = canonical_approval_message(&txid);
    let both = vec![approval(&a, &msg), approval(&b, &msg)];
    let mut ledger = Ledger::new();

    let refused = |r: Result<_, ApprovalError>| r.map(|_: cosigner::recovery_contacts::Release| ());
    assert_eq!(
        refused(approve_release(&mut ledger, &None, &txid, &both, 5)).unwrap_err(),
        ApprovalError::NotConfigured
    );
    assert_eq!(
        refused(approve_release(&mut ledger, &quorum, &txid, &both, 5)).unwrap_err(),
        ApprovalError::NotPending
    );
    ledger.insert_pending(&txid, "psbt", 1, 1, 0, 1_000).unwrap();
    let one = vec![approval(&a, &msg)];
    assert_eq!(
        refused(approve_release(&mut ledger, &quorum, &txid, &one, 5)).unwrap_err(),
        ApprovalError::ShortOfQuorum { got: 1, needed: 2 }
    );
    assert_eq!(
        refused(approve_release(&mut ledger, &quorum, &txid, &vec!["{}".to_string()], 5))
            .unwrap_err(),
        ApprovalError::Malformed { index: 0 }
    );
    let cause = Event::from_json("{}").unwrap_err();
    assert_eq!(
        ApprovalError::Malformed { index: 0 }.message(&txid, &vec![" {}".to_string()]),
        format!("signature 0 is not a valid signed Nostr event: {cause}")
    );
    let done = approve_release(&mut ledger, &quorum, &txid, &both, 5).unwrap();
    assert_eq!((done.approvals, done.threshold, done.released), (2, 2, true));
    let row = ledger.get_pending(&txid).unwrap();
    assert_eq!(row.hold_until, 5);
    assert_eq!(row.status, PendingStatus::Pending);
}

#[test]
fn the_approval_names_the_transaction() {
    let text = canonical_approval_message("abc");
    assert!(text.contains("abc"), "{text}");
    assert_ne!(text, canonical_approval_message("abd"));
}
