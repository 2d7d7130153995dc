//! Which devices and apps work together.

use cosigner::compat::{
    options_for_coordinator, resolve, verdict_map, CoordinatorEntry, Gap, HardwareEntry, Matrix,
    MatrixError, Path, Provenance, UnknownId, Verdict,
};

fn device(id: &str, label: &str, signs_older: bool, verified: Provenance) -> HardwareEntry {
    HardwareEntry {
        id: id.to_string(),
        label: label.to_string(),
        signs_miniscript: true,
        signs_older,
        signs_message: true,
        verified,
        notes: None,
    }
}

fn app(id: &str, label: &str, registers_miniscript: bool, drives: &[&str]) -> CoordinatorEntry {
    CoordinatorEntry {
        id: id.to_string(),
        label: label.to_string(),
        registers_miniscript,
        drives: drives.iter().map(|d| d.to_string()).collect(),
        holds_mobile_key: registers_miniscript,
        verified: Provenance::SignetTested,
        notes: None,
    }
}

fn matrix() -> Matrix {
    Matrix {
        schema_version: 1,
        revision: "fixture".to_string(),
        hardware: vec![
            device("satochip", "Satochip", true, Provenance::VendorDocs),
            device("seedsigner", "SeedSigner", true, Provenance::VendorDocs),
            device("coldcard", "Coldcard", true, Provenance::SignetTested),
        ],
        coordinators: vec![
            app("bitcoin-keeper", "Bitcoin Keeper", true, &["coldcard"]),
            app("sparrow", "Sparrow", false, &["satochip"]),
            app("nunchuk", "Nunchuk", true, &["seedsigner"]),
        ],
    }
}

#[test]
fn the_bundled_matrix_parses_and_is_internally_consistent() {
    let m = matrix();
    assert_eq!(m.schema_version, 1);
    assert!(!m.hardware.is_empty());
    assert!(!m.coordinators.is_empty());
    m.validate().expect("bundled matrix must validate");
}

#[test]
fn satochip_plus_keeper_is_blocked_for_spending_but_not_for_mobile_recovery() {
    let m = matrix();
    let r = resolve(&m, "satochip", "bitcoin-keeper", "bitcoin-keeper").unwrap();

    let by_path = verdict_map(&r);
    assert_eq!(
        by_path.get(Path::DailySpend),
        Some(Verdict::Blocked),
        "no listed app both registers miniscript and drives a Satochip"
    );
    assert_eq!(by_path.get(Path::RecoveryServerGone), Some(Verdict::Blocked));
    assert_eq!(
        by_path.get(Path::RecoveryHardwareGone),
        Some(Verdict::Clear),
        "MOBILE + SERVER needs neither the hardware nor an app that can drive it"
    );
    assert!(r.is_blocked());

    let ack = r.acknowledgement().expect("a blocked combination must warn");
    assert!(
        ack.contains("may be unable to spend"),
        "the warning must state the real consequence: {ack}"
    );
}

#[test]
fn a_coordinator_that_cannot_drive_says_every_transaction() {
    let m = matrix();
    let r = resolve(&m, "seedsigner", "bitcoin-keeper", "bitcoin-keeper").unwrap();
    let ack = r.acknowledgement().expect("must warn");
    assert!(
        ack.contains("EVERY transaction") || ack.contains("cannot sign for this wallet"),
        "must not understate the consequence: {ack}"
    );
    assert!(!ack.contains("daily limit"), "must not imply a cap: {ack}");
}

#[test]
fn a_fully_supported_pairing_resolves_clean() {
    let m = matrix();
    let r = resolve(&m, "coldcard", "bitcoin-keeper", "bitcoin-keeper").unwrap();
    assert_eq!(r.overall, Verdict::Clear, "{r:#?}");
    assert!(!r.is_blocked());
    for p in &r.paths {
        assert_eq!(p.verdict, Verdict::Clear, "{} should be clear", p.label);
    }
}

#[test]
fn a_device_that_cannot_sign_messages_only_affects_policy_changes() {
    let mut m = matrix();
    let hw = m
        .hardware
        .iter_mut()
        .find(|h| h.id == "coldcard")
        .expect("coldcard is in the bundled matrix");
    hw.signs_message = false;

    let r = resolve(&m, "coldcard", "bitcoin-keeper", "bitcoin-keeper").unwrap();
    let by_path = verdict_map(&r);
    assert_eq!(by_path.get(Path::DailySpend), Some(Verdict::Clear));
    assert_eq!(by_path.get(Path::PolicyChange), Some(Verdict::NeedsAnotherApp));
    assert!(!r.is_blocked(), "this must not block funding the wallet");

    let ack = r.acknowledgement().unwrap();
    assert!(ack.contains("cosigner` CLI"), "{ack}");
}

#[test]
fn options_lists_every_device_best_first() {
    let m = matrix();
    let options = options_for_coordinator(&m, "bitcoin-keeper", "bitcoin-keeper").unwrap();
    assert_eq!(options.len(), m.hardware.len(), "nothing may be hidden");

    let verdicts: Vec<Verdict> = options.iter().map(|(_, r)| r.overall).collect();
    let mut sorted = verdicts.clone();
    sorted.sort();
    assert_eq!(verdicts, sorted, "workable options must come first");
    let ids: Vec<&str> = options.iter().map(|(h, _)| h.id.as_str()).collect();
    assert_eq!(ids, vec!["coldcard", "seedsigner", "satochip"]);
}

#[test]
fn unknown_ids_are_errors_not_permissive_defaults() {
    let m = matrix();
    assert!(resolve(&m, "no-such-device", "bitcoin-keeper", "bitcoin-keeper").is_err());
    assert!(resolve(&m, "coldcard", "no-such-app", "bitcoin-keeper").is_err());
    assert!(resolve(&m, "coldcard", "bitcoin-keeper", "no-such-app").is_err());
    let e = resolve(&m, "no-such-device", "bitcoin-keeper", "bitcoin-keeper").unwrap_err();
    assert_eq!(e, UnknownId::Hardware);
    assert!(e.message("no-such-device").contains("no-such-device"));
}

#[test]
fn unverified_entries_caveat_even_when_everything_resolves_ok() {
    let mut m = matrix();
    m.hardware
        .iter_mut()
        .find(|h| h.id == "coldcard")
        .unwrap()
        .verified = Provenance::Unverified;

    let r = resolve(&m, "coldcard", "bitcoin-keeper", "bitcoin-keeper").unwrap();
    assert_eq!(r.overall, Verdict::Clear);
    assert!(r.any_unverified);
    assert!(
        r.acknowledgement().is_some(),
        "an unverified claim must still be acknowledged"
    );
}

#[test]
fn a_drives_entry_naming_an_unknown_device_is_rejected() {
    let mut m = matrix();
    m.coordinators[0].drives.push("ghost-device".to_string());
    let err = m.validate().unwrap_err().message(&m);
    assert!(err.contains("ghost-device"), "{err}");
}

#[test]
fn two_devices_with_one_id_are_rejected() {
    let mut m = matrix();
    m.hardware.push(device("coldcard", "Another", true, Provenance::VendorDocs));
    assert_eq!(m.validate(), Err(MatrixError::DuplicateHardware));
}

#[test]
fn an_unverified_holder_of_the_mobile_key_is_a_caveat() {
    let mut m = matrix();
    m.coordinators[2].verified = Provenance::VendorDocs;
    let r = resolve(&m, "coldcard", "bitcoin-keeper", "nunchuk").unwrap();
    assert_eq!(r.overall, Verdict::Clear);
    assert!(r.any_unverified);
    assert_eq!(r.caveats.len(), 1);
    assert!(r.caveats[0].starts_with("Nunchuk: "), "{:?}", r.caveats);
    assert!(r.acknowledgement().is_some());
    // One app in both roles is spoken of once.
    let r = resolve(&m, "seedsigner", "nunchuk", "nunchuk").unwrap();
    let named = r.caveats.iter().filter(|c| c.starts_with("Nunchuk: ")).count();
    assert_eq!(named, 1);
}

#[test]
fn the_coordinator_can_stand_in_for_the_holder_of_the_mobile_key() {
    let mut m = matrix();
    m.coordinators.retain(|c| c.id != "nunchuk");
    let r = resolve(&m, "coldcard", "bitcoin-keeper", "sparrow").unwrap();
    let path = r.paths.iter().find(|p| p.path == Path::RecoveryHardwareGone).unwrap();
    assert_eq!(path.verdict, Verdict::NeedsAnotherApp);
    assert!(matches!(
        &path.gaps[0],
        Gap::CannotRegisterDescriptor { alternatives }
            if *alternatives == vec!["Bitcoin Keeper".to_string()]
    ));
    m.coordinators[0].registers_miniscript = false;
    let r = resolve(&m, "coldcard", "bitcoin-keeper", "sparrow").unwrap();
    assert_eq!(verdict_map(&r).get(Path::RecoveryHardwareGone), Some(Verdict::Blocked));
}

#[test]
fn options_fail_exactly_where_there_is_hardware_and_an_id_is_unknown() {
    let mut m = matrix();
    let e = options_for_coordinator(&m, "ghost", "bitcoin-keeper").unwrap_err();
    assert_eq!(e, UnknownId::Coordinator);
    let e = options_for_coordinator(&m, "bitcoin-keeper", "ghost").unwrap_err();
    assert_eq!(e, UnknownId::MobileHolder);
    m.hardware.clear();
    assert!(options_for_coordinator(&m, "ghost", "ghost").unwrap().is_empty());
}

#[test]
fn the_worst_path_decides() {
    let m = matrix();
    for h in ["satochip", "seedsigner", "coldcard"] {
        for c in ["bitcoin-keeper", "sparrow"] {
            let r = resolve(&m, h, c, "bitcoin-keeper").unwrap();
            assert_eq!(r.overall, r.paths.iter().map(|p| p.verdict).max().unwrap());
        }
    }
}

#[test]
fn a_device_that_ignores_the_timelock_cannot_spend() {
    let mut m = matrix();
    m.hardware[2].signs_older = false;
    let r = resolve(&m, "coldcard", "bitcoin-keeper", "bitcoin-keeper").unwrap();
    assert_eq!(verdict_map(&r).get(Path::DailySpend), Some(Verdict::Blocked));
    assert_eq!(verdict_map(&r).get(Path::RecoveryHardwareGone), Some(Verdict::Clear));
}

#[test]
fn a_verified_clear_choice_needs_no_acknowledgement() {
    let m = matrix();
    let r = resolve(&m, "coldcard", "bitcoin-keeper", "bitcoin-keeper").unwrap();
    assert_eq!(r.acknowledgement(), None);
    assert_eq!(m.hardware("coldcard").unwrap().label, "Coldcard");
    assert!(m.hardware("ghost").is_none());
    assert_eq!(m.coordinator("sparrow").unwrap().label, "Sparrow");
    assert_eq!(Path::all().len(), 4);
}
