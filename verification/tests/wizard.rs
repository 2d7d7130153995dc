//! The answers that a wallet is set up with, and the file they are written to.

use std::str::FromStr;

use bitcoin::bip32::{DerivationPath, Xpriv, Xpub};
use bitcoin::secp256k1::Secp256k1;
use cosigner::config::{
    BitcoindConfig, ChainNetwork, KeySpec, KeysConfig, NotifyConfig, NtfyConfig, ServerConfig,
    ServerSigningConfig, SmtpConfig, WalletConfig,
};
use cosigner::config::Role;
use cosigner::interview::{Interview, Question, Reply, NO_RATE};
use cosigner::policy::{FeeRate, PolicyConfig};
use cosigner::wizard::{
    default_bitcoind_port, network_str, render_toml, render_user_toml, toml_list,
    validate_derivation_path, validate_fingerprint, validate_npub, validate_relay_url,
    validate_xpub_for, BitcoindAuthAnswer, KeyAnswer, NostrNsecAnswer, NostrTransportAnswer,
    NotifyAnswer, PolicyAnswer, ServerSigningAnswer, SmtpAnswer, WizardAnswers,
};
use cosigner::descriptor::{address_at, build_descriptor};
use nostr_sdk::{FromBech32, ToBech32};

fn test_key_spec_with_xpriv(seed: u8) -> (KeySpec, Xpriv) {
    let secp = Secp256k1::new();
    let master = Xpriv::new_master(bitcoin::NetworkKind::Test, &[seed; 32]).unwrap();
    let path = "48h/1h/0h/2h";
    let account = master
        .derive_priv(&secp, &DerivationPath::from_str(path).unwrap())
        .unwrap();
    let spec = KeySpec {
        master_fingerprint: master.fingerprint(&secp).to_string(),
        derivation_path: path.to_string(),
        xpub: Xpub::from_priv(&secp, &account).to_string(),
    };
    (spec, account)
}

fn test_wallet_config(timelock_blocks: u16) -> WalletConfig {
    WalletConfig {
        network: ChainNetwork::Signet,
        i_understand_this_is_mainnet: false,
        timelock_blocks,
        keys: KeysConfig {
            satochip: test_key_spec_with_xpriv(0x01).0,
            mobile: test_key_spec_with_xpriv(0x02).0,
            server: test_key_spec_with_xpriv(0x03).0,
        },
        bitcoind: None,
        server: None,
        policy: None,
        server_signing: None,
        notify: None,
    }
}

/// The wallet that a configuration file describes.
fn wallet_of(text: &str) -> WalletConfig {
    let file: toml::Table = text.parse().expect("valid TOML");
    let table = |t: &toml::Table, name: &str| t.get(name).and_then(|v| v.as_table()).cloned();
    let text_at = |t: &toml::Table, name: &str| {
        t.get(name).and_then(|v| v.as_str()).map(|s| s.to_string())
    };
    let number = |t: &toml::Table, name: &str| t.get(name).and_then(|v| v.as_integer());
    let keys = table(&file, "keys").unwrap();
    let spec = |name: &str| {
        table(&keys, name).map(|t| KeySpec {
            master_fingerprint: text_at(&t, "master_fingerprint").unwrap(),
            derivation_path: text_at(&t, "derivation_path").unwrap(),
            xpub: text_at(&t, "xpub").unwrap(),
        })
    };
    WalletConfig {
        network: match text_at(&file, "network").unwrap().as_str() {
            "mainnet" => ChainNetwork::Mainnet,
            "testnet" => ChainNetwork::Testnet,
            "signet" => ChainNetwork::Signet,
            "regtest" => ChainNetwork::Regtest,
            other => panic!("{other}"),
        },
        i_understand_this_is_mainnet: file
            .get("i_understand_this_is_mainnet")
            .and_then(|v| v.as_bool())
            .unwrap_or(false),
        timelock_blocks: number(&file, "timelock_blocks").unwrap() as u16,
        keys: KeysConfig {
            satochip: spec("hardware").or(spec("satochip")).unwrap(),
            mobile: spec("mobile").unwrap(),
            server: spec("server").unwrap(),
        },
        bitcoind: table(&file, "bitcoind").map(|t| BitcoindConfig {
            rpc_url: text_at(&t, "rpc_url").unwrap(),
            rpc_cookie_file: text_at(&t, "rpc_cookie_file"),
            rpc_user: text_at(&t, "rpc_user"),
            rpc_password: text_at(&t, "rpc_password"),
        }),
        server: table(&file, "server").map(|t| ServerConfig {
            bind_addr: text_at(&t, "bind_addr").unwrap(),
            gap_limit: number(&t, "gap_limit").map(|n| n as u32).unwrap_or(1000),
            ledger_db_path: text_at(&t, "ledger_db_path"),
        }),
        policy: table(&file, "policy").map(|t| PolicyConfig {
            max_tx_sat: number(&t, "max_tx_sat").unwrap() as u64,
            max_daily_sat: number(&t, "max_daily_sat").unwrap() as u64,
            max_weekly_sat: number(&t, "max_weekly_sat").unwrap() as u64,
            max_monthly_sat: number(&t, "max_monthly_sat").unwrap() as u64,
            max_fee_sat: number(&t, "max_fee_sat").unwrap() as u64,
            max_fee_rate_sat_per_vb: FeeRate {
                bits: match &t["max_fee_rate_sat_per_vb"] {
                    toml::Value::Float(f) => f.to_bits(),
                    other => (other.as_integer().unwrap() as f64).to_bits(),
                },
            },
            destination_whitelist: t.get("destination_whitelist").map(|v| {
                let list = v.as_array().unwrap();
                list.iter().map(|a| a.as_str().unwrap().to_string()).collect()
            }),
        }),
        server_signing: table(&file, "server_signing").map(|t| ServerSigningConfig {
            xprv_file: text_at(&t, "xprv_file"),
            xprv_env_var: text_at(&t, "xprv_env_var"),
        }),
        notify: table(&file, "notify").map(|t| NotifyConfig {
            hold_seconds: number(&t, "hold_seconds").unwrap(),
            sweep_interval_seconds: number(&t, "sweep_interval_seconds").unwrap() as u64,
            ntfy: table(&t, "ntfy").map(|n| NtfyConfig {
                url: text_at(&n, "url").unwrap(),
                auth_token: text_at(&n, "auth_token"),
            }),
            smtp: table(&t, "smtp").map(|m| SmtpConfig {
                host: text_at(&m, "host").unwrap(),
                port: number(&m, "port").unwrap() as u16,
                username: text_at(&m, "username").unwrap(),
                password: text_at(&m, "password").unwrap(),
                from: text_at(&m, "from").unwrap(),
                to: text_at(&m, "to").unwrap(),
            }),
        }),
    }
}

fn sample_key(seed: u8) -> KeyAnswer {
    let spec = test_key_spec_with_xpriv(seed).0;
    KeyAnswer {
        fingerprint: spec.master_fingerprint,
        derivation_path: spec.derivation_path,
        xpub: spec.xpub,
    }
}

fn sample_answers() -> WizardAnswers {
    WizardAnswers {
        network: ChainNetwork::Signet,
        timelock_blocks: 4320,
        hardware: sample_key(0x01),
        mobile: sample_key(0x02),
        server: sample_key(0x03),
        server_signing: ServerSigningAnswer::EnvVar("COSIGNER_SERVER_XPRV".to_string()),
        bitcoind_rpc_url: "http://127.0.0.1:38332".to_string(),
        bitcoind_auth: BitcoindAuthAnswer::Cookie("/home/bitcoin/.cookie".to_string()),
        bind_addr: "127.0.0.1:8080".to_string(),
        gap_limit: 1000,
        ledger_db_path: "/var/lib/cosigner/ledger.sqlite3".to_string(),
        policy: PolicyAnswer {
            max_tx_sat: 500_000,
            max_daily_sat: 1_000_000,
            max_weekly_sat: 3_000_000,
            max_monthly_sat: 8_000_000,
            max_fee_sat: 50_000,
            max_fee_rate_sat_per_vb: FeeRate { bits: 200.0f64.to_bits() },
            max_fee_rate_text: format!("{}", 200.0f64),
            destination_whitelist: None,
        },
        notify: NotifyAnswer {
            hold_seconds: 900,
            sweep_interval_seconds: 5,
            renotify_interval_seconds: 21_600,
            ntfy_url: Some("https://ntfy.sh/topic".to_string()),
            ntfy_auth_token: None,
            smtp: None,
        },
        recovery_hold_seconds: 172_800,
        recovery_destination_whitelist: None,
        nostr_transport: None,
    }
}

fn sample_npub() -> String {
    nostr_sdk::Keys::generate().public_key().to_bech32().unwrap()
}

/// Gives the lines in turn, and returns where that leads with all that was printed.
fn conversation(start: Interview, lines: &[&str]) -> (Interview, String) {
    let mut it = start;
    let mut printed = String::new();
    for line in lines {
        assert!(!it.is_finished(), "finished before {line:?}");
        let (next, reply) = it.answer(line);
        match reply {
            Reply::Print(text) => {
                printed.push_str(&text);
                it = next;
            }
            Reply::ReadRate(text) => {
                let rate: f64 = text.parse().expect(NO_RATE);
                let rate_bits = FeeRate { bits: rate.to_bits() };
                let (next, text) = next.rate_read(rate_bits, &format!("{rate}"));
                printed.push_str(&text);
                it = next;
            }
        }
    }
    (it, printed)
}

fn run_interactive(lines: &[&str]) -> WizardAnswers {
    let (it, _) = conversation(Interview::start().0, lines);
    assert!(it.is_finished(), "still asks {:?}", it.current());
    it.finish()
}

#[test]
fn rendered_toml_parses_and_validates_as_a_real_wallet_config() {
    let text = render_toml(&sample_answers());
    let cfg = wallet_of(&text);
    cfg.validate().expect("wizard output should always validate");
    assert_eq!(cfg.network, ChainNetwork::Signet);
    assert_eq!(cfg.timelock_blocks, 4320);
}

#[test]
fn mainnet_answers_render_the_explicit_acknowledgement() {
    let mut answers = sample_answers();
    answers.network = ChainNetwork::Mainnet;
    let text = render_toml(&answers);
    assert!(text.contains("i_understand_this_is_mainnet = true"));
}

#[test]
fn destination_whitelists_render_as_toml_arrays() {
    let mut answers = sample_answers();
    answers.policy.destination_whitelist =
        Some(vec!["tb1qexample1".to_string(), "tb1qexample2".to_string()]);
    answers.recovery_destination_whitelist = Some(vec!["tb1qrecovery".to_string()]);
    let text = render_toml(&answers);
    assert!(text.contains("destination_whitelist = [\"tb1qexample1\", \"tb1qexample2\"]"));
    assert!(text.contains("destination_whitelist = [\"tb1qrecovery\"]"));
}

#[test]
fn smtp_only_renders_smtp_section_and_no_ntfy() {
    let mut answers = sample_answers();
    answers.notify.ntfy_url = None;
    answers.notify.smtp = Some(SmtpAnswer {
        host: "smtp.example.com".to_string(),
        port: 587,
        username: "u".to_string(),
        password: "p".to_string(),
        from: "a@example.com".to_string(),
        to: "b@example.com".to_string(),
    });
    let text = render_toml(&answers);
    assert!(text.contains("[notify.smtp]"));
    assert!(!text.contains("[notify.ntfy]"));
    let cfg = wallet_of(&text);
    cfg.validate().unwrap();
}

#[test]
fn interactive_wizard_produces_a_validating_config_when_every_default_is_accepted() {
    let hardware = test_key_spec_with_xpriv(0x01).0;
    let mobile = test_key_spec_with_xpriv(0x02).0;
    let server = test_key_spec_with_xpriv(0x03).0;

    let script = [
        "",
        "4320",
        &hardware.master_fingerprint,
        "",
        &hardware.xpub,
        &mobile.master_fingerprint,
        "",
        &mobile.xpub,
        &server.master_fingerprint,
        "",
        &server.xpub,
        "",
        "",
        "",
        "",
        "/home/bitcoin/.cookie",
        "",
        "",
        "",
        "",
        "",
        "",
        "",
        "",
        "",
        "",
        "",
        "",
        "",
        "",
        "",
        "",
        "",
        "",
        "",
    ];
    let answers = run_interactive(&script);
    assert!(
        answers.nostr_transport.is_none(),
        "declining nostr_transport should leave it unset"
    );

    let text = render_toml(&answers);
    let cfg = wallet_of(&text);
    cfg.validate().expect("interactively-produced config should validate");
}

/// The conversation up to the hardware key's fingerprint.
fn at_fingerprint() -> Interview {
    let (it, _) = conversation(Interview::start().0, &["", "4320"]);
    assert_eq!(it.current(), Question::Fingerprint(Role::Satochip));
    it
}

#[test]
fn required_field_left_empty_reprompts_instead_of_accepting_blank() {
    let (it, output) = conversation(at_fingerprint(), &["", "AABBCCDD"]);
    assert_eq!(it.current(), Question::DerivationPath(Role::Satochip));
    assert!(output.contains("required"), "should have re-prompted for the blank line");
}

#[test]
fn invalid_fingerprint_reprompts_until_valid() {
    let (it, _) = conversation(at_fingerprint(), &["not-hex", "toolong123"]);
    assert_eq!(it.current(), Question::Fingerprint(Role::Satochip));
    let (it, _) = conversation(it, &["4ba43603"]);
    assert_eq!(it.current(), Question::DerivationPath(Role::Satochip));
}

/// The conversation up to the list of destinations.
fn at_whitelist() -> Interview {
    let keys = [0x01, 0x02, 0x03].map(|n| test_key_spec_with_xpriv(n).0);
    let mut lines: Vec<&str> = vec!["", "4320"];
    for spec in &keys {
        lines.push(&spec.master_fingerprint);
        lines.push("");
        lines.push(&spec.xpub);
    }
    lines.extend(["", "", "", "", "/home/bitcoin/.cookie"]);
    lines.extend([""; 9]);
    let (it, _) = conversation(Interview::start().0, &lines);
    assert_eq!(it.current(), Question::Whitelist);
    it
}

#[test]
fn a_whitelist_entry_that_is_no_address_is_caught_where_it_is_typed() {
    let built = build_descriptor(&test_wallet_config(4320)).unwrap();
    let address = address_at(built.external(), 0, ChainNetwork::Signet).unwrap();
    let elsewhere = address_at(built.external(), 0, ChainNetwork::Mainnet).unwrap();
    let (it, output) = conversation(at_whitelist(), &["not-an-address"]);
    assert_eq!(it.current(), Question::Whitelist);
    assert!(output.contains("\"not-an-address\""), "{output}");
    let both = format!("{address}, {elsewhere}");
    let (it, _) = conversation(it, &[&both, &format!("{address},,")]);
    assert_eq!(it.current(), Question::Whitelist);
    let (it, _) = conversation(it, &[&format!(" {address} ")]);
    assert_eq!(it.current(), Question::NotifyChannel);
    let (it, _) = conversation(it, &[""; 7]);
    assert_eq!(it.current(), Question::RecoveryWhitelist);
    let (it, _) = conversation(it, &[&elsewhere]);
    assert_eq!(it.current(), Question::RecoveryWhitelist);
    let (it, _) = conversation(it, &["", "n"]);
    let answers = it.finish();
    assert_eq!(answers.policy.destination_whitelist, Some(vec![address]));
    assert_eq!(answers.recovery_destination_whitelist, None);
}

#[test]
fn nostr_transport_renders_and_validates_when_present() {
    let mut answers = sample_answers();
    answers.nostr_transport = Some(NostrTransportAnswer {
        nsec: NostrNsecAnswer::EnvVar("COSIGNER_NOSTR_NSEC".to_string()),
        relays: vec!["wss://relay.damus.io".to_string(), "wss://nos.lol".to_string()],
        allowed_npubs: vec![sample_npub()],
    });
    let text = render_toml(&answers);
    assert!(text.contains("[nostr_transport]"));
    assert!(text.contains("nsec_env_var = \"COSIGNER_NOSTR_NSEC\""));
    assert!(text.contains("relays = [\"wss://relay.damus.io\", \"wss://nos.lol\"]"));

    let cfg = wallet_of(&text);
    cfg.validate().unwrap();
    let file: toml::Table = text.parse().unwrap();
    assert!(file.get("nostr_transport").is_some());
}

#[test]
fn absent_nostr_transport_renders_no_section() {
    let text = render_toml(&sample_answers());
    assert!(!text.contains("[nostr_transport]"));
}

#[test]
fn interactive_wizard_can_enable_nostr_transport() {
    let hardware = test_key_spec_with_xpriv(0x01).0;
    let mobile = test_key_spec_with_xpriv(0x02).0;
    let server = test_key_spec_with_xpriv(0x03).0;
    let npub = sample_npub();

    let script = [
        "",
        "4320",
        &hardware.master_fingerprint,
        "",
        &hardware.xpub,
        &mobile.master_fingerprint,
        "",
        &mobile.xpub,
        &server.master_fingerprint,
        "",
        &server.xpub,
        "",
        "",
        "",
        "",
        "/home/bitcoin/.cookie",
        "",
        "",
        "",
        "",
        "",
        "",
        "",
        "",
        "",
        "",
        "",
        "",
        "",
        "",
        "",
        "",
        "",
        "",
        "y",
        "",
        "",
        "wss://relay.damus.io, wss://nos.lol",
        &npub,
    ];
    let answers = run_interactive(&script);
    let nostr = answers
        .nostr_transport
        .as_ref()
        .expect("should have enabled nostr_transport");
    assert_eq!(nostr.relays.len(), 2);
    assert_eq!(nostr.allowed_npubs.len(), 1);

    let text = render_toml(&answers);
    let cfg = wallet_of(&text);
    cfg.validate().unwrap();
}

/// The conversation up to the list of relays.
fn at_relays() -> Interview {
    let hardware = test_key_spec_with_xpriv(0x01).0;
    let mobile = test_key_spec_with_xpriv(0x02).0;
    let server = test_key_spec_with_xpriv(0x03).0;
    let mut lines: Vec<&str> = vec!["", "4320"];
    for spec in [&hardware, &mobile, &server] {
        lines.push(&spec.master_fingerprint);
        lines.push("");
        lines.push(&spec.xpub);
    }
    lines.extend(["", "", "", "", "/home/bitcoin/.cookie"]);
    lines.extend([""; 18]);
    lines.extend(["y", "", ""]);
    let (it, _) = conversation(Interview::start().0, &lines);
    assert_eq!(it.current(), Question::Relays);
    it
}

#[test]
fn invalid_relay_url_reprompts_the_whole_list() {
    let (it, _) = conversation(at_relays(), &["not-a-relay"]);
    assert_eq!(it.current(), Question::Relays);
    let npub = sample_npub();
    let (it, _) = conversation(it, &["wss://relay.damus.io", &npub]);
    let relays = it.finish().nostr_transport.unwrap().relays;
    assert_eq!(relays, vec!["wss://relay.damus.io".to_string()]);
}

#[test]
fn invalid_npub_reprompts_the_whole_list() {
    let (it, _) = conversation(at_relays(), &["wss://nos.lol", "not-an-npub"]);
    assert_eq!(it.current(), Question::AllowedNpubs);
    let (it, _) = conversation(it, &[&sample_npub()]);
    assert_eq!(it.finish().nostr_transport.unwrap().allowed_npubs.len(), 1);
}

#[test]
fn load_parses_toml_and_validates() {
    let cfg = wallet_of(
        r#"
            network = "regtest"
            timelock_blocks = 6

            [keys.satochip]
            master_fingerprint = "aabbccdd"
            derivation_path = "48h/1h/0h/2h"
            xpub = "not-checked-until-parse"

            [keys.server]
            master_fingerprint = "11223344"
            derivation_path = "48h/1h/0h/2h"
            xpub = "not-checked-until-parse"

            [keys.mobile]
            master_fingerprint = "55667788"
            derivation_path = "48h/1h/0h/2h"
            xpub = "not-checked-until-parse"
        "#,
    );
    let err = cfg.validate().unwrap_err().message(&cfg);
    assert!(err.contains("xpub"), "got: {err}");
}

#[test]
fn mainnet_has_to_be_confirmed_or_the_choice_is_asked_again() {
    let (it, printed) = conversation(Interview::start().0, &["mainnet"]);
    assert_eq!(it.current(), Question::ConfirmMainnet);
    assert!(!printed.is_empty());
    let (it, _) = conversation(it, &["no"]);
    assert_eq!(it.current(), Question::Network);
    let (it, _) = conversation(it, &["mainnet", "I understand"]);
    assert!(matches!(it.current(), Question::Network | Question::Timelock));
}

#[test]
fn the_users_file_leaves_only_the_deployment_out() {
    let answers = sample_answers();
    let whole = render_toml(&answers);
    let users = render_user_toml(&answers);
    assert!(whole.contains("[bitcoind]") && whole.contains("[server]"));
    assert!(!users.contains("[bitcoind]") && !users.contains("[server]\n"));
    assert!(users.lines().any(|l| l == "[server_signing]"));
    let from = whole.find("[bitcoind]").unwrap();
    let to = whole.find("[server_signing]").unwrap();
    assert_eq!(format!("{}{}", &whole[..from], &whole[to..]), users);
    let line = "i_understand_this_is_mainnet = true";
    assert!(!users.lines().any(|l| l == line));
    let mut main = sample_answers();
    main.network = ChainNetwork::Mainnet;
    assert!(render_user_toml(&main).lines().any(|l| l == line));
    let (a, b) = (wallet_of(&whole), wallet_of(&users));
    assert_eq!(a.keys.server.xpub, b.keys.server.xpub);
    assert_eq!(a.policy.unwrap().max_tx_sat, b.policy.unwrap().max_tx_sat);
    assert_eq!(a.notify.unwrap().hold_seconds, b.notify.unwrap().hold_seconds);
    assert!(b.bitcoind.is_none() && b.server.is_none());
}

#[test]
fn a_list_is_quoted_so_that_it_is_read_back() {
    assert_eq!(toml_list(&vec![]), "[]");
    assert_eq!(toml_list(&vec!["a".to_string(), "b".to_string()]), "[\"a\", \"b\"]");
    let odd = vec!["say \"x\"".to_string(), "back\\slash".to_string()];
    let file: toml::Table = format!("list = {}", toml_list(&odd)).parse().unwrap();
    let read: Vec<String> = file["list"]
        .as_array()
        .unwrap()
        .iter()
        .map(|v| v.as_str().unwrap().to_string())
        .collect();
    assert_eq!(read, odd);
}

#[test]
fn each_answer_has_its_check() {
    assert!(validate_fingerprint("4ba43603").is_ok());
    assert!(validate_fingerprint("4ba4360").is_err());
    assert!(validate_fingerprint("4ba4360x").is_err());
    assert_eq!(validate_derivation_path("48h/1h/0h/2h").unwrap(), 4);
    assert!(validate_derivation_path("48h//x").is_err());
    let spec = test_key_spec_with_xpriv(1).0;
    assert!(validate_xpub_for(ChainNetwork::Signet, 4, &spec.xpub).is_ok());
    assert!(validate_xpub_for(ChainNetwork::Signet, 3, &spec.xpub).is_err());
    assert!(validate_xpub_for(ChainNetwork::Mainnet, 4, &spec.xpub).is_err());
    assert!(validate_xpub_for(ChainNetwork::Signet, 4, "nonsense").is_err());
    assert!(validate_relay_url("wss://nos.lol").is_ok());
    assert!(validate_relay_url("ws://localhost").is_ok());
    assert!(validate_relay_url("https://nos.lol").is_err());
    assert!(validate_npub(&sample_npub()).is_ok());
    assert_eq!(
        validate_npub("npub1xyz").unwrap_err(),
        format!("not a valid npub: {}", nostr_sdk::PublicKey::from_bech32("npub1xyz").unwrap_err())
    );
    assert_eq!(
        validate_derivation_path("48h//x").unwrap_err(),
        format!(
            "not a valid derivation path: {}",
            DerivationPath::from_str("48h//x").unwrap_err()
        )
    );
    assert_eq!(
        validate_xpub_for(ChainNetwork::Signet, 4, "nonsense").unwrap_err(),
        format!("not a valid extended public key: {}", Xpub::from_str("nonsense").unwrap_err())
    );
    assert_eq!(network_str(ChainNetwork::Mainnet), "mainnet");
    assert_eq!(default_bitcoind_port(ChainNetwork::Mainnet), "8332");
    assert_eq!(default_bitcoind_port(ChainNetwork::Signet), "38332");
}

#[test]
fn a_number_that_its_field_cannot_hold_is_asked_again() {
    let keys = [0x01, 0x02, 0x03].map(|n| test_key_spec_with_xpriv(n).0);
    let mut lines: Vec<&str> = vec!["", "4320"];
    for spec in &keys {
        lines.push(&spec.master_fingerprint);
        lines.push("");
        lines.push(&spec.xpub);
    }
    lines.extend(["", "", "", "", "/home/bitcoin/.cookie", ""]);
    let (it, _) = conversation(Interview::start().0, &lines);
    assert_eq!(it.current(), Question::GapLimit);
    let (it, printed) = conversation(it, &["4294967296"]);
    assert_eq!(it.current(), Question::GapLimit);
    assert!(printed.contains("4294967295"), "{printed}");
    let (it, _) = conversation(it, &["4294967295"]);
    assert_eq!(it.current(), Question::LedgerPath);
    let (it, _) = conversation(it, &[""; 8]);
    let (it, _) = conversation(it, &["smtp", "mail.example"]);
    assert_eq!(it.current(), Question::SmtpPort);
    let (it, printed) = conversation(it, &["65536"]);
    assert_eq!(it.current(), Question::SmtpPort);
    assert!(printed.contains("65535"), "{printed}");
    let (it, _) = conversation(it, &["65535", "user", "pass", "a@mail.example", "b@mail.example"]);
    let (it, _) = conversation(it, &[""; 6]);
    assert!(it.is_finished(), "still asks {:?}", it.current());
    let answers = it.finish();
    assert_eq!(answers.gap_limit, u32::MAX);
    assert_eq!(answers.notify.smtp.unwrap().port, 65535);
}
