//! Setting a new wallet up.

use std::str::FromStr;

use bitcoin::bip32::{DerivationPath, Xpriv, Xpub};
use bitcoin::secp256k1::Secp256k1;
use cosigner::config::{
    BitcoindConfig, ChainNetwork, KeySpec, KeysConfig, NotifyConfig, NtfyConfig, ServerConfig,
    ServerSigningConfig, SmtpConfig, WalletConfig,
};
use cosigner::descriptor::{address_at, build_descriptor, DescriptorError};
use cosigner::policy::{FeeRate, PolicyConfig};
use cosigner::setup::{
    build_answers, check_image_size, conclude, default_derivation_path, distinct_payloads,
    generate_server_key, interpret_payloads, key_export, key_expression, may_start,
    parse_scanned_key, server_key_of_seed, show_server_key, take_form, validate_key,
    Deployment, FinishRequest, GeneratedServerKey, KeyStep, PolicyRequest, SetupError, SmtpRequest,
    ValidateKeyRequest, MAX_IMAGE_BYTES,
};
use cosigner::signing::ServerSigningKey;
use cosigner::wizard::{render_user_toml, KeyAnswer, ServerSigningAnswer};

fn test_key_spec_with_xpriv(seed: u8) -> (KeySpec, Xpriv) {
    let secp = Secp256k1::new();
    let master = Xpriv::new_master(bitcoin::NetworkKind::Test, &[seed; 32]).unwrap();
    let path = "48h/1h/0h/2h";
    let account = master
        .derive_priv(&secp, &DerivationPath::from_str(path).unwrap())
        .unwrap();
    let spec = KeySpec {
        master_fingerprint: master.fingerprint(&secp).to_string(),
        derivation_path: path.to_string(),
        xpub: Xpub::from_priv(&secp, &account).to_string(),
    };
    (spec, account)
}

fn test_wallet_config(timelock_blocks: u16) -> WalletConfig {
    WalletConfig {
        network: ChainNetwork::Signet,
        i_understand_this_is_mainnet: false,
        timelock_blocks,
        keys: KeysConfig {
            satochip: test_key_spec_with_xpriv(0x01).0,
            mobile: test_key_spec_with_xpriv(0x02).0,
            server: test_key_spec_with_xpriv(0x03).0,
        },
        bitcoind: None,
        server: None,
        policy: None,
        server_signing: None,
        notify: None,
    }
}

/// The wallet that a configuration file describes.
fn wallet_of(text: &str) -> WalletConfig {
    let file: toml::Table = text.parse().expect("valid TOML");
    let table = |t: &toml::Table, name: &str| t.get(name).and_then(|v| v.as_table()).cloned();
    let text_at = |t: &toml::Table, name: &str| {
        t.get(name).and_then(|v| v.as_str()).map(|s| s.to_string())
    };
    let number = |t: &toml::Table, name: &str| t.get(name).and_then(|v| v.as_integer());
    let keys = table(&file, "keys").unwrap();
    let spec = |name: &str| {
        table(&keys, name).map(|t| KeySpec {
            master_fingerprint: text_at(&t, "master_fingerprint").unwrap(),
            derivation_path: text_at(&t, "derivation_path").unwrap(),
            xpub: text_at(&t, "xpub").unwrap(),
        })
    };
    WalletConfig {
        network: match text_at(&file, "network").unwrap().as_str() {
            "mainnet" => ChainNetwork::Mainnet,
            "testnet" => ChainNetwork::Testnet,
            "signet" => ChainNetwork::Signet,
            "regtest" => ChainNetwork::Regtest,
            other => panic!("{other}"),
        },
        i_understand_this_is_mainnet: file
            .get("i_understand_this_is_mainnet")
            .and_then(|v| v.as_bool())
            .unwrap_or(false),
        timelock_blocks: number(&file, "timelock_blocks").unwrap() as u16,
        keys: KeysConfig {
            satochip: spec("hardware").or(spec("satochip")).unwrap(),
            mobile: spec("mobile").unwrap(),
            server: spec("server").unwrap(),
        },
        bitcoind: table(&file, "bitcoind").map(|t| BitcoindConfig {
            rpc_url: text_at(&t, "rpc_url").unwrap(),
            rpc_cookie_file: text_at(&t, "rpc_cookie_file"),
            rpc_user: text_at(&t, "rpc_user"),
            rpc_password: text_at(&t, "rpc_password"),
        }),
        server: table(&file, "server").map(|t| ServerConfig {
            bind_addr: text_at(&t, "bind_addr").unwrap(),
            gap_limit: number(&t, "gap_limit").map(|n| n as u32).unwrap_or(1000),
            ledger_db_path: text_at(&t, "ledger_db_path"),
        }),
        policy: table(&file, "policy").map(|t| PolicyConfig {
            max_tx_sat: number(&t, "max_tx_sat").unwrap() as u64,
            max_daily_sat: number(&t, "max_daily_sat").unwrap() as u64,
            max_weekly_sat: number(&t, "max_weekly_sat").unwrap() as u64,
            max_monthly_sat: number(&t, "max_monthly_sat").unwrap() as u64,
            max_fee_sat: number(&t, "max_fee_sat").unwrap() as u64,
            max_fee_rate_sat_per_vb: FeeRate {
                bits: match &t["max_fee_rate_sat_per_vb"] {
                    toml::Value::Float(f) => f.to_bits(),
                    other => (other.as_integer().unwrap() as f64).to_bits(),
                },
            },
            destination_whitelist: t.get("destination_whitelist").map(|v| {
                let list = v.as_array().unwrap();
                list.iter().map(|a| a.as_str().unwrap().to_string()).collect()
            }),
        }),
        server_signing: table(&file, "server_signing").map(|t| ServerSigningConfig {
            xprv_file: text_at(&t, "xprv_file"),
            xprv_env_var: text_at(&t, "xprv_env_var"),
        }),
        notify: table(&file, "notify").map(|t| NotifyConfig {
            hold_seconds: number(&t, "hold_seconds").unwrap(),
            sweep_interval_seconds: number(&t, "sweep_interval_seconds").unwrap() as u64,
            ntfy: table(&t, "ntfy").map(|n| NtfyConfig {
                url: text_at(&n, "url").unwrap(),
                auth_token: text_at(&n, "auth_token"),
            }),
            smtp: table(&t, "smtp").map(|m| SmtpConfig {
                host: text_at(&m, "host").unwrap(),
                port: number(&m, "port").unwrap() as u16,
                username: text_at(&m, "username").unwrap(),
                password: text_at(&m, "password").unwrap(),
                from: text_at(&m, "from").unwrap(),
                to: text_at(&m, "to").unwrap(),
            }),
        }),
    }
}

fn deployment(network: ChainNetwork) -> Deployment {
    Deployment {
        network,
        config_dir: "/data/config".to_string(),
        data_dir: "/data".to_string(),
        bind_addr: "0.0.0.0:8080".to_string(),
        bitcoind_rpc_url: "http://10.21.21.8:8332".to_string(),
    }
}

#[test]
fn default_path_uses_the_registered_coin_type_per_network() {
    assert_eq!(default_derivation_path(ChainNetwork::Mainnet), "48h/0h/0h/2h");
    assert_eq!(default_derivation_path(ChainNetwork::Signet), "48h/1h/0h/2h");
    assert_eq!(default_derivation_path(ChainNetwork::Regtest), "48h/1h/0h/2h");
    assert_eq!(default_derivation_path(ChainNetwork::Testnet), "48h/1h/0h/2h");
}

#[test]
fn generated_server_key_matches_its_own_xpub_and_path() {
    let network = ChainNetwork::Signet;
    let path = default_derivation_path(network);
    let g = generate_server_key(network, &path).expect("generation should succeed");

    let secp = Secp256k1::new();
    let account: Xpriv = g.account_xprv().parse().expect("account xprv should parse");
    let derived = Xpub::from_priv(&secp, &account).to_string();
    assert_eq!(derived, g.xpub());

    let xpub: Xpub = g.xpub().parse().expect("xpub should parse");
    let depth = path.parse::<DerivationPath>().expect("path parses").len();
    assert_eq!(xpub.depth as usize, depth);
}

#[test]
fn key_expression_notation_matches_the_descriptor() {
    let expr = key_expression("AB12CD34", "48h/1h/0h/2h", "tpubEXAMPLE");
    assert_eq!(expr, "[ab12cd34/48'/1'/0'/2']tpubEXAMPLE");
    assert!(!expr.contains('h'), "hardened marker must be an apostrophe: {expr}");

    assert_eq!(
        key_expression("ab12cd34", "48'/1'/0'/2'", "tpubEXAMPLE"),
        "[ab12cd34/48'/1'/0'/2']tpubEXAMPLE"
    );
    assert_eq!(
        key_expression("ab12cd34", "m/48h/1h/0h/2h", "tpubEXAMPLE"),
        "[ab12cd34/48'/1'/0'/2']tpubEXAMPLE"
    );
}

#[test]
fn advertised_server_key_appears_verbatim_in_the_built_descriptor() {
    let network = ChainNetwork::Signet;
    let path = default_derivation_path(network);
    let g = generate_server_key(network, &path).expect("generation");
    let advertised = key_expression(g.fingerprint(), g.path(), g.xpub());

    let mut cfg = test_wallet_config(144);
    cfg.keys.server = KeySpec {
        master_fingerprint: g.fingerprint().to_string(),
        derivation_path: g.path().to_string(),
        xpub: g.xpub().to_string(),
    };

    let built = build_descriptor(&cfg).expect("descriptor should build");
    let desc = built.multipath().to_string();
    let origin = advertised.split(']').next().expect("has an origin");
    assert!(
        desc.contains(origin),
        "descriptor does not contain the advertised origin\n  advertised: {origin}]\n  descriptor: {desc}"
    );
    assert!(desc.contains(&advertised));
}

#[test]
fn two_generated_keys_are_never_the_same() {
    let path = default_derivation_path(ChainNetwork::Signet);
    let a = generate_server_key(ChainNetwork::Signet, &path).expect("first");
    let b = generate_server_key(ChainNetwork::Signet, &path).expect("second");
    assert_ne!(a.xpub(), b.xpub());
    assert_ne!(a.fingerprint(), b.fingerprint());
}

#[test]
fn generated_key_is_on_the_requested_network() {
    for network in [ChainNetwork::Mainnet, ChainNetwork::Signet, ChainNetwork::Regtest] {
        let path = default_derivation_path(network);
        let g = generate_server_key(network, &path).expect("generation should succeed");
        let xpub: Xpub = g.xpub().parse().expect("xpub parses");
        let expected = match network {
            ChainNetwork::Mainnet => bitcoin::NetworkKind::Main,
            _ => bitcoin::NetworkKind::Test,
        };
        assert_eq!(xpub.network, expected);
    }
}

fn request(satochip: &KeySpec, mobile: &KeySpec) -> FinishRequest {
    let key = |spec: &KeySpec| ValidateKeyRequest {
        fingerprint: spec.master_fingerprint.clone(),
        derivation_path: spec.derivation_path.clone(),
        xpub: spec.xpub.clone(),
    };
    FinishRequest {
        timelock_blocks: 12960,
        satochip: key(satochip),
        mobile: key(mobile),
        policy: PolicyRequest {
            max_tx_sat: 100_000,
            max_daily_sat: 200_000,
            max_weekly_sat: 500_000,
            max_monthly_sat: 1_000_000,
            max_fee_sat: 10_000,
            max_fee_rate_sat_per_vb: FeeRate { bits: 50.0f64.to_bits() },
            max_fee_rate_text: format!("{}", 50.0f64),
        },
        hold_seconds: 3600,
        recovery_hold_seconds: 86400,
        ntfy_url: Some("https://ntfy.sh/bitme-test-topic".to_string()),
        smtp: None,
    }
}

fn answer(spec: &KeySpec) -> KeyAnswer {
    KeyAnswer {
        fingerprint: spec.master_fingerprint.clone(),
        derivation_path: spec.derivation_path.clone(),
        xpub: spec.xpub.clone(),
    }
}

fn generated(seed: u8) -> GeneratedServerKey {
    let path = default_derivation_path(ChainNetwork::Signet);
    server_key_of_seed(ChainNetwork::Signet, &path, &vec![seed; 64]).unwrap()
}

#[test]
fn rendered_config_omits_the_sections_the_entrypoint_generates() {
    let network = ChainNetwork::Signet;
    let satochip = test_key_spec_with_xpriv(1).0;
    let mobile = test_key_spec_with_xpriv(2).0;
    let path = default_derivation_path(network);
    let generated = generate_server_key(network, &path).expect("generation");

    let req = request(&satochip, &mobile);
    let answers =
        build_answers(&deployment(network), &req, answer(&satochip), answer(&mobile), &generated);
    let text = render_user_toml(&answers);
    assert!(!text.contains("[bitcoind]"), "rendered:\n{text}");
    assert!(!text.contains("[server]"), "rendered:\n{text}");
    assert!(text.contains("[server_signing]"), "rendered:\n{text}");

    let cfg = wallet_of(&text);
    cfg.validate().expect("should validate");
    build_descriptor(&cfg).expect("should build a descriptor");
}

#[test]
fn a_key_of_a_seed_is_the_one_that_wallets_derive() {
    let g = generated(0x31);
    let secp = Secp256k1::new();
    let master = Xpriv::new_master(bitcoin::NetworkKind::Test, &[0x31; 64]).unwrap();
    let account = master
        .derive_priv(&secp, &DerivationPath::from_str("48h/1h/0h/2h").unwrap())
        .unwrap();
    assert_eq!(g.account_xprv(), account.to_string());
    assert_eq!(g.xpub(), Xpub::from_priv(&secp, &account).to_string());
    assert_eq!(g.fingerprint(), master.fingerprint(&secp).to_string());
    assert_eq!(g.path(), "48h/1h/0h/2h");
    assert!(ServerSigningKey::load(g.account_xprv(), g.xpub()).is_ok());
    assert!(matches!(
        server_key_of_seed(ChainNetwork::Signet, "nonsense", &vec![1; 64]),
        Err(SetupError::KeyGeneration(KeyStep::Path))
    ));
    assert_eq!(
        SetupError::KeyGeneration(KeyStep::Account).message(),
        "generating the SERVER key failed: deriving the account key"
    );
}

#[test]
fn a_key_is_tidied_and_checked() {
    let spec = test_key_spec_with_xpriv(1).0;
    let spaced = ValidateKeyRequest {
        fingerprint: format!("  {} ", spec.master_fingerprint.to_uppercase()),
        derivation_path: format!(" {}\n", spec.derivation_path),
        xpub: format!(" {} ", spec.xpub),
    };
    let kept = validate_key(ChainNetwork::Signet, &spaced).unwrap();
    assert_eq!(kept.fingerprint.to_lowercase(), spec.master_fingerprint);
    assert_eq!(kept.xpub, spec.xpub);
    assert!(matches!(
        validate_key(ChainNetwork::Mainnet, &spaced).err().unwrap(),
        SetupError::Key(_)
    ));
    let bad = ValidateKeyRequest { fingerprint: "xyz".to_string(), ..spaced };
    let e = validate_key(ChainNetwork::Signet, &bad).err().unwrap();
    assert_eq!(e.status(), 400);
}

#[test]
fn the_server_key_is_shown_but_never_its_private_part() {
    let g = generated(0x32);
    let shown = show_server_key(&g);
    assert_eq!(shown.key_expression, key_expression(g.fingerprint(), g.path(), g.xpub()));
    assert_eq!(shown.xpub, g.xpub());
    let svg = shown.key_expression_qr_svg.unwrap();
    assert!(svg.contains("<svg"), "{svg}");
    let export = key_export(&g);
    assert_eq!(export.xfp, g.fingerprint().to_uppercase());
    assert_eq!(export.xpub, g.xpub());
    assert!(export.deriv.contains("48"), "{}", export.deriv);
}

#[test]
fn the_form_is_taken_only_when_it_is_whole() {
    let d = deployment(ChainNetwork::Signet);
    let satochip = test_key_spec_with_xpriv(1).0;
    let mobile = test_key_spec_with_xpriv(2).0;
    let key = Some(generated(0x33));
    let fresh = || request(&satochip, &mobile);

    let answers = take_form(&d, false, &fresh(), &key).unwrap();
    assert_eq!(answers.hardware.xpub, satochip.xpub);
    assert_eq!(answers.server.xpub, generated(0x33).xpub());
    match answers.server_signing {
        ServerSigningAnswer::File(path) => assert_eq!(path, d.server_xprv_path()),
        ServerSigningAnswer::EnvVar(v) => panic!("{v}"),
    }
    assert_eq!(d.server_xprv_path(), "/data/config/server.xprv");
    assert_eq!(d.wallet_toml_path(), "/data/config/wallet.toml");

    let refused = |req: FinishRequest, configured: bool, key: &Option<GeneratedServerKey>| {
        take_form(&d, configured, &req, key).err().unwrap()
    };
    assert!(matches!(refused(fresh(), true, &key), SetupError::AlreadyConfigured));
    assert_eq!(SetupError::AlreadyConfigured.status(), 400);
    assert!(matches!(refused(fresh(), false, &None), SetupError::NoServerKey));
    let mut req = fresh();
    req.timelock_blocks = 0;
    assert!(matches!(refused(req, false, &key), SetupError::ZeroTimelock));
    let mut req = fresh();
    req.ntfy_url = None;
    assert!(matches!(refused(req, false, &key), SetupError::NoChannel));
    let req = request(&satochip, &satochip);
    assert!(matches!(refused(req, false, &key), SetupError::SameKey));
    let own = KeySpec {
        master_fingerprint: generated(0x33).fingerprint().to_string(),
        derivation_path: generated(0x33).path().to_string(),
        xpub: generated(0x33).xpub().to_string(),
    };
    let req = request(&satochip, &own);
    assert!(matches!(refused(req, false, &key), SetupError::ServersOwnKey));
    let mut req = fresh();
    req.satochip.xpub = "nonsense".to_string();
    assert!(matches!(refused(req, false, &key), SetupError::Key(_)));

    let mut req = fresh();
    req.ntfy_url = None;
    req.smtp = Some(SmtpRequest {
        host: "mail.example".to_string(),
        port: 25,
        username: "u".to_string(),
        password: "p".to_string(),
        from: "a@example".to_string(),
        to: "b@example".to_string(),
    });
    let answers = take_form(&d, false, &req, &key).unwrap();
    assert_eq!(answers.notify.smtp.unwrap().port, 25);
}

#[test]
fn the_finished_wallet_is_shown_with_its_first_address() {
    let cfg = test_wallet_config(144);
    let built = build_descriptor(&cfg).unwrap();
    let done = conclude(&cfg).unwrap();
    assert_eq!(done.descriptor, built.multipath());
    assert_eq!(done.receive_descriptor, built.external());
    assert_eq!(done.change_descriptor, built.internal());
    assert_eq!(done.first_address, address_at(built.external(), 0, cfg.network).unwrap());
    assert!(done.receive_qr_svg.unwrap().contains("<svg"));
    let mut bad = test_wallet_config(144);
    bad.timelock_blocks = 0;
    let err = conclude(&bad).err().unwrap();
    assert!(matches!(err, SetupError::Config(_)));
    assert_eq!(err.message(), bad.validate().unwrap_err().message(&bad));
    assert_eq!(
        SetupError::FirstAddress(DescriptorError::Derive { index: 0 }).message(),
        "deriving the first address failed: deriving index 0"
    );
    assert_eq!(
        SetupError::Wallet("x".to_string()).message(),
        "these keys don't form a valid wallet: x"
    );
    assert!(may_start(true).is_ok());
    assert!(matches!(may_start(false).unwrap_err(), SetupError::NotConfigured));
}

/// The texts of the codes in a picture.
fn decoded(bytes: &Vec<u8>) -> Vec<String> {
    let picture = image::load_from_memory(bytes).unwrap().to_luma8();
    let mut prepared = rqrr::PreparedImage::prepare(picture);
    let grids = prepared.detect_grids();
    distinct_payloads(&grids.iter().map(|g| Some(g.decode().ok()?.1)).collect())
}

/// A picture of a code that says this.
fn photo(text: &str, format: image::ImageFormat) -> Vec<u8> {
    let code = qrcode::QrCode::new(text.as_bytes()).unwrap();
    let side = code.width() as u32;
    let scale = 6u32;
    let full = (side + 8) * scale;
    let mut picture = image::GrayImage::new(full, full);
    for (x, y, p) in picture.enumerate_pixels_mut() {
        let (i, j) = (x / scale, y / scale);
        let dark = (4..side + 4).contains(&i)
            && (4..side + 4).contains(&j)
            && code[((i - 4) as usize, (j - 4) as usize)] == qrcode::Color::Dark;
        *p = image::Luma([if dark { 0u8 } else { 255u8 }]);
    }
    let mut out = std::io::Cursor::new(Vec::new());
    image::DynamicImage::ImageRgb8(image::DynamicImage::ImageLuma8(picture).to_rgb8())
        .write_to(&mut out, format)
        .unwrap();
    out.into_inner()
}

#[test]
fn a_code_in_a_picture_is_read() {
    let spec = test_key_spec_with_xpriv(1).0;
    let expression =
        key_expression(&spec.master_fingerprint, &spec.derivation_path, &spec.xpub);
    let payloads = decoded(&photo(&expression, image::ImageFormat::Png));
    assert_eq!(payloads, vec![expression.clone()]);
    for format in [image::ImageFormat::Jpeg, image::ImageFormat::WebP] {
        assert_eq!(decoded(&photo(&expression, format)), vec![expression.clone()]);
    }
    let read = interpret_payloads(payloads).unwrap();
    let key = read.key.unwrap();
    assert_eq!(key.xpub, spec.xpub);
    assert_eq!(key.fingerprint, Some(spec.master_fingerprint));
}

#[test]
fn a_picture_without_a_code_is_refused() {
    let mut out = std::io::Cursor::new(Vec::new());
    image::DynamicImage::ImageLuma8(image::GrayImage::new(40, 40))
        .write_to(&mut out, image::ImageFormat::Png)
        .unwrap();
    let bytes = out.into_inner();
    let payloads = decoded(&bytes);
    assert!(payloads.is_empty());
    assert!(matches!(interpret_payloads(payloads).err().unwrap(), SetupError::NoCode));
    assert_eq!(SetupError::NotAnImage.status(), 400);
    assert!(matches!(check_image_size(0).unwrap_err(), SetupError::NoImage));
    assert!(matches!(
        check_image_size(MAX_IMAGE_BYTES + 1).unwrap_err(),
        SetupError::ImageTooLarge
    ));
    assert!(check_image_size(MAX_IMAGE_BYTES).is_ok());
}

#[test]
fn the_same_code_twice_counts_once() {
    let codes = vec![
        Some("a".to_string()),
        None,
        Some("b".to_string()),
        Some("a".to_string()),
    ];
    assert_eq!(distinct_payloads(&codes), vec!["a".to_string(), "b".to_string()]);
}

#[test]
fn a_key_is_recognised_in_the_forms_that_wallets_export() {
    let spec = test_key_spec_with_xpriv(1).0;
    let bare = parse_scanned_key(&format!(" {} ", spec.xpub)).unwrap();
    assert_eq!(bare.xpub, spec.xpub);
    assert_eq!(bare.fingerprint, None);
    assert_eq!(bare.derivation_path, None);

    let expression =
        key_expression(&spec.master_fingerprint, &spec.derivation_path, &spec.xpub);
    let read = parse_scanned_key(&expression).unwrap();
    assert_eq!(read.xpub, spec.xpub);
    assert_eq!(read.fingerprint, Some(spec.master_fingerprint.clone()));
    assert_eq!(read.derivation_path, Some("48'/1'/0'/2'".to_string()));

    let json = format!(
        "{{\"xfp\":\" {} \",\"p2wsh\":{{\"deriv\":\"m/48'/1'/0'/2'\",\"xpub\":\"{}\"}}}}",
        spec.master_fingerprint.to_uppercase(),
        spec.xpub
    );
    let read = parse_scanned_key(&json).unwrap();
    assert_eq!(read.xpub, spec.xpub);
    assert_eq!(read.fingerprint, Some(spec.master_fingerprint.clone()));
    assert_eq!(read.derivation_path, Some("48'/1'/0'/2'".to_string()));

    let flat = format!("{{\"fingerprint\":7,\"path\":\"m/1\",\"zpub\":\"{}\"}}", spec.xpub);
    let read = parse_scanned_key(&flat).unwrap();
    assert_eq!(read.fingerprint, None);
    assert_eq!(read.derivation_path, Some("1".to_string()));

    let fragment = format!("{expression}/<0;1>/*");
    assert_eq!(parse_scanned_key(&fragment).unwrap().xpub, spec.xpub);
    assert_eq!(
        parse_scanned_key(&format!("[AABBCCDD]{}", spec.xpub)).unwrap().derivation_path,
        None
    );
    assert!(parse_scanned_key("nonsense").is_none());
    assert!(parse_scanned_key("{\"a\":1}").is_none());
}
