//! The configuration of a wallet: its three keys, the recovery timelock, and the sections that
//! the service reads.

use vstd::prelude::*;
use vstd::string::*;

use crate::keys::{
    derivation_error, derivation_failure, derivation_steps, parse_derivation_path, parse_xpub,
    xpub_error, xpub_failure, xpub_info,
};
use crate::policy::{policy_error_text, PolicyConfig, PolicyError};
use crate::text::{
    decimal, hex_of_len, is_hex_of_len, lowercase, push_decimal, quote, quoted, same_text, trim,
    trimmed,
};

verus! {

/// The networks that a wallet can be on.
#[derive(Clone, Copy, Debug, PartialEq, Eq, Structural)]
pub enum ChainNetwork {
    Mainnet,
    Testnet,
    Signet,
    Regtest,
}

/// The kinds of network that the version bytes of an extended key tell apart.
#[derive(Clone, Copy, Debug, PartialEq, Eq, Structural)]
pub enum NetworkKind {
    /// The main network.
    Main,
    /// Any other.
    Test,
}

/// The kind of a network.
pub open spec fn network_kind(network: ChainNetwork) -> NetworkKind {
    if network == ChainNetwork::Mainnet {
        NetworkKind::Main
    } else {
        NetworkKind::Test
    }
}

impl ChainNetwork {
    /// The kind of network that an extended key of this network is marked with: testnet, signet and
    /// regtest share their version bytes.
    pub fn xpub_network_kind(self) -> (r: NetworkKind)
        ensures
            r == network_kind(self),
    {
        match self {
            ChainNetwork::Mainnet => NetworkKind::Main,
            ChainNetwork::Testnet | ChainNetwork::Signet | ChainNetwork::Regtest => {
                NetworkKind::Test
            },
        }
    }
}

/// The three keys of the wallet. The hardware key is held on a Satochip card or a device of its
/// kind.
#[derive(Clone, Copy, Debug, PartialEq, Eq, Structural)]
pub enum Role {
    Satochip,
    Mobile,
    Server,
}

/// One of the wallet's keys, with where it comes from. No private material.
#[derive(Clone, Debug)]
pub struct KeySpec {
    /// The fingerprint of the master key, in 8 hexadecimal characters.
    pub master_fingerprint: String,
    /// The BIP32 path from the master key to `xpub`, such as "48h/1h/0h/2h".
    pub derivation_path: String,
    /// The extended public key at `derivation_path`.
    pub xpub: String,
}

/// The wallet's keys.
#[derive(Clone, Debug)]
pub struct KeysConfig {
    pub satochip: KeySpec,
    pub mobile: KeySpec,
    pub server: KeySpec,
}

/// The whole configuration.
#[derive(Clone, Debug)]
pub struct WalletConfig {
    pub network: ChainNetwork,
    /// The main network is refused unless this is set.
    pub i_understand_this_is_mainnet: bool,
    /// The relative timelock of the recovery path, in blocks.
    pub timelock_blocks: u16,
    pub keys: KeysConfig,
    /// Read by the service alone.
    pub bitcoind: Option<BitcoindConfig>,
    /// Read by the service alone.
    pub server: Option<ServerConfig>,
    /// Read where transactions are signed.
    pub policy: Option<PolicyConfig>,
    /// Read where transactions are signed: where the server key is to be found.
    pub server_signing: Option<ServerSigningConfig>,
    /// Read where transactions are signed: whom to tell of a spend, and how long to hold it.
    pub notify: Option<NotifyConfig>,
}

/// How the owner is told of a spend before it is signed.
#[derive(Clone, Debug)]
pub struct NotifyConfig {
    /// How long an approved spend is held, and can be vetoed, before it is signed.
    pub hold_seconds: i64,
    /// How often the service looks for spends whose hold has passed.
    pub sweep_interval_seconds: u64,
    pub ntfy: Option<NtfyConfig>,
    pub smtp: Option<SmtpConfig>,
}

/// A push notification channel.
#[derive(Clone, Debug)]
pub struct NtfyConfig {
    /// The topic to post to, such as "https://ntfy.sh/your-private-topic".
    pub url: String,
    /// Sent as a bearer token, if the topic asks for one.
    pub auth_token: Option<String>,
}

/// A mail channel.
#[derive(Clone, Debug)]
pub struct SmtpConfig {
    pub host: String,
    pub port: u16,
    pub username: String,
    pub password: String,
    pub from: String,
    pub to: String,
}

/// Where the server's account key is to be found: exactly one of the two.
#[derive(Clone, Debug)]
pub struct ServerSigningConfig {
    /// A file that holds the key and nothing else.
    pub xprv_file: Option<String>,
    /// An environment variable that holds the key.
    pub xprv_env_var: Option<String>,
}

/// How to reach the node.
#[derive(Clone, Debug)]
pub struct BitcoindConfig {
    pub rpc_url: String,
    /// The node's cookie file; excludes a user and password.
    pub rpc_cookie_file: Option<String>,
    pub rpc_user: Option<String>,
    pub rpc_password: Option<String>,
}

/// How the service is reached.
#[derive(Clone, Debug)]
pub struct ServerConfig {
    pub bind_addr: String,
    /// How many addresses of each chain are searched for one of the wallet's.
    pub gap_limit: u32,
    /// The ledger's database file.
    pub ledger_db_path: Option<String>,
}

/// Seconds between two sweeps where the configuration names none.
pub fn default_sweep_interval_seconds() -> (r: u64)
    ensures
        r == 5,
{
    5
}

/// The mail port where the configuration names none.
pub fn default_smtp_port() -> (r: u16)
    ensures
        r == 587,
{
    587
}

/// The gap limit where the configuration names none.
pub fn default_gap_limit() -> (r: u32)
    ensures
        r == 1000,
{
    1000
}

/// What is wrong with a key.
#[derive(Clone, Copy, Debug, PartialEq, Eq, Structural)]
pub enum KeyProblem {
    /// The fingerprint is not 8 hexadecimal characters.
    Fingerprint,
    /// The path is no BIP32 path.
    DerivationPath,
    /// The key is no extended public key.
    Xpub,
    /// The key's version bytes are those of another kind of network.
    Network { xpub: NetworkKind },
    /// The key's depth is not the number of steps of the path.
    Depth { depth: u8, steps: usize },
}

/// A section that an operation needs.
#[derive(Clone, Copy, Debug, PartialEq, Eq, Structural)]
pub enum Section {
    Bitcoind,
    Server,
    Policy,
    ServerSigning,
    Notify,
}

/// Why a configuration is refused.
#[derive(Clone, Copy, Debug, PartialEq, Eq, Structural)]
pub enum ConfigError {
    MainnetNotAcknowledged,
    ZeroTimelock,
    Key { role: Role, problem: KeyProblem },
    DuplicateFingerprint,
    DuplicateXpub,
    BitcoindAuthTwice,
    BitcoindAuthMissing,
    BitcoindAuthIncomplete,
    Policy(PolicyError),
    SigningKeyTwice,
    SigningKeyMissing,
    NegativeHold,
    NoNotifyChannel,
    MissingSection(Section),
}

impl KeySpec {
    /// The fingerprint as it is compared: trimmed and in lower case.
    pub open spec fn fingerprint(self) -> Seq<char> {
        lowercase(trimmed(self.master_fingerprint@))
    }

    /// What is wrong with the key on `network`.
    pub open spec fn problem(self, network: ChainNetwork) -> Option<KeyProblem> {
        let steps = derivation_steps(trimmed(self.derivation_path@));
        let xpub = xpub_info(trimmed(self.xpub@));
        if !is_hex_of_len(self.fingerprint(), 8) {
            Some(KeyProblem::Fingerprint)
        } else if steps is None {
            Some(KeyProblem::DerivationPath)
        } else if xpub is None {
            Some(KeyProblem::Xpub)
        } else if xpub.unwrap().network != network_kind(network) {
            Some(KeyProblem::Network { xpub: xpub.unwrap().network })
        } else if xpub.unwrap().depth != steps.unwrap().len() {
            Some(
                KeyProblem::Depth {
                    depth: xpub.unwrap().depth,
                    steps: steps.unwrap().len() as usize,
                },
            )
        } else {
            None
        }
    }

    /// Checks the key: a fingerprint of 8 hexadecimal characters, a path, an extended public key
    /// of the network, and as many steps in the path as the key is deep. The first check that
    /// fails is named.
    pub fn validate(&self, network: ChainNetwork) -> (r: Result<(), KeyProblem>)
        ensures
            match r {
                Ok(_) => self.problem(network) is None,
                Err(e) => self.problem(network) == Some(e),
            },
    {
        let fp = trim(self.master_fingerprint.as_str()).to_lowercase();
        if !hex_of_len(fp.as_str(), 8) {
            return Err(KeyProblem::Fingerprint);
        }
        let steps: Vec<u32> = match parse_derivation_path(trim(self.derivation_path.as_str())) {
            Some(steps) => steps,
            None => {
                return Err(KeyProblem::DerivationPath);
            },
        };
        let xpub = match parse_xpub(trim(self.xpub.as_str())) {
            Some(xpub) => xpub,
            None => {
                return Err(KeyProblem::Xpub);
            },
        };
        if xpub.network != network.xpub_network_kind() {
            return Err(KeyProblem::Network { xpub: xpub.network });
        }
        if xpub.depth as usize != steps.len() {
            return Err(KeyProblem::Depth { depth: xpub.depth, steps: steps.len() });
        }
        Ok(())
    }
}

impl NotifyConfig {
    /// What is wrong with the section.
    pub open spec fn problem(self) -> Option<ConfigError> {
        if self.hold_seconds < 0 {
            Some(ConfigError::NegativeHold)
        } else if self.ntfy is None && self.smtp is None {
            Some(ConfigError::NoNotifyChannel)
        } else {
            None
        }
    }

    /// Checks that the hold is not negative and that there is a channel to notify by.
    pub fn validate(&self) -> (r: Result<(), ConfigError>)
        ensures
            match r {
                Ok(_) => self.problem() is None,
                Err(e) => self.problem() == Some(e),
            },
    {
        if self.hold_seconds < 0 {
            return Err(ConfigError::NegativeHold);
        }
        if self.ntfy.is_none() && self.smtp.is_none() {
            return Err(ConfigError::NoNotifyChannel);
        }
        Ok(())
    }
}

impl ServerSigningConfig {
    /// What is wrong with the section.
    pub open spec fn problem(self) -> Option<ConfigError> {
        if self.xprv_file is Some && self.xprv_env_var is Some {
            Some(ConfigError::SigningKeyTwice)
        } else if self.xprv_file is None && self.xprv_env_var is None {
            Some(ConfigError::SigningKeyMissing)
        } else {
            None
        }
    }

    /// Checks that exactly one place for the key is given.
    pub fn validate(&self) -> (r: Result<(), ConfigError>)
        ensures
            match r {
                Ok(_) => self.problem() is None,
                Err(e) => self.problem() == Some(e),
            },
    {
        match (&self.xprv_file, &self.xprv_env_var) {
            (Some(_), Some(_)) => Err(ConfigError::SigningKeyTwice),
            (None, None) => Err(ConfigError::SigningKeyMissing),
            _ => Ok(()),
        }
    }
}

impl BitcoindConfig {
    /// What is wrong with the section.
    pub open spec fn problem(self) -> Option<ConfigError> {
        let cookie = self.rpc_cookie_file is Some;
        let user = self.rpc_user is Some;
        let password = self.rpc_password is Some;
        if cookie && (user || password) {
            Some(ConfigError::BitcoindAuthTwice)
        } else if !cookie && !user && !password {
            Some(ConfigError::BitcoindAuthMissing)
        } else if user != password {
            Some(ConfigError::BitcoindAuthIncomplete)
        } else {
            None
        }
    }

    /// Checks that the node is reached either by its cookie or by a user and a password.
    pub fn validate(&self) -> (r: Result<(), ConfigError>)
        ensures
            match r {
                Ok(_) => self.problem() is None,
                Err(e) => self.problem() == Some(e),
            },
    {
        let has_cookie = self.rpc_cookie_file.is_some();
        let has_userpass = self.rpc_user.is_some() || self.rpc_password.is_some();
        if has_cookie && has_userpass {
            return Err(ConfigError::BitcoindAuthTwice);
        }
        if !has_cookie && !has_userpass {
            return Err(ConfigError::BitcoindAuthMissing);
        }
        if has_userpass && (self.rpc_user.is_none() || self.rpc_password.is_none()) {
            return Err(ConfigError::BitcoindAuthIncomplete);
        }
        Ok(())
    }
}

/// Whether the three are pairwise different.
pub open spec fn pairwise_distinct(a: Seq<char>, b: Seq<char>, c: Seq<char>) -> bool {
    a != b && a != c && b != c
}

fn all_distinct(a: &str, b: &str, c: &str) -> (r: bool)
    ensures
        r == pairwise_distinct(a@, b@, c@),
{
    !same_text(a, b) && !same_text(a, c) && !same_text(b, c)
}

fn checked_key(key: &KeySpec, role: Role, network: ChainNetwork) -> (r: Result<(), ConfigError>)
    ensures
        match r {
            Ok(_) => key.problem(network) is None,
            Err(e) => key.problem(network) is Some && e == (ConfigError::Key {
                role,
                problem: key.problem(network).unwrap(),
            }),
        },
{
    match key.validate(network) {
        Ok(_) => Ok(()),
        Err(problem) => Err(ConfigError::Key { role, problem }),
    }
}

impl KeysConfig {
    /// What is wrong with the keys: the first one that has something wrong with it, or that two of
    /// them are the same.
    pub open spec fn problem(self, network: ChainNetwork) -> Option<ConfigError> {
        if self.satochip.problem(network) is Some {
            Some(
                ConfigError::Key {
                    role: Role::Satochip,
                    problem: self.satochip.problem(network).unwrap(),
                },
            )
        } else if self.mobile.problem(network) is Some {
            Some(
                ConfigError::Key {
                    role: Role::Mobile,
                    problem: self.mobile.problem(network).unwrap(),
                },
            )
        } else if self.server.problem(network) is Some {
            Some(
                ConfigError::Key {
                    role: Role::Server,
                    problem: self.server.problem(network).unwrap(),
                },
            )
        } else if !pairwise_distinct(
            self.satochip.fingerprint(),
            self.mobile.fingerprint(),
            self.server.fingerprint(),
        ) {
            Some(ConfigError::DuplicateFingerprint)
        } else if !pairwise_distinct(
            trimmed(self.satochip.xpub@),
            trimmed(self.mobile.xpub@),
            trimmed(self.server.xpub@),
        ) {
            Some(ConfigError::DuplicateXpub)
        } else {
            None
        }
    }

    /// Checks each key, and that the three are three.
    pub fn validate(&self, network: ChainNetwork) -> (r: Result<(), ConfigError>)
        ensures
            match r {
                Ok(_) => self.problem(network) is None,
                Err(e) => self.problem(network) == Some(e),
            },
    {
        checked_key(&self.satochip, Role::Satochip, network)?;
        checked_key(&self.mobile, Role::Mobile, network)?;
        checked_key(&self.server, Role::Server, network)?;
        let a = trim(self.satochip.master_fingerprint.as_str()).to_lowercase();
        let b = trim(self.mobile.master_fingerprint.as_str()).to_lowercase();
        let c = trim(self.server.master_fingerprint.as_str()).to_lowercase();
        if !all_distinct(a.as_str(), b.as_str(), c.as_str()) {
            return Err(ConfigError::DuplicateFingerprint);
        }
        if !all_distinct(
            trim(self.satochip.xpub.as_str()),
            trim(self.mobile.xpub.as_str()),
            trim(self.server.xpub.as_str()),
        ) {
            return Err(ConfigError::DuplicateXpub);
        }
        Ok(())
    }
}

impl WalletConfig {
    /// What is wrong with the configuration: the first of the checks, in the order in which they
    /// are made, that it does not pass.
    pub open spec fn problem(self) -> Option<ConfigError> {
        if self.network == ChainNetwork::Mainnet && !self.i_understand_this_is_mainnet {
            Some(ConfigError::MainnetNotAcknowledged)
        } else if self.timelock_blocks == 0 {
            Some(ConfigError::ZeroTimelock)
        } else if self.keys.problem(self.network) is Some {
            self.keys.problem(self.network)
        } else if self.bitcoind matches Some(b) && b.problem() is Some {
            self.bitcoind.unwrap().problem()
        } else if self.policy matches Some(p) && p.problem(self.network) is Some {
            Some(ConfigError::Policy(self.policy.unwrap().problem(self.network).unwrap()))
        } else if self.server_signing matches Some(s) && s.problem() is Some {
            self.server_signing.unwrap().problem()
        } else if self.notify matches Some(n) && n.problem() is Some {
            self.notify.unwrap().problem()
        } else {
            None
        }
    }

    /// Checks the configuration as a whole.
    pub fn validate(&self) -> (r: Result<(), ConfigError>)
        ensures
            match r {
                Ok(_) => self.problem() is None,
                Err(e) => self.problem() == Some(e),
            },
    {
        if self.network == ChainNetwork::Mainnet && !self.i_understand_this_is_mainnet {
            return Err(ConfigError::MainnetNotAcknowledged);
        }
        if self.timelock_blocks == 0 {
            return Err(ConfigError::ZeroTimelock);
        }
        self.keys.validate(self.network)?;
        if let Some(bitcoind) = &self.bitcoind {
            bitcoind.validate()?;
        }
        if let Some(policy) = &self.policy {
            if let Err(e) = policy.compile(self.network) {
                return Err(ConfigError::Policy(e));
            }
        }
        if let Some(server_signing) = &self.server_signing {
            server_signing.validate()?;
        }
        if let Some(notify) = &self.notify {
            notify.validate()?;
        }
        Ok(())
    }

    /// The two sections that the service cannot do without.
    pub fn require_server_config(&self) -> (r: Result<
        (&BitcoindConfig, &ServerConfig),
        ConfigError,
    >)
        ensures
            match r {
                Ok((b, s)) => self.bitcoind == Some(*b) && self.server == Some(*s),
                Err(e) => if self.bitcoind is None {
                    e == ConfigError::MissingSection(Section::Bitcoind)
                } else {
                    self.server is None && e == ConfigError::MissingSection(Section::Server)
                },
            },
    {
        match (&self.bitcoind, &self.server) {
            (Some(b), Some(s)) => Ok((b, s)),
            (None, _) => Err(ConfigError::MissingSection(Section::Bitcoind)),
            (_, None) => Err(ConfigError::MissingSection(Section::Server)),
        }
    }

    /// The two sections that signing cannot do without.
    pub fn require_signing_config(&self) -> (r: Result<
        (&PolicyConfig, &ServerSigningConfig),
        ConfigError,
    >)
        ensures
            match r {
                Ok((p, s)) => self.policy == Some(*p) && self.server_signing == Some(*s),
                Err(e) => if self.policy is None {
                    e == ConfigError::MissingSection(Section::Policy)
                } else {
                    self.server_signing is None && e == ConfigError::MissingSection(
                        Section::ServerSigning,
                    )
                },
            },
    {
        match (&self.policy, &self.server_signing) {
            (Some(p), Some(s)) => Ok((p, s)),
            (None, _) => Err(ConfigError::MissingSection(Section::Policy)),
            (_, None) => Err(ConfigError::MissingSection(Section::ServerSigning)),
        }
    }

    /// The section that says whom to tell of a spend.
    pub fn require_notify_config(&self) -> (r: Result<&NotifyConfig, ConfigError>)
        ensures
            match r {
                Ok(n) => self.notify == Some(*n),
                Err(e) => self.notify is None && e == ConfigError::MissingSection(Section::Notify),
            },
    {
        match &self.notify {
            Some(n) => Ok(n),
            None => Err(ConfigError::MissingSection(Section::Notify)),
        }
    }

    /// The key of a role.
    pub open spec fn key(self, role: Role) -> KeySpec {
        match role {
            Role::Satochip => self.keys.satochip,
            Role::Mobile => self.keys.mobile,
            Role::Server => self.keys.server,
        }
    }

    fn key_of(&self, role: Role) -> (r: &KeySpec)
        ensures
            *r == self.key(role),
    {
        match role {
            Role::Satochip => &self.keys.satochip,
            Role::Mobile => &self.keys.mobile,
            Role::Server => &self.keys.server,
        }
    }
}

/// The name of a role in the configuration.
pub open spec fn role_name(role: Role) -> Seq<char> {
    match role {
        Role::Satochip => "satochip"@,
        Role::Mobile => "mobile"@,
        Role::Server => "server"@,
    }
}

impl Role {
    /// The name of the role in the configuration.
    pub fn name(self) -> (r: &'static str)
        ensures
            r@ == role_name(self),
    {
        match self {
            Role::Satochip => "satochip",
            Role::Mobile => "mobile",
            Role::Server => "server",
        }
    }
}

/// The name of a network as an error states it.
pub open spec fn network_label(network: ChainNetwork) -> Seq<char> {
    match network {
        ChainNetwork::Mainnet => "Mainnet"@,
        ChainNetwork::Testnet => "Testnet"@,
        ChainNetwork::Signet => "Signet"@,
        ChainNetwork::Regtest => "Regtest"@,
    }
}

impl ChainNetwork {
    /// The name of the network as an error states it.
    pub fn label(self) -> (r: &'static str)
        ensures
            r@ == network_label(self),
    {
        match self {
            ChainNetwork::Mainnet => "Mainnet",
            ChainNetwork::Testnet => "Testnet",
            ChainNetwork::Signet => "Signet",
            ChainNetwork::Regtest => "Regtest",
        }
    }
}

/// The text of an error about a key of `cfg`.
pub open spec fn key_error_text(cfg: WalletConfig, role: Role, problem: KeyProblem) -> Seq<char> {
    let at = "keys."@ + role_name(role);
    match problem {
        KeyProblem::Fingerprint => at
            + ".master_fingerprint must be exactly 8 hex characters, got "@ + quoted(
            cfg.key(role).master_fingerprint@,
        ),
        KeyProblem::DerivationPath => at + ".derivation_path "@ + quoted(
            cfg.key(role).derivation_path@,
        ) + " is not a valid BIP32 derivation path"@,
        KeyProblem::Xpub => at + ".xpub is not a valid extended public key"@,
        KeyProblem::Network { xpub } => at + ".xpub was generated for "@ + (match xpub {
            NetworkKind::Main => "Main"@,
            NetworkKind::Test => "Test"@,
        }) + " but the config network is "@ + network_label(cfg.network),
        KeyProblem::Depth { depth, steps } => at + ".xpub has depth "@ + decimal(depth as nat)
            + " but "@ + at + ".derivation_path has "@ + decimal(steps as nat) + " step(s) ("@
            + cfg.key(role).derivation_path@
            + "); the xpub must be the extended public key AT that exact derivation path, not the master key or an intermediate one"@,
    }
}

/// The text of an error on `cfg`.
pub open spec fn config_error_text(cfg: WalletConfig, error: ConfigError) -> Seq<char> {
    match error {
        ConfigError::MainnetNotAcknowledged =>
            "network = \"mainnet\" but i_understand_this_is_mainnet is not true; this service only builds/runs against signet or regtest by default"@,
        ConfigError::ZeroTimelock =>
            "timelock_blocks must be non-zero (BIP68 relative locktimes start at 1 block)"@,
        ConfigError::Key { role, problem } => key_error_text(cfg, role, problem),
        ConfigError::DuplicateFingerprint =>
            "keys.satochip, keys.mobile and keys.server must have distinct master_fingerprint values (SATOCHIP, MOBILE and SERVER must be three different keys)"@,
        ConfigError::DuplicateXpub =>
            "keys.satochip, keys.mobile and keys.server must have distinct xpub values (SATOCHIP, MOBILE and SERVER must be three different keys)"@,
        ConfigError::BitcoindAuthTwice =>
            "bitcoind: set either rpc_cookie_file or rpc_user/rpc_password, not both"@,
        ConfigError::BitcoindAuthMissing =>
            "bitcoind: one of rpc_cookie_file or rpc_user+rpc_password is required"@,
        ConfigError::BitcoindAuthIncomplete =>
            "bitcoind: both rpc_user and rpc_password are required when not using rpc_cookie_file"@,
        ConfigError::Policy(_) => "[policy]"@,
        ConfigError::SigningKeyTwice =>
            "server_signing: set either xprv_file or xprv_env_var, not both"@,
        ConfigError::SigningKeyMissing =>
            "server_signing: one of xprv_file or xprv_env_var is required"@,
        ConfigError::NegativeHold => "[notify]"@,
        ConfigError::NoNotifyChannel => "[notify]"@,
        ConfigError::MissingSection(section) => match section {
            Section::Bitcoind =>
                "config is missing the [bitcoind] section, required to run `cosigner serve`"@,
            Section::Server =>
                "config is missing the [server] section, required to run `cosigner serve`"@,
            Section::Policy =>
                "config is missing the [policy] section, required for /sign_psbt"@,
            Section::ServerSigning =>
                "config is missing the [server_signing] section, required for /sign_psbt"@,
            Section::Notify =>
                "config is missing the [notify] section, required for /sign_psbt"@,
        },
    }
}

/// What is said of a hold that is negative.
pub const NEGATIVE_HOLD: &'static str = "notify.hold_seconds must not be negative";

/// What is said where there is no channel to tell of a spend by.
pub const NO_NOTIFY_CHANNEL: &'static str =
    "notify: at least one of [notify.ntfy] or [notify.smtp] is required - a hold with no notification channel would silently sign with nobody able to veto it";

/// What is behind an error on `cfg`, where there is more to say than its text does.
pub open spec fn config_error_cause(cfg: WalletConfig, error: ConfigError) -> Option<Seq<char>> {
    match error {
        ConfigError::Key { role, problem: KeyProblem::DerivationPath } => derivation_failure(
            trimmed(cfg.key(role).derivation_path@),
        ),
        ConfigError::Key { role, problem: KeyProblem::Xpub } => xpub_failure(
            trimmed(cfg.key(role).xpub@),
        ),
        ConfigError::Policy(e) => match cfg.policy {
            Some(policy) => Some(policy_error_text(e, policy.entry_of(e))),
            None => None,
        },
        ConfigError::NegativeHold => Some(NEGATIVE_HOLD@),
        ConfigError::NoNotifyChannel => Some(NO_NOTIFY_CHANNEL@),
        _ => None,
    }
}

fn key_message(cfg: &WalletConfig, role: Role, problem: KeyProblem) -> (r: String)
    ensures
        r@ == key_error_text(*cfg, role, problem),
{
    let mut at = "keys.".to_owned();
    at.append(role.name());
    let mut out = at.clone();
    match problem {
        KeyProblem::Fingerprint => {
            out.append(".master_fingerprint must be exactly 8 hex characters, got ");
            out.append(quote(cfg.key_of(role).master_fingerprint.as_str()).as_str());
        },
        KeyProblem::DerivationPath => {
            out.append(".derivation_path ");
            out.append(quote(cfg.key_of(role).derivation_path.as_str()).as_str());
            out.append(" is not a valid BIP32 derivation path");
        },
        KeyProblem::Xpub => {
            out.append(".xpub is not a valid extended public key");
        },
        KeyProblem::Network { xpub } => {
            out.append(".xpub was generated for ");
            match xpub {
                NetworkKind::Main => {
                    out.append("Main");
                },
                NetworkKind::Test => {
                    out.append("Test");
                },
            }
            out.append(" but the config network is ");
            out.append(cfg.network.label());
        },
        KeyProblem::Depth { depth, steps } => {
            out.append(".xpub has depth ");
            push_decimal(&mut out, depth as u64);
            out.append(" but ");
            out.append(at.as_str());
            out.append(".derivation_path has ");
            push_decimal(&mut out, steps as u64);
            out.append(" step(s) (");
            out.append(cfg.key_of(role).derivation_path.as_str());
            out.append(
                "); the xpub must be the extended public key AT that exact derivation path, not the master key or an intermediate one",
            );
        },
    }
    out
}

impl ConfigError {
    /// What is behind this error on `cfg`, where there is more to say than its message does.
    pub fn cause(self, cfg: &WalletConfig) -> (r: Option<String>)
        ensures
            match r {
                Some(t) => config_error_cause(*cfg, self) == Some(t@),
                None => config_error_cause(*cfg, self) is None,
            },
    {
        match self {
            ConfigError::Key { role, problem: KeyProblem::DerivationPath } => derivation_error(
                trim(cfg.key_of(role).derivation_path.as_str()),
            ),
            ConfigError::Key { role, problem: KeyProblem::Xpub } => xpub_error(
                trim(cfg.key_of(role).xpub.as_str()),
            ),
            ConfigError::Policy(e) => match &cfg.policy {
                Some(policy) => Some(e.message(policy.named_entry(e).as_str())),
                None => None,
            },
            ConfigError::NegativeHold => Some(NEGATIVE_HOLD.to_owned()),
            ConfigError::NoNotifyChannel => Some(NO_NOTIFY_CHANNEL.to_owned()),
            _ => None,
        }
    }

    /// What an operator is told of this error on `cfg`.
    pub fn message(self, cfg: &WalletConfig) -> (r: String)
        ensures
            r@ == config_error_text(*cfg, self),
    {
        match self {
            ConfigError::MainnetNotAcknowledged =>
                "network = \"mainnet\" but i_understand_this_is_mainnet is not true; this service only builds/runs against signet or regtest by default".to_owned(),
            ConfigError::ZeroTimelock =>
                "timelock_blocks must be non-zero (BIP68 relative locktimes start at 1 block)".to_owned(),
            ConfigError::Key { role, problem } => key_message(cfg, role, problem),
            ConfigError::DuplicateFingerprint =>
                "keys.satochip, keys.mobile and keys.server must have distinct master_fingerprint values (SATOCHIP, MOBILE and SERVER must be three different keys)".to_owned(),
            ConfigError::DuplicateXpub =>
                "keys.satochip, keys.mobile and keys.server must have distinct xpub values (SATOCHIP, MOBILE and SERVER must be three different keys)".to_owned(),
            ConfigError::BitcoindAuthTwice =>
                "bitcoind: set either rpc_cookie_file or rpc_user/rpc_password, not both".to_owned(),
            ConfigError::BitcoindAuthMissing =>
                "bitcoind: one of rpc_cookie_file or rpc_user+rpc_password is required".to_owned(),
            ConfigError::BitcoindAuthIncomplete =>
                "bitcoind: both rpc_user and rpc_password are required when not using rpc_cookie_file".to_owned(),
            ConfigError::Policy(_) => "[policy]".to_owned(),
            ConfigError::SigningKeyTwice =>
                "server_signing: set either xprv_file or xprv_env_var, not both".to_owned(),
            ConfigError::SigningKeyMissing =>
                "server_signing: one of xprv_file or xprv_env_var is required".to_owned(),
            ConfigError::NegativeHold => "[notify]".to_owned(),
            ConfigError::NoNotifyChannel => "[notify]".to_owned(),
            ConfigError::MissingSection(section) => match section {
                Section::Bitcoind =>
                    "config is missing the [bitcoind] section, required to run `cosigner serve`".to_owned(),
                Section::Server =>
                    "config is missing the [server] section, required to run `cosigner serve`".to_owned(),
                Section::Policy =>
                    "config is missing the [policy] section, required for /sign_psbt".to_owned(),
                Section::ServerSigning =>
                    "config is missing the [server_signing] section, required for /sign_psbt".to_owned(),
                Section::Notify =>
                    "config is missing the [notify] section, required for /sign_psbt".to_owned(),
            },
        }
    }
}

/// A configuration that passes its checks has three different keys, each an extended public key of
/// the wallet's network at the depth that its path says, a timelock of at least one block, and, on
/// the main network, the operator's word.
pub proof fn law_a_valid_configuration_is_a_three_key_wallet(cfg: WalletConfig)
    requires
        cfg.problem() is None,
    ensures
        cfg.network == ChainNetwork::Mainnet ==> cfg.i_understand_this_is_mainnet,
        cfg.timelock_blocks >= 1,
        forall|role: Role|
            xpub_info(trimmed((#[trigger] cfg.key(role)).xpub@)) is Some && derivation_steps(
                trimmed(cfg.key(role).derivation_path@),
            ) is Some,
        forall|role: Role|
            ({
                let xpub = xpub_info(trimmed((#[trigger] cfg.key(role)).xpub@)).unwrap();
                let steps = derivation_steps(trimmed(cfg.key(role).derivation_path@)).unwrap();
                xpub.depth == steps.len() && xpub.network == network_kind(cfg.network)
            }),
        forall|a: Role, b: Role|
            a != b ==> (#[trigger] cfg.key(a)).fingerprint() != (#[trigger] cfg.key(
                b,
            )).fingerprint() && trimmed(cfg.key(a).xpub@) != trimmed(cfg.key(b).xpub@),
{
    assert forall|a: Role, b: Role| a != b implies (#[trigger] cfg.key(a)).fingerprint() != (
    #[trigger] cfg.key(b)).fingerprint() && trimmed(cfg.key(a).xpub@) != trimmed(
        cfg.key(b).xpub@,
    ) by {
        match a {
            Role::Satochip => {},
            Role::Mobile => {},
            Role::Server => {},
        }
    }
}

/// A key passes exactly where its fingerprint is eight hex digits, its path can be read, and its extended
/// key can be read, is of the network, and is as deep as the path has steps.
pub proof fn law_a_key_is_of_the_network_and_at_its_path(key: KeySpec, network: ChainNetwork)
    ensures
        key.problem(network) is None <==> {
            let fingerprint = lowercase(trimmed(key.master_fingerprint@));
            &&& fingerprint.len() == 8
            &&& forall|i: int|
                0 <= i < 8 ==> crate::text::is_hex_digit(#[trigger] fingerprint[i])
            &&& derivation_steps(trimmed(key.derivation_path@)) matches Some(steps) && (xpub_info(
                trimmed(key.xpub@),
            ) matches Some(xpub) && xpub.depth == steps.len() && ((xpub.network
                == NetworkKind::Main) == (network == ChainNetwork::Mainnet)))
        },
{
}

/// A configuration passes exactly where the main network is acknowledged, the timelock is a block or
/// more, each key passes and no two share a fingerprint or an extended key, the node's credentials are
/// either a cookie or a name with a password, the whitelist is of the network, the server's key is
/// found in one place, and there is someone to tell and a hold that is not negative.
pub proof fn law_a_configuration_passes_exactly_where_every_section_does(cfg: WalletConfig)
    ensures
        cfg.problem() is None <==> {
            &&& cfg.network == ChainNetwork::Mainnet ==> cfg.i_understand_this_is_mainnet
            &&& cfg.timelock_blocks >= 1
            &&& cfg.keys.satochip.problem(cfg.network) is None
            &&& cfg.keys.mobile.problem(cfg.network) is None
            &&& cfg.keys.server.problem(cfg.network) is None
            &&& cfg.keys.satochip.fingerprint() != cfg.keys.mobile.fingerprint()
            &&& cfg.keys.satochip.fingerprint() != cfg.keys.server.fingerprint()
            &&& cfg.keys.mobile.fingerprint() != cfg.keys.server.fingerprint()
            &&& trimmed(cfg.keys.satochip.xpub@) != trimmed(cfg.keys.mobile.xpub@)
            &&& trimmed(cfg.keys.satochip.xpub@) != trimmed(cfg.keys.server.xpub@)
            &&& trimmed(cfg.keys.mobile.xpub@) != trimmed(cfg.keys.server.xpub@)
            &&& cfg.bitcoind matches Some(b) ==> if b.rpc_cookie_file is Some {
                b.rpc_user is None && b.rpc_password is None
            } else {
                b.rpc_user is Some && b.rpc_password is Some
            }
            &&& cfg.policy matches Some(p) ==> p.problem(cfg.network) is None
            &&& cfg.server_signing matches Some(s) ==> (s.xprv_file is Some) != (s.xprv_env_var
                is Some)
            &&& cfg.notify matches Some(n) ==> n.hold_seconds >= 0 && (n.ntfy is Some || n.smtp
                is Some)
        },
{
}

/// A refused key is refused for what is wrong with it.
pub proof fn law_a_refused_key_is_told_what_is_wrong(key: KeySpec, network: ChainNetwork)
    ensures
        match key.problem(network) {
            None => true,
            Some(KeyProblem::Fingerprint) => !is_hex_of_len(
                lowercase(trimmed(key.master_fingerprint@)),
                8,
            ),
            Some(KeyProblem::DerivationPath) => derivation_steps(
                trimmed(key.derivation_path@),
            ) is None,
            Some(KeyProblem::Xpub) => xpub_info(trimmed(key.xpub@)) is None,
            Some(KeyProblem::Network { xpub }) => xpub_info(trimmed(key.xpub@)) matches Some(x)
                && x.network == xpub && (xpub == NetworkKind::Main) != (network
                == ChainNetwork::Mainnet),
            Some(KeyProblem::Depth { depth, steps }) => {
                &&& xpub_info(trimmed(key.xpub@)) matches Some(x) && x.depth == depth
                &&& derivation_steps(trimmed(key.derivation_path@)) matches Some(s) && s.len()
                    != depth
            },
        },
{
}

/// A refused configuration is refused for what is wrong with it, in the section that the error names.
pub proof fn law_a_refused_configuration_is_told_what_is_wrong(cfg: WalletConfig)
    ensures
        match cfg.problem() {
            None => true,
            Some(ConfigError::MainnetNotAcknowledged) => cfg.network == ChainNetwork::Mainnet
                && !cfg.i_understand_this_is_mainnet,
            Some(ConfigError::ZeroTimelock) => cfg.timelock_blocks == 0,
            Some(ConfigError::Key { role, problem }) => match role {
                Role::Satochip => cfg.keys.satochip.problem(cfg.network) == Some(problem),
                Role::Mobile => cfg.keys.mobile.problem(cfg.network) == Some(problem),
                Role::Server => cfg.keys.server.problem(cfg.network) == Some(problem),
            },
            Some(ConfigError::DuplicateFingerprint) => {
                ||| cfg.keys.satochip.fingerprint() == cfg.keys.mobile.fingerprint()
                ||| cfg.keys.satochip.fingerprint() == cfg.keys.server.fingerprint()
                ||| cfg.keys.mobile.fingerprint() == cfg.keys.server.fingerprint()
            },
            Some(ConfigError::DuplicateXpub) => {
                ||| trimmed(cfg.keys.satochip.xpub@) == trimmed(cfg.keys.mobile.xpub@)
                ||| trimmed(cfg.keys.satochip.xpub@) == trimmed(cfg.keys.server.xpub@)
                ||| trimmed(cfg.keys.mobile.xpub@) == trimmed(cfg.keys.server.xpub@)
            },
            Some(ConfigError::BitcoindAuthTwice) => cfg.bitcoind matches Some(b)
                && b.rpc_cookie_file is Some && (b.rpc_user is Some || b.rpc_password is Some),
            Some(ConfigError::BitcoindAuthMissing) => cfg.bitcoind matches Some(b)
                && b.rpc_cookie_file is None && b.rpc_user is None && b.rpc_password is None,
            Some(ConfigError::BitcoindAuthIncomplete) => cfg.bitcoind matches Some(b)
                && b.rpc_cookie_file is None && (b.rpc_user is Some) != (b.rpc_password is Some),
            Some(ConfigError::Policy(e)) => cfg.policy matches Some(p) && p.problem(cfg.network)
                == Some(e),
            Some(ConfigError::SigningKeyTwice) => cfg.server_signing matches Some(s) && s.xprv_file
                is Some && s.xprv_env_var is Some,
            Some(ConfigError::SigningKeyMissing) => cfg.server_signing matches Some(s)
                && s.xprv_file is None && s.xprv_env_var is None,
            Some(ConfigError::NegativeHold) => cfg.notify matches Some(n) && n.hold_seconds < 0,
            Some(ConfigError::NoNotifyChannel) => cfg.notify matches Some(n) && n.ntfy is None
                && n.smtp is None,
            Some(ConfigError::MissingSection(_)) => false,
        },
{
}

/// Each role has a name of its own, and it is the key of that role that is looked at under it.
pub proof fn law_a_role_is_known_by_its_name(cfg: WalletConfig, a: Role, b: Role)
    ensures
        role_name(a) == role_name(b) <==> a == b,
        cfg.key(Role::Satochip) == cfg.keys.satochip,
        cfg.key(Role::Mobile) == cfg.keys.mobile,
        cfg.key(Role::Server) == cfg.keys.server,
{
    reveal_strlit("satochip");
    reveal_strlit("mobile");
    reveal_strlit("server");
    assert("satochip"@.len() == 8);
    assert("mobile"@[0] == 'm');
    assert("server"@[0] == 's');
    assert("mobile"@.len() == 6);
    assert("server"@.len() == 6);
}

}
