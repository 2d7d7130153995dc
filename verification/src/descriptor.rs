//! The wallet's descriptor.
//!
//! Any two of the three keys spend, and a spend with the mobile key waits `N` blocks:
//!
//! ```text
//! wsh(thresh(2,pk(HARDWARE),s:pk(SERVER),snj:and_v(v:pk(MOBILE),older(N))))
//! ```
//!
//! - Hardware and server spend at once. That is the hot path, the only one that the service takes
//!   part in, and the policy stands before it.
//! - Hardware and mobile spend after `N` blocks: recovery without the service.
//! - Mobile and server spend after `N` blocks: recovery without the hardware key.
//!
//! The wait is a rule of consensus, so it holds even where the service has been taken over.
//!
//! A descriptor is held as its text. What the `miniscript` crate makes of a text is named, and the
//! functions here say what they do with it.

use core::str::FromStr;
use std::collections::HashMap;
use std::sync::Arc;

use miniscript::descriptor::{DescriptorPublicKey, Wildcard};
use miniscript::{ForEachKey, ToPublicKey};

use vstd::prelude::*;
use vstd::string::*;

use crate::byteset::{digest, digest_of};
use crate::config::{config_error_text, ChainNetwork, ConfigError, KeySpec, WalletConfig};
use crate::keys::{
    canonical_xpub, derivation_steps, parse_derivation_path, xpub_text,
};
use crate::text::{
    after_first, before_first, behind, decimal, join, joined,
    law_a_cut_text_is_put_together_again, lowercase, push_decimal, same_bytes, same_text,
    trim, trimmed, until,
};

verus! {

broadcast use vstd::std_specs::hash::group_hash_axioms;

/// The canonical text of a descriptor, with its checksum; nothing where a text is none.
pub uninterp spec fn canonical_descriptor(s: Seq<char>) -> Option<Seq<char>>;

/// `<miniscript::Descriptor<DescriptorPublicKey> as FromStr>::from_str`, written out by its
/// `Display`. The canonical text is named [`canonical_descriptor`].
#[verifier::external_body]
fn parse_text(s: &str) -> (r: Option<String>)
    ensures
        match r {
            Some(d) => canonical_descriptor(s@) == Some(d@),
            None => canonical_descriptor(s@) is None,
        },
{
    let desc = miniscript::Descriptor::<DescriptorPublicKey>::from_str(s).ok()?;
    Some(desc.to_string())
}

/// Whether a descriptor is of the kind `wsh()`.
pub uninterp spec fn is_wsh(s: Seq<char>) -> bool;

/// `miniscript::Descriptor::desc_type`, of the descriptor that the text is: whether it is `Wsh`,
/// which is named [`is_wsh`]. A text that is no descriptor is of no type.
#[verifier::external_body]
fn has_wsh_type(s: &str) -> (r: bool)
    ensures
        r == is_wsh(s@),
{
    let desc = miniscript::Descriptor::<DescriptorPublicKey>::from_str(s);
    desc.is_ok_and(|d| d.desc_type() == miniscript::descriptor::DescriptorType::Wsh)
}

/// Whether a descriptor passes miniscript's sanity check.
pub uninterp spec fn is_sane(s: Seq<char>) -> bool;

/// `miniscript::Descriptor::sanity_check`, of the descriptor that the text is: whether it passes,
/// which is named [`is_sane`]. A text that is no descriptor does not.
#[verifier::external_body]
fn passes_sanity_check(s: &str) -> (r: bool)
    ensures
        r == is_sane(s@),
{
    let desc = miniscript::Descriptor::<DescriptorPublicKey>::from_str(s);
    desc.is_ok_and(|d| d.sanity_check().is_ok())
}

/// Whether a descriptor has several paths.
pub uninterp spec fn is_multipath(s: Seq<char>) -> bool;

/// `miniscript::Descriptor::is_multipath`, of the descriptor that the text is, which is named
/// [`is_multipath`]. A text that is no descriptor has none.
#[verifier::external_body]
fn has_multiple_paths(s: &str) -> (r: bool)
    ensures
        r == is_multipath(s@),
{
    let desc = miniscript::Descriptor::<DescriptorPublicKey>::from_str(s);
    desc.is_ok_and(|d| d.is_multipath())
}

/// The descriptors of the single paths of a descriptor; nothing where it cannot be split.
pub uninterp spec fn single_paths(s: Seq<char>) -> Option<Seq<Seq<char>>>;

/// `miniscript::Descriptor::into_single_descriptors`, of the descriptor that the text is, each
/// written out by `Display`. They are named [`single_paths`].
#[verifier::external_body]
fn split_paths(s: &str) -> (r: Option<Vec<String>>)
    ensures
        match r {
            Some(v) => single_paths(s@) == Some(v.deep_view()),
            None => single_paths(s@) is None,
        },
{
    let desc = miniscript::Descriptor::<DescriptorPublicKey>::from_str(s).ok()?;
    Some(desc.into_single_descriptors().ok()?.iter().map(|d| d.to_string()).collect())
}

/// What decides whether a key expression has a public key at an index.
#[derive(Clone, Copy, Debug, PartialEq, Eq, Structural)]
pub struct KeyShape {
    /// The depth of the extended key; `0` for a plain public key.
    pub depth: u8,
    /// How many steps stand behind the extended key; `0` where there are several paths.
    pub steps: usize,
    /// Whether one of the steps is hardened.
    pub hardened_step: bool,
    /// Whether the index is a step of its own.
    pub wildcard: bool,
    /// Whether that step is a hardened one.
    pub hardened_wildcard: bool,
}

/// The shapes of the keys of a descriptor, in their order.
pub uninterp spec fn key_shapes(s: Seq<char>) -> Option<Seq<KeyShape>>;

/// `miniscript::ForEachKey::for_each_key`, on the descriptor that the text is, with
/// `DescriptorPublicKey::has_hardened_step`, `has_wildcard` and the fields of each key. The shapes
/// are named [`key_shapes`].
#[verifier::external_body]
fn shapes_of(s: &str) -> (r: Option<Vec<KeyShape>>)
    ensures
        match r {
            Some(shapes) => key_shapes(s@) == Some(shapes@),
            None => key_shapes(s@) is None,
        },
{
    let desc = miniscript::Descriptor::<DescriptorPublicKey>::from_str(s).ok()?;
    let mut found: Vec<KeyShape> = Vec::new();
    desc.for_each_key(|k| {
        let (depth, steps, wildcard) = match k {
            DescriptorPublicKey::Single(_) => (0, 0, Wildcard::None),
            DescriptorPublicKey::XPub(x) => (x.xkey.depth, x.derivation_path.len(), x.wildcard),
            DescriptorPublicKey::MultiXPub(x) => (x.xkey.depth, 0, x.wildcard),
        };
        let hardened_wildcard = matches!(wildcard, Wildcard::Hardened);
        let (hardened_step, wildcard) = (k.has_hardened_step(), k.has_wildcard());
        found.push(KeyShape { depth, steps, hardened_step, wildcard, hardened_wildcard });
        true
    });
    Some(found)
}

/// Whether an expression of this shape has a public key at an index: a public key has no hardened
/// children, and an extended key is at most 255 deep.
pub open spec fn shape_derives(shape: KeyShape) -> bool {
    &&& !shape.hardened_step
    &&& !shape.hardened_wildcard
    &&& shape.depth + shape.steps + (if shape.wildcard {
        1int
    } else {
        0
    }) <= 255
}

/// Whether every key of a descriptor has a public key at an index.
pub open spec fn is_derivable(s: Seq<char>) -> bool {
    key_shapes(s) matches Some(shapes) ==> forall|i: int|
        0 <= i < shapes.len() ==> shape_derives(#[trigger] shapes[i])
}

fn can_derive(s: &str) -> (r: bool)
    ensures
        r == is_derivable(s@),
{
    match shapes_of(s) {
        None => true,
        Some(shapes) => {
            let mut i: usize = 0;
            while i < shapes.len()
                invariant
                    i <= shapes.len(),
                    key_shapes(s@) == Some(shapes@),
                    forall|j: int| 0 <= j < i ==> shape_derives(#[trigger] shapes@[j]),
                decreases shapes.len() - i,
            {
                let shape = shapes[i];
                let extra: usize = if shape.wildcard {
                    1
                } else {
                    0
                };
                if shape.hardened_step || shape.hardened_wildcard || shape.steps > 255 || shape.depth as usize + shape.steps + extra > 255 {
                    assert(!shape_derives(key_shapes(s@).unwrap()[i as int]));
                    return false;
                }
                i = i + 1;
            }
            true
        },
    }
}

/// The output script of a descriptor at a derivation index; nothing where a text is no descriptor,
/// has several paths, or the index is one that a public key has no child at.
pub uninterp spec fn script_at_index(s: Seq<char>, index: u32) -> Option<Seq<u8>>;

/// `miniscript::Descriptor::at_derivation_index` and `script_pubkey`, of the descriptor that the
/// text is. The script is named [`script_at_index`].
#[verifier::external_body]
fn script_pubkey(s: &str, index: u32) -> (r: Option<Vec<u8>>)
    requires
        is_derivable(s@),
    ensures
        match r {
            Some(script) => script_at_index(s@, index) == Some(script@),
            None => script_at_index(s@, index) is None,
        },
{
    let desc = miniscript::Descriptor::<DescriptorPublicKey>::from_str(s).ok()?;
    Some(desc.at_derivation_index(index).ok()?.script_pubkey().to_bytes())
}

/// The script that a descriptor's output script commits to, at a derivation index.
pub uninterp spec fn witness_script_at_index(s: Seq<char>, index: u32) -> Option<Seq<u8>>;

/// `miniscript::Descriptor::at_derivation_index` and `explicit_script`, of the descriptor that the
/// text is. The script is named [`witness_script_at_index`].
#[verifier::external_body]
fn explicit_script(s: &str, index: u32) -> (r: Option<Vec<u8>>)
    requires
        is_derivable(s@),
    ensures
        match r {
            Some(script) => witness_script_at_index(s@, index) == Some(script@),
            None => witness_script_at_index(s@, index) is None,
        },
{
    let desc = miniscript::Descriptor::<DescriptorPublicKey>::from_str(s).ok()?;
    Some(desc.at_derivation_index(index).ok()?.explicit_script().ok()?.to_bytes())
}

/// The address of a descriptor at a derivation index.
pub uninterp spec fn address_at_index(
    s: Seq<char>,
    index: u32,
    network: ChainNetwork,
) -> Option<Seq<char>>;

/// `miniscript::Descriptor::at_derivation_index` and `address`, of the descriptor that the text
/// is, written out by `Display`. The address is named [`address_at_index`].
#[verifier::external_body]
fn address_text(s: &str, index: u32, network: ChainNetwork) -> (r: Option<String>)
    requires
        is_derivable(s@),
    ensures
        match r {
            Some(a) => address_at_index(s@, index, network) == Some(a@),
            None => address_at_index(s@, index, network) is None,
        },
{
    let desc = miniscript::Descriptor::<DescriptorPublicKey>::from_str(s).ok()?;
    let definite = desc.at_derivation_index(index).ok()?;
    Some(definite.address(network.to_bitcoin_network()).ok()?.to_string())
}

/// The keys of a descriptor at a derivation index, in their order: each as its key expression and
/// as the public key that it is.
pub uninterp spec fn keys_at_index(s: Seq<char>, index: u32) -> Option<Seq<(Seq<char>, Seq<u8>)>>;

/// A key of a descriptor at a derivation index.
#[derive(Clone, Debug)]
pub struct DefiniteKey {
    /// The key expression, such as `[aabbccdd/48'/1'/0'/2']tpub.../0/5`.
    pub expression: String,
    /// The public key, serialized.
    pub public_key: Vec<u8>,
}

impl DeepView for DefiniteKey {
    type V = (Seq<char>, Seq<u8>);

    open spec fn deep_view(&self) -> (Seq<char>, Seq<u8>) {
        (self.expression@, self.public_key@)
    }
}

/// `miniscript::Descriptor::at_derivation_index` and `iter_pk`, of the descriptor that the text
/// is: each key by `Display` and by `ToPublicKey`. The keys are named [`keys_at_index`].
#[verifier::external_body]
fn keys_of(s: &str, index: u32) -> (r: Option<Vec<DefiniteKey>>)
    requires
        is_derivable(s@),
    ensures
        match r {
            Some(keys) => keys_at_index(s@, index) == Some(keys.deep_view()),
            None => keys_at_index(s@, index) is None,
        },
{
    let desc = miniscript::Descriptor::<DescriptorPublicKey>::from_str(s).ok()?;
    let definite = desc.at_derivation_index(index).ok()?;
    let mut found: Vec<DefiniteKey> = Vec::new();
    definite.for_each_key(
        |k| {
            let public_key = k.to_public_key().to_bytes();
            found.push(DefiniteKey { expression: k.to_string(), public_key });
            true
        },
    );
    Some(found)
}

/// The weight of the heaviest witness that satisfies a descriptor.
pub uninterp spec fn satisfaction_weight(s: Seq<char>) -> Option<u64>;

/// `miniscript::Descriptor::max_weight_to_satisfy`, of the descriptor that the text is, in weight
/// units, which is named [`satisfaction_weight`].
#[verifier::external_body]
fn max_weight_to_satisfy(s: &str) -> (r: Option<u64>)
    ensures
        r == satisfaction_weight(s@),
{
    let desc = miniscript::Descriptor::<DescriptorPublicKey>::from_str(s).ok()?;
    Some(desc.max_weight_to_satisfy().ok()?.to_wu())
}

/// The weight of the heaviest witness that satisfies the descriptor.
pub fn witness_weight(desc: &str) -> (r: Option<u64>)
    ensures
        r == satisfaction_weight(desc@),
{
    max_weight_to_satisfy(desc)
}

/// Why a descriptor could not be made or used.
#[derive(Clone, Debug, PartialEq, Eq)]
pub enum DescriptorError {
    /// The configuration is refused.
    Config(ConfigError),
    /// The text is no descriptor.
    Parse,
    /// The descriptor is not of the kind `wsh()`.
    NotWsh,
    /// The descriptor fails miniscript's sanity check.
    Insane,
    /// The descriptor cannot be split into its paths.
    Split,
    /// The descriptor has another number of paths than one for receiving and one for change.
    PathCount(usize),
    /// The descriptor of a single path fails miniscript's sanity check.
    InsanePath(Chain),
    /// No key can be derived at the index.
    Derive { index: u32 },
    /// The text given for a role's key is no extended public key.
    RoleKey { xpub: String },
    /// The descriptor has no key of the role.
    MissingRoleKey { xpub: String },
}

/// The text of an error on a descriptor. What was wrong with a configuration is said by
/// [`build_error_text`].
pub open spec fn descriptor_error_text(e: DescriptorError) -> Seq<char> {
    match e {
        DescriptorError::Config(_) => "the configuration is refused"@,
        DescriptorError::Parse => "parsing descriptor"@,
        DescriptorError::NotWsh => "expected a wsh() descriptor"@,
        DescriptorError::Insane => "descriptor failed miniscript sanity check"@,
        DescriptorError::Split => "splitting multipath descriptor"@,
        DescriptorError::PathCount(n) => "multipath descriptor split into "@ + decimal(n as nat)
            + " single-path descriptors"@,
        DescriptorError::InsanePath(Chain::External) => "external descriptor failed sanity check"@,
        DescriptorError::InsanePath(Chain::Internal) => "internal descriptor failed sanity check"@,
        DescriptorError::Derive { index } => "deriving index "@ + decimal(index as nat),
        DescriptorError::RoleKey { xpub } => "role xpub "@ + trimmed(xpub@)
            + " is not a valid extended public key"@,
        DescriptorError::MissingRoleKey { xpub } => "key for xpub "@ + trimmed(xpub@)
            + " not found in descriptor"@,
    }
}

/// The text of an error on building the descriptor of `cfg`.
pub open spec fn build_error_text(cfg: WalletConfig, e: DescriptorError) -> Seq<char> {
    match e {
        DescriptorError::Config(x) => config_error_text(cfg, x),
        DescriptorError::Parse => "parsing generated descriptor: "@ + configured_policy(cfg),
        DescriptorError::Insane => "generated descriptor failed miniscript sanity check"@,
        DescriptorError::Split => "splitting multipath descriptor into external/internal"@,
        DescriptorError::PathCount(n) =>
            "expected exactly 2 derivation paths (external, internal) from <0;1>, got "@ + decimal(
            n as nat,
        ),
        _ => descriptor_error_text(e),
    }
}

impl DescriptorError {
    /// What a person is told of an error on a descriptor.
    pub fn message(&self) -> (r: String)
        ensures
            r@ == descriptor_error_text(*self),
    {
        match self {
            DescriptorError::Config(_) => "the configuration is refused".to_owned(),
            DescriptorError::Parse => "parsing descriptor".to_owned(),
            DescriptorError::NotWsh => "expected a wsh() descriptor".to_owned(),
            DescriptorError::Insane => "descriptor failed miniscript sanity check".to_owned(),
            DescriptorError::Split => "splitting multipath descriptor".to_owned(),
            DescriptorError::PathCount(n) => {
                let mut out = "multipath descriptor split into ".to_owned();
                push_decimal(&mut out, *n as u64);
                out.append(" single-path descriptors");
                out
            },
            DescriptorError::InsanePath(Chain::External) =>
                "external descriptor failed sanity check".to_owned(),
            DescriptorError::InsanePath(Chain::Internal) =>
                "internal descriptor failed sanity check".to_owned(),
            DescriptorError::Derive { index } => {
                let mut out = "deriving index ".to_owned();
                push_decimal(&mut out, *index as u64);
                out
            },
            DescriptorError::RoleKey { xpub } => {
                let mut out = "role xpub ".to_owned();
                out.append(trim(xpub.as_str()));
                out.append(" is not a valid extended public key");
                out
            },
            DescriptorError::MissingRoleKey { xpub } => {
                let mut out = "key for xpub ".to_owned();
                out.append(trim(xpub.as_str()));
                out.append(" not found in descriptor");
                out
            },
        }
    }

    /// What a person is told of an error on building the descriptor of `cfg`.
    pub fn build_message(&self, cfg: &WalletConfig) -> (r: String)
        requires
            build_error(*cfg) == Some(*self),
        ensures
            r@ == build_error_text(*cfg, *self),
    {
        match self {
            DescriptorError::Config(x) => x.message(cfg),
            DescriptorError::Parse => {
                let hardware = key_expr(&cfg.keys.satochip).unwrap();
                let server = key_expr(&cfg.keys.server).unwrap();
                let mobile = key_expr(&cfg.keys.mobile).unwrap();
                let mut out = "parsing generated descriptor: ".to_owned();
                out.append(
                    policy_string(
                        hardware.as_str(),
                        server.as_str(),
                        mobile.as_str(),
                        cfg.timelock_blocks,
                    ).as_str(),
                );
                out
            },
            DescriptorError::Insane =>
                "generated descriptor failed miniscript sanity check".to_owned(),
            DescriptorError::Split =>
                "splitting multipath descriptor into external/internal".to_owned(),
            DescriptorError::PathCount(n) => {
                let mut out =
                    "expected exactly 2 derivation paths (external, internal) from <0;1>, got ".to_owned();
                push_decimal(&mut out, *n as u64);
                out
            },
            _ => self.message(),
        }
    }
}

/// The two chains of the wallet.
#[derive(Clone, Copy, Debug, PartialEq, Eq, Structural)]
pub enum Chain {
    /// Addresses to receive at.
    External,
    /// Addresses for change.
    Internal,
}

/// Where in the wallet an output script is.
#[derive(Clone, Copy, Debug, PartialEq, Eq, Structural)]
pub struct Owned {
    pub chain: Chain,
    pub index: u32,
}

/// One step of a derivation path: a number, and an apostrophe where it is hardened.
pub open spec fn step_text(step: u32) -> Seq<char> {
    if step < 0x8000_0000 {
        decimal(step as nat)
    } else {
        decimal((step - 0x8000_0000) as nat) + "'"@
    }
}

/// A derivation path, without the master key in front.
pub open spec fn path_text(steps: Seq<u32>) -> Seq<char> {
    joined(steps.map_values(|step: u32| step_text(step)), "/"@)
}

pub(crate) fn write_path(steps: &Vec<u32>) -> (r: String)
    ensures
        r@ == path_text(steps@),
{
    let mut parts: Vec<String> = Vec::new();
    let mut i: usize = 0;
    while i < steps.len()
        invariant
            i <= steps.len(),
            parts@.len() == i,
            forall|j: int| 0 <= j < i ==> (#[trigger] parts@[j])@ == step_text(steps@[j]),
        decreases steps.len() - i,
    {
        let mut part = String::new();
        let step: u32 = steps[i];
        if step < 0x8000_0000 {
            push_decimal(&mut part, step as u64);
        } else {
            push_decimal(&mut part, (step - 0x8000_0000) as u64);
            part.append("'");
        }
        assert(part@ =~= step_text(step));
        parts.push(part);
        i = i + 1;
    }
    assert(parts.deep_view() =~= steps@.map_values(|step: u32| step_text(step)));
    join(&parts, "/")
}

/// The key expression of a configured key: its origin in brackets, the key, and the two chains.
pub open spec fn key_expression_text(key: KeySpec) -> Seq<char> {
    let fp = key.fingerprint();
    let steps = derivation_steps(trimmed(key.derivation_path@)).unwrap();
    let origin = if steps.len() == 0 {
        fp
    } else {
        fp + "/"@ + path_text(steps)
    };
    "["@ + origin + "]"@ + trimmed(key.xpub@) + "/<0;1>/*"@
}

/// The key expression of a configured key, if its path is one.
fn key_expr(key: &KeySpec) -> (r: Option<String>)
    ensures
        match r {
            Some(e) => derivation_steps(trimmed(key.derivation_path@)) is Some && e@
                == key_expression_text(*key),
            None => derivation_steps(trimmed(key.derivation_path@)) is None,
        },
{
    let fp = trim(key.master_fingerprint.as_str()).to_lowercase();
    let steps: Vec<u32> = parse_derivation_path(trim(key.derivation_path.as_str()))?;
    let mut out = "[".to_owned();
    let mut origin = fp;
    if steps.len() > 0 {
        origin.append("/");
        origin.append(write_path(&steps).as_str());
    }
    out.append(origin.as_str());
    out.append("]");
    out.append(trim(key.xpub.as_str()));
    out.append("/<0;1>/*");
    assert(out@ =~= key_expression_text(*key));
    Some(out)
}

/// The descriptor of three key expressions and a timelock.
pub open spec fn policy_text(
    hardware: Seq<char>,
    server: Seq<char>,
    mobile: Seq<char>,
    timelock_blocks: nat,
) -> Seq<char> {
    "wsh(thresh(2,pk("@ + hardware + "),s:pk("@ + server + "),snj:and_v(v:pk("@ + mobile
        + "),older("@ + decimal(timelock_blocks) + "))))"@
}

/// Writes the wallet's descriptor from three key expressions and the timelock.
pub fn policy_string(
    hardware_expr: &str,
    server_expr: &str,
    mobile_expr: &str,
    timelock_blocks: u16,
) -> (r: String)
    ensures
        r@ == policy_text(hardware_expr@, server_expr@, mobile_expr@, timelock_blocks as nat),
{
    let mut out = "wsh(thresh(2,pk(".to_owned();
    out.append(hardware_expr);
    out.append("),s:pk(");
    out.append(server_expr);
    out.append("),snj:and_v(v:pk(");
    out.append(mobile_expr);
    out.append("),older(");
    push_decimal(&mut out, timelock_blocks as u64);
    out.append("))))");
    out
}

/// The descriptor that a configuration describes.
pub open spec fn configured_policy(cfg: WalletConfig) -> Seq<char> {
    policy_text(
        key_expression_text(cfg.keys.satochip),
        key_expression_text(cfg.keys.server),
        key_expression_text(cfg.keys.mobile),
        cfg.timelock_blocks as nat,
    )
}

/// The scripts of a wallet up to a gap limit, by a digest of the script.
#[derive(Debug)]
struct ScriptIndex {
    gap_limit: u32,
    by_digest: HashMap<u64, Vec<ScriptEntry>>,
}

/// An output script, and where in the wallet it is.
#[derive(Debug)]
struct ScriptEntry {
    script: Vec<u8>,
    owned: Owned,
}

/// The wallet's descriptor, and those of its two chains.
#[derive(Debug)]
pub struct BuiltDescriptor {
    multipath: String,
    external: String,
    internal: String,
    timelock_blocks: u16,
    /// The scripts of both chains up to the gap limit that was last asked for, so that to look one
    /// up takes a constant time whatever the limit is.
    spk_index: Option<Arc<ScriptIndex>>,
}

/// What building a descriptor from `cfg` comes to.
pub open spec fn build_error(cfg: WalletConfig) -> Option<DescriptorError> {
    let text = configured_policy(cfg);
    let multipath = canonical_descriptor(text).unwrap();
    let singles = single_paths(multipath).unwrap();
    if cfg.problem() is Some {
        Some(DescriptorError::Config(cfg.problem().unwrap()))
    } else if canonical_descriptor(text) is None {
        Some(DescriptorError::Parse)
    } else if !is_wsh(multipath) {
        Some(DescriptorError::NotWsh)
    } else if !is_sane(multipath) {
        Some(DescriptorError::Insane)
    } else if single_paths(multipath) is None {
        Some(DescriptorError::Split)
    } else if singles.len() != 2 {
        Some(DescriptorError::PathCount(singles.len() as usize))
    } else if !is_sane(singles[0]) {
        Some(DescriptorError::InsanePath(Chain::External))
    } else if !is_sane(singles[1]) {
        Some(DescriptorError::InsanePath(Chain::Internal))
    } else {
        None
    }
}

impl BuiltDescriptor {
    /// The descriptor with both chains in one.
    pub closed spec fn multipath_text(self) -> Seq<char> {
        self.multipath@
    }

    /// The descriptor of the chain to receive at.
    pub closed spec fn external_text(self) -> Seq<char> {
        self.external@
    }

    /// The descriptor of the chain for change.
    pub closed spec fn internal_text(self) -> Seq<char> {
        self.internal@
    }

    /// The timelock of the recovery path.
    pub closed spec fn timelock(self) -> u16 {
        self.timelock_blocks
    }

    /// Whether this is the descriptor of `cfg`.
    pub open spec fn describes(self, cfg: WalletConfig) -> bool {
        let multipath = canonical_descriptor(configured_policy(cfg)).unwrap();
        let singles = single_paths(multipath).unwrap();
        &&& self.multipath_text() == multipath
        &&& self.external_text() == singles[0]
        &&& self.internal_text() == singles[1]
        &&& self.timelock() == cfg.timelock_blocks
    }

    /// The descriptor of a chain.
    pub open spec fn of_chain(self, chain: Chain) -> Seq<char> {
        match chain {
            Chain::External => self.external_text(),
            Chain::Internal => self.internal_text(),
        }
    }

    /// Whether the two are the same wallet.
    pub open spec fn same_wallet(self, other: BuiltDescriptor) -> bool {
        &&& self.multipath_text() == other.multipath_text()
        &&& self.external_text() == other.external_text()
        &&& self.internal_text() == other.internal_text()
        &&& self.timelock() == other.timelock()
    }

    /// What the cache of scripts holds is what the wallet has.
    #[verifier::type_invariant]
    closed spec fn cache_is_true(self) -> bool {
        self.spk_index matches Some(index) ==> {
            &&& underivable(self, index.gap_limit) is None
            &&& forall|script: Seq<u8>| #[trigger]
                looked_up(index.by_digest@, script) == owner(self, script, index.gap_limit)
        }
    }

    /// The descriptor with both chains in one.
    pub fn multipath(&self) -> (r: &str)
        ensures
            r@ == self.multipath_text(),
    {
        self.multipath.as_str()
    }

    /// The descriptor of the chain to receive at.
    pub fn external(&self) -> (r: &str)
        ensures
            r@ == self.external_text(),
    {
        self.external.as_str()
    }

    /// The descriptor of the chain for change.
    pub fn internal(&self) -> (r: &str)
        ensures
            r@ == self.internal_text(),
    {
        self.internal.as_str()
    }

    /// The timelock of the recovery path.
    pub fn timelock_blocks(&self) -> (r: u16)
        ensures
            r == self.timelock(),
    {
        self.timelock_blocks
    }

    /// The descriptor of a chain.
    pub fn chain(&self, chain: Chain) -> (r: &str)
        ensures
            r@ == self.of_chain(chain),
    {
        match chain {
            Chain::External => self.external.as_str(),
            Chain::Internal => self.internal.as_str(),
        }
    }
}

/// Builds the descriptor of a configuration: of its keys in their roles and its timelock, as
/// `miniscript` reads it, split into the chain to receive at and the chain for change.
pub fn build_descriptor(cfg: &WalletConfig) -> (r: Result<BuiltDescriptor, DescriptorError>)
    ensures
        match r {
            Ok(wallet) => build_error(*cfg) is None && wallet.describes(*cfg),
            Err(e) => build_error(*cfg) == Some(e),
        },
{
    if let Err(e) = cfg.validate() {
        return Err(DescriptorError::Config(e));
    }
    let hardware = key_expr(&cfg.keys.satochip).unwrap();
    let server = key_expr(&cfg.keys.server).unwrap();
    let mobile = key_expr(&cfg.keys.mobile).unwrap();
    let text = policy_string(
        hardware.as_str(),
        server.as_str(),
        mobile.as_str(),
        cfg.timelock_blocks,
    );
    let multipath = match parse_text(text.as_str()) {
        Some(d) => d,
        None => {
            return Err(DescriptorError::Parse);
        },
    };
    if !has_wsh_type(multipath.as_str()) {
        return Err(DescriptorError::NotWsh);
    }
    if !passes_sanity_check(multipath.as_str()) {
        return Err(DescriptorError::Insane);
    }
    let singles: Vec<String> = match split_paths(multipath.as_str()) {
        Some(v) => v,
        None => {
            return Err(DescriptorError::Split);
        },
    };
    if singles.len() != 2 {
        return Err(DescriptorError::PathCount(singles.len()));
    }
    let external = singles[0].clone();
    let internal = singles[1].clone();
    assert(singles.deep_view()[0] == external@);
    assert(singles.deep_view()[1] == internal@);
    if !passes_sanity_check(external.as_str()) {
        return Err(DescriptorError::InsanePath(Chain::External));
    }
    if !passes_sanity_check(internal.as_str()) {
        return Err(DescriptorError::InsanePath(Chain::Internal));
    }
    Ok(
        BuiltDescriptor {
            multipath,
            external,
            internal,
            timelock_blocks: cfg.timelock_blocks,
            spk_index: None,
        },
    )
}

/// The output script of a descriptor at an index, where it has one.
pub open spec fn derived_script(desc: Seq<char>, index: u32) -> Option<Seq<u8>> {
    if !is_derivable(desc) {
        None
    } else {
        script_at_index(desc, index)
    }
}

/// The output script of a descriptor of a single path at `index`.
pub fn script_at(desc: &str, index: u32) -> (r: Result<Vec<u8>, DescriptorError>)
    ensures
        match r {
            Ok(script) => derived_script(desc@, index) == Some(script@),
            Err(e) => derived_script(desc@, index) is None && e == (DescriptorError::Derive {
                index,
            }),
        },
{
    if !can_derive(desc) {
        return Err(DescriptorError::Derive { index });
    }
    match script_pubkey(desc, index) {
        Some(script) => Ok(script),
        None => Err(DescriptorError::Derive { index }),
    }
}

/// The script behind the output script of a descriptor at an index, where it has one.
pub open spec fn derived_witness_script(desc: Seq<char>, index: u32) -> Option<Seq<u8>> {
    if !is_derivable(desc) {
        None
    } else {
        witness_script_at_index(desc, index)
    }
}

/// The script behind the output script of a descriptor of a single path at `index`.
pub fn witness_script_at(desc: &str, index: u32) -> (r: Result<Vec<u8>, DescriptorError>)
    ensures
        match r {
            Ok(script) => derived_witness_script(desc@, index) == Some(script@),
            Err(e) => derived_witness_script(desc@, index) is None && e == (
            DescriptorError::Derive { index }),
        },
{
    if !can_derive(desc) {
        return Err(DescriptorError::Derive { index });
    }
    match explicit_script(desc, index) {
        Some(script) => Ok(script),
        None => Err(DescriptorError::Derive { index }),
    }
}

/// The address of a descriptor of a single path at `index`.
pub fn address_at(desc: &str, index: u32, network: ChainNetwork) -> (r: Result<
    String,
    DescriptorError,
>)
    ensures
        match r {
            Ok(a) => is_derivable(desc@) && address_at_index(desc@, index, network) == Some(
                a@,
            ),
            Err(e) => (!is_derivable(desc@) || address_at_index(desc@, index, network) is None)
                && e == (DescriptorError::Derive { index }),
        },
{
    if !can_derive(desc) {
        return Err(DescriptorError::Derive { index });
    }
    match address_text(desc, index, network) {
        Some(a) => Ok(a),
        None => Err(DescriptorError::Derive { index }),
    }
}

/// The keys of a descriptor at an index, where they can be derived.
pub open spec fn derived_keys(desc: Seq<char>, index: u32) -> Option<Seq<(Seq<char>, Seq<u8>)>> {
    if !is_derivable(desc) {
        None
    } else {
        keys_at_index(desc, index)
    }
}

/// The keys of a descriptor of a single path at `index`, each with its key expression.
pub fn definite_keys(desc: &str, index: u32) -> (r: Result<Vec<DefiniteKey>, DescriptorError>)
    ensures
        match r {
            Ok(keys) => derived_keys(desc@, index) == Some(keys.deep_view()),
            Err(e) => derived_keys(desc@, index) is None && e == (DescriptorError::Derive {
                index,
            }),
        },
{
    if !can_derive(desc) {
        return Err(DescriptorError::Derive { index });
    }
    match keys_of(desc, index) {
        Some(keys) => Ok(keys),
        None => Err(DescriptorError::Derive { index }),
    }
}

/// Where the last entry for `script` says that it is.
closed spec fn last_entry(entries: Seq<ScriptEntry>, script: Seq<u8>) -> Option<Owned>
    decreases entries.len(),
{
    if entries.len() == 0 {
        None
    } else if entries.last().script@ == script {
        Some(entries.last().owned)
    } else {
        last_entry(entries.drop_last(), script)
    }
}

closed spec fn looked_up(map: Map<u64, Vec<ScriptEntry>>, script: Seq<u8>) -> Option<Owned> {
    if map.contains_key(digest(script)) {
        last_entry(map[digest(script)]@, script)
    } else {
        None
    }
}

/// The highest index below `n` at which the descriptor has the script.
pub open spec fn last_index(desc: Seq<char>, script: Seq<u8>, n: nat) -> Option<u32>
    decreases n,
{
    if n == 0 {
        None
    } else if derived_script(desc, (n - 1) as u32) == Some(script) {
        Some((n - 1) as u32)
    } else {
        last_index(desc, script, (n - 1) as nat)
    }
}

/// Where in the wallet a script is, up to a gap limit on each chain. One that is on both chains
/// counts as of the external chain.
pub open spec fn owner(
    wallet: BuiltDescriptor,
    script: Seq<u8>,
    gap_limit: u32,
) -> Option<Owned> {
    match last_index(wallet.external_text(), script, gap_limit as nat) {
        Some(index) => Some(Owned { chain: Chain::External, index }),
        None => match last_index(wallet.internal_text(), script, gap_limit as nat) {
            Some(index) => Some(Owned { chain: Chain::Internal, index }),
            None => None,
        },
    }
}

/// The lowest index below `n` at which the descriptor has no script.
pub open spec fn first_gap(desc: Seq<char>, n: nat) -> Option<u32>
    decreases n,
{
    if n == 0 {
        None
    } else {
        match first_gap(desc, (n - 1) as nat) {
            Some(i) => Some(i),
            None => if derived_script(desc, (n - 1) as u32) is None {
                Some((n - 1) as u32)
            } else {
                None
            },
        }
    }
}

/// The index at which the wallet's scripts cannot be derived, if there is one up to the limit: the
/// internal chain is derived first.
pub open spec fn underivable(wallet: BuiltDescriptor, gap_limit: u32) -> Option<u32> {
    match first_gap(wallet.internal_text(), gap_limit as nat) {
        Some(i) => Some(i),
        None => first_gap(wallet.external_text(), gap_limit as nat),
    }
}

fn add_entry(map: &mut HashMap<u64, Vec<ScriptEntry>>, script: Vec<u8>, owned: Owned)
    ensures
        forall|x: Seq<u8>| #[trigger]
            looked_up(final(map)@, x) == if x == script@ {
                Some(owned)
            } else {
                looked_up(old(map)@, x)
            },
{
    let key: u64 = digest_of(&script);
    let ghost added = script@;
    let mut bucket: Vec<ScriptEntry> = match map.remove(&key) {
        Some(b) => b,
        None => Vec::new(),
    };
    let ghost before = bucket@;
    bucket.push(ScriptEntry { script, owned });
    let ghost after = bucket@;
    assert(after.drop_last() =~= before);
    assert(after.last().script@ == added);
    map.insert(key, bucket);
    assert forall|x: Seq<u8>| #[trigger]
        looked_up(map@, x) == (if x == added {
            Some(owned)
        } else {
            looked_up(old(map)@, x)
        }) by {
        if digest(x) == key {
            assert(map@[key]@ == after);
            assert(last_entry(after, x) == if x == added {
                Some(owned)
            } else {
                last_entry(before, x)
            });
        }
    }
}

proof fn lemma_gap_stays(desc: Seq<char>, i: nat, n: nat)
    requires
        i <= n,
        first_gap(desc, i) is Some,
    ensures
        first_gap(desc, n) == first_gap(desc, i),
    decreases n,
{
    if i < n {
        lemma_gap_stays(desc, i, (n - 1) as nat);
    }
}

fn add_chain(
    map: &mut HashMap<u64, Vec<ScriptEntry>>,
    desc: &str,
    chain: Chain,
    gap_limit: u32,
) -> (r: Result<(), DescriptorError>)
    ensures
        match r {
            Ok(_) => first_gap(desc@, gap_limit as nat) is None && forall|x: Seq<u8>| #[trigger]
                looked_up(final(map)@, x) == match last_index(desc@, x, gap_limit as nat) {
                    Some(index) => Some(Owned { chain, index }),
                    None => looked_up(old(map)@, x),
                },
            Err(e) => first_gap(desc@, gap_limit as nat) is Some && e == (
            DescriptorError::Derive { index: first_gap(desc@, gap_limit as nat).unwrap() }),
        },
{
    let mut index: u32 = 0;
    while index < gap_limit
        invariant
            index <= gap_limit,
            first_gap(desc@, index as nat) is None,
            forall|x: Seq<u8>| #[trigger]
                looked_up(map@, x) == match last_index(desc@, x, index as nat) {
                    Some(index) => Some(Owned { chain, index }),
                    None => looked_up(old(map)@, x),
                },
        decreases gap_limit - index,
    {
        match script_at(desc, index) {
            Ok(script) => {
                add_entry(map, script, Owned { chain, index });
            },
            Err(e) => {
                proof {
                    lemma_gap_stays(desc@, (index + 1) as nat, gap_limit as nat);
                }
                return Err(e);
            },
        }
        index = index + 1;
    }
    Ok(())
}

/// Every script that the wallet has up to the gap limit. The external chain comes last, so that
/// its scripts count as its own.
fn build_script_index(wallet: &BuiltDescriptor, gap_limit: u32) -> (r: Result<
    ScriptIndex,
    DescriptorError,
>)
    ensures
        match r {
            Ok(index) => {
                &&& underivable(*wallet, gap_limit) is None
                &&& index.gap_limit == gap_limit
                &&& forall|script: Seq<u8>| #[trigger]
                    looked_up(index.by_digest@, script) == owner(*wallet, script, gap_limit)
            },
            Err(e) => underivable(*wallet, gap_limit) is Some && e == (DescriptorError::Derive {
                index: underivable(*wallet, gap_limit).unwrap(),
            }),
        },
{
    let mut by_digest: HashMap<u64, Vec<ScriptEntry>> = HashMap::new();
    assert forall|x: Seq<u8>| #[trigger] looked_up(by_digest@, x) is None by {}
    add_chain(&mut by_digest, wallet.internal.as_str(), Chain::Internal, gap_limit)?;
    add_chain(&mut by_digest, wallet.external.as_str(), Chain::External, gap_limit)?;
    Ok(ScriptIndex { gap_limit, by_digest })
}

fn look_up(index: &ScriptIndex, script: &Vec<u8>) -> (r: Option<Owned>)
    ensures
        r == looked_up(index.by_digest@, script@),
{
    match index.by_digest.get(&digest_of(script)) {
        None => None,
        Some(bucket) => {
            let mut i: usize = bucket.len();
            assert(bucket@.take(i as int) =~= bucket@);
            while i > 0
                invariant
                    i <= bucket.len(),
                    index.by_digest@.contains_key(digest(script@)),
                    *bucket == index.by_digest@[digest(script@)],
                    last_entry(bucket@, script@) == last_entry(bucket@.take(i as int), script@),
                decreases i,
            {
                let ghost upto = bucket@.take(i as int);
                assert(upto.last() == bucket@[i - 1]);
                assert(upto.drop_last() =~= bucket@.take(i - 1));
                i = i - 1;
                if same_bytes(bucket[i].script.as_slice(), script.as_slice()) {
                    return Some(bucket[i].owned);
                }
            }
            None
        },
    }
}

/// Where in the wallet the output script is, searching `gap_limit` indices of each chain. The
/// scripts are derived once for a gap limit and kept; asked with another limit, they are derived
/// anew, so that the answer is always that of the limit asked for.
pub fn find_owner(wallet: &mut BuiltDescriptor, target: &Vec<u8>, gap_limit: u32) -> (r: Result<
    Option<Owned>,
    DescriptorError,
>)
    ensures
        final(wallet).same_wallet(*old(wallet)),
        match r {
            Ok(owned) => underivable(*old(wallet), gap_limit) is None && owned == owner(
                *old(wallet),
                target@,
                gap_limit,
            ),
            Err(e) => underivable(*old(wallet), gap_limit) is Some && e == (
            DescriptorError::Derive { index: underivable(*old(wallet), gap_limit).unwrap() }),
        },
{
    proof {
        use_type_invariant(&*wallet);
    }
    let cached = match &wallet.spk_index {
        Some(index) => index.gap_limit == gap_limit,
        None => false,
    };
    if !cached {
        match build_script_index(wallet, gap_limit) {
            Ok(index) => {
                wallet.spk_index = Some(Arc::new(index));
                proof {
                    lemma_same_wallet_same_scripts(*wallet, *old(wallet), gap_limit);
                }
            },
            Err(e) => {
                return Err(e);
            },
        }
    }
    match &wallet.spk_index {
        Some(index) => {
            proof {
                lemma_same_wallet_same_scripts(*wallet, *old(wallet), gap_limit);
            }
            Ok(look_up(index, target))
        },
        None => Ok(None),
    }
}

impl Clone for BuiltDescriptor {
    /// The same wallet, with the scripts that were derived.
    fn clone(&self) -> (r: Self)
        ensures
            r.same_wallet(*self),
    {
        proof {
            use_type_invariant(self);
        }
        let spk_index = match &self.spk_index {
            Some(index) => Some(Arc::clone(index)),
            None => None,
        };
        let multipath = self.multipath.clone();
        let external = self.external.clone();
        let internal = self.internal.clone();
        proof {
            let copy = BuiltDescriptor {
                multipath,
                external,
                internal,
                timelock_blocks: self.timelock_blocks,
                spk_index,
            };
            if let Some(index) = copy.spk_index {
                lemma_same_wallet_same_scripts(copy, *self, index.gap_limit);
            }
        }
        BuiltDescriptor {
            multipath,
            external,
            internal,
            timelock_blocks: self.timelock_blocks,
            spk_index,
        }
    }
}

proof fn lemma_same_wallet_same_scripts(a: BuiltDescriptor, b: BuiltDescriptor, gap_limit: u32)
    requires
        a.same_wallet(b),
    ensures
        underivable(a, gap_limit) == underivable(b, gap_limit),
        forall|script: Seq<u8>| #[trigger] owner(a, script, gap_limit) == owner(b, script, gap_limit),
{
}

/// The extended key of a key expression, in its canonical text: what stands behind the origin and
/// before the first step.
pub open spec fn expression_xpub(expr: Seq<char>) -> Option<Seq<char>> {
    canonical_xpub(before_first(after_first(expr, ']'), '/'))
}

fn key_expr_xpub(expr: &str) -> (r: Option<String>)
    ensures
        match r {
            Some(x) => expression_xpub(expr@) == Some(x@),
            None => expression_xpub(expr@) is None,
        },
{
    xpub_text(until(behind(expr, ']'), '/'))
}

/// The first of the keys whose expression has the extended key.
pub open spec fn key_of_xpub(keys: Seq<(Seq<char>, Seq<u8>)>, xpub: Seq<char>) -> Option<Seq<u8>>
    decreases keys.len(),
{
    if keys.len() == 0 {
        None
    } else {
        match key_of_xpub(keys.drop_last(), xpub) {
            Some(k) => Some(k),
            None => if expression_xpub(keys.last().0) == Some(xpub) {
                Some(keys.last().1)
            } else {
                None
            },
        }
    }
}

proof fn lemma_first_key_stays(keys: Seq<(Seq<char>, Seq<u8>)>, n: int, xpub: Seq<char>)
    requires
        0 <= n <= keys.len(),
        key_of_xpub(keys.take(n), xpub) is Some,
    ensures
        key_of_xpub(keys, xpub) == key_of_xpub(keys.take(n), xpub),
    decreases keys.len(),
{
    if n < keys.len() {
        assert(keys.drop_last().take(n) =~= keys.take(n));
        lemma_first_key_stays(keys.drop_last(), n, xpub);
    } else {
        assert(keys.take(n) =~= keys);
    }
}

/// What picking a role's key comes to.
pub open spec fn role_key(
    keys: Seq<(Seq<char>, Seq<u8>)>,
    xpub: String,
) -> Result<Seq<u8>, DescriptorError> {
    match canonical_xpub(trimmed(xpub@)) {
        None => Err(DescriptorError::RoleKey { xpub }),
        Some(wanted) => match key_of_xpub(keys, wanted) {
            Some(k) => Ok(k),
            None => Err(DescriptorError::MissingRoleKey { xpub }),
        },
    }
}

/// The public key that was derived from the extended key `xpub`. Extended keys are compared as
/// keys, not as parts of a text.
pub fn find_role_key(keys: &Vec<DefiniteKey>, xpub: &String) -> (r: Result<
    Vec<u8>,
    DescriptorError,
>)
    ensures
        match r {
            Ok(k) => role_key(keys.deep_view(), *xpub) == Ok::<Seq<u8>, DescriptorError>(k@),
            Err(e) => role_key(keys.deep_view(), *xpub) == Err::<Seq<u8>, DescriptorError>(e),
        },
{
    let wanted = match xpub_text(trim(xpub.as_str())) {
        Some(x) => x,
        None => {
            return Err(DescriptorError::RoleKey { xpub: xpub.clone() });
        },
    };
    let ghost all = keys.deep_view();
    let mut i: usize = 0;
    while i < keys.len()
        invariant
            i <= keys.len(),
            all == keys.deep_view(),
            key_of_xpub(all.take(i as int), wanted@) is None,
            canonical_xpub(trimmed(xpub@)) == Some(wanted@),
        decreases keys.len() - i,
    {
        proof {
            assert(all.take(i + 1).drop_last() =~= all.take(i as int));
            assert(all.take(i + 1).last() == keys[i as int].deep_view());
        }
        if let Some(found) = key_expr_xpub(keys[i].expression.as_str()) {
            if same_text(found.as_str(), wanted.as_str()) {
                proof {
                    lemma_first_key_stays(all, i + 1, wanted@);
                }
                return Ok(keys[i].public_key.clone());
            }
        }
        i = i + 1;
    }
    assert(all.take(i as int) =~= all);
    Err(DescriptorError::MissingRoleKey { xpub: xpub.clone() })
}

/// The public keys of the three roles at one index.
#[derive(Clone, Debug)]
pub struct RoleKeys {
    pub hardware: Vec<u8>,
    pub server: Vec<u8>,
    pub mobile: Vec<u8>,
}

/// The public keys of the three roles: hardware, server, mobile.
pub open spec fn role_keys_of(
    wallet: BuiltDescriptor,
    cfg: WalletConfig,
    chain: Chain,
    index: u32,
) -> Result<(Seq<u8>, Seq<u8>, Seq<u8>), DescriptorError> {
    match derived_keys(wallet.of_chain(chain), index) {
        None => Err(DescriptorError::Derive { index }),
        Some(keys) => match role_key(keys, cfg.keys.satochip.xpub) {
            Err(e) => Err(e),
            Ok(hardware) => match role_key(keys, cfg.keys.server.xpub) {
                Err(e) => Err(e),
                Ok(server) => match role_key(keys, cfg.keys.mobile.xpub) {
                    Err(e) => Err(e),
                    Ok(mobile) => Ok((hardware, server, mobile)),
                },
            },
        },
    }
}

/// The public keys of the three roles at an index of a chain.
pub fn role_keys_at(wallet: &BuiltDescriptor, cfg: &WalletConfig, chain: Chain, index: u32) -> (r:
    Result<RoleKeys, DescriptorError>)
    ensures
        match r {
            Ok(k) => role_keys_of(*wallet, *cfg, chain, index) == Ok::<
                (Seq<u8>, Seq<u8>, Seq<u8>),
                DescriptorError,
            >((k.hardware@, k.server@, k.mobile@)),
            Err(e) => role_keys_of(*wallet, *cfg, chain, index) == Err::<
                (Seq<u8>, Seq<u8>, Seq<u8>),
                DescriptorError,
            >(e),
        },
{
    let keys: Vec<DefiniteKey> = definite_keys(wallet.chain(chain), index)?;
    let hardware: Vec<u8> = find_role_key(&keys, &cfg.keys.satochip.xpub)?;
    let server: Vec<u8> = find_role_key(&keys, &cfg.keys.server.xpub)?;
    let mobile: Vec<u8> = find_role_key(&keys, &cfg.keys.mobile.xpub)?;
    Ok(RoleKeys { hardware, server, mobile })
}

/// What reading a descriptor of unknown origin comes to: the descriptor itself, or, where it has
/// several paths, that of the first.
pub open spec fn parsed_descriptor(s: Seq<char>) -> Result<Seq<char>, DescriptorError> {
    match canonical_descriptor(trimmed(s)) {
        None => Err(DescriptorError::Parse),
        Some(d) => if !is_sane(d) {
            Err(DescriptorError::Insane)
        } else if !is_multipath(d) {
            Ok(d)
        } else {
            match single_paths(d) {
                None => Err(DescriptorError::Split),
                Some(singles) => if singles.len() == 0 {
                    Err(DescriptorError::PathCount(0))
                } else if !is_sane(singles[0]) {
                    Err(DescriptorError::InsanePath(Chain::External))
                } else {
                    Ok(singles[0])
                },
            }
        },
    }
}

/// Reads a descriptor of unknown origin. Of one with several paths, the first is taken: all of
/// them have the same keys and the same timelock.
pub fn parse_descriptor(s: &str) -> (r: Result<String, DescriptorError>)
    ensures
        match r {
            Ok(d) => parsed_descriptor(s@) == Ok::<Seq<char>, DescriptorError>(d@),
            Err(e) => parsed_descriptor(s@) == Err::<Seq<char>, DescriptorError>(e),
        },
{
    let desc = match parse_text(trim(s)) {
        Some(d) => d,
        None => {
            return Err(DescriptorError::Parse);
        },
    };
    if !passes_sanity_check(desc.as_str()) {
        return Err(DescriptorError::Insane);
    }
    if !has_multiple_paths(desc.as_str()) {
        return Ok(desc);
    }
    match split_paths(desc.as_str()) {
        None => Err(DescriptorError::Split),
        Some(singles) => {
            if singles.len() == 0 {
                return Err(DescriptorError::PathCount(0));
            }
            let external = singles[0].clone();
            assert(singles.deep_view()[0] == external@);
            if !passes_sanity_check(external.as_str()) {
                return Err(DescriptorError::InsanePath(Chain::External));
            }
            Ok(external)
        },
    }
}

/// A script is found within the limit that it is asked for, and only there: if it is found, it is
/// the script of the chain at the index given, and the index is below the limit; if it is not, it
/// is the script of no index below the limit on either chain.
pub proof fn law_an_owned_script_is_the_wallets(
    wallet: BuiltDescriptor,
    script: Seq<u8>,
    gap_limit: u32,
)
    ensures
        match owner(wallet, script, gap_limit) {
            Some(o) => o.index < gap_limit && derived_script(wallet.of_chain(o.chain), o.index)
                == Some(script),
            None => forall|chain: Chain, i: u32|
                i < gap_limit ==> #[trigger] derived_script(wallet.of_chain(chain), i) != Some(
                    script,
                ),
        },
{
    lemma_last_index(wallet.external_text(), script, gap_limit as nat);
    lemma_last_index(wallet.internal_text(), script, gap_limit as nat);
    assert forall|chain: Chain, i: u32|
        i < gap_limit && owner(wallet, script, gap_limit) is None implies #[trigger] derived_script(
        wallet.of_chain(chain),
        i,
    ) != Some(script) by {
        match chain {
            Chain::External => {},
            Chain::Internal => {},
        }
    }
}

/// A script that both chains have counts as of the external one.
pub proof fn law_the_external_chain_wins(
    wallet: BuiltDescriptor,
    script: Seq<u8>,
    gap_limit: u32,
    i: u32,
)
    requires
        i < gap_limit,
        derived_script(wallet.external_text(), i) == Some(script),
    ensures
        owner(wallet, script, gap_limit) matches Some(o) && o.chain == Chain::External,
{
    lemma_last_index(wallet.external_text(), script, gap_limit as nat);
}

proof fn lemma_last_index(desc: Seq<char>, script: Seq<u8>, n: nat)
    requires
        n <= u32::MAX,
    ensures
        match last_index(desc, script, n) {
            Some(i) => i < n && derived_script(desc, i) == Some(script),
            None => forall|i: u32| i < n ==> #[trigger] derived_script(desc, i) != Some(script),
        },
    decreases n,
{
    if n > 0 {
        lemma_last_index(desc, script, (n - 1) as nat);
    }
}

/// Of the indexes of a chain below the limit that have a script, the highest is the one that is taken.
pub proof fn law_the_highest_index_is_taken(desc: Seq<char>, script: Seq<u8>, n: nat, i: u32)
    requires
        n <= u32::MAX,
        i < n,
        derived_script(desc, i) == Some(script),
    ensures
        last_index(desc, script, n) matches Some(k) && i <= k < n && derived_script(desc, k)
            == Some(script),
    decreases n,
{
    if derived_script(desc, (n - 1) as u32) != Some(script) {
        law_the_highest_index_is_taken(desc, script, (n - 1) as nat, i);
    }
}

/// A wallet can be searched up to a limit exactly where both chains have a script at every index below it.
pub proof fn law_a_wallet_is_searched_where_every_index_has_a_script(
    wallet: BuiltDescriptor,
    gap_limit: u32,
)
    ensures
        underivable(wallet, gap_limit) is None <==> forall|chain: Chain, i: u32|
            i < gap_limit ==> #[trigger] derived_script(wallet.of_chain(chain), i) is Some,
{
    lemma_no_gap(wallet.internal_text(), gap_limit as nat);
    lemma_no_gap(wallet.external_text(), gap_limit as nat);
    if underivable(wallet, gap_limit) is None {
        assert forall|chain: Chain, i: u32| i < gap_limit implies #[trigger] derived_script(
            wallet.of_chain(chain),
            i,
        ) is Some by {
            match chain {
                Chain::External => {
                    assert(derived_script(wallet.external_text(), i) is Some);
                },
                Chain::Internal => {
                    assert(derived_script(wallet.internal_text(), i) is Some);
                },
            }
        }
    } else if first_gap(wallet.internal_text(), gap_limit as nat) is Some {
        let i = choose|i: u32|
            i < gap_limit && #[trigger] derived_script(wallet.internal_text(), i) is None;
        assert(derived_script(wallet.of_chain(Chain::Internal), i) is None);
    } else {
        let i = choose|i: u32|
            i < gap_limit && #[trigger] derived_script(wallet.external_text(), i) is None;
        assert(derived_script(wallet.of_chain(Chain::External), i) is None);
    }
}

proof fn lemma_no_gap(desc: Seq<char>, n: nat)
    requires
        n <= u32::MAX,
    ensures
        first_gap(desc, n) is None <==> forall|i: u32|
            i < n ==> #[trigger] derived_script(desc, i) is Some,
    decreases n,
{
    if n > 0 {
        lemma_no_gap(desc, (n - 1) as nat);
        let last = (n - 1) as u32;
        if first_gap(desc, n) is None {
            assert forall|i: u32| i < n implies #[trigger] derived_script(desc, i) is Some by {
                if i == n - 1 {
                    assert(i == last);
                }
            }
        } else if first_gap(desc, (n - 1) as nat) is Some {
            let i = choose|i: u32| i < n - 1 && #[trigger] derived_script(desc, i) is None;
            assert(derived_script(desc, i) is None);
        } else {
            assert(derived_script(desc, last) is None);
        }
    }
}

/// The key of a role is that of the first expression whose extended key is the role's, and there is none
/// exactly where no expression has it.
pub proof fn law_a_roles_key_is_that_of_its_extended_key(
    keys: Seq<(Seq<char>, Seq<u8>)>,
    xpub: Seq<char>,
)
    ensures
        match key_of_xpub(keys, xpub) {
            Some(k) => exists|i: int|
                0 <= i < keys.len() && expression_xpub((#[trigger] keys[i]).0) == Some(xpub)
                    && keys[i].1 == k && (forall|j: int|
                    0 <= j < i ==> expression_xpub((#[trigger] keys[j]).0) != Some(xpub)),
            None => forall|i: int|
                0 <= i < keys.len() ==> expression_xpub((#[trigger] keys[i]).0) != Some(xpub),
        },
    decreases keys.len(),
{
    if keys.len() > 0 {
        let less = keys.drop_last();
        law_a_roles_key_is_that_of_its_extended_key(less, xpub);
        assert(forall|i: int| 0 <= i < less.len() ==> less[i] == #[trigger] keys[i]);
        if key_of_xpub(less, xpub) is Some {
            let i = choose|i: int|
                0 <= i < less.len() && expression_xpub((#[trigger] less[i]).0) == Some(xpub)
                    && less[i].1 == key_of_xpub(less, xpub)->Some_0 && (forall|j: int|
                    0 <= j < i ==> expression_xpub((#[trigger] less[j]).0) != Some(xpub));
            assert(expression_xpub(keys[i].0) == Some(xpub));
            assert forall|j: int| 0 <= j < i implies expression_xpub((#[trigger] keys[j]).0)
                != Some(xpub) by {
                assert(expression_xpub(less[j].0) != Some(xpub));
            }
        } else if expression_xpub(keys.last().0) == Some(xpub) {
            let i = keys.len() - 1;
            assert(expression_xpub(keys[i].0) == Some(xpub));
            assert forall|j: int| 0 <= j < i implies expression_xpub((#[trigger] keys[j]).0)
                != Some(xpub) by {
                assert(expression_xpub(less[j].0) != Some(xpub));
            }
        } else {
            assert forall|i: int| 0 <= i < keys.len() implies expression_xpub(
                (#[trigger] keys[i]).0,
            ) != Some(xpub) by {
                if i < less.len() {
                    assert(expression_xpub(less[i].0) != Some(xpub));
                }
            }
        }
    }
}

/// The three keys of an index are those of the hardware's, the server's and the mobile's extended key, in
/// this order, on the chain that was asked for.
pub proof fn law_each_role_has_its_own_key(
    wallet: BuiltDescriptor,
    cfg: WalletConfig,
    chain: Chain,
    index: u32,
)
    ensures
        role_keys_of(wallet, cfg, chain, index) matches Ok((hardware, server, mobile)) ==> (
        derived_keys(
            if chain == Chain::External {
                wallet.external_text()
            } else {
                wallet.internal_text()
            },
            index,
        ) matches Some(keys) && {
            let key = |xpub: String, k: Seq<u8>|
                canonical_xpub(trimmed(xpub@)) matches Some(x) && key_of_xpub(keys, x) == Some(k);
            &&& key(cfg.keys.satochip.xpub, hardware)
            &&& key(cfg.keys.server.xpub, server)
            &&& key(cfg.keys.mobile.xpub, mobile)
        }),
{
}

/// A key's expression starts with its origin in brackets: the fingerprint and, where there is one, the
/// path; then comes the extended key, and then both chains and every index.
pub proof fn law_a_key_expression_is_origin_key_and_chains(key: KeySpec)
    requires
        derivation_steps(trimmed(key.derivation_path@)) is Some,
    ensures
        ({
            let text = key_expression_text(key);
            let steps = derivation_steps(trimmed(key.derivation_path@))->Some_0;
            let fp = lowercase(trimmed(key.master_fingerprint@));
            let head = "["@ + fp + (if steps.len() == 0 {
                ""@
            } else {
                "/"@ + path_text(steps)
            }) + "]"@;
            text == head + trimmed(key.xpub@) + "/<0;1>/*"@
        }),
{
    reveal_strlit("");
    let steps = derivation_steps(trimmed(key.derivation_path@))->Some_0;
    let fp = lowercase(trimmed(key.master_fingerprint@));
    if steps.len() == 0 {
        assert(fp + ""@ =~= fp);
        assert("["@ + fp + ""@ =~= "["@ + fp);
    } else {
        assert("["@ + fp + ("/"@ + path_text(steps)) =~= "["@ + (fp + "/"@ + path_text(steps)));
    }
}

/// The wallet is spent by two of three: the hardware's key, the server's key, and the mobile's key once the
/// timelock has passed. Each stands in its own place.
pub proof fn law_the_wallet_is_two_of_hardware_server_and_late_mobile(cfg: WalletConfig)
    ensures
        configured_policy(cfg) == "wsh(thresh(2,pk("@ + key_expression_text(cfg.keys.satochip)
            + "),s:pk("@ + key_expression_text(cfg.keys.server) + "),snj:and_v(v:pk("@
            + key_expression_text(cfg.keys.mobile) + "),older("@ + decimal(
            cfg.timelock_blocks as nat,
        ) + "))))"@,
{
}

/// A step of a path is written as its number, and a hardened one as what is above 2147483647, less one more
/// than that, with a mark behind it; steps are set apart by slashes.
pub proof fn law_a_hardened_step_has_a_mark(n: u32, steps: Seq<u32>, step: u32)
    requires
        n < 0x8000_0000,
        steps.len() > 0,
    ensures
        step_text(n) == decimal(n as nat),
        step_text((n + 0x8000_0000) as u32) == decimal(n as nat) + "'"@,
        path_text(seq![step]) == step_text(step),
        path_text(steps.push(step)) == path_text(steps) + "/"@ + step_text(step),
{
    let f = |s: u32| step_text(s);
    assert(seq![step].map_values(f) =~= seq![step_text(step)]);
    assert(steps.push(step).map_values(f) =~= steps.map_values(f).push(step_text(step)));
    assert(steps.push(step).map_values(f).drop_last() =~= steps.map_values(f));
}

/// A wallet is built exactly where its configuration passes, and its descriptor can be read, is of the kind
/// `wsh()`, is sane, and splits into two chains that are both sane.
pub proof fn law_a_wallet_is_built_where_both_chains_are_sane(cfg: WalletConfig)
    ensures
        build_error(cfg) is None <==> {
            &&& cfg.problem() is None
            &&& canonical_descriptor(configured_policy(cfg)) matches Some(d) && {
                &&& is_wsh(d)
                &&& is_sane(d)
                &&& single_paths(d) matches Some(singles) && singles.len() == 2 && is_sane(
                    singles[0],
                ) && is_sane(singles[1])
            }
        },
        cfg.problem() matches Some(e) ==> build_error(cfg) == Some(DescriptorError::Config(e)),
{
}

/// Of a built wallet, the first chain is for receiving and the second for change.
pub proof fn law_the_first_chain_receives(wallet: BuiltDescriptor, cfg: WalletConfig)
    requires
        build_error(cfg) is None,
        wallet.describes(cfg),
    ensures
        canonical_descriptor(configured_policy(cfg)) == Some(wallet.multipath_text()),
        single_paths(wallet.multipath_text()) matches Some(singles) && wallet.external_text()
            == singles[0] && wallet.internal_text() == singles[1],
        wallet.of_chain(Chain::External) == wallet.external_text(),
        wallet.of_chain(Chain::Internal) == wallet.internal_text(),
        wallet.timelock() == cfg.timelock_blocks,
{
}

/// A descriptor that is given is taken exactly where it can be read and is sane and, where it has several
/// chains, its first one is there and sane; what is taken is that first one.
pub proof fn law_a_given_descriptor_is_taken_where_it_is_sane(s: Seq<char>)
    ensures
        parsed_descriptor(s) is Ok <==> (canonical_descriptor(trimmed(s)) matches Some(d)
            && is_sane(d) && (is_multipath(d) ==> (single_paths(d) matches Some(singles)
            && singles.len() > 0 && is_sane(singles[0])))),
        parsed_descriptor(s) matches Ok(t) ==> (canonical_descriptor(trimmed(s)) matches Some(d)
            && if is_multipath(d) {
            single_paths(d) matches Some(singles) && t == singles[0]
        } else {
            t == d
        }),
{
}

/// The extended key of an expression is what stands between the origin and the first step behind it.
pub proof fn law_an_expressions_key_is_behind_its_origin(
    origin: Seq<char>,
    xpub: Seq<char>,
    rest: Seq<char>,
)
    requires
        !origin.contains(']'),
        !xpub.contains('/'),
    ensures
        expression_xpub(origin + seq![']'] + (xpub + seq!['/'] + rest)) == canonical_xpub(xpub),
{
    law_a_cut_text_is_put_together_again(origin, ']', xpub + seq!['/'] + rest);
    law_a_cut_text_is_put_together_again(xpub, '/', rest);
}

/// Every key of a descriptor can be derived exactly where no step is hardened and no key would be deeper
/// than 255 steps.
pub proof fn law_public_keys_are_derived_up_to_depth_255(shape: KeyShape)
    ensures
        shape_derives(shape) <==> !shape.hardened_step && !shape.hardened_wildcard && (
        if shape.wildcard {
            shape.depth + shape.steps < 255
        } else {
            shape.depth + shape.steps < 256
        }),
{
}

}
