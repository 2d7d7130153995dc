//! What extended public keys, derivation paths and addresses say, as the `bitcoin` crate reads
//! them.

use core::str::FromStr;

use vstd::prelude::*;

use crate::config::{ChainNetwork, NetworkKind};

verus! {

/// `bitcoin::Network`.
#[verifier::external_type_specification]
#[verifier::external_body]
pub struct ExNetwork(bitcoin::Network);

/// What the rules read of an extended public key.
#[derive(Clone, Copy, Debug, PartialEq, Eq, Structural)]
pub struct XpubInfo {
    /// How many derivation steps lie between the master key and this one.
    pub depth: u8,
    /// The kind of network that the version bytes are of.
    pub network: NetworkKind,
}

/// What an extended public key in Base58Check holds; nothing where the text is none.
pub uninterp spec fn xpub_info(s: Seq<char>) -> Option<XpubInfo>;

/// `<bitcoin::bip32::Xpub as FromStr>::from_str`, of which the depth and the network kind are
/// kept. What a text decodes to is named [`xpub_info`].
#[verifier::external_body]
pub(crate) fn parse_xpub(s: &str) -> (r: Option<XpubInfo>)
    ensures
        r == xpub_info(s@),
{
    let xpub = bitcoin::bip32::Xpub::from_str(s).ok()?;
    let network = match xpub.network {
        bitcoin::NetworkKind::Main => NetworkKind::Main,
        bitcoin::NetworkKind::Test => NetworkKind::Test,
    };
    Some(XpubInfo { depth: xpub.depth, network })
}

/// Why a text is no extended public key, in the words of who read it; nothing where it is one.
pub uninterp spec fn xpub_failure(s: Seq<char>) -> Option<Seq<char>>;

/// `<bitcoin::bip32::Xpub as FromStr>::from_str`, of which the error is kept, written out by `Display`.
/// It is named [`xpub_failure`].
#[verifier::external_body]
pub(crate) fn xpub_error(s: &str) -> (r: Option<String>)
    ensures
        match r {
            Some(e) => xpub_failure(s@) == Some(e@),
            None => xpub_failure(s@) is None,
        },
        (r is Some) == (xpub_info(s@) is None),
{
    Some(bitcoin::bip32::Xpub::from_str(s).err()?.to_string())
}

/// The canonical text of an extended public key; nothing where the text is none.
pub uninterp spec fn canonical_xpub(s: Seq<char>) -> Option<Seq<char>>;

/// `<bitcoin::bip32::Xpub as FromStr>::from_str`, written out by its `Display`, which is the same
/// text for the same key. It is named [`canonical_xpub`].
#[verifier::external_body]
pub(crate) fn xpub_text(s: &str) -> (r: Option<String>)
    ensures
        match r {
            Some(x) => canonical_xpub(s@) == Some(x@),
            None => canonical_xpub(s@) is None,
        },
{
    Some(bitcoin::bip32::Xpub::from_str(s).ok()?.to_string())
}

/// The child numbers of a BIP32 derivation path, hardened ones with the top bit set; nothing where
/// the text is no path.
pub uninterp spec fn derivation_steps(s: Seq<char>) -> Option<Seq<u32>>;

/// `<bitcoin::bip32::DerivationPath as FromStr>::from_str` followed by `to_u32_vec`. The steps of a
/// path are named [`derivation_steps`].
#[verifier::external_body]
pub(crate) fn parse_derivation_path(s: &str) -> (r: Option<Vec<u32>>)
    ensures
        match r {
            Some(steps) => derivation_steps(s@) == Some(steps@),
            None => derivation_steps(s@) is None,
        },
{
    Some(bitcoin::bip32::DerivationPath::from_str(s).ok()?.to_u32_vec())
}

/// Why a text is no derivation path, in the words of who read it; nothing where it is one.
pub uninterp spec fn derivation_failure(s: Seq<char>) -> Option<Seq<char>>;

/// `<bitcoin::bip32::DerivationPath as FromStr>::from_str`, of which the error is kept, written out by
/// `Display`.
/// It is named [`derivation_failure`].
#[verifier::external_body]
pub(crate) fn derivation_error(s: &str) -> (r: Option<String>)
    ensures
        match r {
            Some(e) => derivation_failure(s@) == Some(e@),
            None => derivation_failure(s@) is None,
        },
        (r is Some) == (derivation_steps(s@) is None),
{
    Some(bitcoin::bip32::DerivationPath::from_str(s).err()?.to_string())
}

/// The canonical spelling of an address; nothing where the text is no address of any network.
pub uninterp spec fn canonical_address(s: Seq<char>) -> Option<Seq<char>>;

/// `<bitcoin::Address<NetworkUnchecked> as FromStr>::from_str`, written out again by its
/// `Display`. The canonical spelling is named [`canonical_address`].
#[verifier::external_body]
pub(crate) fn parse_address(s: &str) -> (r: Option<String>)
    ensures
        match r {
            Some(a) => canonical_address(s@) == Some(a@),
            None => canonical_address(s@) is None,
        },
{
    Some(bitcoin::Address::from_str(s).ok()?.assume_checked().to_string())
}

/// Whether the address that a text spells is one of `network`.
pub uninterp spec fn address_is_for(s: Seq<char>, network: ChainNetwork) -> bool;

/// `bitcoin::Address::require_network` on the address that the text spells: whether it succeeds,
/// which is named [`address_is_for`]. A text that is no address is of no network.
#[verifier::external_body]
pub(crate) fn address_for_network(s: &str, network: ChainNetwork) -> (r: bool)
    ensures
        r == address_is_for(s@, network),
        r ==> canonical_address(s@) is Some,
{
    match bitcoin::Address::from_str(s) {
        Ok(a) => a.require_network(network.to_bitcoin_network()).is_ok(),
        Err(_) => false,
    }
}

/// The output script of an address; nothing where the text is none.
pub uninterp spec fn address_script(s: Seq<char>) -> Option<Seq<u8>>;

/// `bitcoin::Address::script_pubkey` of the address that the text spells. The script is named
/// [`address_script`].
#[verifier::external_body]
pub(crate) fn script_of_address(s: &str) -> (r: Option<Vec<u8>>)
    ensures
        match r {
            Some(script) => address_script(s@) == Some(script@),
            None => address_script(s@) is None,
        },
{
    let address = bitcoin::Address::from_str(s).ok()?.assume_checked();
    Some(address.script_pubkey().to_bytes())
}

/// The address of an output script on a network, where the script is of a standard kind.
pub uninterp spec fn script_address(script: Seq<u8>, network: ChainNetwork) -> Option<Seq<char>>;

/// `bitcoin::Address::from_script`, written out by its `Display`. The address is named
/// [`script_address`].
#[verifier::external_body]
pub(crate) fn address_of_script(script: &Vec<u8>, network: ChainNetwork) -> (r: Option<String>)
    ensures
        match r {
            Some(a) => script_address(script@, network) == Some(a@),
            None => script_address(script@, network) is None,
        },
{
    let script = bitcoin::Script::from_bytes(script.as_slice());
    Some(bitcoin::Address::from_script(script, network.to_bitcoin_network()).ok()?.to_string())
}

impl ChainNetwork {
    /// The same network as `bitcoin::Network`.
    #[verifier::external_body]
    pub fn to_bitcoin_network(self) -> bitcoin::Network {
        match self {
            ChainNetwork::Mainnet => bitcoin::Network::Bitcoin,
            ChainNetwork::Testnet => bitcoin::Network::Testnet,
            ChainNetwork::Signet => bitcoin::Network::Signet,
            ChainNetwork::Regtest => bitcoin::Network::Regtest,
        }
    }
}

}
