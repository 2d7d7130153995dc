//! The rules of a three-key Bitcoin cosigner.
//!
//! A wallet is a 2-of-3 descriptor: a hardware key and a server key spend at any time, either of
//! them and a mobile key once a relative timelock has passed. The server key is held by a
//! service that signs only what its policy allows. This crate is the part of that service that
//! decides: what a configuration may say, what a transaction does, whether it may be signed, what
//! is recorded of it, and who may change the rules.
//!
//! What a function here does is stated in its contract, which is proved. Calls into other crates
//! stand behind functions whose contracts are stated and not proved; each says so in its
//! documentation.

pub mod byteset;
pub mod compat;
pub mod config;
pub mod descriptor;
pub mod http;
pub mod inspect;
pub mod interview;
pub mod invariants;
pub mod keys;
pub mod ledger;
pub mod migrate;
pub mod nostr_kit;
pub mod nostr_transport;
pub mod notify;
pub mod policy;
pub mod policy_auth;
pub mod psbt;
pub mod recovery_contacts;
pub mod recovery_kit;
pub mod setup;
pub mod sign;
pub mod signing;
pub mod status_page;
pub mod tables;
pub mod text;
pub mod wizard;
