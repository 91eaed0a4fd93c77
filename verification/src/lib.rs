//! Verified core of the Adytum deployment tool: bundle chunking, transaction
//! manifest text, configuration precedence, wallet-response decoding, and the
//! on-chain bundle and registry state machines.

pub mod text;
pub mod manifest;
pub mod bundle;
pub mod archive;
pub mod config;
pub mod json;
pub mod wallet;
pub mod ipfs;
pub mod sealing;
pub mod deploy;
pub mod commands;
pub mod ootle;
pub mod assoc;
pub mod dapp_bundle;
pub mod dapp_registry;
