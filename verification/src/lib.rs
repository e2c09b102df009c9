//! A dice-style betting contract ("over"/"under" a predicted number) with a
//! staking pool whose members own shares of the house capital.
//!
//! Storage, message encoding and the host's canonicalisation of addresses
//! live outside this crate. From what the host hands over, every decision
//! the contract makes, the draw of a bet included, is an executable function
//! with a contract proved by Verus; SHA-256 and the ChaCha20 generator are
//! called through trusted wrappers.

pub mod types;
pub mod hash;
pub mod draw;
pub mod state;
pub mod msg;
pub mod spec;
pub mod contract;
pub mod laws;
pub mod guard;
