//! Building and checking mint transactions for runes.
//!
//! The library resolves how much a mint yields, assembles the unfunded
//! transaction that carries the mint message, and checks that a signed
//! transaction still carries that message.

pub mod assemble;
pub mod error;
pub mod message;
pub mod mint;
pub mod mints;
pub mod name;
pub mod pipeline;
pub mod rune;
pub mod runestone;
pub mod schedule;
pub mod script;
pub mod sorted;
pub mod transaction;
pub mod trusted;
pub mod utxo;
pub mod varint;
