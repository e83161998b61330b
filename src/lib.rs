//! An on-chain echo program: derived buffer accounts that only their
//! authority may write, with a fixed header and a zero-padded payload.

pub mod error;
pub mod state;
pub mod address;
pub mod processor;
pub mod instruction;
