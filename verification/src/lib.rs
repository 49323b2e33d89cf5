//! Writes a resolved contract, held as control-flow graphs of typed
//! instructions, as the text of a contract module for the CasperLabs runtime.
//!
//! `resolver` holds the contract as it comes in, `casperlabs` writes it out,
//! `number` holds the integers of any size that occur in it, and `text` the
//! handling of character sequences that the writing rests on.

pub mod casperlabs;
pub mod number;
pub mod resolver;
pub mod text;
