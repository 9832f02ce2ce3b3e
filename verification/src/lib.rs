//! Dictionary search for the preimage of a hash digest.
//!
//! A target digest is given as a hexadecimal string; each line of a wordlist,
//! with surrounding whitespace removed, is hashed and compared with it. The
//! first line whose digest equals the target is the answer.

pub mod algorithm;
pub mod cli;
pub mod config;
pub mod hexcode;
pub mod laws;
pub mod outcome;
pub mod scan;
pub mod target;
pub mod text;
