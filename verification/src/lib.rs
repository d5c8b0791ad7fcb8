//! An in-memory, typed key-value store speaking the RESP wire format.
//!
//! The crate verifies the three core subsystems: the sharded key space with
//! typed values (strings, lists, sets), the RESP frame codec, and the
//! per-request dispatch pipeline.  Network plumbing lives outside the crate.

pub mod util;
pub mod num;
pub mod list;
pub mod strings;
pub mod members;
pub mod key;
pub mod value;
pub mod keymap;
pub mod slot;
pub mod database;
pub mod reply;
pub mod parse;
pub mod cmd;
pub mod service;
pub mod command;
pub mod laws;
