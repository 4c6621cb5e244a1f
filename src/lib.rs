//! Fetches every message of a mailbox over IMAP and saves each one to a file,
//! with a bounded number of connections at a time.
//!
//! The modules hold the logic, with no I/O of their own:
//! - `ranges` splits the mailbox into batches of message ids;
//! - `decoder` follows the answer to a fetch command byte by byte, telling
//!   status lines from the literal message bodies embedded among them;
//! - `session` reads lines and judges the answers to login and select, and
//!   spells out the commands;
//! - `worker` sequences one connection's exchange: greeting, login, select, fetch;
//! - `orchestrator` decides which batch runs when, under the connection limit,
//!   and sums up the outcomes;
//! - `input` checks the configuration the user supplies;
//! - `machine` runs a byte-driven state machine over input and holds the
//!   laws both the decoder and the session rest on;
//! - `text` holds byte-string searching and decimal numbers.
use vstd::prelude::*;

pub mod ranges;
pub mod text;
pub mod machine;
pub mod error_imap;
pub mod decoder;
pub mod session;
pub mod orchestrator;
pub mod input;
pub mod client;
pub mod worker;

verus! {

} // verus!
