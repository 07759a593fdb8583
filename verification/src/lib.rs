//! The transaction core of a lottery that runs on a ledger.
//!
//! A round is opened, sells tickets, gets its winning numbers from a
//! randomness source, pays its winners and is empty again. Each of these
//! steps is one operation on a few fixed-size records. The core decodes the
//! request, checks the records it names and answers with what has to happen:
//! the effects that the host must carry out and the new contents of the
//! records. It refuses a request at the first check that fails.
//!
//! - [`state`]: the three records and their byte layouts.
//! - [`instruction`]: the wire format of the requests, and builders for them.
//! - [`account`]: the records as an operation sees them, and its answer.
//! - [`effect`]: what an operation asks the host to do.
//! - [`processor`]: the five operations.
//! - [`rewards`]: tiers and payouts.
//! - [`numbers`]: the ranges of ticket numbers and the draw.
//! - [`token`]: the loyalty token's base units.
//! - [`laws`]: what holds of the operations taken together.

pub mod account;
pub mod codec;
pub mod effect;
pub mod error;
pub mod instruction;
pub mod laws;
pub mod numbers;
pub mod processor;
pub mod program_ids;
pub mod pubkey;
pub mod rewards;
pub mod state;
pub mod token;
