//! A tournament settlement ledger.
//!
//! The ledger admits participants who stake a deposit during a registration
//! phase, tracks a performance score for each participant while the
//! tournament is active, and on conclusion computes a ranked leaderboard and
//! a prize split for the top finishers.  Identity, payment collection and
//! fund transfer are the host's business: every operation takes the facts it
//! needs (who calls, what was paid, whether the caller holds administrative
//! authority) as plain values and reports what to pay as plain values.

pub mod errors;
pub mod model;
pub mod ranking;
pub mod payout;
pub mod ledger;

pub use crate::errors::TournamentError;
pub use crate::model::AgentEntry;
pub use crate::model::Phase;
pub use crate::ledger::Tournament;
pub use crate::payout::Payout;
