//! A governance engine for a small organisation with a fixed membership.
//!
//! The engine keeps a token balance per member and runs proposals through a
//! time-bounded vote: a member votes at most once on a proposal, a vote that
//! comes after the deadline marks the proposal as expired, and every accepted
//! vote is followed by an evaluation of the outcome. Every operation takes the
//! caller's identity and the current logical time as plain arguments and hands
//! back, on success, the notification that announces the change; storing the
//! state, finding out who calls and what time it is, and sending the
//! notifications are left to whoever embeds the engine.
//!
//! - [`dao`] holds the engine itself, [`SimpleDao`], and [`model`] its
//!   mathematical content with the effect of each operation on it.
//! - [`proposal`] holds a single proposal: its creation, the vote on it and the
//!   evaluation of its outcome; [`tally`] the arithmetic of vote counts.
//! - [`account`] holds the identities, [`ledger`] the arithmetic of balances,
//!   [`events`] the notifications and [`error`] the refusals.
//! - [`laws`] states and proves what holds of the engine in every state.

pub mod account;
pub mod dao;
pub mod error;
pub mod events;
pub mod laws;
pub mod ledger;
pub mod model;
pub mod proposal;
pub mod tally;

pub use account::AccountId;
pub use dao::SimpleDao;
pub use error::Error;
pub use events::{DaoInitiated, ProposalCreated, TokensDistributed, VoteCast};
pub use model::DaoView;
pub use proposal::{Balance, Proposal, ProposalStatus, ProposalType, ProposalView};
