use vstd::prelude::*;

verus! {

/// Why an operation of the engine was refused.
#[derive(Debug, Clone, Copy, PartialEq, Eq, Structural)]
pub enum Error {
    /// The identity is not in the membership list.
    NotMember,
    /// No proposal carries the given identifier.
    ProposalNotFound,
    /// The proposal no longer accepts votes.
    ProposalExpired,
    /// The member has already voted on the proposal.
    AlreadyVoted,
    /// The option index is not one of the proposal's options.
    InvalidOption,
    /// The options or the amount do not fit the kind of proposal.
    InvalidProposalType,
    /// Reserved; no operation returns it.
    InsufficientBalance,
    /// An organisation needs at least one member.
    EmptyMembers,
    /// The voting period must be positive.
    InvalidVotingPeriod,
}

} // verus!
