use crate::account::AccountId;
use crate::proposal::Balance;
use vstd::prelude::*;

verus! {

/// Announces that an organisation was founded.
#[derive(Debug, PartialEq, Eq)]
pub struct DaoInitiated {
    pub members: Vec<AccountId>,
    pub total_supply: Balance,
}

/// Announces a new proposal.
#[derive(Debug, PartialEq, Eq)]
pub struct ProposalCreated {
    pub proposal_id: u32,
    pub author: AccountId,
    pub name: String,
}

/// Announces an accepted vote.
#[derive(Debug, Clone, Copy, PartialEq, Eq)]
pub struct VoteCast {
    pub proposal_id: u32,
    pub voter: AccountId,
    pub option: u32,
}

/// Announces tokens handed to a member.
#[derive(Debug, Clone, Copy, PartialEq, Eq)]
pub struct TokensDistributed {
    pub recipient: AccountId,
    pub amount: Balance,
}

} // verus!
