use crate::account::AccountId;
use crate::error::Error;
use crate::events::{TokensDistributed, VoteCast};
use crate::ledger::{balance_of, equal_split, held_by};
use crate::proposal::{creation_allowed, Balance, ProposalStatus, ProposalType, ProposalView};
use vstd::prelude::*;

verus! {

/// The mathematical content of a [`SimpleDao`](crate::dao::SimpleDao).
pub struct DaoView {
    /// The membership list, as given at the foundation.
    pub members: Seq<AccountId>,
    /// The ledger: a balance for each member.
    pub balances: Map<AccountId, Balance>,
    pub total_supply: Balance,
    /// Every proposal ever created; number `n` stands at index `n - 1`.
    pub proposals: Seq<ProposalView>,
    pub voting_period: u64,
    pub min_votes_required: u32,
}

impl DaoView {
    /// The balance of `id`; zero for an identity without an entry.
    pub open spec fn balance_of(self, id: AccountId) -> Balance {
        balance_of(self.balances, id)
    }

    /// Whether a proposal carries the number `id`. Numbers start at one.
    pub open spec fn has_proposal(self, id: u32) -> bool {
        1 <= id <= self.proposals.len()
    }

    /// The proposal with the number `id`.
    pub open spec fn proposal(self, id: u32) -> ProposalView
        recommends
            self.has_proposal(id),
    {
        self.proposals[id - 1]
    }

    /// What holds of an organisation at all times.
    ///
    /// There is a member and a positive voting period. Exactly the members
    /// have a ledger entry, and no group of distinct holders holds more than
    /// the total supply. Proposals are numbered from one in the order of
    /// their creation; each is valid, closes one voting period after its
    /// creation and has only members among its voters. Vote counts and
    /// proposal numbers are 32 bits wide, so the members are few enough for
    /// each of them to be counted, and the proposals for the next number to
    /// exist.
    pub open spec fn valid(self) -> bool {
        &&& 0 < self.members.len() <= u32::MAX
        &&& self.voting_period > 0
        &&& forall|id: AccountId| self.balances.dom().contains(id) <==> self.members.contains(id)
        &&& forall|holders: Seq<AccountId>|
            holders.no_duplicates() ==> #[trigger] held_by(self.balances, holders)
                <= self.total_supply
        &&& self.proposals.len() < u32::MAX
        &&& forall|i: int|
            0 <= i < self.proposals.len() ==> {
                &&& (#[trigger] self.proposals[i]).valid()
                &&& self.proposals[i].id == i + 1
                &&& self.proposals[i].voting_deadline == self.proposals[i].created_at
                    + self.voting_period
                &&& forall|k: int|
                    0 <= k < self.proposals[i].voted_members.len() ==> self.members.contains(
                        #[trigger] self.proposals[i].voted_members[k],
                    )
            }
    }

    /// The organisation as it is founded: the supply is split evenly among
    /// the listed members, rounding down; what the division leaves over is
    /// held by nobody. There is no proposal yet.
    pub open spec fn founded(
        members: Seq<AccountId>,
        total_supply: Balance,
        voting_period: u64,
        min_votes_required: u32,
    ) -> DaoView {
        DaoView {
            members,
            balances: equal_split(members, total_supply),
            total_supply,
            proposals: Seq::empty(),
            voting_period,
            min_votes_required,
        }
    }

    /// What comes of handing `amount` tokens to `recipient`: the announcement
    /// for a member, a refusal for anybody else.
    pub open spec fn distribution_result(self, recipient: AccountId, amount: Balance) -> Result<
        TokensDistributed,
        Error,
    > {
        if self.members.contains(recipient) {
            Ok(TokensDistributed { recipient, amount })
        } else {
            Err(Error::NotMember)
        }
    }

    /// The organisation after `amount` tokens were handed to `recipient`:
    /// both the member's balance and the total supply grow by `amount`. For
    /// any other `recipient` nothing changes.
    pub open spec fn after_distribution(self, recipient: AccountId, amount: Balance) -> DaoView {
        if self.members.contains(recipient) {
            DaoView {
                balances: self.balances.insert(
                    recipient,
                    (self.balance_of(recipient) + amount) as Balance,
                ),
                total_supply: (self.total_supply + amount) as Balance,
                ..self
            }
        } else {
            self
        }
    }

    /// The organisation after an attempt to create a proposal at time `now`:
    /// an admissible proposal is appended under the next unused number; a
    /// refused one changes nothing, and uses up no number.
    pub open spec fn after_creation(
        self,
        author: AccountId,
        name: Seq<char>,
        description: Seq<char>,
        kind: ProposalType,
        options: Seq<Seq<char>>,
        amount: Option<Balance>,
        now: u64,
    ) -> DaoView {
        if creation_allowed(kind, options.len(), amount) {
            DaoView {
                proposals: self.proposals.push(
                    ProposalView::fresh(
                        (self.proposals.len() + 1) as u32,
                        author,
                        name,
                        description,
                        kind,
                        options,
                        amount,
                        now,
                        self.voting_period,
                    ),
                ),
                ..self
            }
        } else {
            self
        }
    }

    /// What comes of the vote of `caller` for `option` on proposal
    /// `proposal_id` at time `now`: the announcement, or the first refusal
    /// that applies. Membership is checked first, the proposal's existence
    /// second, and only then the proposal's own conditions.
    pub open spec fn vote_result(
        self,
        caller: AccountId,
        proposal_id: u32,
        option: u32,
        now: u64,
    ) -> Result<VoteCast, Error> {
        if !self.members.contains(caller) {
            Err(Error::NotMember)
        } else if !self.has_proposal(proposal_id) {
            Err(Error::ProposalNotFound)
        } else {
            match self.proposal(proposal_id).vote_check(caller, option, now) {
                Ok(_) => Ok(VoteCast { proposal_id, voter: caller, option }),
                Err(e) => Err(e),
            }
        }
    }

    /// The organisation after that attempt to vote. Only the proposal voted
    /// on can change, and only where a member votes on an existing proposal.
    pub open spec fn after_vote(
        self,
        caller: AccountId,
        proposal_id: u32,
        option: u32,
        now: u64,
    ) -> DaoView {
        if self.members.contains(caller) && self.has_proposal(proposal_id) {
            DaoView {
                proposals: self.proposals.update(
                    proposal_id - 1,
                    self.proposal(proposal_id).after_vote(
                        caller,
                        option,
                        now,
                        self.min_votes_required,
                    ),
                ),
                ..self
            }
        } else {
            self
        }
    }

    /// Whether proposal `id` exists and accepts votes at time `now`: the store
    /// holds it as active and its deadline has not passed.
    pub open spec fn is_open(self, id: u32, now: u64) -> bool {
        &&& self.has_proposal(id)
        &&& self.proposal(id).status == ProposalStatus::Active
        &&& now <= self.proposal(id).voting_deadline
    }
}

} // verus!
