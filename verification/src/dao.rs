use crate::account::{find_account, first_position, lemma_first_position_listed, AccountId};
use crate::error::Error;
use crate::events::{DaoInitiated, ProposalCreated, TokensDistributed, VoteCast};
use crate::laws::{
    law_creation_keeps_valid, law_distribution_keeps_valid, law_founding_is_valid,
    law_vote_keeps_valid, law_votes_fit,
};
use crate::model::DaoView;
use crate::proposal::{creation_allowed, outcome, Balance, Proposal, ProposalStatus, ProposalType};
use vstd::prelude::*;

verus! {

/// The organisation: its members, their balances and its proposals.
pub struct SimpleDao {
    members: Vec<AccountId>,
    /// The balance of `members[i]` at index `i`; for an identity that is
    /// listed more than once the slot of its first occurrence counts.
    member_tokens: Vec<Balance>,
    total_supply: Balance,
    /// Proposal number `n` at index `n - 1`.
    proposals: Vec<Proposal>,
    next_proposal_id: u32,
    voting_period: u64,
    min_votes_required: u32,
}

impl View for SimpleDao {
    type V = DaoView;

    closed spec fn view(&self) -> DaoView {
        DaoView {
            members: self.members@,
            balances: Map::new(
                |id: AccountId| self.members@.contains(id),
                |id: AccountId| self.member_tokens@[first_position(self.members@, id)->0],
            ),
            total_supply: self.total_supply,
            proposals: self.proposals@.map_values(|p: Proposal| p@),
            voting_period: self.voting_period,
            min_votes_required: self.min_votes_required,
        }
    }
}

impl SimpleDao {
    /// The invariant of the organisation: its content is valid and its
    /// tables are consistent with each other.
    pub closed spec fn well_formed(&self) -> bool {
        &&& self.member_tokens.len() == self.members.len()
        &&& self.next_proposal_id == self.proposals.len() + 1
        &&& self@.valid()
    }

    /// Whatever the operations of this type hand out is valid: a well-formed
    /// organisation has valid content.
    pub proof fn law_well_formed_is_valid(&self)
        requires
            self.well_formed(),
        ensures
            self@.valid(),
    {
    }

    /// Founds an organisation and splits `total_supply` evenly among
    /// `members`. An empty membership list is refused first, a voting period
    /// of zero second.
    ///
    /// Votes are counted in 32 bits, so the list must not be longer than such
    /// a count can tell.
    pub fn new(
        members: Vec<AccountId>,
        total_supply: Balance,
        voting_period: u64,
        min_votes_required: u32,
    ) -> (founded: Result<(SimpleDao, DaoInitiated), Error>)
        requires
            members.len() <= u32::MAX,
        ensures
            founded matches Ok((dao, announced)) ==> {
                &&& dao.well_formed()
                &&& dao@ == DaoView::founded(
                    members@,
                    total_supply,
                    voting_period,
                    min_votes_required,
                )
                &&& announced.members@ == members@
                &&& announced.total_supply == total_supply
            },
            founded matches Err(e) ==> e == (if members.len() == 0 {
                Error::EmptyMembers
            } else {
                Error::InvalidVotingPeriod
            }),
            founded is Ok <==> members.len() > 0 && voting_period > 0,
    {
        if members.len() == 0 {
            return Err(Error::EmptyMembers);
        }
        if voting_period == 0 {
            return Err(Error::InvalidVotingPeriod);
        }
        let share: Balance = total_supply / (members.len() as Balance);
        let member_tokens: Vec<Balance> = vec![share; members.len()];
        let announced = DaoInitiated { members: members.clone(), total_supply };
        assert(announced.members@ =~= members@);
        let dao = SimpleDao {
            members,
            member_tokens,
            total_supply,
            proposals: Vec::new(),
            next_proposal_id: 1,
            voting_period,
            min_votes_required,
        };
        proof {
            let model = DaoView::founded(
                members@,
                total_supply,
                voting_period,
                min_votes_required,
            );
            assert(dao@.balances =~= model.balances) by {
                assert forall|id: AccountId| members@.contains(id) implies (
                #[trigger] dao@.balances[id]) == share by {
                    lemma_first_position_listed(members@, id);
                }
            }
            assert(dao@.proposals =~= model.proposals);
            law_founding_is_valid(members@, total_supply, voting_period, min_votes_required);
        }
        Ok((dao, announced))
    }

    /// Hands `amount` new tokens to `recipient`, who must be a member. The
    /// supply grows by `amount`, and must stay within what a balance can hold.
    pub fn distribute_tokens(&mut self, recipient: AccountId, amount: Balance) -> (distributed:
        Result<TokensDistributed, Error>)
        requires
            old(self).well_formed(),
            old(self)@.members.contains(recipient) ==> old(self)@.total_supply + amount
                <= Balance::MAX,
        ensures
            final(self).well_formed(),
            distributed == old(self)@.distribution_result(recipient, amount),
            final(self)@ == old(self)@.after_distribution(recipient, amount),
    {
        let slot: usize = match find_account(&self.members, &recipient) {
            Some(slot) => slot,
            None => {
                return Err(Error::NotMember);
            },
        };
        let ghost before = self@;
        proof {
            law_distribution_keeps_valid(before, recipient, amount);
        }
        let balance: Balance = self.member_tokens[slot];
        self.member_tokens[slot] = balance + amount;
        self.total_supply = self.total_supply + amount;
        proof {
            let after = before.after_distribution(recipient, amount);
            assert(self@.balances =~= after.balances) by {
                assert forall|id: AccountId| self.members@.contains(id) implies (
                #[trigger] self@.balances[id]) == after.balances[id] by {
                    lemma_first_position_listed(self.members@, id);
                }
            }
            assert(self@.proposals =~= after.proposals);
        }
        Ok(TokensDistributed { recipient, amount })
    }

    /// The balance of `member`; zero for an identity that holds nothing.
    pub fn get_member_balance(&self, member: AccountId) -> (balance: Balance)
        requires
            self.well_formed(),
        ensures
            balance == self@.balance_of(member),
    {
        match find_account(&self.members, &member) {
            Some(slot) => self.member_tokens[slot],
            None => 0,
        }
    }

    /// The membership list, in the order given at the foundation.
    pub fn get_members(&self) -> (members: Vec<AccountId>)
        ensures
            members@ == self@.members,
    {
        let members = self.members.clone();
        assert(members@ =~= self.members@);
        members
    }

    /// The number of tokens in existence.
    pub fn get_total_supply(&self) -> (supply: Balance)
        ensures
            supply == self@.total_supply,
    {
        self.total_supply
    }

    /// The number of time units for which a proposal accepts votes.
    pub fn get_voting_period(&self) -> (period: u64)
        ensures
            period == self@.voting_period,
    {
        self.voting_period
    }

    /// The number of proposals created so far, which is also the number of
    /// the latest.
    pub fn get_proposal_count(&self) -> (count: u32)
        requires
            self.well_formed(),
        ensures
            count == self@.proposals.len(),
    {
        self.next_proposal_id - 1
    }

    /// Whether `account` is a member.
    pub fn is_member(&self, account: AccountId) -> (listed: bool)
        ensures
            listed == self@.members.contains(account),
    {
        find_account(&self.members, &account).is_some()
    }

    /// Creates a proposal in the name of `caller` at time `now` and announces
    /// it. The proposal gets the next unused number; a refused creation uses
    /// up none.
    ///
    /// For an admissible proposal the deadline must be a time that exists,
    /// and so must the number after the new proposal's.
    pub fn create_proposal(
        &mut self,
        caller: AccountId,
        name: String,
        description: String,
        proposal_type: ProposalType,
        options: Vec<String>,
        amount: Option<Balance>,
        now: u64,
    ) -> (created: Result<ProposalCreated, Error>)
        requires
            old(self).well_formed(),
            creation_allowed(proposal_type, options.len() as nat, amount) ==> {
                &&& old(self)@.proposals.len() + 1 < u32::MAX
                &&& now + old(self)@.voting_period <= u64::MAX
            },
        ensures
            final(self).well_formed(),
            created is Ok <==> creation_allowed(proposal_type, options.len() as nat, amount),
            created matches Ok(announced) ==> {
                &&& announced.proposal_id == old(self)@.proposals.len() + 1
                &&& announced.author == caller
                &&& announced.name@ == name@
            },
            created matches Err(e) ==> e == Error::InvalidProposalType,
            final(self)@ == old(self)@.after_creation(
                caller,
                name@,
                description@,
                proposal_type,
                options.deep_view(),
                amount,
                now,
            ),
    {
        let proposal_id: u32 = self.next_proposal_id;
        let announced_name = name.clone();
        let proposal = match Proposal::create(
            proposal_id,
            caller,
            name,
            description,
            proposal_type,
            options,
            amount,
            now,
            self.voting_period,
        ) {
            Ok(proposal) => proposal,
            Err(e) => {
                return Err(e);
            },
        };
        let ghost before = self@;
        self.proposals.push(proposal);
        self.next_proposal_id = proposal_id + 1;
        proof {
            let after = before.after_creation(
                caller,
                name@,
                description@,
                proposal_type,
                options.deep_view(),
                amount,
                now,
            );
            assert(self@.proposals =~= after.proposals);
            assert(self@.balances =~= after.balances);
            law_creation_keeps_valid(
                before,
                caller,
                name@,
                description@,
                proposal_type,
                options.deep_view(),
                amount,
                now,
            );
        }
        Ok(ProposalCreated { proposal_id, author: caller, name: announced_name })
    }

    /// Casts the vote of `caller` for `option` on proposal `proposal_id` at
    /// time `now`, and announces it if it was accepted. A vote that comes
    /// after the deadline is refused, and the proposal is stored as expired.
    pub fn vote(&mut self, caller: AccountId, proposal_id: u32, option: u32, now: u64) -> (cast:
        Result<VoteCast, Error>)
        requires
            old(self).well_formed(),
        ensures
            final(self).well_formed(),
            cast == old(self)@.vote_result(caller, proposal_id, option, now),
            final(self)@ == old(self)@.after_vote(caller, proposal_id, option, now),
    {
        if find_account(&self.members, &caller).is_none() {
            return Err(Error::NotMember);
        }
        if proposal_id == 0 || proposal_id >= self.next_proposal_id {
            return Err(Error::ProposalNotFound);
        }
        let index: usize = (proposal_id - 1) as usize;
        let min_votes: u32 = self.min_votes_required;
        let ghost before = self@;
        proof {
            assert(before.proposals[index as int] == self.proposals@[index as int]@);
            law_vote_keeps_valid(before, caller, proposal_id, option, now);
            if before.proposal(proposal_id).vote_check(caller, option, now) is Ok {
                law_votes_fit(before, caller, proposal_id);
            }
        }
        let cast = self.proposals[index].cast_vote(caller, option, now, min_votes);
        proof {
            let after = before.after_vote(caller, proposal_id, option, now);
            assert(self@.proposals =~= after.proposals);
            assert(self@.balances =~= after.balances);
        }
        match cast {
            Ok(_) => Ok(VoteCast { proposal_id, voter: caller, option }),
            Err(e) => Err(e),
        }
    }

    /// Reads proposal `proposal_id` at time `now`. An active proposal whose
    /// deadline has passed is reported as expired; the store is not touched.
    pub fn get_proposal(&self, proposal_id: u32, now: u64) -> (found: Result<Proposal, Error>)
        requires
            self.well_formed(),
        ensures
            found is Ok <==> self@.has_proposal(proposal_id),
            found matches Ok(proposal) ==> proposal@ == self@.proposal(proposal_id).read_at(now),
            found matches Err(e) ==> e == Error::ProposalNotFound,
    {
        if proposal_id == 0 || proposal_id >= self.next_proposal_id {
            return Err(Error::ProposalNotFound);
        }
        let stored = &self.proposals[(proposal_id - 1) as usize];
        let mut proposal = stored.clone();
        proposal.status = stored.status_at(now);
        Ok(proposal)
    }

    /// The numbers of the proposals that accept votes at time `now`, in
    /// ascending order.
    pub fn get_active_proposals(&self, now: u64) -> (active: Vec<u32>)
        requires
            self.well_formed(),
        ensures
            forall|id: u32| active@.contains(id) <==> self@.is_open(id, now),
            forall|i: int, j: int| 0 <= i < j < active.len() ==> active[i] < active[j],
            forall|i: int|
                0 <= i < active.len() ==> self@.has_proposal(#[trigger] active[i]) && now
                    <= self@.proposal(active[i]).voting_deadline,
    {
        let mut active: Vec<u32> = Vec::new();
        let mut id: u32 = 1;
        while id < self.next_proposal_id
            invariant
                self.well_formed(),
                1 <= id <= self.next_proposal_id,
                forall|x: u32| active@.contains(x) <==> x < id && self@.is_open(x, now),
                forall|i: int, j: int| 0 <= i < j < active.len() ==> active[i] < active[j],
                forall|i: int| 0 <= i < active.len() ==> active[i] < id,
            decreases self.next_proposal_id - id,
        {
            let proposal = &self.proposals[(id - 1) as usize];
            assert(proposal@ == self@.proposal(id));
            let ghost earlier = active@;
            if proposal.status == ProposalStatus::Active && now <= proposal.voting_deadline {
                active.push(id);
                assert forall|x: u32| active@.contains(x) <==> x < id + 1 && self@.is_open(
                    x,
                    now,
                ) by {
                    if active@.contains(x) {
                        let k = choose|k: int| 0 <= k < active@.len() && active@[k] == x;
                        if k < earlier.len() {
                            assert(earlier[k] == x);
                            assert(earlier.contains(x));
                        }
                    }
                    if x < id && self@.is_open(x, now) {
                        assert(earlier.contains(x));
                        let k = choose|k: int| 0 <= k < earlier.len() && earlier[k] == x;
                        assert(active@[k] == x);
                    }
                    if x == id {
                        assert(active@[earlier.len() as int] == x);
                    }
                }
            }
            id += 1;
        }
        assert forall|i: int| 0 <= i < active.len() implies self@.has_proposal(
            #[trigger] active[i],
        ) && now <= self@.proposal(active[i]).voting_deadline by {
            assert(active@.contains(active@[i]));
        }
        active
    }

    /// Gives `proposal` the status that its tally calls for under this
    /// organisation's minimum number of votes.
    pub fn update_proposal_status(&self, proposal: &mut Proposal)
        requires
            old(proposal)@.proposal_type == ProposalType::MoneyRequest ==> old(
                proposal,
            )@.votes.len() > 0,
        ensures
            final(proposal)@ == old(proposal)@.evaluated(self@.min_votes_required),
    {
        proposal.status = outcome(
            proposal.proposal_type,
            &proposal.votes,
            proposal.status,
            self.min_votes_required,
        );
    }
}

} // verus!
