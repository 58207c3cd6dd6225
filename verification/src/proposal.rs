use crate::account::{all_distinct, find_account, AccountId};
use crate::error::Error;
use crate::tally::{
    count_votes, leading_count, lemma_total_of_zeros, lemma_total_update, votes_max, votes_total,
};
use vstd::prelude::*;

verus! {

/// An amount of the organisation's token.
pub type Balance = u128;

/// What a proposal asks the members to decide.
#[derive(Debug, Clone, Copy, PartialEq, Eq, Structural)]
pub enum ProposalType {
    /// A choice among one or more labelled options.
    MultipleChoice,
    /// A request for funds, approved or not through its single option.
    MoneyRequest,
}

/// Where a proposal stands. Only `Active` can change; the other three are final.
#[derive(Debug, Clone, Copy, PartialEq, Eq, Structural)]
pub enum ProposalStatus {
    Active,
    Passed,
    Rejected,
    Expired,
}

/// A proposal as the store keeps it.
#[derive(Debug)]
pub struct Proposal {
    pub id: u32,
    pub name: String,
    pub description: String,
    pub author: AccountId,
    pub proposal_type: ProposalType,
    /// The option labels; a money request has exactly one.
    pub options: Vec<String>,
    /// The requested amount; present on a money request only.
    pub amount: Option<Balance>,
    /// Votes per option, in the order of `options`.
    pub votes: Vec<u32>,
    /// The members who have voted, each at most once.
    pub voted_members: Vec<AccountId>,
    pub status: ProposalStatus,
    pub created_at: u64,
    pub voting_deadline: u64,
}

/// The mathematical content of a [`Proposal`].
pub struct ProposalView {
    pub id: u32,
    pub name: Seq<char>,
    pub description: Seq<char>,
    pub author: AccountId,
    pub proposal_type: ProposalType,
    pub options: Seq<Seq<char>>,
    pub amount: Option<Balance>,
    pub votes: Seq<u32>,
    pub voted_members: Seq<AccountId>,
    pub status: ProposalStatus,
    pub created_at: u64,
    pub voting_deadline: u64,
}

impl View for Proposal {
    type V = ProposalView;

    open spec fn view(&self) -> ProposalView {
        ProposalView {
            id: self.id,
            name: self.name@,
            description: self.description@,
            author: self.author,
            proposal_type: self.proposal_type,
            options: self.options.deep_view(),
            amount: self.amount,
            votes: self.votes@,
            voted_members: self.voted_members@,
            status: self.status,
            created_at: self.created_at,
            voting_deadline: self.voting_deadline,
        }
    }
}

/// Whether a proposal of this kind may be created with `option_count` options
/// and the given amount: a multiple choice needs an option, a money request
/// exactly one option and an amount.
pub open spec fn creation_allowed(
    kind: ProposalType,
    option_count: nat,
    amount: Option<Balance>,
) -> bool {
    match kind {
        ProposalType::MultipleChoice => option_count > 0,
        ProposalType::MoneyRequest => amount is Some && option_count == 1,
    }
}

/// Decides whether a proposal of this kind may be created with
/// `option_count` options and the given amount.
pub fn admits(kind: ProposalType, option_count: usize, amount: Option<Balance>) -> (allowed: bool)
    ensures
        allowed == creation_allowed(kind, option_count as nat, amount),
{
    match kind {
        ProposalType::MultipleChoice => option_count > 0,
        ProposalType::MoneyRequest => amount.is_some() && option_count == 1,
    }
}

/// The status that a tally gives a proposal.
///
/// Nothing moves a proposal that is not `Active`, nor one with fewer than
/// `min_votes` votes. Beyond that a multiple choice passes once its leading
/// option holds more than half of the votes cast and waits otherwise; a money
/// request passes when its option holds more than half and is rejected
/// otherwise. Exactly half is not a majority.
pub open spec fn evaluate(
    kind: ProposalType,
    votes: Seq<u32>,
    status: ProposalStatus,
    min_votes: u32,
) -> ProposalStatus {
    let total = votes_total(votes);
    if status != ProposalStatus::Active || total < min_votes {
        status
    } else {
        match kind {
            ProposalType::MultipleChoice => if votes_max(votes) > total / 2 {
                ProposalStatus::Passed
            } else {
                ProposalStatus::Active
            },
            ProposalType::MoneyRequest => if votes[0] > total / 2 {
                ProposalStatus::Passed
            } else {
                ProposalStatus::Rejected
            },
        }
    }
}

/// Computes the status that the tally `votes` gives a proposal of kind `kind`
/// whose status is `status`.
pub fn outcome(
    kind: ProposalType,
    votes: &Vec<u32>,
    status: ProposalStatus,
    min_votes: u32,
) -> (next: ProposalStatus)
    requires
        kind == ProposalType::MoneyRequest ==> votes.len() > 0,
    ensures
        next == evaluate(kind, votes@, status, min_votes),
{
    if status != ProposalStatus::Active {
        return status;
    }
    let total: u128 = count_votes(votes);
    if total < min_votes as u128 {
        return status;
    }
    match kind {
        ProposalType::MultipleChoice => {
            let max: u32 = leading_count(votes);
            if max as u128 > total / 2 {
                ProposalStatus::Passed
            } else {
                ProposalStatus::Active
            }
        },
        ProposalType::MoneyRequest => {
            if votes[0] as u128 > total / 2 {
                ProposalStatus::Passed
            } else {
                ProposalStatus::Rejected
            }
        },
    }
}

impl ProposalView {
    /// What holds of every proposal in a store: there is at least one option,
    /// each option has its vote count, the amount goes with the kind, nobody
    /// is recorded as a voter twice, and every recorded voter accounts for
    /// exactly one vote.
    pub open spec fn valid(self) -> bool {
        &&& self.options.len() > 0
        &&& self.votes.len() == self.options.len()
        &&& creation_allowed(self.proposal_type, self.options.len(), self.amount)
        &&& self.proposal_type == ProposalType::MultipleChoice ==> self.amount is None
        &&& self.voted_members.no_duplicates()
        &&& votes_total(self.votes) == self.voted_members.len()
    }

    /// A proposal as it is created at time `now`: active, without votes, open
    /// until `now + voting_period`. The amount is kept on a money request only.
    pub open spec fn fresh(
        id: u32,
        author: AccountId,
        name: Seq<char>,
        description: Seq<char>,
        kind: ProposalType,
        options: Seq<Seq<char>>,
        amount: Option<Balance>,
        now: u64,
        voting_period: u64,
    ) -> ProposalView {
        ProposalView {
            id,
            name,
            description,
            author,
            proposal_type: kind,
            options,
            amount: if kind == ProposalType::MoneyRequest {
                amount
            } else {
                None
            },
            votes: Seq::new(options.len(), |i: int| 0u32),
            voted_members: Seq::empty(),
            status: ProposalStatus::Active,
            created_at: now,
            voting_deadline: (now + voting_period) as u64,
        }
    }

    /// The status as a reader sees it at time `now`: an active proposal whose
    /// deadline has passed counts as expired, whatever the store still holds.
    pub open spec fn status_at(self, now: u64) -> ProposalStatus {
        if self.status == ProposalStatus::Active && now > self.voting_deadline {
            ProposalStatus::Expired
        } else {
            self.status
        }
    }

    /// The proposal as a reader sees it at time `now`: the stored record with
    /// the status of that time.
    pub open spec fn read_at(self, now: u64) -> ProposalView {
        ProposalView { status: self.status_at(now), ..self }
    }

    /// Whether `voter` may vote for `option` at time `now`, and if not, why.
    /// A repeated vote is refused before the deadline is looked at.
    pub open spec fn vote_check(self, voter: AccountId, option: u32, now: u64) -> Result<
        (),
        Error,
    > {
        if self.voted_members.contains(voter) {
            Err(Error::AlreadyVoted)
        } else if self.status_at(now) != ProposalStatus::Active {
            Err(Error::ProposalExpired)
        } else if option >= self.options.len() {
            Err(Error::InvalidOption)
        } else {
            Ok(())
        }
    }

    /// The proposal with one more vote for `option`, cast by `voter`.
    pub open spec fn with_vote(self, voter: AccountId, option: u32) -> ProposalView {
        ProposalView {
            votes: self.votes.update(option as int, (self.votes[option as int] + 1) as u32),
            voted_members: self.voted_members.push(voter),
            ..self
        }
    }

    /// The proposal with the status that its tally gives it.
    pub open spec fn evaluated(self, min_votes: u32) -> ProposalView {
        ProposalView {
            status: evaluate(self.proposal_type, self.votes, self.status, min_votes),
            ..self
        }
    }

    /// The proposal as the store holds it after `voter` has tried to vote:
    /// an accepted vote is counted and the outcome evaluated; a vote that comes
    /// after the deadline marks an active proposal as expired; any other
    /// refusal leaves the proposal as it was.
    pub open spec fn after_vote(
        self,
        voter: AccountId,
        option: u32,
        now: u64,
        min_votes: u32,
    ) -> ProposalView {
        match self.vote_check(voter, option, now) {
            Ok(_) => self.with_vote(voter, option).evaluated(min_votes),
            Err(Error::ProposalExpired) => self.read_at(now),
            Err(_) => self,
        }
    }
}

impl Proposal {
    /// Creates proposal number `id` at time `now`, or refuses options and an
    /// amount that do not fit the kind.
    pub fn create(
        id: u32,
        author: AccountId,
        name: String,
        description: String,
        proposal_type: ProposalType,
        options: Vec<String>,
        amount: Option<Balance>,
        now: u64,
        voting_period: u64,
    ) -> (created: Result<Proposal, Error>)
        requires
            creation_allowed(proposal_type, options.len() as nat, amount) ==> now + voting_period
                <= u64::MAX,
        ensures
            created is Ok <==> creation_allowed(proposal_type, options.len() as nat, amount),
            created matches Ok(p) ==> p@ == ProposalView::fresh(
                id,
                author,
                name@,
                description@,
                proposal_type,
                options.deep_view(),
                amount,
                now,
                voting_period,
            ) && p@.valid(),
            created matches Err(e) ==> e == Error::InvalidProposalType,
    {
        if !admits(proposal_type, options.len(), amount) {
            return Err(Error::InvalidProposalType);
        }
        let kept: Option<Balance> = match proposal_type {
            ProposalType::MultipleChoice => None,
            ProposalType::MoneyRequest => amount,
        };
        let votes: Vec<u32> = vec![0u32; options.len()];
        let proposal = Proposal {
            id,
            name,
            description,
            author,
            proposal_type,
            options,
            amount: kept,
            votes,
            voted_members: Vec::new(),
            status: ProposalStatus::Active,
            created_at: now,
            voting_deadline: now + voting_period,
        };
        proof {
            assert(proposal.votes@ =~= Seq::new(proposal.options.deep_view().len(), |i: int| 0u32));
            lemma_total_of_zeros(proposal.votes@);
        }
        Ok(proposal)
    }

    /// Checks a record that comes from elsewhere against what holds of every
    /// stored proposal.
    pub fn is_valid(&self) -> (ok: bool)
        ensures
            ok == self@.valid(),
    {
        if self.options.len() == 0 || self.votes.len() != self.options.len() {
            return false;
        }
        let fits: bool = match self.proposal_type {
            ProposalType::MultipleChoice => self.amount.is_none(),
            ProposalType::MoneyRequest => self.amount.is_some() && self.options.len() == 1,
        };
        fits && all_distinct(&self.voted_members) && count_votes(&self.votes)
            == self.voted_members.len() as u128
    }

    /// The status of the proposal as read at time `now`; the record itself is
    /// not touched.
    pub fn status_at(&self, now: u64) -> (status: ProposalStatus)
        ensures
            status == self@.status_at(now),
    {
        if self.status == ProposalStatus::Active && now > self.voting_deadline {
            ProposalStatus::Expired
        } else {
            self.status
        }
    }

    /// Records the vote of `voter` for `option` at time `now`, if it is
    /// admissible, and evaluates the outcome against `min_votes_required`.
    pub fn cast_vote(
        &mut self,
        voter: AccountId,
        option: u32,
        now: u64,
        min_votes_required: u32,
    ) -> (cast: Result<(), Error>)
        requires
            old(self)@.valid(),
            old(self)@.vote_check(voter, option, now) is Ok ==> old(self)@.voted_members.len()
                < u32::MAX,
        ensures
            cast == old(self)@.vote_check(voter, option, now),
            final(self)@ == old(self)@.after_vote(voter, option, now, min_votes_required),
            final(self)@.valid(),
    {
        if find_account(&self.voted_members, &voter).is_some() {
            return Err(Error::AlreadyVoted);
        }
        let seen: ProposalStatus = self.status_at(now);
        if seen != ProposalStatus::Active {
            // what a reader would see is now what the record says
            self.status = seen;
            return Err(Error::ProposalExpired);
        }
        if option as usize >= self.options.len() {
            return Err(Error::InvalidOption);
        }
        let index: usize = option as usize;
        proof {
            lemma_total_update(self.votes@, index as int, (self.votes@[index as int] + 1) as u32);
        }
        let count: u32 = self.votes[index];
        self.votes[index] = count + 1;
        self.voted_members.push(voter);
        self.status = outcome(self.proposal_type, &self.votes, self.status, min_votes_required);
        Ok(())
    }
}

impl Clone for Proposal {
    /// A copy with the same content.
    fn clone(&self) -> (copy: Proposal)
        ensures
            copy@ == self@,
    {
        let options = self.options.clone();
        let votes = self.votes.clone();
        let voted_members = self.voted_members.clone();
        assert(options.deep_view() =~= self.options.deep_view());
        assert(votes@ =~= self.votes@);
        assert(voted_members@ =~= self.voted_members@);
        Proposal {
            id: self.id,
            name: self.name.clone(),
            description: self.description.clone(),
            author: self.author,
            proposal_type: self.proposal_type,
            options,
            amount: self.amount,
            votes,
            voted_members,
            status: self.status,
            created_at: self.created_at,
            voting_deadline: self.voting_deadline,
        }
    }
}

} // verus!
