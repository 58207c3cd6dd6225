//! What holds of the engine whatever is asked of it, stated over its model.

use crate::account::{lemma_distinct_within, AccountId};
use crate::error::Error;
use crate::ledger::{
    balance_of, held_by, lemma_equal_split_within_supply, lemma_held_after_change,
    lemma_held_by_one,
};
use crate::model::DaoView;
use crate::proposal::{
    creation_allowed, evaluate, Balance, ProposalStatus, ProposalType, ProposalView,
};
use crate::tally::{lemma_total_of_zeros, lemma_total_update, votes_max, votes_total};
use vstd::prelude::*;

verus! {

/// Holders that each hold `share` hold `share` times their number together.
proof fn lemma_held_by_equals(
    balances: Map<AccountId, Balance>,
    holders: Seq<AccountId>,
    share: nat,
)
    requires
        forall|i: int|
            0 <= i < holders.len() ==> balance_of(balances, #[trigger] holders[i]) == share,
    ensures
        held_by(balances, holders) == share * holders.len(),
    decreases holders.len(),
{
    if holders.len() == 0 {
        assert(share * 0 == 0) by (nonlinear_arith);
    } else {
        let rest = holders.drop_last();
        assert forall|i: int| 0 <= i < rest.len() implies balance_of(balances, #[trigger] rest[i])
            == share by {
            assert(rest[i] == holders[i]);
        }
        lemma_held_by_equals(balances, rest, share);
        assert(balance_of(balances, holders[holders.len() - 1]) == share);
        assert(share * rest.len() + share == share * holders.len()) by (nonlinear_arith)
            requires
                rest.len() + 1 == holders.len(),
        ;
    }
}

/// An organisation is valid as it is founded.
pub proof fn law_founding_is_valid(
    members: Seq<AccountId>,
    total_supply: Balance,
    voting_period: u64,
    min_votes_required: u32,
)
    requires
        0 < members.len() <= u32::MAX,
        voting_period > 0,
    ensures
        DaoView::founded(members, total_supply, voting_period, min_votes_required).valid(),
{
    let dao = DaoView::founded(members, total_supply, voting_period, min_votes_required);
    assert forall|holders: Seq<AccountId>| holders.no_duplicates() implies #[trigger] held_by(
        dao.balances,
        holders,
    ) <= total_supply by {
        lemma_equal_split_within_supply(members, total_supply, holders);
    }
}

/// After the foundation the balances of any distinct holders sum to no more
/// than the total supply. Every member holds the supply divided by the
/// number of listed members, rounded down, and everybody else nothing; where
/// no member is listed twice the members together hold the supply less the
/// remainder of that division, which nobody holds.
pub proof fn law_founding_balances_within_supply(
    members: Seq<AccountId>,
    total_supply: Balance,
    voting_period: u64,
    min_votes_required: u32,
    holders: Seq<AccountId>,
)
    requires
        members.len() > 0,
        holders.no_duplicates(),
    ensures
        ({
            let dao = DaoView::founded(members, total_supply, voting_period, min_votes_required);
            &&& held_by(dao.balances, holders) <= total_supply
            &&& forall|id: AccountId|
                #[trigger] dao.balance_of(id) == if members.contains(id) {
                    total_supply as int / members.len() as int
                } else {
                    0
                }
            &&& members.no_duplicates() ==> held_by(dao.balances, members) == total_supply
                - total_supply as int % members.len() as int
        }),
{
    let dao = DaoView::founded(members, total_supply, voting_period, min_votes_required);
    let count = members.len() as int;
    let share = total_supply as int / count;
    lemma_equal_split_within_supply(members, total_supply, holders);
    assert(0 <= share <= total_supply && share * count == total_supply - total_supply as int
        % count) by (nonlinear_arith)
        requires
            share == total_supply as int / count,
            count > 0,
            total_supply >= 0,
    ;
    assert forall|id: AccountId| #[trigger] dao.balance_of(id) == if members.contains(id) {
        share
    } else {
        0
    } by {}
    assert forall|i: int| 0 <= i < members.len() implies balance_of(
        dao.balances,
        #[trigger] members[i],
    ) == share as nat by {
        assert(members.contains(members[i]));
    }
    lemma_held_by_equals(dao.balances, members, share as nat);
}

/// At all times the balances of any distinct holders sum to no more than the
/// total supply; in particular nobody holds more than the total supply, and
/// who is no member holds nothing.
pub proof fn law_holdings_within_supply(dao: DaoView, holders: Seq<AccountId>, id: AccountId)
    requires
        dao.valid(),
        holders.no_duplicates(),
    ensures
        held_by(dao.balances, holders) <= dao.total_supply,
        dao.balance_of(id) <= dao.total_supply,
        !dao.members.contains(id) ==> dao.balance_of(id) == 0,
{
    lemma_held_by_one(dao.balances, id);
    assert(seq![id].no_duplicates());
    assert(held_by(dao.balances, seq![id]) <= dao.total_supply);
}

/// Handing tokens to a member keeps the organisation valid, raises the total
/// supply by the amount and never lowers it; handing them to anybody else
/// changes nothing.
pub proof fn law_distribution_keeps_valid(dao: DaoView, recipient: AccountId, amount: Balance)
    requires
        dao.valid(),
        dao.members.contains(recipient) ==> dao.total_supply + amount <= Balance::MAX,
    ensures
        dao.after_distribution(recipient, amount).valid(),
        dao.after_distribution(recipient, amount).total_supply >= dao.total_supply,
        dao.balance_of(recipient) <= dao.total_supply,
        dao.members.contains(recipient) ==> dao.after_distribution(recipient, amount).balance_of(
            recipient,
        ) == dao.balance_of(recipient) + amount,
        !dao.members.contains(recipient) ==> {
            &&& dao.distribution_result(recipient, amount) matches Err(Error::NotMember)
            &&& dao.after_distribution(recipient, amount) == dao
        },
{
    let after = dao.after_distribution(recipient, amount);
    lemma_held_by_one(dao.balances, recipient);
    assert(seq![recipient].no_duplicates());
    assert(held_by(dao.balances, seq![recipient]) <= dao.total_supply);
    if dao.members.contains(recipient) {
        assert forall|holders: Seq<AccountId>| holders.no_duplicates() implies #[trigger] held_by(
            after.balances,
            holders,
        ) <= after.total_supply by {
            lemma_held_after_change(dao.balances, after.balances, holders, recipient);
            assert(held_by(dao.balances, holders) <= dao.total_supply);
        }
        assert forall|i: int| 0 <= i < after.proposals.len() implies (
        #[trigger] after.proposals[i]).valid() by {
            assert(dao.proposals[i].valid());
        }
    }
}

/// The leading count is the greatest of the counts: no option holds more,
/// some option holds exactly that many where there is an option at all, and
/// it never exceeds the number of votes cast.
pub proof fn law_leading_count_is_greatest(votes: Seq<u32>)
    ensures
        votes_max(votes) <= votes_total(votes),
        forall|i: int| 0 <= i < votes.len() ==> votes[i] as nat <= votes_max(votes),
        votes.len() > 0 ==> exists|i: int|
            0 <= i < votes.len() && votes[i] as nat == votes_max(votes),
    decreases votes.len(),
{
    if votes.len() > 0 {
        let rest = votes.drop_last();
        law_leading_count_is_greatest(rest);
        assert forall|i: int| 0 <= i < votes.len() implies votes[i] as nat <= votes_max(votes) by {
            if i < rest.len() {
                assert(rest[i] == votes[i]);
            }
        }
        if rest.len() > 0 && votes_max(rest) >= votes.last() as nat {
            let w = choose|i: int| 0 <= i < rest.len() && rest[i] as nat == votes_max(rest);
            assert(votes[w] as nat == votes_max(votes));
        } else {
            assert(votes[votes.len() - 1] as nat == votes_max(votes));
        }
    }
}

/// Only an active proposal changes its status under a tally: `Passed`,
/// `Rejected` and `Expired` are final. A multiple choice is never rejected
/// by its tally.
pub proof fn law_final_status_stays(
    kind: ProposalType,
    votes: Seq<u32>,
    status: ProposalStatus,
    min_votes: u32,
)
    ensures
        status != ProposalStatus::Active ==> evaluate(kind, votes, status, min_votes) == status,
        evaluate(kind, votes, status, min_votes) == ProposalStatus::Active ==> status
            == ProposalStatus::Active,
        evaluate(kind, votes, status, min_votes) == ProposalStatus::Expired ==> status
            == ProposalStatus::Expired,
        kind == ProposalType::MultipleChoice && status != ProposalStatus::Rejected ==> evaluate(
            kind,
            votes,
            status,
            min_votes,
        ) != ProposalStatus::Rejected,
{
}

/// An attempt to vote keeps a proposal valid and everything but its tally,
/// its voters and its status. Its status changes only if it was active, and
/// never back to active; nobody is removed from its voters.
pub proof fn law_proposal_vote_keeps_valid(
    proposal: ProposalView,
    voter: AccountId,
    option: u32,
    now: u64,
    min_votes: u32,
)
    requires
        proposal.valid(),
        proposal.vote_check(voter, option, now) is Ok ==> proposal.voted_members.len() < u32::MAX,
    ensures
        ({
            let after = proposal.after_vote(voter, option, now, min_votes);
            &&& after.valid()
            &&& after == ProposalView {
                votes: after.votes,
                voted_members: after.voted_members,
                status: after.status,
                ..proposal
            }
            &&& proposal.status != ProposalStatus::Active ==> after.status == proposal.status
            &&& after.status == ProposalStatus::Active ==> proposal.status == ProposalStatus::Active
            &&& forall|i: int|
                0 <= i < proposal.voted_members.len() ==> after.voted_members.contains(
                    #[trigger] proposal.voted_members[i],
                )
            &&& proposal.vote_check(voter, option, now) is Ok ==> {
                &&& after.voted_members == proposal.voted_members.push(voter)
                &&& after.votes[option as int] == proposal.votes[option as int] + 1
                &&& votes_total(after.votes) == votes_total(proposal.votes) + 1
            }
            &&& proposal.vote_check(voter, option, now) is Err ==> {
                &&& after.votes == proposal.votes
                &&& after.voted_members == proposal.voted_members
            }
        }),
{
    let after = proposal.after_vote(voter, option, now, min_votes);
    if proposal.vote_check(voter, option, now) is Ok {
        lemma_total_update(
            proposal.votes,
            option as int,
            (proposal.votes[option as int] + 1) as u32,
        );
    }
    assert forall|i: int|
        0 <= i < proposal.voted_members.len() implies after.voted_members.contains(
        #[trigger] proposal.voted_members[i],
    ) by {
        assert(after.voted_members[i] == proposal.voted_members[i]);
    }
}

/// In a valid organisation the vote of a member who has not voted yet can
/// always be counted: a proposal has fewer voters than there are members.
pub proof fn law_votes_fit(dao: DaoView, caller: AccountId, proposal_id: u32)
    requires
        dao.valid(),
        dao.members.contains(caller),
        dao.has_proposal(proposal_id),
        !dao.proposal(proposal_id).voted_members.contains(caller),
    ensures
        dao.proposal(proposal_id).voted_members.len() < dao.members.len(),
        votes_total(dao.proposal(proposal_id).votes) < u32::MAX,
{
    let record = dao.proposals[proposal_id - 1];
    assert(record.valid());
    let voters = record.voted_members.push(caller);
    assert forall|i: int| 0 <= i < voters.len() implies dao.members.contains(
        #[trigger] voters[i],
    ) by {
        if i < record.voted_members.len() {
            assert(voters[i] == record.voted_members[i]);
        }
    }
    assert(voters.no_duplicates());
    lemma_distinct_within(voters, dao.members);
}

/// An attempt to vote keeps the organisation valid. It touches neither the
/// members, the ledger nor any proposal but the one voted on, and removes
/// no proposal.
pub proof fn law_vote_keeps_valid(
    dao: DaoView,
    caller: AccountId,
    proposal_id: u32,
    option: u32,
    now: u64,
)
    requires
        dao.valid(),
    ensures
        ({
            let after = dao.after_vote(caller, proposal_id, option, now);
            &&& after.valid()
            &&& after == DaoView { proposals: after.proposals, ..dao }
            &&& after.proposals.len() == dao.proposals.len()
            &&& forall|i: int|
                0 <= i < dao.proposals.len() && i != proposal_id - 1 ==> after.proposals[i]
                    == dao.proposals[i]
        }),
{
    let after = dao.after_vote(caller, proposal_id, option, now);
    if dao.members.contains(caller) && dao.has_proposal(proposal_id) {
        let at = proposal_id - 1;
        let record = dao.proposals[at];
        assert(record.valid());
        if record.vote_check(caller, option, now) is Ok {
            law_votes_fit(dao, caller, proposal_id);
        }
        law_proposal_vote_keeps_valid(record, caller, option, now, dao.min_votes_required);
        assert forall|i: int| 0 <= i < after.proposals.len() implies {
            &&& (#[trigger] after.proposals[i]).valid()
            &&& after.proposals[i].id == i + 1
            &&& after.proposals[i].voting_deadline == after.proposals[i].created_at
                + after.voting_period
            &&& forall|k: int|
                0 <= k < after.proposals[i].voted_members.len() ==> after.members.contains(
                    #[trigger] after.proposals[i].voted_members[k],
                )
        } by {
            if i != at {
                assert(after.proposals[i] == dao.proposals[i]);
            } else {
                assert forall|k: int|
                    0 <= k < after.proposals[i].voted_members.len() implies after.members.contains(
                    #[trigger] after.proposals[i].voted_members[k],
                ) by {
                    if k < record.voted_members.len() {
                        assert(after.proposals[i].voted_members[k] == record.voted_members[k]);
                    }
                }
            }
        }
    }
}

/// A proposal that has been decided or has expired keeps its status,
/// whoever votes on whatever afterwards; no vote makes a proposal active.
pub proof fn law_status_is_final(
    dao: DaoView,
    proposal_id: u32,
    caller: AccountId,
    voted_on: u32,
    option: u32,
    now: u64,
)
    requires
        dao.valid(),
        dao.has_proposal(proposal_id),
    ensures
        ({
            let before = dao.proposal(proposal_id).status;
            let after = dao.after_vote(caller, voted_on, option, now).proposal(proposal_id).status;
            &&& before != ProposalStatus::Active ==> after == before
            &&& after == ProposalStatus::Active ==> before == ProposalStatus::Active
        }),
{
    if dao.members.contains(caller) && dao.has_proposal(voted_on) && voted_on == proposal_id {
        let record = dao.proposals[proposal_id - 1];
        assert(record.valid());
        if record.vote_check(caller, option, now) is Ok {
            law_votes_fit(dao, caller, proposal_id);
        }
        law_proposal_vote_keeps_valid(record, caller, option, now, dao.min_votes_required);
    }
}

/// A refused vote changes nothing, with one exception: a vote refused as
/// `ProposalExpired` leaves the proposal with the status that a reader sees
/// at that time, which is `Expired` where the proposal was still stored as
/// active.
pub proof fn law_refused_vote_keeps_state(
    dao: DaoView,
    caller: AccountId,
    proposal_id: u32,
    option: u32,
    now: u64,
)
    requires
        dao.vote_result(caller, proposal_id, option, now) is Err,
    ensures
        ({
            let after = dao.after_vote(caller, proposal_id, option, now);
            let refusal = dao.vote_result(caller, proposal_id, option, now)->Err_0;
            &&& refusal != Error::ProposalExpired ==> after == dao
            &&& refusal == Error::ProposalExpired ==> after == DaoView {
                proposals: dao.proposals.update(
                    proposal_id - 1,
                    dao.proposal(proposal_id).read_at(now),
                ),
                ..dao
            }
        }),
{
    let after = dao.after_vote(caller, proposal_id, option, now);
    if dao.members.contains(caller) && dao.has_proposal(proposal_id) {
        let refusal = dao.vote_result(caller, proposal_id, option, now)->Err_0;
        if refusal != Error::ProposalExpired {
            assert(after.proposals =~= dao.proposals);
        }
    }
}

/// A member votes at most once on a proposal: once a vote was accepted,
/// every further vote of the same member on that proposal is refused as
/// `AlreadyVoted`, whichever option it names and whenever it comes, and
/// changes nothing.
pub proof fn law_vote_at_most_once(
    dao: DaoView,
    caller: AccountId,
    proposal_id: u32,
    option: u32,
    now: u64,
    other_option: u32,
    later: u64,
)
    requires
        dao.vote_result(caller, proposal_id, option, now) is Ok,
    ensures
        ({
            let after = dao.after_vote(caller, proposal_id, option, now);
            &&& after.proposal(proposal_id).voted_members.contains(caller)
            &&& after.vote_result(caller, proposal_id, other_option, later) matches Err(
                Error::AlreadyVoted,
            )
            &&& after.after_vote(caller, proposal_id, other_option, later) == after
        }),
{
    let after = dao.after_vote(caller, proposal_id, option, now);
    let record = dao.proposal(proposal_id);
    let voters = record.voted_members.push(caller);
    assert(voters[record.voted_members.len() as int] == caller);
    assert(after.proposal(proposal_id).voted_members == voters);
    assert(after.after_vote(caller, proposal_id, other_option, later).proposals
        =~= after.proposals);
}

/// Whoever is recorded as a voter of a proposal is refused as
/// `AlreadyVoted` on it, and stays recorded whatever anybody votes.
pub proof fn law_recorded_voter_is_refused(
    dao: DaoView,
    voter: AccountId,
    proposal_id: u32,
    option: u32,
    now: u64,
    caller: AccountId,
    voted_on: u32,
    voted_for: u32,
    voted_at: u64,
)
    requires
        dao.valid(),
        dao.has_proposal(proposal_id),
        dao.proposal(proposal_id).voted_members.contains(voter),
    ensures
        dao.vote_result(voter, proposal_id, option, now) matches Err(Error::AlreadyVoted),
        dao.after_vote(caller, voted_on, voted_for, voted_at).proposal(
            proposal_id,
        ).voted_members.contains(voter),
{
    let record = dao.proposals[proposal_id - 1];
    let k = choose|k: int| 0 <= k < record.voted_members.len() && record.voted_members[k] == voter;
    assert(dao.members.contains(record.voted_members[k]));
    let after = dao.after_vote(caller, voted_on, voted_for, voted_at);
    if dao.members.contains(caller) && dao.has_proposal(voted_on) && voted_on == proposal_id {
        if record.vote_check(caller, voted_for, voted_at) is Ok {
            law_votes_fit(dao, caller, proposal_id);
        }
        law_proposal_vote_keeps_valid(
            record,
            caller,
            voted_for,
            voted_at,
            dao.min_votes_required,
        );
        assert(after.proposal(proposal_id).voted_members.contains(record.voted_members[k]));
    }
}

/// The vote of somebody who is not a member is refused as `NotMember` and
/// changes nothing: no tally, no list of voters, no status.
pub proof fn law_non_member_vote_changes_nothing(
    dao: DaoView,
    caller: AccountId,
    proposal_id: u32,
    option: u32,
    now: u64,
)
    requires
        !dao.members.contains(caller),
    ensures
        dao.vote_result(caller, proposal_id, option, now) matches Err(Error::NotMember),
        dao.after_vote(caller, proposal_id, option, now) == dao,
{
}

/// A vote for an option that the proposal does not have is refused and
/// leaves every tally as it was. The refusal is `InvalidOption` where a
/// member who has not voted yet names it before the proposal is closed; in
/// that case nothing changes at all.
pub proof fn law_invalid_option_leaves_votes(
    dao: DaoView,
    caller: AccountId,
    proposal_id: u32,
    option: u32,
    now: u64,
)
    requires
        dao.has_proposal(proposal_id),
        option >= dao.proposal(proposal_id).options.len(),
    ensures
        ({
            let after = dao.after_vote(caller, proposal_id, option, now);
            let record = dao.proposal(proposal_id);
            &&& dao.vote_result(caller, proposal_id, option, now) is Err
            &&& after.proposals.len() == dao.proposals.len()
            &&& forall|i: int|
                0 <= i < dao.proposals.len() ==> (#[trigger] after.proposals[i]).votes
                    == dao.proposals[i].votes
            &&& dao.members.contains(caller) && !record.voted_members.contains(caller)
                && record.status_at(now) == ProposalStatus::Active ==> {
                &&& dao.vote_result(caller, proposal_id, option, now) matches Err(
                    Error::InvalidOption,
                )
                &&& after == dao
            }
        }),
{
    let after = dao.after_vote(caller, proposal_id, option, now);
    let record = dao.proposal(proposal_id);
    if dao.members.contains(caller) && !record.voted_members.contains(caller) && record.status_at(
        now,
    ) == ProposalStatus::Active {
        assert(after.proposals =~= dao.proposals);
    }
}

/// A vote that comes after the deadline is never accepted. From a member
/// who has not voted on the proposal it is refused as `ProposalExpired`, and
/// a proposal that was still stored as active is stored as expired from the
/// first such vote on; its tally and its voters stay.
pub proof fn law_late_vote_expires(
    dao: DaoView,
    caller: AccountId,
    proposal_id: u32,
    option: u32,
    now: u64,
)
    requires
        dao.has_proposal(proposal_id),
        now > dao.proposal(proposal_id).voting_deadline,
    ensures
        ({
            let after = dao.after_vote(caller, proposal_id, option, now);
            let record = dao.proposal(proposal_id);
            &&& dao.vote_result(caller, proposal_id, option, now) is Err
            &&& dao.members.contains(caller) && !record.voted_members.contains(caller) ==> {
                &&& dao.vote_result(caller, proposal_id, option, now) matches Err(
                    Error::ProposalExpired,
                )
                &&& after.proposal(proposal_id) == ProposalView {
                    status: if record.status == ProposalStatus::Active {
                        ProposalStatus::Expired
                    } else {
                        record.status
                    },
                    ..record
                }
                &&& after.proposal(proposal_id).status != ProposalStatus::Active
            }
        }),
{
}

/// A proposal is created only with options and an amount that fit its kind.
/// A money request with more or fewer than one option, or without an amount,
/// and a multiple choice without options are refused, and a refused creation
/// changes nothing: the next proposal still gets the number that this one
/// would have got.
pub proof fn law_refused_creation_allocates_nothing(
    dao: DaoView,
    author: AccountId,
    name: Seq<char>,
    description: Seq<char>,
    kind: ProposalType,
    options: Seq<Seq<char>>,
    amount: Option<Balance>,
    now: u64,
)
    requires
        match kind {
            ProposalType::MoneyRequest => options.len() != 1 || amount is None,
            ProposalType::MultipleChoice => options.len() == 0,
        },
    ensures
        !creation_allowed(kind, options.len(), amount),
        dao.after_creation(author, name, description, kind, options, amount, now) == dao,
{
}

/// An accepted creation keeps the organisation valid, appends the proposal
/// under the number that follows all earlier ones and touches nothing else.
pub proof fn law_creation_keeps_valid(
    dao: DaoView,
    author: AccountId,
    name: Seq<char>,
    description: Seq<char>,
    kind: ProposalType,
    options: Seq<Seq<char>>,
    amount: Option<Balance>,
    now: u64,
)
    requires
        dao.valid(),
        creation_allowed(kind, options.len(), amount),
        dao.proposals.len() + 1 < u32::MAX,
        now + dao.voting_period <= u64::MAX,
    ensures
        ({
            let after = dao.after_creation(author, name, description, kind, options, amount, now);
            let number = (dao.proposals.len() + 1) as u32;
            &&& after.valid()
            &&& after == DaoView { proposals: after.proposals, ..dao }
            &&& after.proposals.len() == dao.proposals.len() + 1
            &&& forall|i: int|
                0 <= i < dao.proposals.len() ==> after.proposals[i] == dao.proposals[i]
                    && dao.proposals[i].id < number
            &&& !dao.has_proposal(number)
            &&& after.has_proposal(number)
            &&& after.proposal(number).id == number
            &&& after.proposal(number).status == ProposalStatus::Active
            &&& after.proposal(number).voting_deadline == now + dao.voting_period
            &&& votes_total(after.proposal(number).votes) == 0
        }),
{
    let after = dao.after_creation(author, name, description, kind, options, amount, now);
    let number = (dao.proposals.len() + 1) as u32;
    let created = after.proposals[dao.proposals.len() as int];
    lemma_total_of_zeros(created.votes);
    assert forall|i: int| 0 <= i < after.proposals.len() implies {
        &&& (#[trigger] after.proposals[i]).valid()
        &&& after.proposals[i].id == i + 1
        &&& after.proposals[i].voting_deadline == after.proposals[i].created_at
            + after.voting_period
        &&& forall|k: int|
            0 <= k < after.proposals[i].voted_members.len() ==> after.members.contains(
                #[trigger] after.proposals[i].voted_members[k],
            )
    } by {
        if i < dao.proposals.len() {
            assert(after.proposals[i] == dao.proposals[i]);
            assert(dao.proposals[i].valid());
        }
    }
    assert forall|i: int| 0 <= i < dao.proposals.len() implies after.proposals[i]
        == dao.proposals[i] && dao.proposals[i].id < number by {
        assert(dao.proposals[i].valid());
    }
}

/// A proposal that is listed as open at a time is stored as active and its
/// deadline has not passed at that time; a reader sees it as active.
pub proof fn law_open_is_before_deadline(dao: DaoView, id: u32, now: u64)
    requires
        dao.is_open(id, now),
    ensures
        now <= dao.proposal(id).voting_deadline,
        dao.proposal(id).status_at(now) == ProposalStatus::Active,
{
}

} // verus!
