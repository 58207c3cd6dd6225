use simple_dao::{AccountId, Error, ProposalStatus, ProposalType, SimpleDao};

// Three members and somebody who is none.
fn create_accounts() -> (AccountId, AccountId, AccountId, AccountId) {
    let account1 = AccountId([1; 20]);
    let account2 = AccountId([2; 20]);
    let account3 = AccountId([3; 20]);
    let non_member = AccountId([4; 20]);
    (account1, account2, account3, non_member)
}

// The time at which everything in this file happens.
const NOW: u64 = 0;

fn found(
    members: Vec<AccountId>,
    total_supply: u128,
    voting_period: u64,
    min_votes_required: u32,
) -> SimpleDao {
    let (dao, _) =
        SimpleDao::new(members, total_supply, voting_period, min_votes_required).unwrap();
    dao
}

#[test]
fn test_dao_creation_with_1_member() {
    let (account1, _, _, _) = create_accounts();

    let dao = found(
        vec![account1],
        1000,
        10, // voting period
        1,  // min votes required
    );

    let members = dao.get_members();
    assert_eq!(members.len(), 1);
    assert_eq!(members[0], account1);

    assert_eq!(dao.get_member_balance(account1), 1000);
    assert_eq!(dao.get_total_supply(), 1000);

    assert!(dao.is_member(account1));
}

#[test]
fn test_dao_creation_with_2_members() {
    let (account1, account2, _, _) = create_accounts();

    let dao = found(
        vec![account1, account2],
        1000,
        10, // voting period
        1,  // min votes required
    );

    let members = dao.get_members();
    assert_eq!(members.len(), 2);
    assert!(members.contains(&account1));
    assert!(members.contains(&account2));

    // an equal split
    assert_eq!(dao.get_member_balance(account1), 500);
    assert_eq!(dao.get_member_balance(account2), 500);
    assert_eq!(dao.get_total_supply(), 1000);

    assert!(dao.is_member(account1));
    assert!(dao.is_member(account2));
}

#[test]
fn test_dao_creation_with_3_members() {
    let (account1, account2, account3, _) = create_accounts();

    let dao = found(
        vec![account1, account2, account3],
        1000,
        10, // voting period
        1,  // min votes required
    );

    let members = dao.get_members();
    assert_eq!(members.len(), 3);
    assert!(members.contains(&account1));
    assert!(members.contains(&account2));
    assert!(members.contains(&account3));

    // an equal split, rounded down
    assert_eq!(dao.get_member_balance(account1), 333);
    assert_eq!(dao.get_member_balance(account2), 333);
    assert_eq!(dao.get_member_balance(account3), 333);
    assert_eq!(dao.get_total_supply(), 1000);

    assert!(dao.is_member(account1));
    assert!(dao.is_member(account2));
    assert!(dao.is_member(account3));
}

#[test]
fn test_member_can_vote() {
    let (account1, _, _, _) = create_accounts();

    let mut dao = found(
        vec![account1],
        1000,
        10, // voting period
        1,  // min votes required
    );

    let proposal_id = dao
        .create_proposal(
            account1,
            "Test Proposal".to_string(),
            "A test proposal".to_string(),
            ProposalType::MultipleChoice,
            vec!["Option A".to_string(), "Option B".to_string()],
            None,
            NOW,
        )
        .unwrap()
        .proposal_id;

    let result = dao.vote(account1, proposal_id, 0, NOW);
    assert!(result.is_ok());

    let proposal = dao.get_proposal(proposal_id, NOW).unwrap();
    assert_eq!(proposal.votes[0], 1);
    assert_eq!(proposal.votes[1], 0);
    assert!(proposal.voted_members.contains(&account1));
}

#[test]
fn test_non_member_cannot_vote() {
    let (account1, _, _, non_member) = create_accounts();

    let mut dao = found(
        vec![account1],
        1000,
        10, // voting period
        1,  // min votes required
    );

    let proposal_id = dao
        .create_proposal(
            account1,
            "Test Proposal".to_string(),
            "A test proposal".to_string(),
            ProposalType::MultipleChoice,
            vec!["Option A".to_string(), "Option B".to_string()],
            None,
            NOW,
        )
        .unwrap()
        .proposal_id;

    let result = dao.vote(non_member, proposal_id, 0, NOW);
    assert_eq!(result, Err(Error::NotMember));

    let proposal = dao.get_proposal(proposal_id, NOW).unwrap();
    assert_eq!(proposal.votes[0], 0);
    assert_eq!(proposal.votes[1], 0);
    assert!(!proposal.voted_members.contains(&non_member));
}

#[test]
fn test_member_cannot_vote_twice() {
    let (account1, _, _, _) = create_accounts();

    let mut dao = found(
        vec![account1],
        1000,
        1000, // voting period
        1,    // min votes required
    );

    let proposal_id = dao
        .create_proposal(
            account1,
            "Test Proposal".to_string(),
            "A test proposal".to_string(),
            ProposalType::MultipleChoice,
            vec!["Option A".to_string(), "Option B".to_string()],
            None,
            NOW,
        )
        .unwrap()
        .proposal_id;

    let result1 = dao.vote(account1, proposal_id, 0, NOW);
    assert!(result1.is_ok());

    let result2 = dao.vote(account1, proposal_id, 1, NOW);
    assert_eq!(result2, Err(Error::AlreadyVoted));

    let proposal = dao.get_proposal(proposal_id, NOW).unwrap();
    assert_eq!(proposal.votes[0], 1);
    assert_eq!(proposal.votes[1], 0);
    assert_eq!(proposal.voted_members.len(), 1);
}

#[test]
fn test_invalid_vote_option() {
    let (account1, _, _, _) = create_accounts();

    let mut dao = found(
        vec![account1],
        1000,
        10, // voting period
        1,  // min votes required
    );

    let proposal_id = dao
        .create_proposal(
            account1,
            "Test Proposal".to_string(),
            "A test proposal".to_string(),
            ProposalType::MultipleChoice,
            vec!["Option A".to_string(), "Option B".to_string()],
            None,
            NOW,
        )
        .unwrap()
        .proposal_id;

    // there is no option 2
    let result = dao.vote(account1, proposal_id, 2, NOW);
    assert_eq!(result, Err(Error::InvalidOption));

    let proposal = dao.get_proposal(proposal_id, NOW).unwrap();
    assert_eq!(proposal.votes[0], 0);
    assert_eq!(proposal.votes[1], 0);
}

#[test]
fn test_money_request_proposal() {
    let (account1, _, _, _) = create_accounts();

    let mut dao = found(
        vec![account1],
        1000,
        10, // voting period
        1,  // min votes required
    );

    let proposal_id = dao
        .create_proposal(
            account1,
            "Fund Project".to_string(),
            "Request funding for development".to_string(),
            ProposalType::MoneyRequest,
            vec!["Approve funding".to_string()],
            Some(500),
            NOW,
        )
        .unwrap()
        .proposal_id;

    let result = dao.vote(account1, proposal_id, 0, NOW);
    assert!(result.is_ok());

    let proposal = dao.get_proposal(proposal_id, NOW).unwrap();
    assert_eq!(proposal.votes[0], 1);
    assert_eq!(proposal.amount, Some(500));
    assert_eq!(proposal.proposal_type, ProposalType::MoneyRequest);
}

#[test]
fn test_proposal_status_update() {
    let (account1, account2, _, _) = create_accounts();

    let mut dao = found(
        vec![account1, account2],
        1000,
        10, // voting period
        2,  // min votes required
    );

    let proposal_id = dao
        .create_proposal(
            account1,
            "Fund Project".to_string(),
            "Request funding".to_string(),
            ProposalType::MoneyRequest,
            vec!["Approve".to_string()],
            Some(500),
            NOW,
        )
        .unwrap()
        .proposal_id;

    // one vote is not enough yet
    dao.vote(account1, proposal_id, 0, NOW).unwrap();
    let proposal = dao.get_proposal(proposal_id, NOW).unwrap();
    assert_eq!(proposal.status, ProposalStatus::Active);

    // the second vote decides
    dao.vote(account2, proposal_id, 0, NOW).unwrap();
    let proposal = dao.get_proposal(proposal_id, NOW).unwrap();
    assert_eq!(proposal.status, ProposalStatus::Passed);
}
