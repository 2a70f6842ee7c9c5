use quadratic_voting::pallet::Pallet;
use quadratic_voting::types::{
    Config, DispatchError, Error, GenesisConfig, VoteDirection, VotingPhases,
};

fn test_config() -> Config {
    Config {
        blocks_for_proposal_phase: 10,
        blocks_for_pre_voting_phase: 10,
        blocks_for_voting_phase: 10,
        blocks_for_post_voting_phase: 10,
        blocks_for_enactment_phase: 10,
        one_block: 1,
        max_proposals: 10,
        bond_for_voting_round: 1000,
        bond_for_proposal: 20,
        bond_for_voting: 1,
        max_votes: 1000,
        bucket_size: 5,
    }
}

fn new_test_ext() -> (Pallet, u64) {
    (GenesisConfig::default().build(test_config()), 0)
}

fn draw_for(block: u64) -> Vec<u8> {
    block.to_le_bytes().to_vec()
}

fn run_to_block(p: &mut Pallet, current: &mut u64, n: u64) {
    while *current < n {
        *current += 1;
        p.on_initialize(*current, &draw_for(*current));
    }
}

#[test]
fn can_create_the_first_voting_round() {
    let (mut p, current) = new_test_ext();
    assert!(p.start_voting_round(1, true, true, current).is_ok());
    assert_eq!(p.latest_voting_round(), Some(1u32));
}

#[test]
fn should_not_transition_to_pre_voting_prematurely() {
    let (mut p, mut current) = new_test_ext();
    assert!(p.start_voting_round(1, true, true, current).is_ok());
    assert_eq!(p.latest_voting_round(), Some(1u32));
    run_to_block(&mut p, &mut current, 10 - 1);
    assert_eq!(p.voting_rounds(1u32).unwrap().phase, VotingPhases::Proposal);
}

#[test]
fn should_transition_to_pre_voting() {
    let (mut p, mut current) = new_test_ext();
    assert!(p.start_voting_round(1, true, true, current).is_ok());
    assert_eq!(p.latest_voting_round(), Some(1u32));
    run_to_block(&mut p, &mut current, 10);
    assert_eq!(p.voting_rounds(1u32).unwrap().phase, VotingPhases::PreVoting);
}

#[test]
fn should_allow_proposal_creation() {
    let (mut p, current) = new_test_ext();
    assert!(p.start_voting_round(1, true, true, current).is_ok());
    assert!(p.submit_proposal(1, true, true).is_ok());
    assert!(p.proposals_for_voting_round(1u32).is_some());
}

#[test]
fn should_not_allow_proposal_creation_by_anon() {
    let (mut p, current) = new_test_ext();
    assert!(p.start_voting_round(1, true, true, current).is_ok());
    assert_eq!(
        p.submit_proposal(1, false, true),
        Err(DispatchError::Module(Error::IdentityNotFound)),
    );
}

#[test]
fn should_allow_multiple_proposal_creation() {
    let (mut p, current) = new_test_ext();
    assert!(p.start_voting_round(1, true, true, current).is_ok());
    for _ in 0..test_config().max_proposals - 1 {
        assert!(p.submit_proposal(1, true, true).is_ok());
    }
    assert!(p.proposals_for_voting_round(1u32).is_some());
}

#[test]
fn should_not_allow_proposal_creation_during_pre_voting() {
    let (mut p, mut current) = new_test_ext();
    assert!(p.start_voting_round(1, true, true, current).is_ok());
    run_to_block(&mut p, &mut current, 10);
    assert_eq!(
        p.submit_proposal(1, true, true),
        Err(DispatchError::Module(Error::CanCallOnlyDuringProposalPhase)),
    );
}

#[test]
fn should_throw_if_proposal_count_overflows() {
    let (mut p, current) = new_test_ext();
    assert!(p.start_voting_round(1, true, true, current).is_ok());
    for _ in 0..test_config().max_proposals {
        assert!(p.submit_proposal(1, true, true).is_ok());
    }
    assert_eq!(
        p.submit_proposal(1, true, true),
        Err(DispatchError::Module(Error::StorageOverflow)),
    );
}

#[test]
fn should_shuffle_on_pre_voting_start() {
    let (mut p, mut current) = new_test_ext();
    assert!(p.start_voting_round(1, true, true, current).is_ok());
    for i in 0..test_config().max_proposals {
        let origin = (i % 2) + 1;
        assert!(p.submit_proposal(origin as u64, true, true).is_ok());
    }

    // A second system fed the identical calls and randomness draws must land
    // on the identical shuffled order: the shuffle is seeded, not ambient.
    let (mut q, mut q_current) = new_test_ext();
    assert!(q.start_voting_round(1, true, true, q_current).is_ok());
    for i in 0..test_config().max_proposals {
        let origin = (i % 2) + 1;
        assert!(q.submit_proposal(origin as u64, true, true).is_ok());
    }

    run_to_block(&mut p, &mut current, 10);
    run_to_block(&mut q, &mut q_current, 10);

    let proposals = p.proposals_for_voting_round(1u32).unwrap();
    let proposals_q = q.proposals_for_voting_round(1u32).unwrap();
    assert_eq!(proposals.len(), 10);

    let order: Vec<u64> = proposals.iter().map(|pr| pr.initializer).collect();
    let order_q: Vec<u64> = proposals_q.iter().map(|pr| pr.initializer).collect();
    assert_eq!(order, order_q);

    // The shuffle permutes: the submitters survive with their multiplicities.
    assert_eq!(order.iter().filter(|&&a| a == 1).count(), 5);
    assert_eq!(order.iter().filter(|&&a| a == 2).count(), 5);

    // Every shuffled position carries its bucket.
    for (i, pr) in proposals.iter().enumerate() {
        assert_eq!(pr.bucket_id, Some(5 % (i as u32 + 1)));
    }
}

#[test]
fn should_not_allow_voter_registration_by_anon() {
    let (mut p, mut current) = new_test_ext();
    assert!(p.start_voting_round(1, true, true, current).is_ok());
    for i in 0..test_config().max_proposals {
        let origin = (i % 2) + 1;
        assert!(p.submit_proposal(origin as u64, true, true).is_ok());
    }
    run_to_block(&mut p, &mut current, 10);
    assert_eq!(
        p.register_to_vote(3, false, true, 0, 1),
        Err(DispatchError::Module(Error::IdentityNotFound)),
    );
}

#[test]
fn should_not_allow_invalid_bucket_id() {
    let (mut p, mut current) = new_test_ext();
    assert!(p.start_voting_round(1, true, true, current).is_ok());
    for i in 0..test_config().max_proposals {
        let origin = (i % 2) + 1;
        assert!(p.submit_proposal(origin as u64, true, true).is_ok());
    }
    run_to_block(&mut p, &mut current, 10);
    assert_eq!(
        p.register_to_vote(1, true, true, 6, 1),
        Err(DispatchError::Module(Error::InvalidBucketId)),
    );
}

#[test]
fn should_not_allow_voter_registration_during_other_phases() {
    let (mut p, mut current) = new_test_ext();
    assert!(p.start_voting_round(1, true, true, current).is_ok());
    for i in 0..test_config().max_proposals {
        let origin = (i % 2) + 1;
        assert!(p.submit_proposal(origin as u64, true, true).is_ok());
    }
    run_to_block(&mut p, &mut current, 10 - 1);
    assert_eq!(
        p.register_to_vote(1, true, true, 3, 1),
        Err(DispatchError::Module(Error::CanCallOnlyDuringPreVotingPhase)),
    );
}

#[test]
fn should_allow_voter_registration() {
    let (mut p, mut current) = new_test_ext();
    assert!(p.start_voting_round(1, true, true, current).is_ok());
    for i in 0..test_config().max_proposals {
        let origin = (i % 2) + 1;
        assert!(p.submit_proposal(origin as u64, true, true).is_ok());
    }
    run_to_block(&mut p, &mut current, 10);
    assert!(p.register_to_vote(1, true, true, 3, 1).is_ok());
    assert!(p.register_to_vote(2, true, true, 2, 1).is_ok());
    assert_eq!(p.voters_for_bucket(1u32, 3, 1), Some((1, 1)));
    assert_eq!(p.voters_for_bucket(1u32, 2, 2), Some((1, 1)));
}

#[test]
fn should_transition_to_voting() {
    let (mut p, mut current) = new_test_ext();
    assert!(p.start_voting_round(1, true, true, current).is_ok());
    for i in 0..test_config().max_proposals {
        let origin = (i % 2) + 1;
        assert!(p.submit_proposal(origin as u64, true, true).is_ok());
    }
    run_to_block(&mut p, &mut current, 10);
    assert!(p.register_to_vote(1, true, true, 3, 1).is_ok());
    assert!(p.register_to_vote(2, true, true, 2, 1).is_ok());
    assert_eq!(p.voters_for_bucket(1u32, 3, 1), Some((1, 1)));
    assert_eq!(p.voters_for_bucket(1u32, 2, 2), Some((1, 1)));
    run_to_block(&mut p, &mut current, 10 + 10 + 1);
    assert_eq!(p.voting_rounds(1u32).unwrap().phase, VotingPhases::Voting);
}

#[test]
fn should_throw_when_attempting_to_register_when_no_proposals_exist() {
    let (mut p, mut current) = new_test_ext();
    assert!(p.start_voting_round(1, true, true, current).is_ok());
    run_to_block(&mut p, &mut current, 10);
    assert_eq!(
        p.register_to_vote(1, true, true, 3, 1),
        Err(DispatchError::Module(Error::NoProposals)),
    );
}

#[test]
fn should_throw_when_voter_has_no_bond() {
    let (mut p, mut current) = new_test_ext();
    assert!(p.start_voting_round(1, true, true, current).is_ok());
    for i in 0..test_config().max_proposals {
        let origin = (i % 2) + 1;
        assert!(p.submit_proposal(origin as u64, true, true).is_ok());
    }
    run_to_block(&mut p, &mut current, 10);
    assert!(p.register_to_vote(1, true, true, 3, 1).is_ok());
    assert!(p.register_to_vote(2, true, true, 2, 1).is_ok());
    run_to_block(&mut p, &mut current, 10 + 10 + 1);
    // Proposal 0 sits in bucket 5 % 1 = 0, where nobody registered.
    assert_eq!(
        p.vote(1, 0, 1, VoteDirection::Aye),
        Err(DispatchError::Module(Error::NoTokensBonded)),
    );
}

#[test]
fn should_throw_when_voter_attempts_to_vote_more_than_bond() {
    let (mut p, mut current) = new_test_ext();
    assert!(p.start_voting_round(1, true, true, current).is_ok());
    for i in 0..test_config().max_proposals {
        let origin = (i % 2) + 1;
        assert!(p.submit_proposal(origin as u64, true, true).is_ok());
    }
    run_to_block(&mut p, &mut current, 10);
    assert!(p.register_to_vote(1, true, true, 3, 1).is_ok());
    assert!(p.register_to_vote(2, true, true, 2, 1).is_ok());
    run_to_block(&mut p, &mut current, 10 + 10 + 1);
    // Proposal 2 sits in bucket 5 % 3 = 2; account 2 bonded only 1 there.
    assert_eq!(
        p.vote(2, 2, 4, VoteDirection::Aye),
        Err(DispatchError::Module(Error::CannotVoteMoreThanBond)),
    );
}

#[test]
fn should_allow_vote() {
    let (mut p, mut current) = new_test_ext();
    assert!(p.start_voting_round(1, true, true, current).is_ok());
    for i in 0..test_config().max_proposals {
        let origin = (i % 2) + 1;
        assert!(p.submit_proposal(origin as u64, true, true).is_ok());
    }
    run_to_block(&mut p, &mut current, 10);
    assert!(p.register_to_vote(1, true, true, 3, 1).is_ok());
    assert!(p.register_to_vote(2, true, true, 2, 1).is_ok());
    run_to_block(&mut p, &mut current, 10 + 10 + 1);
    assert!(p.vote(2, 2, 1, VoteDirection::Aye).is_ok());
    assert_eq!(p.voters_for_bucket(1u32, 2, 2).unwrap(), (1, 0));
    assert_eq!(p.voters_voted_on_proposal(1u32, 2, 2).unwrap(), ());
    assert_eq!(p.proposals_for_voting_round(1u32).unwrap()[2].ayes[0], 1);
}
