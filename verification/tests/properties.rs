use quadratic_voting::pallet::{Pallet, get_vote_from_bond, make_voting_round_metadata};
use quadratic_voting::types::{
    Config, DispatchError, Error, Event, GenesisConfig, VoteDirection, VotingPhases,
};

fn test_config() -> Config {
    Config {
        blocks_for_proposal_phase: 10,
        blocks_for_pre_voting_phase: 10,
        blocks_for_voting_phase: 10,
        blocks_for_post_voting_phase: 10,
        blocks_for_enactment_phase: 10,
        one_block: 1,
        max_proposals: 10,
        bond_for_voting_round: 1000,
        bond_for_proposal: 20,
        bond_for_voting: 1,
        max_votes: 1000,
        bucket_size: 5,
    }
}

fn new_test_ext() -> (Pallet, u64) {
    (GenesisConfig::default().build(test_config()), 0)
}

fn draw_for(block: u64) -> Vec<u8> {
    block.to_le_bytes().to_vec()
}

fn run_to_block(p: &mut Pallet, current: &mut u64, n: u64) {
    while *current < n {
        *current += 1;
        p.on_initialize(*current, &draw_for(*current));
    }
}

#[test]
fn scenario_round_starts_at_block_one_and_buckets_at_eleven() {
    let mut p = GenesisConfig::default().build(test_config());
    let mut current: u64 = 1;
    assert!(p.start_voting_round(1, true, true, current).is_ok());
    assert_eq!(p.latest_voting_round(), Some(1));
    assert_eq!(p.voting_rounds(1).unwrap().phase, VotingPhases::Proposal);
    for who in [1u64, 2, 3] {
        assert!(p.submit_proposal(who, true, true).is_ok());
    }
    run_to_block(&mut p, &mut current, 11);
    assert_eq!(p.voting_rounds(1).unwrap().phase, VotingPhases::PreVoting);
    let proposals = p.proposals_for_voting_round(1).unwrap();
    assert_eq!(proposals.len(), 3);
    for (i, pr) in proposals.iter().enumerate() {
        assert!(pr.bucket_id.is_some());
        assert_eq!(pr.bucket_id, Some(5 % (i as u32 + 1)));
        assert!(pr.ayes.is_empty());
        assert!(pr.nays.is_empty());
    }
}

#[test]
fn scenario_unit_bond_vote_then_double_vote_rejected() {
    let (mut p, mut current) = new_test_ext();
    assert!(p.start_voting_round(1, true, true, current).is_ok());
    for who in [1u64, 2, 3] {
        assert!(p.submit_proposal(who, true, true).is_ok());
    }
    run_to_block(&mut p, &mut current, 10);
    // Proposal 2 sits in bucket 5 % 3 = 2; the voter bonds 1 there.
    assert!(p.register_to_vote(7, true, true, 2, 1).is_ok());
    run_to_block(&mut p, &mut current, 21);
    assert!(p.vote(7, 2, 1, VoteDirection::Aye).is_ok());
    assert_eq!(p.proposals_for_voting_round(1).unwrap()[2].ayes, vec![1]);
    assert_eq!(p.voters_for_bucket(1, 2, 7), Some((1, 0)));
    assert_eq!(p.voters_voted(1, 2), Some(vec![7]));
    assert_eq!(p.voters_voted(1, 0), None);
    assert_eq!(
        p.vote(7, 2, 1, VoteDirection::Aye),
        Err(DispatchError::Module(Error::VoterHasVotedForThisProposal)),
    );
    // The tallies still reflect only the first vote.
    assert_eq!(p.proposals_for_voting_round(1).unwrap()[2].ayes, vec![1]);
}

#[test]
fn scenario_amount_four_costs_its_square_root() {
    let (mut p, mut current) = new_test_ext();
    assert!(p.start_voting_round(1, true, true, current).is_ok());
    for who in [1u64, 2, 3] {
        assert!(p.submit_proposal(who, true, true).is_ok());
    }
    run_to_block(&mut p, &mut current, 10);
    assert!(p.register_to_vote(7, true, true, 2, 4).is_ok());
    run_to_block(&mut p, &mut current, 21);
    assert!(p.vote(7, 2, 4, VoteDirection::Aye).is_ok());
    // Weight recorded is sqrt(4) = 2, and the remaining bond drops by that
    // same 2, not by the 4 supplied.
    assert_eq!(p.proposals_for_voting_round(1).unwrap()[2].ayes, vec![2]);
    assert_eq!(p.voters_for_bucket(1, 2, 7), Some((4, 2)));
}

#[test]
fn budget_rejection_leaves_remaining_bond_unchanged() {
    let (mut p, mut current) = new_test_ext();
    assert!(p.start_voting_round(1, true, true, current).is_ok());
    for who in [1u64, 2, 3] {
        assert!(p.submit_proposal(who, true, true).is_ok());
    }
    run_to_block(&mut p, &mut current, 10);
    assert!(p.register_to_vote(7, true, true, 2, 5).is_ok());
    run_to_block(&mut p, &mut current, 21);
    assert_eq!(
        p.vote(7, 2, 6, VoteDirection::Aye),
        Err(DispatchError::Module(Error::CannotVoteMoreThanBond)),
    );
    assert_eq!(p.voters_for_bucket(1, 2, 7), Some((5, 5)));
    assert!(p.proposals_for_voting_round(1).unwrap()[2].ayes.is_empty());
}

#[test]
fn full_round_walks_every_phase_at_its_end_block() {
    let (mut p, mut current) = new_test_ext();
    assert!(p.start_voting_round(1, true, true, current).is_ok());
    assert!(p.submit_proposal(2, true, true).is_ok());
    let checkpoints = [
        (9, VotingPhases::Proposal),
        (10, VotingPhases::PreVoting),
        (20, VotingPhases::PreVoting),
        (21, VotingPhases::Voting),
        (31, VotingPhases::Voting),
        (32, VotingPhases::PostVoting),
        (42, VotingPhases::PostVoting),
        (43, VotingPhases::Enactment),
        (53, VotingPhases::Enactment),
        (54, VotingPhases::Finalized),
        (99, VotingPhases::Finalized),
    ];
    for (block, phase) in checkpoints {
        run_to_block(&mut p, &mut current, block);
        assert_eq!(p.voting_rounds(1).unwrap().phase, phase);
    }
}

#[test]
fn single_active_round_blocks_a_second_start() {
    let (mut p, mut current) = new_test_ext();
    assert!(p.start_voting_round(1, true, true, current).is_ok());
    assert_eq!(
        p.start_voting_round(1, true, true, current),
        Err(DispatchError::Module(Error::ProposalPhaseCannotStart)),
    );
    run_to_block(&mut p, &mut current, 54);
    assert_eq!(p.voting_rounds(1).unwrap().phase, VotingPhases::Finalized);
    assert!(p.start_voting_round(1, true, true, current).is_ok());
    assert_eq!(p.latest_voting_round(), Some(2));
    assert_eq!(p.voting_rounds(2).unwrap().previous_round_id, 1);
}

#[test]
fn tie_resolves_to_nay_and_strict_majority_to_aye() {
    let (mut p, mut current) = new_test_ext();
    assert!(p.start_voting_round(1, true, true, current).is_ok());
    for who in [1u64, 2, 3] {
        assert!(p.submit_proposal(who, true, true).is_ok());
    }
    run_to_block(&mut p, &mut current, 10);
    // Proposal 1 sits in bucket 5 % 2 = 1, proposal 2 in bucket 5 % 3 = 2.
    assert!(p.register_to_vote(7, true, true, 2, 9).is_ok());
    assert!(p.register_to_vote(8, true, true, 2, 9).is_ok());
    assert!(p.register_to_vote(9, true, true, 1, 4).is_ok());
    assert!(p.register_to_vote(10, true, true, 1, 4).is_ok());
    run_to_block(&mut p, &mut current, 21);
    // Proposal 2: aye weight 3 against nay weight 2.
    assert!(p.vote(7, 2, 9, VoteDirection::Aye).is_ok());
    assert!(p.vote(8, 2, 4, VoteDirection::Nay).is_ok());
    // Proposal 1: a 2-to-2 tie.
    assert!(p.vote(9, 1, 4, VoteDirection::Aye).is_ok());
    assert!(p.vote(10, 1, 4, VoteDirection::Nay).is_ok());
    run_to_block(&mut p, &mut current, 32);
    assert_eq!(p.voting_rounds(1).unwrap().phase, VotingPhases::PostVoting);
    assert_eq!(p.proposal_outcome(1, 2), Some((3, VoteDirection::Aye)));
    // The tie falls to Nay.
    assert_eq!(p.proposal_outcome(1, 1), Some((2, VoteDirection::Nay)));
    // Proposal 0 got no votes at all: a 0-to-0 tie falls to Nay too.
    assert_eq!(p.proposal_outcome(1, 0), Some((0, VoteDirection::Nay)));
}

#[test]
fn refunds_cover_round_bond_proposal_bonds_and_full_voter_bonds() {
    let (mut p, mut current) = new_test_ext();
    assert!(p.start_voting_round(1, true, true, current).is_ok());
    for who in [4u64, 5] {
        assert!(p.submit_proposal(who, true, true).is_ok());
    }
    run_to_block(&mut p, &mut current, 10);
    // Proposal 0 is in bucket 0, proposal 1 in bucket 1.
    assert!(p.register_to_vote(7, true, true, 1, 9).is_ok());
    run_to_block(&mut p, &mut current, 21);
    assert!(p.vote(7, 1, 9, VoteDirection::Aye).is_ok());
    run_to_block(&mut p, &mut current, 42);
    let (_, refunds) = p.on_initialize(43, &draw_for(43));
    assert_eq!(p.voting_rounds(1).unwrap().phase, VotingPhases::Enactment);
    // One entry per bond, in order: the round bond, then per proposal its
    // submitter's bond and its voters' full original bonds — 9 for the voter
    // even though voting cost them 3 of it.
    let shuffled = p.proposals_for_voting_round(1).unwrap();
    let expected = vec![
        (1u64, 1000u128),
        (shuffled[0].initializer, 20),
        (shuffled[1].initializer, 20),
        (7, 9),
    ];
    assert_eq!(refunds, expected);
    assert_eq!(p.voters_for_bucket(1, 1, 7), Some((9, 6)));
}

#[test]
fn start_requires_manager_funds_and_a_round_to_exist() {
    let (mut p, current) = new_test_ext();
    assert_eq!(
        p.start_voting_round(1, false, true, current),
        Err(DispatchError::BadOrigin),
    );
    assert_eq!(
        p.start_voting_round(1, true, false, current),
        Err(DispatchError::InsufficientBalance),
    );
    // A genesis pointer at 5 references a round that was never stored.
    let mut q = GenesisConfig { voting_round_id: 5 }.build(test_config());
    assert_eq!(
        q.start_voting_round(1, true, true, 0),
        Err(DispatchError::Module(Error::VotingRoundNotFound)),
    );
}

#[test]
fn calls_without_a_round_or_funds_are_rejected() {
    let (mut p, current) = new_test_ext();
    assert_eq!(
        p.submit_proposal(1, true, true),
        Err(DispatchError::Module(Error::VotingRoundNotFound)),
    );
    assert_eq!(
        p.register_to_vote(1, true, true, 0, 1),
        Err(DispatchError::Module(Error::VotingRoundNotFound)),
    );
    assert_eq!(
        p.vote(1, 0, 1, VoteDirection::Aye),
        Err(DispatchError::Module(Error::VotingRoundNotFound)),
    );
    assert!(p.start_voting_round(1, true, true, current).is_ok());
    assert_eq!(
        p.submit_proposal(1, true, false),
        Err(DispatchError::InsufficientBalance),
    );
    assert_eq!(
        p.vote(1, 0, 1, VoteDirection::Aye),
        Err(DispatchError::Module(Error::CanCallOnlyDuringVotingPhase)),
    );
}

#[test]
fn missing_proposals_are_reported_to_voters() {
    let (mut p, mut current) = new_test_ext();
    assert!(p.start_voting_round(1, true, true, current).is_ok());
    run_to_block(&mut p, &mut current, 21);
    // The round reached Voting with nothing submitted.
    assert_eq!(p.voting_rounds(1).unwrap().phase, VotingPhases::Voting);
    assert_eq!(
        p.vote(1, 0, 1, VoteDirection::Aye),
        Err(DispatchError::Module(Error::NoProposals)),
    );

    let (mut q, mut q_current) = new_test_ext();
    assert!(q.start_voting_round(1, true, true, q_current).is_ok());
    assert!(q.submit_proposal(1, true, true).is_ok());
    run_to_block(&mut q, &mut q_current, 21);
    assert_eq!(
        q.vote(1, 9, 1, VoteDirection::Aye),
        Err(DispatchError::Module(Error::ProposalNotFound)),
    );
}

#[test]
fn re_registration_overwrites_the_bond() {
    let (mut p, mut current) = new_test_ext();
    assert!(p.start_voting_round(1, true, true, current).is_ok());
    assert!(p.submit_proposal(1, true, true).is_ok());
    run_to_block(&mut p, &mut current, 10);
    assert!(p.register_to_vote(7, true, true, 2, 9).is_ok());
    assert!(p.register_to_vote(7, true, true, 2, 4).is_ok());
    assert_eq!(p.voters_for_bucket(1, 2, 7), Some((4, 4)));
}

#[test]
fn quadratic_weight_is_the_integer_square_root() {
    assert_eq!(get_vote_from_bond(0), Ok(0));
    assert_eq!(get_vote_from_bond(1), Ok(1));
    assert_eq!(get_vote_from_bond(3), Ok(1));
    assert_eq!(get_vote_from_bond(4), Ok(2));
    assert_eq!(get_vote_from_bond(15), Ok(3));
    assert_eq!(get_vote_from_bond(16), Ok(4));
    assert_eq!(get_vote_from_bond(99), Ok(9));
    assert_eq!(get_vote_from_bond(100), Ok(10));
    assert_eq!(get_vote_from_bond(u128::MAX), Ok(u64::MAX as u128));
}

#[test]
fn phase_windows_are_contiguous_with_one_block_gaps() {
    let config = test_config();
    let m = make_voting_round_metadata(&config, 9, 100, 0).unwrap();
    assert_eq!(m.initializer, 9);
    assert_eq!(m.previous_round_id, 0);
    assert_eq!(m.phase, VotingPhases::Proposal);
    assert_eq!((m.proposal_phase.start_block, m.proposal_phase.end_block), (100, 110));
    assert_eq!((m.pre_voting_phase.start_block, m.pre_voting_phase.end_block), (111, 121));
    assert_eq!((m.voting_phase.start_block, m.voting_phase.end_block), (122, 132));
    assert_eq!((m.post_voting_phase.start_block, m.post_voting_phase.end_block), (133, 143));
    assert_eq!((m.enactment_phase.start_block, m.enactment_phase.end_block), (144, 154));
    assert_eq!(m.finalized_block, 155);
}

#[test]
fn events_announce_phase_transitions_and_proposals() {
    let (mut p, mut current) = new_test_ext();
    assert!(p.start_voting_round(1, true, true, current).is_ok());
    assert!(p.submit_proposal(1, true, true).is_ok());
    assert!(p.submit_proposal(2, true, true).is_ok());
    run_to_block(&mut p, &mut current, 10);
    let events = p.events().clone();
    assert_eq!(
        events,
        vec![
            Event::PhaseTransition((VotingPhases::Proposal, 1)),
            Event::ProposalSubmitted(0),
            Event::ProposalSubmitted(1),
            Event::PhaseTransition((VotingPhases::PreVoting, 1)),
        ],
    );
}

#[test]
fn seeded_shuffle_reacts_to_the_draw() {
    // Two runs that differ only in the randomness drawn at the bucketing
    // block; if the shuffle ignored its seed entirely, every order would
    // match. The draws differ in their last byte, the one byte the seed
    // expansion keeps.
    let mut orders: Vec<Vec<u64>> = Vec::new();
    for salt in 0u8..4 {
        let (mut p, _) = new_test_ext();
        assert!(p.start_voting_round(1, true, true, 0).is_ok());
        for i in 0..10u64 {
            assert!(p.submit_proposal(i + 1, true, true).is_ok());
        }
        for block in 1..=10u64 {
            let mut draw = block.to_le_bytes().to_vec();
            draw.push(salt);
            p.on_initialize(block, &draw);
        }
        let order: Vec<u64> = p
            .proposals_for_voting_round(1)
            .unwrap()
            .iter()
            .map(|pr| pr.initializer)
            .collect();
        let mut sorted = order.clone();
        sorted.sort_unstable();
        assert_eq!(sorted, (1..=10u64).collect::<Vec<u64>>());
        orders.push(order);
    }
    assert!(
        orders.iter().any(|o| o != &orders[0]),
        "four distinct seeds produced the identical shuffle order: {:?}",
        orders[0],
    );
}

#[test]
fn vote_lists_are_bounded_by_max_votes() {
    let mut config = test_config();
    config.max_votes = 1;
    let mut p = GenesisConfig::default().build(config);
    let mut current = 0u64;
    assert!(p.start_voting_round(1, true, true, current).is_ok());
    for who in [1u64, 2, 3] {
        assert!(p.submit_proposal(who, true, true).is_ok());
    }
    run_to_block(&mut p, &mut current, 10);
    assert!(p.register_to_vote(7, true, true, 2, 1).is_ok());
    assert!(p.register_to_vote(8, true, true, 2, 1).is_ok());
    run_to_block(&mut p, &mut current, 21);
    assert!(p.vote(7, 2, 1, VoteDirection::Aye).is_ok());
    assert_eq!(
        p.vote(8, 2, 1, VoteDirection::Nay),
        Err(DispatchError::Module(Error::StorageOverflow)),
    );
}
