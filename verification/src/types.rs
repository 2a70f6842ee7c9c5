//! The data model of a voting round: phases, round metadata, proposals,
//! bucket memberships, configuration, errors and events.

use vstd::prelude::*;

verus! {

pub type VotingRoundId = u32;

pub type ProposalCount = u32;

pub type MaxVotes = u32;

pub type BucketId = u32;

pub type AccountId = u64;

pub type BlockNumber = u64;

pub type Balance = u128;

/// The six phases a round passes through, in order. `Finalized` is terminal.
#[derive(Clone, Copy, PartialEq, Eq, Structural, Debug)]
pub enum VotingPhases {
    Proposal,
    PreVoting,
    Voting,
    PostVoting,
    Enactment,
    Finalized,
}

/// Where a phase stands in the fixed order of phases.
pub open spec fn phase_rank(p: VotingPhases) -> int {
    match p {
        VotingPhases::Proposal => 0,
        VotingPhases::PreVoting => 1,
        VotingPhases::Voting => 2,
        VotingPhases::PostVoting => 3,
        VotingPhases::Enactment => 4,
        VotingPhases::Finalized => 5,
    }
}

/// The phase that follows `p`; `Finalized` has no successor and maps to itself.
pub open spec fn next_phase(p: VotingPhases) -> VotingPhases {
    match p {
        VotingPhases::Proposal => VotingPhases::PreVoting,
        VotingPhases::PreVoting => VotingPhases::Voting,
        VotingPhases::Voting => VotingPhases::PostVoting,
        VotingPhases::PostVoting => VotingPhases::Enactment,
        VotingPhases::Enactment => VotingPhases::Finalized,
        VotingPhases::Finalized => VotingPhases::Finalized,
    }
}

/// The direction of one vote.
#[derive(Clone, Copy, PartialEq, Eq, Structural, Debug)]
pub enum VoteDirection {
    Aye,
    Nay,
}

/// The `[start_block, end_block]` window during which a round occupies one phase.
#[derive(Clone, Copy, PartialEq, Eq, Structural, Debug)]
pub struct VotingPhaseData {
    pub start_block: BlockNumber,
    pub end_block: BlockNumber,
}

/// One governance round: who started it, the five phase windows, the block at
/// which it is finalized, and the phase it currently occupies.
#[derive(Clone, Copy, PartialEq, Eq, Structural, Debug)]
pub struct VotingRoundMetadata {
    pub initializer: AccountId,
    pub proposal_phase: VotingPhaseData,
    pub previous_round_id: VotingRoundId,
    pub pre_voting_phase: VotingPhaseData,
    pub voting_phase: VotingPhaseData,
    pub post_voting_phase: VotingPhaseData,
    pub enactment_phase: VotingPhaseData,
    pub finalized_block: BlockNumber,
    pub phase: VotingPhases,
}

impl VotingRoundMetadata {
    /// The window of the phase the round currently occupies.
    /// `Finalized` has no window; its end block is the finalized block.
    pub open spec fn current_window_end(self) -> BlockNumber {
        match self.phase {
            VotingPhases::Proposal => self.proposal_phase.end_block,
            VotingPhases::PreVoting => self.pre_voting_phase.end_block,
            VotingPhases::Voting => self.voting_phase.end_block,
            VotingPhases::PostVoting => self.post_voting_phase.end_block,
            VotingPhases::Enactment => self.enactment_phase.end_block,
            VotingPhases::Finalized => self.finalized_block,
        }
    }
}

/// One submitted proposal: its submitter, the weights of the votes cast for
/// and against it, and the bucket the shuffle assigned it to (`None` until
/// the round leaves the Proposal phase).
#[derive(Debug)]
pub struct Proposal {
    pub initializer: AccountId,
    pub ayes: Vec<Balance>,
    pub nays: Vec<Balance>,
    pub bucket_id: Option<BucketId>,
}

/// The mathematical content of a [`Proposal`].
#[verifier::ext_equal]
pub struct ProposalView {
    pub initializer: AccountId,
    pub ayes: Seq<Balance>,
    pub nays: Seq<Balance>,
    pub bucket_id: Option<BucketId>,
}

impl View for Proposal {
    type V = ProposalView;

    open spec fn view(&self) -> ProposalView {
        ProposalView {
            initializer: self.initializer,
            ayes: self.ayes@,
            nays: self.nays@,
            bucket_id: self.bucket_id,
        }
    }
}

/// The contents of a list of proposals.
pub open spec fn proposal_views(s: Seq<Proposal>) -> Seq<ProposalView> {
    s.map_values(|p: Proposal| p@)
}

impl Clone for Proposal {
    fn clone(&self) -> (r: Self)
        ensures
            r@ == self@,
    {
        let ayes = self.ayes.clone();
        let nays = self.nays.clone();
        proof {
            assert(ayes@ =~= self.ayes@);
            assert(nays@ =~= self.nays@);
        }
        Proposal { initializer: self.initializer, ayes, nays, bucket_id: self.bucket_id }
    }
}

/// A voter's bonded budget inside one bucket of one round: the amount
/// originally bonded, and what is left of it to spend on votes.
#[derive(Clone, Copy, PartialEq, Eq, Structural, Debug)]
pub struct BucketMembership {
    pub bucket_id: BucketId,
    pub voter: AccountId,
    pub total_bond: Balance,
    pub remaining_bond: Balance,
}

/// The deployment-time parameters of the voting system.
#[derive(Clone, Copy, PartialEq, Eq, Structural, Debug)]
pub struct Config {
    pub blocks_for_proposal_phase: BlockNumber,
    pub blocks_for_pre_voting_phase: BlockNumber,
    pub blocks_for_voting_phase: BlockNumber,
    pub blocks_for_post_voting_phase: BlockNumber,
    pub blocks_for_enactment_phase: BlockNumber,
    pub one_block: BlockNumber,
    pub max_proposals: ProposalCount,
    pub bond_for_voting_round: Balance,
    pub bond_for_proposal: Balance,
    pub bond_for_voting: Balance,
    pub max_votes: MaxVotes,
    pub bucket_size: BucketId,
}

impl Config {
    /// The number of blocks from a round's first block to its finalized block:
    /// the five phase durations plus the five one-block gaps.
    pub open spec fn round_span(self) -> int {
        self.blocks_for_proposal_phase + self.one_block + self.blocks_for_pre_voting_phase
            + self.one_block + self.blocks_for_voting_phase + self.one_block
            + self.blocks_for_post_voting_phase + self.one_block
            + self.blocks_for_enactment_phase + self.one_block
    }
}

/// The ways a call can be rejected by the voting logic itself.
#[derive(Clone, Copy, PartialEq, Eq, Structural, Debug)]
pub enum Error {
    /// The referenced voting round does not exist.
    VotingRoundNotFound,
    /// A new round cannot start because the latest one is still active.
    ProposalPhaseCannotStart,
    /// The caller may not start a round.
    NoPermissionToStartProposalPhase,
    /// The referenced proposal does not exist.
    ProposalNotFound,
    /// The round has no proposals.
    NoProposals,
    /// A bounded list or counter is at its maximum.
    StorageOverflow,
    /// The caller has no registered identity.
    IdentityNotFound,
    /// The bucket id exceeds the configured bucket size.
    InvalidBucketId,
    /// Allowed only while the round is in its Proposal phase.
    CanCallOnlyDuringProposalPhase,
    /// Allowed only while the round is in its PreVoting phase.
    CanCallOnlyDuringPreVotingPhase,
    /// Allowed only while the round is in its Voting phase.
    CanCallOnlyDuringVotingPhase,
    /// The caller bonded no tokens for this bucket.
    NoTokensBonded,
    /// The vote amount exceeds the caller's remaining bond.
    CannotVoteMoreThanBond,
    /// The square root of the vote amount could not be computed.
    CouldNotComputeSqrt,
    /// The caller has already voted on this proposal.
    VoterHasVotedForThisProposal,
}

/// How a call fails as seen by its caller: rejected before it was signed off
/// by the manager check, rejected by the voting logic, or rejected by the
/// bond ledger for want of free balance.
#[derive(Clone, Copy, PartialEq, Eq, Structural, Debug)]
pub enum DispatchError {
    /// The caller does not satisfy the required origin (here: the manager check).
    BadOrigin,
    /// The voting logic rejected the call.
    Module(Error),
    /// The bond ledger could not reserve the requested amount.
    InsufficientBalance,
}

pub type DispatchResult = Result<(), DispatchError>;

/// The state the system starts from: the round id the "latest round" pointer
/// initially carries. Rounds created later get ids counting up from it.
#[derive(Clone, Copy, PartialEq, Eq, Structural, Debug)]
pub struct GenesisConfig {
    pub voting_round_id: VotingRoundId,
}

impl Default for GenesisConfig {
    fn default() -> (r: Self)
        ensures
            r.voting_round_id == 0,
    {
        GenesisConfig { voting_round_id: 0 }
    }
}

/// What the system announces to its observers.
#[derive(Clone, Copy, PartialEq, Eq, Debug)]
pub enum Event {
    /// A round entered the named phase.
    PhaseTransition((VotingPhases, VotingRoundId)),
    /// A proposal was accepted, at the given index within its round.
    ProposalSubmitted(ProposalCount),
}

} // verus!
