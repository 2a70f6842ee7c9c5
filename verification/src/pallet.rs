//! The voting-round state machine: the round registry, the proposal book,
//! the bucket ledger, the vote records and outcomes, and the per-block phase
//! driver.

use vstd::prelude::*;

use crate::types::{
    AccountId, Balance, BlockNumber, BucketId, BucketMembership, Config, DispatchError,
    DispatchResult, Error, Event, GenesisConfig, Proposal, ProposalCount, ProposalView,
    VoteDirection, VotingPhaseData, VotingPhases, VotingRoundId, VotingRoundMetadata, next_phase,
    phase_rank, proposal_views,
};

verus! {

/// The recorded bond of `voter` in `bucket`, read from a membership log in
/// which the latest entry for a key wins (re-registration overwrites).
pub open spec fn membership_lookup(
    s: Seq<BucketMembership>,
    bucket: BucketId,
    voter: AccountId,
) -> Option<(Balance, Balance)>
    decreases s.len(),
{
    if s.len() == 0 {
        None
    } else if s.last().bucket_id == bucket && s.last().voter == voter {
        Some((s.last().total_bond, s.last().remaining_bond))
    } else {
        membership_lookup(s.drop_last(), bucket, voter)
    }
}

/// Appending an entry to a membership log overwrites the reading of its key
/// and leaves every other key's reading unchanged.
pub proof fn lemma_lookup_push(
    s: Seq<BucketMembership>,
    m: BucketMembership,
    b: BucketId,
    v: AccountId,
)
    ensures
        membership_lookup(s.push(m), b, v) == if m.bucket_id == b && m.voter == v {
            Some((m.total_bond, m.remaining_bond))
        } else {
            membership_lookup(s, b, v)
        },
{
    assert(s.push(m).last() == m);
    assert(s.push(m).drop_last() =~= s);
}

/// The round metadata that starting a round at `start_block` lays down: the
/// five phase windows in order, each separated from the previous by one
/// block, the caller as initializer, and the phase at `Proposal`.
pub open spec fn is_round_metadata(
    m: VotingRoundMetadata,
    config: Config,
    initiator: AccountId,
    start_block: BlockNumber,
    previous_round_id: VotingRoundId,
) -> bool {
    &&& m.initializer == initiator
    &&& m.previous_round_id == previous_round_id
    &&& m.phase == VotingPhases::Proposal
    &&& m.proposal_phase.start_block == start_block
    &&& m.proposal_phase.end_block == start_block + config.blocks_for_proposal_phase
    &&& m.pre_voting_phase.start_block == m.proposal_phase.end_block + config.one_block
    &&& m.pre_voting_phase.end_block == m.pre_voting_phase.start_block
        + config.blocks_for_pre_voting_phase
    &&& m.voting_phase.start_block == m.pre_voting_phase.end_block + config.one_block
    &&& m.voting_phase.end_block == m.voting_phase.start_block + config.blocks_for_voting_phase
    &&& m.post_voting_phase.start_block == m.voting_phase.end_block + config.one_block
    &&& m.post_voting_phase.end_block == m.post_voting_phase.start_block
        + config.blocks_for_post_voting_phase
    &&& m.enactment_phase.start_block == m.post_voting_phase.end_block + config.one_block
    &&& m.enactment_phase.end_block == m.enactment_phase.start_block
        + config.blocks_for_enactment_phase
    &&& m.finalized_block == m.enactment_phase.end_block + config.one_block
}

/// Computes the metadata of a round whose Proposal phase starts at
/// `start_block`, from the configured per-phase durations.
pub fn make_voting_round_metadata(
    config: &Config,
    initiator: AccountId,
    start_block: BlockNumber,
    previous_round_id: VotingRoundId,
) -> (r: Result<VotingRoundMetadata, Error>)
    requires
        start_block + config.round_span() <= u64::MAX,
    ensures
        r is Ok,
        is_round_metadata(r.unwrap(), *config, initiator, start_block, previous_round_id),
{
    let proposal_start = start_block;
    let proposal_end = start_block + config.blocks_for_proposal_phase;

    let pre_voting_start = proposal_end + config.one_block;
    let pre_voting_end = pre_voting_start + config.blocks_for_pre_voting_phase;

    let voting_start = pre_voting_end + config.one_block;
    let voting_end = voting_start + config.blocks_for_voting_phase;

    let post_voting_start = voting_end + config.one_block;
    let post_voting_end = post_voting_start + config.blocks_for_post_voting_phase;

    let enactment_start = post_voting_end + config.one_block;
    let enactment_end = enactment_start + config.blocks_for_enactment_phase;

    let finalized = enactment_end + config.one_block;

    Ok(
        VotingRoundMetadata {
            initializer: initiator,
            phase: VotingPhases::Proposal,
            previous_round_id,
            proposal_phase: VotingPhaseData { start_block: proposal_start, end_block: proposal_end },
            pre_voting_phase: VotingPhaseData {
                start_block: pre_voting_start,
                end_block: pre_voting_end,
            },
            voting_phase: VotingPhaseData { start_block: voting_start, end_block: voting_end },
            post_voting_phase: VotingPhaseData {
                start_block: post_voting_start,
                end_block: post_voting_end,
            },
            enactment_phase: VotingPhaseData {
                start_block: enactment_start,
                end_block: enactment_end,
            },
            finalized_block: finalized,
        },
    )
}

/// The whole voting system: configuration, the round registry, the proposal
/// book, the bucket ledger, the vote records, the outcome store and the
/// event log. The bond ledger, the identity oracle and the randomness source
/// stay outside: calls take their answers as arguments and return the bond
/// operations the host must perform.
pub struct Pallet {
    config: Config,
    genesis_round_id: VotingRoundId,
    latest_voting_round: VotingRoundId,
    rounds: Vec<VotingRoundMetadata>,
    proposals: Vec<Vec<Proposal>>,
    memberships: Vec<Vec<BucketMembership>>,
    voters_voted: Vec<Vec<Vec<AccountId>>>,
    outcomes: Vec<Vec<(Balance, VoteDirection)>>,
    events: Vec<Event>,
}

impl Pallet {
    /// The deployment configuration.
    pub closed spec fn spec_config(&self) -> Config {
        self.config
    }

    /// The round id the system started from; created rounds count up from it.
    pub closed spec fn spec_genesis(&self) -> VotingRoundId {
        self.genesis_round_id
    }

    /// The id the "latest round" pointer carries.
    pub closed spec fn spec_latest(&self) -> VotingRoundId {
        self.latest_voting_round
    }

    /// The position of round `id` in the registry.
    closed spec fn round_index(&self, id: VotingRoundId) -> int {
        id - self.genesis_round_id - 1
    }

    /// Whether round `id` exists.
    pub closed spec fn has_round(&self, id: VotingRoundId) -> bool {
        self.genesis_round_id < id && self.round_index(id) < self.rounds@.len()
    }

    /// The metadata of round `id`, if it exists.
    pub closed spec fn spec_round(&self, id: VotingRoundId) -> Option<VotingRoundMetadata> {
        if self.has_round(id) {
            Some(self.rounds@[self.round_index(id)])
        } else {
            None
        }
    }

    /// The proposals of round `id`, in storage order; empty when the round
    /// does not exist or has none.
    pub closed spec fn spec_proposals(&self, id: VotingRoundId) -> Seq<ProposalView> {
        if self.has_round(id) && self.round_index(id) < self.proposals@.len() {
            proposal_views(self.proposals@[self.round_index(id)]@)
        } else {
            Seq::empty()
        }
    }

    /// The `(total_bond, remaining_bond)` recorded for `voter` in `bucket` of
    /// round `id`.
    pub closed spec fn spec_membership(
        &self,
        id: VotingRoundId,
        bucket: BucketId,
        voter: AccountId,
    ) -> Option<(Balance, Balance)> {
        if self.has_round(id) && self.round_index(id) < self.memberships@.len() {
            membership_lookup(self.memberships@[self.round_index(id)]@, bucket, voter)
        } else {
            None
        }
    }

    /// The voters recorded on proposal `pid` of round `id`, in voting order.
    pub closed spec fn spec_voters(&self, id: VotingRoundId, pid: ProposalCount) -> Seq<
        AccountId,
    > {
        if self.has_round(id) && self.round_index(id) < self.voters_voted@.len() && pid
            < self.voters_voted@[self.round_index(id)]@.len() {
            self.voters_voted@[self.round_index(id)]@[pid as int]@
        } else {
            Seq::empty()
        }
    }

    /// The stored outcome of proposal `pid` of round `id`, if tallied.
    pub closed spec fn spec_outcome(&self, id: VotingRoundId, pid: ProposalCount) -> Option<
        (Balance, VoteDirection),
    > {
        if self.has_round(id) && self.round_index(id) < self.outcomes@.len() && pid
            < self.outcomes@[self.round_index(id)]@.len() {
            Some(self.outcomes@[self.round_index(id)]@[pid as int])
        } else {
            None
        }
    }

    /// Everything announced so far, oldest first.
    pub closed spec fn spec_events(&self) -> Seq<Event> {
        self.events@
    }

    /// The internal consistency of one proposal's records within round slot `i`.
    closed spec fn proposal_wf(&self, i: int, p: int) -> bool {
        let meta = self.rounds@[i];
        let prop = self.proposals@[i]@[p]@;
        let vlist = self.voters_voted@[i]@[p]@;
        &&& prop.ayes.len() <= self.config.max_votes
        &&& prop.nays.len() <= self.config.max_votes
        &&& vlist.len() <= self.config.max_votes
        &&& forall|k: int| 0 <= k < prop.ayes.len() ==> prop.ayes[k] <= u64::MAX
        &&& forall|k: int| 0 <= k < prop.nays.len() ==> prop.nays[k] <= u64::MAX
        &&& phase_rank(meta.phase) >= 1 ==> prop.bucket_id is Some
        &&& phase_rank(meta.phase) == 0 ==> prop.bucket_id is None && prop.ayes.len() == 0
            && prop.nays.len() == 0 && vlist.len() == 0
        &&& forall|k: int| 0 <= k < vlist.len() ==> membership_lookup(
            self.memberships@[i]@,
            prop.bucket_id.unwrap(),
            vlist[k],
        ) is Some
    }

    /// The internal consistency of round slot `i`.
    closed spec fn round_wf(&self, i: int) -> bool {
        let meta = self.rounds@[i];
        let props = self.proposals@[i]@;
        &&& props.len() <= self.config.max_proposals
        &&& self.voters_voted@[i]@.len() == props.len()
        &&& self.outcomes@[i]@.len() == (if phase_rank(meta.phase) >= 3 {
            props.len() as int
        } else {
            0
        })
        &&& forall|p: int| 0 <= p < props.len() ==> self.proposal_wf(i, p)
    }

    /// The invariant every operation preserves: the registry and its side
    /// tables run in parallel, ids count up from the genesis id, and every
    /// round's records are internally consistent.
    pub closed spec fn wf(&self) -> bool {
        &&& self.latest_voting_round == self.genesis_round_id + self.rounds@.len()
        &&& self.proposals@.len() == self.rounds@.len()
        &&& self.memberships@.len() == self.rounds@.len()
        &&& self.voters_voted@.len() == self.rounds@.len()
        &&& self.outcomes@.len() == self.rounds@.len()
        &&& forall|i: int| 0 <= i < self.rounds@.len() ==> self.round_wf(i)
    }
}

/// Finds the winning entry of the membership log for `(bucket, voter)`:
/// the latest entry with that key.
#[verifier::loop_isolation(false)]
fn find_membership(s: &Vec<BucketMembership>, bucket: BucketId, voter: AccountId) -> (r: Option<
    (Balance, Balance),
>)
    ensures
        r == membership_lookup(s@, bucket, voter),
{
    let mut i: usize = s.len();
    proof {
        assert(s@.take(i as int) =~= s@);
    }
    while i > 0
        invariant
            i <= s@.len(),
            membership_lookup(s@, bucket, voter) == membership_lookup(
                s@.take(i as int),
                bucket,
                voter,
            ),
        decreases i,
    {
        let m = s[i - 1];
        if m.bucket_id == bucket && m.voter == voter {
            proof {
                assert(s@.take(i as int).last() == s@[i - 1]);
            }
            return Some((m.total_bond, m.remaining_bond));
        }
        proof {
            assert(s@.take(i as int).drop_last() =~= s@.take(i as int - 1));
        }
        i = i - 1;
    }
    None
}

impl Pallet {
    /// The deployment configuration, as built.
    pub fn config(&self) -> (c: Config)
        ensures
            c == self.spec_config(),
    {
        self.config
    }

    /// The id of the current or most recent round; the genesis id when no
    /// round was ever started.
    pub fn latest_voting_round(&self) -> (r: Option<VotingRoundId>)
        ensures
            r == Some(self.spec_latest()),
    {
        Some(self.latest_voting_round)
    }

    /// The metadata of round `id`, if that round exists.
    pub fn voting_rounds(&self, id: VotingRoundId) -> (r: Option<VotingRoundMetadata>)
        ensures
            r == self.spec_round(id),
    {
        if self.genesis_round_id < id {
            let idx = (id - self.genesis_round_id - 1) as usize;
            if idx < self.rounds.len() {
                Some(self.rounds[idx])
            } else {
                None
            }
        } else {
            None
        }
    }

    /// The proposal list of round `id`; `None` when no proposal was ever
    /// submitted to it.
    #[verifier::loop_isolation(false)]
    pub fn proposals_for_voting_round(&self, id: VotingRoundId) -> (r: Option<Vec<Proposal>>)
        ensures
            r is Some <==> self.spec_proposals(id).len() > 0,
            r is Some ==> proposal_views(r.unwrap()@) == self.spec_proposals(id),
    {
        if self.genesis_round_id < id {
            let idx = (id - self.genesis_round_id - 1) as usize;
            if idx < self.rounds.len() && idx < self.proposals.len() {
                let src = &self.proposals[idx];
                if src.len() == 0 {
                    return None;
                }
                let mut out: Vec<Proposal> = Vec::new();
                let mut i: usize = 0;
                while i < src.len()
                    invariant
                        i <= src@.len(),
                        out@.len() == i,
                        forall|j: int| 0 <= j < i ==> out@[j]@ == src@[j]@,
                    decreases src@.len() - i,
                {
                    out.push(src[i].clone());
                    i = i + 1;
                }
                proof {
                    assert(proposal_views(out@) =~= proposal_views(src@));
                }
                Some(out)
            } else {
                None
            }
        } else {
            None
        }
    }

    /// The `(total_bond, remaining_bond)` of `voter` in `bucket` of round `id`.
    pub fn voters_for_bucket(&self, id: VotingRoundId, bucket: BucketId, voter: AccountId) -> (r:
        Option<(Balance, Balance)>)
        ensures
            r == self.spec_membership(id, bucket, voter),
    {
        if self.genesis_round_id < id {
            let idx = (id - self.genesis_round_id - 1) as usize;
            if idx < self.rounds.len() && idx < self.memberships.len() {
                find_membership(&self.memberships[idx], bucket, voter)
            } else {
                None
            }
        } else {
            None
        }
    }

    /// Whether `voter` already voted on proposal `pid` of round `id`:
    /// a presence marker, `Some(())` when they did.
    #[verifier::loop_isolation(false)]
    pub fn voters_voted_on_proposal(
        &self,
        id: VotingRoundId,
        pid: ProposalCount,
        voter: AccountId,
    ) -> (r: Option<()>)
        ensures
            r == if self.spec_voters(id, pid).contains(voter) {
                Some(())
            } else {
                None::<()>
            },
    {
        if self.genesis_round_id < id {
            let idx = (id - self.genesis_round_id - 1) as usize;
            if idx < self.rounds.len() && idx < self.voters_voted.len() && (pid as usize)
                < self.voters_voted[idx].len() {
                let list = &self.voters_voted[idx][pid as usize];
                let mut i: usize = 0;
                while i < list.len()
                    invariant
                        i <= list@.len(),
                        forall|j: int| 0 <= j < i ==> list@[j] != voter,
                    decreases list@.len() - i,
                {
                    if list[i] == voter {
                        proof {
                            assert(self.spec_voters(id, pid) == list@);
                            assert(self.spec_voters(id, pid)[i as int] == voter);
                        }
                        return Some(());
                    }
                    i = i + 1;
                }
                None
            } else {
                None
            }
        } else {
            None
        }
    }

    /// The ordered voter list of proposal `pid` of round `id`; `None` until
    /// someone votes on it.
    #[verifier::loop_isolation(false)]
    pub fn voters_voted(&self, id: VotingRoundId, pid: ProposalCount) -> (r: Option<
        Vec<AccountId>,
    >)
        ensures
            r is Some <==> self.spec_voters(id, pid).len() > 0,
            r is Some ==> r.unwrap()@ == self.spec_voters(id, pid),
    {
        if self.genesis_round_id < id {
            let idx = (id - self.genesis_round_id - 1) as usize;
            if idx < self.rounds.len() && idx < self.voters_voted.len() && (pid as usize)
                < self.voters_voted[idx].len() {
                let list = &self.voters_voted[idx][pid as usize];
                if list.len() == 0 {
                    return None;
                }
                let mut out: Vec<AccountId> = Vec::new();
                let mut i: usize = 0;
                while i < list.len()
                    invariant
                        i <= list@.len(),
                        out@.len() == i,
                        forall|j: int| 0 <= j < i ==> out@[j] == list@[j],
                    decreases list@.len() - i,
                {
                    out.push(list[i]);
                    i = i + 1;
                }
                proof {
                    assert(out@ =~= list@);
                }
                Some(out)
            } else {
                None
            }
        } else {
            None
        }
    }

    /// The tallied outcome of proposal `pid` of round `id`; `None` until the
    /// round has left its Voting phase.
    pub fn proposal_outcome(&self, id: VotingRoundId, pid: ProposalCount) -> (r: Option<
        (Balance, VoteDirection),
    >)
        ensures
            r == self.spec_outcome(id, pid),
    {
        if self.genesis_round_id < id {
            let idx = (id - self.genesis_round_id - 1) as usize;
            if idx < self.rounds.len() && idx < self.outcomes.len() && (pid as usize)
                < self.outcomes[idx].len() {
                Some(self.outcomes[idx][pid as usize])
            } else {
                None
            }
        } else {
            None
        }
    }

    /// Everything announced so far, oldest first.
    pub fn events(&self) -> (r: &Vec<Event>)
        ensures
            r@ == self.spec_events(),
    {
        &self.events
    }
}

/// Rounds other than `id` read the same in `b` as in `a`.
pub open spec fn rounds_preserved_except(a: Pallet, b: Pallet, id: VotingRoundId) -> bool {
    forall|x: VotingRoundId| x != id ==> b.spec_round(x) == a.spec_round(x)
}

/// Proposal lists other than round `id`'s read the same in `b` as in `a`.
pub open spec fn proposals_preserved_except(a: Pallet, b: Pallet, id: VotingRoundId) -> bool {
    forall|x: VotingRoundId| x != id ==> b.spec_proposals(x) == a.spec_proposals(x)
}

/// Every bucket membership reads the same in `b` as in `a`.
pub open spec fn memberships_preserved(a: Pallet, b: Pallet) -> bool {
    forall|x: VotingRoundId, bkt: BucketId, v: AccountId|
        b.spec_membership(x, bkt, v) == a.spec_membership(x, bkt, v)
}

/// Every voter list reads the same in `b` as in `a`.
pub open spec fn voters_preserved(a: Pallet, b: Pallet) -> bool {
    forall|x: VotingRoundId, pid: ProposalCount| b.spec_voters(x, pid) == a.spec_voters(x, pid)
}

/// Every stored outcome reads the same in `b` as in `a`.
pub open spec fn outcomes_preserved(a: Pallet, b: Pallet) -> bool {
    forall|x: VotingRoundId, pid: ProposalCount| b.spec_outcome(x, pid) == a.spec_outcome(x, pid)
}

/// The configuration and the genesis id read the same in `b` as in `a`.
pub open spec fn config_preserved(a: Pallet, b: Pallet) -> bool {
    b.spec_config() == a.spec_config() && b.spec_genesis() == a.spec_genesis()
}

impl Pallet {
    /// A new round may start: no round was ever started, or the latest one
    /// is `Finalized`.
    pub open spec fn spec_can_start(&self) -> bool {
        ||| self.spec_latest() == 0
        ||| (self.spec_round(self.spec_latest()) is Some && self.spec_round(
            self.spec_latest(),
        ).unwrap().phase == VotingPhases::Finalized)
    }

    /// Starts a new voting round in its Proposal phase.
    ///
    /// `is_manager` is the host's answer to the manager-authorization check on
    /// `who`; `can_reserve` is the bond ledger's answer to whether the
    /// configured round bond can be reserved from `who`. On `Ok` the host
    /// must perform that reservation.
    pub fn start_voting_round(
        &mut self,
        who: AccountId,
        is_manager: bool,
        can_reserve: bool,
        current_block: BlockNumber,
    ) -> (r: DispatchResult)
        requires
            old(self).wf(),
            is_manager && old(self).spec_can_start() && can_reserve && old(self).spec_latest()
                < u32::MAX ==> current_block + old(self).spec_config().round_span() <= u64::MAX,
        ensures
            final(self).wf(),
            r is Ok <==> is_manager && old(self).spec_can_start() && can_reserve && old(
                self,
            ).spec_latest() < u32::MAX,
            !is_manager ==> r == Err::<(), DispatchError>(DispatchError::BadOrigin),
            is_manager && old(self).spec_latest() > 0 && old(self).spec_round(
                old(self).spec_latest(),
            ) is None ==> r == Err::<(), DispatchError>(
                DispatchError::Module(Error::VotingRoundNotFound),
            ),
            is_manager && old(self).spec_latest() > 0 && old(self).spec_round(
                old(self).spec_latest(),
            ) is Some && old(self).spec_round(old(self).spec_latest()).unwrap().phase
                != VotingPhases::Finalized ==> r == Err::<(), DispatchError>(
                DispatchError::Module(Error::ProposalPhaseCannotStart),
            ),
            is_manager && old(self).spec_can_start() && !can_reserve ==> r == Err::<
                (),
                DispatchError,
            >(DispatchError::InsufficientBalance),
            is_manager && old(self).spec_can_start() && can_reserve && old(self).spec_latest()
                == u32::MAX ==> r == Err::<(), DispatchError>(
                DispatchError::Module(Error::StorageOverflow),
            ),
            r is Err ==> *final(self) == *old(self),
            r is Ok ==> {
                &&& final(self).spec_latest() == old(self).spec_latest() + 1
                &&& final(self).spec_round(final(self).spec_latest()) is Some
                &&& is_round_metadata(
                    final(self).spec_round(final(self).spec_latest()).unwrap(),
                    old(self).spec_config(),
                    who,
                    current_block,
                    old(self).spec_latest(),
                )
                &&& rounds_preserved_except(
                    *old(self),
                    *final(self),
                    final(self).spec_latest(),
                )
                &&& forall|x: VotingRoundId|
                    final(self).spec_proposals(x) == old(self).spec_proposals(x)
                &&& memberships_preserved(*old(self), *final(self))
                &&& voters_preserved(*old(self), *final(self))
                &&& outcomes_preserved(*old(self), *final(self))
                &&& config_preserved(*old(self), *final(self))
                &&& final(self).spec_events() == old(self).spec_events().push(
                    Event::PhaseTransition(
                        (VotingPhases::Proposal, final(self).spec_latest()),
                    ),
                )
            },
    {
        if !is_manager {
            return Err(DispatchError::BadOrigin);
        }

        if self.latest_voting_round > 0 {
            // The previous round must have run to completion.
            match self.voting_rounds(self.latest_voting_round) {
                None => {
                    return Err(DispatchError::Module(Error::VotingRoundNotFound));
                },
                Some(past) => {
                    if past.phase != VotingPhases::Finalized {
                        return Err(DispatchError::Module(Error::ProposalPhaseCannotStart));
                    }
                },
            }
        }

        // The host reserves the round bond from the caller.
        if !can_reserve {
            return Err(DispatchError::InsufficientBalance);
        }

        if self.latest_voting_round == u32::MAX {
            return Err(DispatchError::Module(Error::StorageOverflow));
        }
        let next_voting_round_id = self.latest_voting_round + 1;

        let metadata = match make_voting_round_metadata(
            &self.config,
            who,
            current_block,
            self.latest_voting_round,
        ) {
            Ok(m) => m,
            Err(e) => {
                return Err(DispatchError::Module(e));
            },
        };

        self.rounds.push(metadata);
        self.proposals.push(Vec::new());
        self.memberships.push(Vec::new());
        self.voters_voted.push(Vec::new());
        self.outcomes.push(Vec::new());
        self.latest_voting_round = next_voting_round_id;
        self.events.push(Event::PhaseTransition((VotingPhases::Proposal, next_voting_round_id)));

        proof {
            let n = old(self).rounds@.len() as int;
            assert forall|i: int| 0 <= i < self.rounds@.len() implies self.round_wf(i) by {
                if i < n {
                    assert(old(self).round_wf(i));
                    assert(self.rounds@[i] == old(self).rounds@[i]);
                    assert(self.proposals@[i] == old(self).proposals@[i]);
                    assert(self.memberships@[i] == old(self).memberships@[i]);
                    assert(self.voters_voted@[i] == old(self).voters_voted@[i]);
                    assert(self.outcomes@[i] == old(self).outcomes@[i]);
                    assert forall|p: int|
                        0 <= p < self.proposals@[i]@.len() implies self.proposal_wf(i, p) by {
                        assert(old(self).proposal_wf(i, p));
                    }
                } else {
                    assert(self.proposals@[i]@.len() == 0);
                    assert(self.voters_voted@[i]@.len() == 0);
                    assert(self.outcomes@[i]@.len() == 0);
                }
            }
        }

        Ok(())
    }
}

impl Pallet {
    /// Appends a new proposal by `who` to the latest round's list.
    ///
    /// `has_identity` is the identity oracle's answer for `who`; `can_reserve`
    /// is the bond ledger's answer to whether the configured proposal bond can
    /// be reserved from `who`. On `Ok` the host must perform that reservation.
    pub fn submit_proposal(&mut self, who: AccountId, has_identity: bool, can_reserve: bool) -> (r:
        DispatchResult)
        requires
            old(self).wf(),
        ensures
            final(self).wf(),
            r is Ok <==> has_identity && old(self).spec_round(old(self).spec_latest()) is Some
                && old(self).spec_round(old(self).spec_latest()).unwrap().phase
                == VotingPhases::Proposal && old(self).spec_proposals(old(self).spec_latest()).len()
                < old(self).spec_config().max_proposals && can_reserve,
            !has_identity ==> r == Err::<(), DispatchError>(
                DispatchError::Module(Error::IdentityNotFound),
            ),
            has_identity && old(self).spec_round(old(self).spec_latest()) is None ==> r == Err::<
                (),
                DispatchError,
            >(DispatchError::Module(Error::VotingRoundNotFound)),
            has_identity && old(self).spec_round(old(self).spec_latest()) is Some && old(
                self,
            ).spec_round(old(self).spec_latest()).unwrap().phase != VotingPhases::Proposal ==> r
                == Err::<(), DispatchError>(
                DispatchError::Module(Error::CanCallOnlyDuringProposalPhase),
            ),
            has_identity && old(self).spec_round(old(self).spec_latest()) is Some && old(
                self,
            ).spec_round(old(self).spec_latest()).unwrap().phase == VotingPhases::Proposal && old(
                self,
            ).spec_proposals(old(self).spec_latest()).len() >= old(
                self,
            ).spec_config().max_proposals ==> r == Err::<(), DispatchError>(
                DispatchError::Module(Error::StorageOverflow),
            ),
            has_identity && old(self).spec_round(old(self).spec_latest()) is Some && old(
                self,
            ).spec_round(old(self).spec_latest()).unwrap().phase == VotingPhases::Proposal && old(
                self,
            ).spec_proposals(old(self).spec_latest()).len() < old(
                self,
            ).spec_config().max_proposals && !can_reserve ==> r == Err::<(), DispatchError>(
                DispatchError::InsufficientBalance,
            ),
            r is Err ==> *final(self) == *old(self),
            r is Ok ==> {
                &&& final(self).spec_proposals(old(self).spec_latest()) == old(self).spec_proposals(
                    old(self).spec_latest(),
                ).push(
                    ProposalView {
                        initializer: who,
                        ayes: Seq::empty(),
                        nays: Seq::empty(),
                        bucket_id: None,
                    },
                )
                &&& proposals_preserved_except(*old(self), *final(self), old(self).spec_latest())
                &&& forall|x: VotingRoundId| final(self).spec_round(x) == old(self).spec_round(x)
                &&& final(self).spec_latest() == old(self).spec_latest()
                &&& memberships_preserved(*old(self), *final(self))
                &&& voters_preserved(*old(self), *final(self))
                &&& outcomes_preserved(*old(self), *final(self))
                &&& config_preserved(*old(self), *final(self))
                &&& final(self).spec_events() == old(self).spec_events().push(
                    Event::ProposalSubmitted(
                        old(self).spec_proposals(old(self).spec_latest()).len() as ProposalCount,
                    ),
                )
            },
    {
        // Proposals must be backed by a registered identity.
        if !has_identity {
            return Err(DispatchError::Module(Error::IdentityNotFound));
        }

        let voting_round_id = self.latest_voting_round;
        let round = match self.voting_rounds(voting_round_id) {
            None => {
                return Err(DispatchError::Module(Error::VotingRoundNotFound));
            },
            Some(m) => m,
        };

        match round.phase {
            VotingPhases::Proposal => {},
            VotingPhases::PreVoting
            | VotingPhases::Voting
            | VotingPhases::PostVoting
            | VotingPhases::Enactment
            | VotingPhases::Finalized => {
                return Err(DispatchError::Module(Error::CanCallOnlyDuringProposalPhase));
            },
        }

        let idx = (voting_round_id - self.genesis_round_id - 1) as usize;
        let current_len = self.proposals[idx].len();
        if current_len >= self.config.max_proposals as usize {
            return Err(DispatchError::Module(Error::StorageOverflow));
        }

        // The host reserves the proposal bond from the caller.
        if !can_reserve {
            return Err(DispatchError::InsufficientBalance);
        }

        let new_proposal = Proposal {
            initializer: who,
            ayes: Vec::new(),
            nays: Vec::new(),
            bucket_id: None,
        };
        self.proposals[idx].push(new_proposal);
        self.voters_voted[idx].push(Vec::new());
        self.events.push(Event::ProposalSubmitted(current_len as ProposalCount));

        proof {
            let n = old(self).rounds@.len() as int;
            let i0 = idx as int;
            assert(proposal_views(self.proposals@[i0]@) =~= proposal_views(
                old(self).proposals@[i0]@,
            ).push(
                ProposalView {
                    initializer: who,
                    ayes: Seq::empty(),
                    nays: Seq::empty(),
                    bucket_id: None,
                },
            ));
            assert forall|i: int| 0 <= i < self.rounds@.len() implies self.round_wf(i) by {
                assert(old(self).round_wf(i));
                if i != i0 {
                    assert(self.proposals@[i] == old(self).proposals@[i]);
                    assert(self.voters_voted@[i] == old(self).voters_voted@[i]);
                }
                assert forall|p: int|
                    0 <= p < self.proposals@[i]@.len() implies self.proposal_wf(i, p) by {
                    if i == i0 && p == self.proposals@[i]@.len() - 1 {
                        assert(self.proposals@[i]@[p]@.ayes.len() == 0);
                        assert(self.voters_voted@[i]@[p]@.len() == 0);
                    } else {
                        assert(old(self).proposal_wf(i, p));
                        assert(self.proposals@[i]@[p] == old(self).proposals@[i]@[p]);
                        assert(self.voters_voted@[i]@[p] == old(self).voters_voted@[i]@[p]);
                    }
                }
            }
        }

        Ok(())
    }
}

impl Pallet {
    /// Registers `who` as a voter in `bucket_id` of the latest round, bonding
    /// `votes` as their voting budget. Re-registration overwrites the earlier
    /// bond; it does not accumulate.
    ///
    /// `has_identity` is the identity oracle's answer for `who`; `can_reserve`
    /// is the bond ledger's answer to whether `votes` can be reserved from
    /// `who`. On `Ok` the host must perform that reservation.
    pub fn register_to_vote(
        &mut self,
        who: AccountId,
        has_identity: bool,
        can_reserve: bool,
        bucket_id: BucketId,
        votes: Balance,
    ) -> (r: DispatchResult)
        requires
            old(self).wf(),
        ensures
            final(self).wf(),
            r is Ok <==> bucket_id <= old(self).spec_config().bucket_size && has_identity && old(
                self,
            ).spec_round(old(self).spec_latest()) is Some && old(self).spec_round(
                old(self).spec_latest(),
            ).unwrap().phase == VotingPhases::PreVoting && old(self).spec_proposals(
                old(self).spec_latest(),
            ).len() > 0 && can_reserve,
            bucket_id > old(self).spec_config().bucket_size ==> r == Err::<(), DispatchError>(
                DispatchError::Module(Error::InvalidBucketId),
            ),
            bucket_id <= old(self).spec_config().bucket_size && !has_identity ==> r == Err::<
                (),
                DispatchError,
            >(DispatchError::Module(Error::IdentityNotFound)),
            bucket_id <= old(self).spec_config().bucket_size && has_identity && old(
                self,
            ).spec_round(old(self).spec_latest()) is None ==> r == Err::<(), DispatchError>(
                DispatchError::Module(Error::VotingRoundNotFound),
            ),
            bucket_id <= old(self).spec_config().bucket_size && has_identity && old(
                self,
            ).spec_round(old(self).spec_latest()) is Some && old(self).spec_round(
                old(self).spec_latest(),
            ).unwrap().phase != VotingPhases::PreVoting ==> r == Err::<(), DispatchError>(
                DispatchError::Module(Error::CanCallOnlyDuringPreVotingPhase),
            ),
            bucket_id <= old(self).spec_config().bucket_size && has_identity && old(
                self,
            ).spec_round(old(self).spec_latest()) is Some && old(self).spec_round(
                old(self).spec_latest(),
            ).unwrap().phase == VotingPhases::PreVoting && old(self).spec_proposals(
                old(self).spec_latest(),
            ).len() == 0 ==> r == Err::<(), DispatchError>(
                DispatchError::Module(Error::NoProposals),
            ),
            bucket_id <= old(self).spec_config().bucket_size && has_identity && old(
                self,
            ).spec_round(old(self).spec_latest()) is Some && old(self).spec_round(
                old(self).spec_latest(),
            ).unwrap().phase == VotingPhases::PreVoting && old(self).spec_proposals(
                old(self).spec_latest(),
            ).len() > 0 && !can_reserve ==> r == Err::<(), DispatchError>(
                DispatchError::InsufficientBalance,
            ),
            r is Err ==> *final(self) == *old(self),
            r is Ok ==> {
                &&& final(self).spec_membership(old(self).spec_latest(), bucket_id, who) == Some(
                    (votes, votes),
                )
                &&& forall|x: VotingRoundId, b: BucketId, v: AccountId|
                    !(x == old(self).spec_latest() && b == bucket_id && v == who)
                        ==> final(self).spec_membership(x, b, v) == old(self).spec_membership(
                        x,
                        b,
                        v,
                    )
                &&& forall|x: VotingRoundId| final(self).spec_round(x) == old(self).spec_round(x)
                &&& forall|x: VotingRoundId|
                    final(self).spec_proposals(x) == old(self).spec_proposals(x)
                &&& final(self).spec_latest() == old(self).spec_latest()
                &&& voters_preserved(*old(self), *final(self))
                &&& outcomes_preserved(*old(self), *final(self))
                &&& config_preserved(*old(self), *final(self))
                &&& final(self).spec_events() == old(self).spec_events()
            },
    {
        if bucket_id > self.config.bucket_size {
            return Err(DispatchError::Module(Error::InvalidBucketId));
        }

        // Voters must be backed by a registered identity.
        if !has_identity {
            return Err(DispatchError::Module(Error::IdentityNotFound));
        }

        let voting_round_id = self.latest_voting_round;
        let round = match self.voting_rounds(voting_round_id) {
            None => {
                return Err(DispatchError::Module(Error::VotingRoundNotFound));
            },
            Some(m) => m,
        };

        match round.phase {
            VotingPhases::PreVoting => {},
            VotingPhases::Proposal
            | VotingPhases::Voting
            | VotingPhases::PostVoting
            | VotingPhases::Enactment
            | VotingPhases::Finalized => {
                return Err(DispatchError::Module(Error::CanCallOnlyDuringPreVotingPhase));
            },
        }

        let idx = (voting_round_id - self.genesis_round_id - 1) as usize;
        if self.proposals[idx].len() == 0 {
            return Err(DispatchError::Module(Error::NoProposals));
        }

        // The host reserves the bonded amount from the caller.
        if !can_reserve {
            return Err(DispatchError::InsufficientBalance);
        }

        let entry = BucketMembership {
            bucket_id,
            voter: who,
            total_bond: votes,
            remaining_bond: votes,
        };
        self.memberships[idx].push(entry);

        proof {
            let i0 = idx as int;
            let log = old(self).memberships@[i0]@;
            assert(self.memberships@[i0]@ =~= log.push(entry));
            lemma_lookup_push(log, entry, bucket_id, who);
            assert forall|x: VotingRoundId, b: BucketId, v: AccountId|
                !(x == old(self).spec_latest() && b == bucket_id && v == who) implies self
                .spec_membership(x, b, v) == old(self).spec_membership(x, b, v) by {
                if old(self).has_round(x) && old(self).round_index(x) == i0 {
                    lemma_lookup_push(log, entry, b, v);
                }
            }
            assert forall|i: int| 0 <= i < self.rounds@.len() implies self.round_wf(i) by {
                assert(old(self).round_wf(i));
                assert forall|p: int|
                    0 <= p < self.proposals@[i]@.len() implies self.proposal_wf(i, p) by {
                    assert(old(self).proposal_wf(i, p));
                    if i == i0 {
                        let prop = self.proposals@[i]@[p]@;
                        let vlist = self.voters_voted@[i]@[p]@;
                        assert forall|k: int| 0 <= k < vlist.len() implies membership_lookup(
                            self.memberships@[i]@,
                            prop.bucket_id.unwrap(),
                            vlist[k],
                        ) is Some by {
                            lemma_lookup_push(log, entry, prop.bucket_id.unwrap(), vlist[k]);
                        }
                    }
                }
            }
        }

        Ok(())
    }
}

/// The quadratic weight of a bonded vote amount: its integer square root.
/// For an unsigned balance the square root is always defined, so this never
/// fails.
pub fn get_vote_from_bond(bond: Balance) -> (r: Result<Balance, Error>)
    ensures
        r is Ok,
        crate::math::is_integer_sqrt(bond as int, r.unwrap() as int),
{
    Ok(crate::math::integer_sqrt(bond))
}

/// Whether `who` appears in `list`.
fn contains_account(list: &Vec<AccountId>, who: AccountId) -> (r: bool)
    ensures
        r == list@.contains(who),
{
    let mut i: usize = 0;
    while i < list.len()
        invariant
            i <= list@.len(),
            forall|j: int| 0 <= j < i ==> list@[j] != who,
        decreases list@.len() - i,
    {
        if list[i] == who {
            proof {
                assert(list@[i as int] == who);
            }
            return true;
        }
        i = i + 1;
    }
    false
}

/// A proposal's content after one vote of weight `w` in `direction` lands on
/// it.
pub open spec fn with_vote(p: ProposalView, direction: VoteDirection, w: Balance) -> ProposalView {
    ProposalView {
        initializer: p.initializer,
        ayes: if direction == VoteDirection::Aye {
            p.ayes.push(w)
        } else {
            p.ayes
        },
        nays: if direction == VoteDirection::Nay {
            p.nays.push(w)
        } else {
            p.nays
        },
        bucket_id: p.bucket_id,
    }
}

impl Pallet {
    /// The result `vote` owes for the given call, decided check by check in
    /// the order the checks run.
    pub open spec fn spec_vote_outcome(
        &self,
        who: AccountId,
        proposal_id: ProposalCount,
        amount: Balance,
        direction: VoteDirection,
    ) -> DispatchResult {
        let id = self.spec_latest();
        let props = self.spec_proposals(id);
        if self.spec_round(id) is None {
            Err(DispatchError::Module(Error::VotingRoundNotFound))
        } else if self.spec_round(id).unwrap().phase != VotingPhases::Voting {
            Err(DispatchError::Module(Error::CanCallOnlyDuringVotingPhase))
        } else if props.len() == 0 {
            Err(DispatchError::Module(Error::NoProposals))
        } else if proposal_id >= props.len() {
            Err(DispatchError::Module(Error::ProposalNotFound))
        } else if self.spec_voters(id, proposal_id).contains(who) {
            Err(DispatchError::Module(Error::VoterHasVotedForThisProposal))
        } else if self.spec_membership(
            id,
            props[proposal_id as int].bucket_id.unwrap(),
            who,
        ) is None {
            Err(DispatchError::Module(Error::NoTokensBonded))
        } else if amount > self.spec_membership(
            id,
            props[proposal_id as int].bucket_id.unwrap(),
            who,
        ).unwrap().1 {
            Err(DispatchError::Module(Error::CannotVoteMoreThanBond))
        } else if (if direction == VoteDirection::Aye {
            props[proposal_id as int].ayes.len()
        } else {
            props[proposal_id as int].nays.len()
        }) >= self.spec_config().max_votes || self.spec_voters(id, proposal_id).len()
            >= self.spec_config().max_votes {
            Err(DispatchError::Module(Error::StorageOverflow))
        } else {
            Ok(())
        }
    }

    /// Casts a vote of `amount` on proposal `proposal_id` of the latest round.
    ///
    /// The recorded weight is the integer square root of `amount`, and the
    /// voter's remaining bond is reduced by that same square root — not by
    /// `amount`; this asymmetry is preserved deliberately. No bond operation
    /// happens here: the budget was reserved at registration.
    pub fn vote(
        &mut self,
        who: AccountId,
        proposal_id: ProposalCount,
        amount: Balance,
        direction: VoteDirection,
    ) -> (r: DispatchResult)
        requires
            old(self).wf(),
        ensures
            final(self).wf(),
            r == old(self).spec_vote_outcome(who, proposal_id, amount, direction),
            r is Err ==> *final(self) == *old(self),
            r is Ok ==> {
                let id = old(self).spec_latest();
                let oldp = old(self).spec_proposals(id)[proposal_id as int];
                let bucket = oldp.bucket_id.unwrap();
                let bond = old(self).spec_membership(id, bucket, who).unwrap();
                &&& forall|w: Balance|
                    crate::math::is_integer_sqrt(amount as int, w as int) ==> {
                        &&& final(self).spec_proposals(id) == old(self).spec_proposals(id).update(
                            proposal_id as int,
                            with_vote(oldp, direction, w),
                        )
                        &&& final(self).spec_membership(id, bucket, who) == Some(
                            (bond.0, (bond.1 - w) as Balance),
                        )
                    }
                &&& final(self).spec_voters(id, proposal_id) == old(self).spec_voters(
                    id,
                    proposal_id,
                ).push(who)
                &&& forall|x: VotingRoundId, b: BucketId, v: AccountId|
                    !(x == id && b == bucket && v == who)
                        ==> final(self).spec_membership(x, b, v) == old(self).spec_membership(
                        x,
                        b,
                        v,
                    )
                &&& forall|x: VotingRoundId, p2: ProposalCount|
                    !(x == id && p2 == proposal_id) ==> final(self).spec_voters(x, p2) == old(
                        self,
                    ).spec_voters(x, p2)
                &&& proposals_preserved_except(*old(self), *final(self), id)
                &&& forall|x: VotingRoundId| final(self).spec_round(x) == old(self).spec_round(x)
                &&& final(self).spec_latest() == old(self).spec_latest()
                &&& outcomes_preserved(*old(self), *final(self))
                &&& config_preserved(*old(self), *final(self))
                &&& final(self).spec_events() == old(self).spec_events()
            },
    {
        let voting_round_id = self.latest_voting_round;
        let round = match self.voting_rounds(voting_round_id) {
            None => {
                return Err(DispatchError::Module(Error::VotingRoundNotFound));
            },
            Some(m) => m,
        };

        match round.phase {
            VotingPhases::Voting => {},
            VotingPhases::Proposal
            | VotingPhases::PreVoting
            | VotingPhases::PostVoting
            | VotingPhases::Enactment
            | VotingPhases::Finalized => {
                return Err(DispatchError::Module(Error::CanCallOnlyDuringVotingPhase));
            },
        }

        let idx = (voting_round_id - self.genesis_round_id - 1) as usize;
        if self.proposals[idx].len() == 0 {
            return Err(DispatchError::Module(Error::NoProposals));
        }
        if proposal_id as usize >= self.proposals[idx].len() {
            return Err(DispatchError::Module(Error::ProposalNotFound));
        }
        let pid = proposal_id as usize;
        proof {
            assert(old(self).round_wf(idx as int));
            assert(old(self).proposal_wf(idx as int, pid as int));
        }

        if contains_account(&self.voters_voted[idx][pid], who) {
            return Err(DispatchError::Module(Error::VoterHasVotedForThisProposal));
        }

        // Bucket assignment happened when the round left its Proposal phase.
        let attached_bucket_id: BucketId = match self.proposals[idx][pid].bucket_id {
            Some(b) => b,
            None => {
                proof {
                    assert(false);
                }
                0
            },
        };

        let bonded_tokens = match find_membership(&self.memberships[idx], attached_bucket_id, who) {
            None => {
                return Err(DispatchError::Module(Error::NoTokensBonded));
            },
            Some(t) => t,
        };

        if amount > bonded_tokens.1 {
            return Err(DispatchError::Module(Error::CannotVoteMoreThanBond));
        }

        let weight = match get_vote_from_bond(amount) {
            Ok(w) => w,
            Err(e) => {
                return Err(DispatchError::Module(e));
            },
        };

        let cap = self.config.max_votes as usize;
        let tally_len = if matches!(direction, VoteDirection::Aye) {
            self.proposals[idx][pid].ayes.len()
        } else {
            self.proposals[idx][pid].nays.len()
        };
        if tally_len >= cap || self.voters_voted[idx][pid].len() >= cap {
            return Err(DispatchError::Module(Error::StorageOverflow));
        }

        proof {
            crate::math::lemma_integer_sqrt_le(amount as int, weight as int);
            crate::math::lemma_integer_sqrt_fits_u64(amount as int, weight as int);
        }

        match direction {
            VoteDirection::Aye => self.proposals[idx][pid].ayes.push(weight),
            VoteDirection::Nay => self.proposals[idx][pid].nays.push(weight),
        }
        let entry = BucketMembership {
            bucket_id: attached_bucket_id,
            voter: who,
            total_bond: bonded_tokens.0,
            remaining_bond: bonded_tokens.1 - weight,
        };
        self.memberships[idx].push(entry);
        self.voters_voted[idx][pid].push(who);

        proof {
            let i0 = idx as int;
            let p0 = pid as int;
            let id = old(self).spec_latest();
            let log = old(self).memberships@[i0]@;
            assert(self.memberships@[i0]@ =~= log.push(entry));

            lemma_lookup_push(log, entry, attached_bucket_id, who);

            // The stored proposal list now reads as the old one with one vote
            // added at `p0`, and the voter's remaining budget shrank by the
            // vote's weight.
            assert forall|w: Balance|
                crate::math::is_integer_sqrt(amount as int, w as int) implies ({
                &&& self.spec_proposals(id) == old(self).spec_proposals(id).update(
                    p0,
                    with_vote(old(self).spec_proposals(id)[p0], direction, w),
                )
                &&& self.spec_membership(id, attached_bucket_id, who) == Some(
                    (bonded_tokens.0, (bonded_tokens.1 - w) as Balance),
                )
            }) by {
                crate::math::lemma_integer_sqrt_unique(amount as int, w as int, weight as int);
                assert(proposal_views(self.proposals@[i0]@) =~= proposal_views(
                    old(self).proposals@[i0]@,
                ).update(p0, with_vote(old(self).spec_proposals(id)[p0], direction, weight)));
            }

            assert(self.voters_voted@[i0]@[p0]@ =~= old(self).voters_voted@[i0]@[p0]@.push(who));

            assert forall|x: VotingRoundId, b: BucketId, v: AccountId|
                !(x == id && b == attached_bucket_id && v == who) implies self.spec_membership(
                x,
                b,
                v,
            ) == old(self).spec_membership(x, b, v) by {
                if old(self).has_round(x) && old(self).round_index(x) == i0 {
                    lemma_lookup_push(log, entry, b, v);
                }
            }

            assert forall|i: int| 0 <= i < self.rounds@.len() implies self.round_wf(i) by {
                assert(old(self).round_wf(i));
                assert forall|p: int|
                    0 <= p < self.proposals@[i]@.len() implies self.proposal_wf(i, p) by {
                    assert(old(self).proposal_wf(i, p));
                    if i == i0 {
                        let prop = self.proposals@[i]@[p]@;
                        let vlist = self.voters_voted@[i]@[p]@;
                        assert forall|k: int| 0 <= k < vlist.len() implies membership_lookup(
                            self.memberships@[i]@,
                            prop.bucket_id.unwrap(),
                            vlist[k],
                        ) is Some by {
                            lemma_lookup_push(log, entry, prop.bucket_id.unwrap(), vlist[k]);
                            if i == i0 && p == p0 && k == vlist.len() - 1 {
                                assert(vlist[k] == who);
                            }
                        }
                    }
                }
            }
        }

        Ok(())
    }
}

/// The total of a tally: the sum of the recorded vote weights.
pub open spec fn sum_weights(s: Seq<Balance>) -> int
    decreases s.len(),
{
    if s.len() == 0 {
        0
    } else {
        sum_weights(s.drop_last()) + s.last()
    }
}

/// A sum of weights each at most `bound` is at most `len * bound`.
pub proof fn lemma_sum_weights_bound(s: Seq<Balance>, bound: int)
    requires
        bound >= 0,
        forall|k: int| 0 <= k < s.len() ==> s[k] <= bound,
    ensures
        0 <= sum_weights(s) <= s.len() * bound,
    decreases s.len(),
{
    if s.len() > 0 {
        lemma_sum_weights_bound(s.drop_last(), bound);
        assert((s.len() - 1) * bound + bound == s.len() * bound) by (nonlinear_arith);
        assert(s.last() <= bound);
    }
}

/// The outcome of one proposal: whichever of the aye and nay totals is
/// strictly larger wins; a tie falls to `Nay`.
pub open spec fn outcome_for(p: ProposalView) -> (Balance, VoteDirection) {
    if sum_weights(p.ayes) > sum_weights(p.nays) {
        (sum_weights(p.ayes) as Balance, VoteDirection::Aye)
    } else {
        (sum_weights(p.nays) as Balance, VoteDirection::Nay)
    }
}

/// The outcomes of a whole proposal list, in proposal order.
pub open spec fn outcomes_for(props: Seq<ProposalView>) -> Seq<(Balance, VoteDirection)> {
    props.map_values(|p: ProposalView| outcome_for(p))
}

/// Sums one tally. The weights are integer square roots, so they fit in 64
/// bits and a bounded list of them cannot overflow a `Balance`.
#[verifier::loop_isolation(false)]
fn sum_tally(s: &Vec<Balance>) -> (r: Balance)
    requires
        s@.len() <= u32::MAX,
        forall|k: int| 0 <= k < s@.len() ==> s@[k] <= u64::MAX,
    ensures
        r == sum_weights(s@),
{
    let mut acc: Balance = 0;
    let mut i: usize = 0;
    proof {
        assert(s@.take(0) =~= Seq::<Balance>::empty());
    }
    while i < s.len()
        invariant
            i <= s@.len(),
            acc == sum_weights(s@.take(i as int)),
        decreases s@.len() - i,
    {
        proof {
            lemma_sum_weights_bound(s@.take(i as int), u64::MAX as int);
            assert((i as int) * (u64::MAX as int) <= (u32::MAX as int) * (u64::MAX as int))
                by (nonlinear_arith)
                requires
                    0 <= i as int <= u32::MAX as int,
            ;
            assert(s@.take(i as int + 1).drop_last() =~= s@.take(i as int));
            assert(s@.take(i as int + 1).last() == s@[i as int]);
        }
        acc = acc + s[i];
        i = i + 1;
    }
    proof {
        assert(s@.take(s@.len() as int) =~= s@);
    }
    acc
}

/// Tallies every proposal of a list: its aye total, its nay total, and the
/// winning direction, ties to `Nay`.
#[verifier::loop_isolation(false)]
fn tally_outcomes(props: &Vec<Proposal>) -> (r: Vec<(Balance, VoteDirection)>)
    requires
        forall|p: int|
            0 <= p < props@.len() ==> props@[p]@.ayes.len() <= u32::MAX && props@[p]@.nays.len()
                <= u32::MAX,
        forall|p: int, k: int|
            0 <= p < props@.len() && 0 <= k < props@[p]@.ayes.len() ==> props@[p]@.ayes[k]
                <= u64::MAX,
        forall|p: int, k: int|
            0 <= p < props@.len() && 0 <= k < props@[p]@.nays.len() ==> props@[p]@.nays[k]
                <= u64::MAX,
    ensures
        r@ == outcomes_for(proposal_views(props@)),
{
    let mut out: Vec<(Balance, VoteDirection)> = Vec::new();
    let mut i: usize = 0;
    while i < props.len()
        invariant
            i <= props@.len(),
            out@.len() == i,
            forall|p: int| 0 <= p < i ==> out@[p] == outcome_for(props@[p]@),
        decreases props@.len() - i,
    {
        let ayes = sum_tally(&props[i].ayes);
        let nays = sum_tally(&props[i].nays);
        proof {
            lemma_sum_weights_bound(props@[i as int]@.ayes, u64::MAX as int);
            lemma_sum_weights_bound(props@[i as int]@.nays, u64::MAX as int);
        }
        if ayes > nays {
            out.push((ayes, VoteDirection::Aye));
        } else {
            out.push((nays, VoteDirection::Nay));
        }
        i = i + 1;
    }
    proof {
        assert(out@ =~= outcomes_for(proposal_views(props@)));
    }
    out
}

/// The bond refunded to a voter: the full `total_bond` they registered in the
/// proposal's bucket, regardless of how much voting cost them.
pub open spec fn bond_of(
    members: Seq<BucketMembership>,
    bucket: Option<BucketId>,
    v: AccountId,
) -> Balance {
    match bucket {
        Some(b) => match membership_lookup(members, b, v) {
            Some(t) => t.0,
            None => 0,
        },
        None => 0,
    }
}

/// The refunds owed to the voters recorded on one proposal, in voting order.
pub open spec fn voter_refunds(
    members: Seq<BucketMembership>,
    bucket: Option<BucketId>,
    vs: Seq<AccountId>,
) -> Seq<(AccountId, Balance)> {
    vs.map_values(|v: AccountId| (v, bond_of(members, bucket, v)))
}

/// The refunds one proposal gives rise to: its submitter's proposal bond,
/// then its voters' bonds.
pub open spec fn proposal_refund_seq(
    config: Config,
    members: Seq<BucketMembership>,
    p: ProposalView,
    vs: Seq<AccountId>,
) -> Seq<(AccountId, Balance)> {
    seq![(p.initializer, config.bond_for_proposal)] + voter_refunds(members, p.bucket_id, vs)
}

/// The refunds of the first `n` proposals, in proposal order.
pub open spec fn refunds_upto(
    config: Config,
    members: Seq<BucketMembership>,
    props: Seq<ProposalView>,
    voters: Seq<Seq<AccountId>>,
    n: int,
) -> Seq<(AccountId, Balance)>
    decreases n,
{
    if n <= 0 {
        Seq::empty()
    } else {
        refunds_upto(config, members, props, voters, n - 1) + proposal_refund_seq(
            config,
            members,
            props[n - 1],
            voters[n - 1],
        )
    }
}

/// Builds the refund list of a round that leaves its PostVoting phase: the
/// round bond to the round's initializer, then for each proposal its bond to
/// its submitter followed by every recorded voter's full bonded amount.
#[verifier::loop_isolation(false)]
fn compute_refunds(
    config: &Config,
    round_initializer: AccountId,
    round_bond: Balance,
    props: &Vec<Proposal>,
    voters: &Vec<Vec<AccountId>>,
    members: &Vec<BucketMembership>,
) -> (r: Vec<(AccountId, Balance)>)
    requires
        voters@.len() == props@.len(),
    ensures
        r@ == seq![(round_initializer, round_bond)] + refunds_upto(
            *config,
            members@,
            proposal_views(props@),
            voters@.map_values(|l: Vec<AccountId>| l@),
            props@.len() as int,
        ),
{
    let ghost all_props = proposal_views(props@);
    let ghost all_voters = voters@.map_values(|l: Vec<AccountId>| l@);
    let mut out: Vec<(AccountId, Balance)> = Vec::new();
    out.push((round_initializer, round_bond));
    let mut i: usize = 0;
    proof {
        assert(out@ =~= seq![(round_initializer, round_bond)] + refunds_upto(
            *config,
            members@,
            all_props,
            all_voters,
            0,
        ));
    }
    while i < props.len()
        invariant
            i <= props@.len(),
            out@ == seq![(round_initializer, round_bond)] + refunds_upto(
                *config,
                members@,
                all_props,
                all_voters,
                i as int,
            ),
        decreases props@.len() - i,
    {
        out.push((props[i].initializer, config.bond_for_proposal));
        let bucket = props[i].bucket_id;
        let vlist = &voters[i];
        let mut k: usize = 0;
        while k < vlist.len()
            invariant
                k <= vlist@.len(),
                out@ == seq![(round_initializer, round_bond)] + refunds_upto(
                    *config,
                    members@,
                    all_props,
                    all_voters,
                    i as int,
                ) + seq![(props@[i as int]@.initializer, config.bond_for_proposal)]
                    + voter_refunds(members@, bucket, vlist@.take(k as int)),
            decreases vlist@.len() - k,
        {
            let v = vlist[k];
            let amount: Balance = match bucket {
                Some(b) => match find_membership(members, b, v) {
                    Some(t) => t.0,
                    None => 0,
                },
                None => 0,
            };
            out.push((v, amount));
            proof {
                assert(voter_refunds(members@, bucket, vlist@.take(k as int + 1)) =~= voter_refunds(
                    members@,
                    bucket,
                    vlist@.take(k as int),
                ).push((v, bond_of(members@, bucket, v))));
                assert(out@ =~= seq![(round_initializer, round_bond)] + refunds_upto(
                    *config,
                    members@,
                    all_props,
                    all_voters,
                    i as int,
                ) + seq![(props@[i as int]@.initializer, config.bond_for_proposal)]
                    + voter_refunds(members@, bucket, vlist@.take(k as int + 1)));
            }
            k = k + 1;
        }
        proof {
            assert(vlist@.take(vlist@.len() as int) =~= vlist@);
            assert(all_voters[i as int] == vlist@);
            assert(out@ =~= seq![(round_initializer, round_bond)] + refunds_upto(
                *config,
                members@,
                all_props,
                all_voters,
                i as int + 1,
            ));
        }
        i = i + 1;
    }
    out
}

/// `m` with its phase replaced and everything else kept.
pub open spec fn with_phase(m: VotingRoundMetadata, p: VotingPhases) -> VotingRoundMetadata {
    VotingRoundMetadata {
        initializer: m.initializer,
        proposal_phase: m.proposal_phase,
        previous_round_id: m.previous_round_id,
        pre_voting_phase: m.pre_voting_phase,
        voting_phase: m.voting_phase,
        post_voting_phase: m.post_voting_phase,
        enactment_phase: m.enactment_phase,
        finalized_block: m.finalized_block,
        phase: p,
    }
}

impl Pallet {
    /// The voter lists of all of round `id`'s proposals, in proposal order.
    pub closed spec fn spec_all_voters(&self, id: VotingRoundId) -> Seq<Seq<AccountId>> {
        if self.has_round(id) && self.round_index(id) < self.voters_voted@.len() {
            self.voters_voted@[self.round_index(id)]@.map_values(|l: Vec<AccountId>| l@)
        } else {
            Seq::empty()
        }
    }

    /// Round `id`'s membership log, oldest entry first; the latest entry for
    /// a `(bucket, voter)` key is the one that counts.
    pub closed spec fn spec_memberships_log(&self, id: VotingRoundId) -> Seq<BucketMembership> {
        if self.has_round(id) && self.round_index(id) < self.memberships@.len() {
            self.memberships@[self.round_index(id)]@
        } else {
            Seq::empty()
        }
    }

    /// What a recorded membership reads as, in terms of the log.
    pub proof fn lemma_membership_is_log_lookup(
        &self,
        id: VotingRoundId,
        b: BucketId,
        v: AccountId,
    )
        requires
            self.has_round(id),
        ensures
            self.spec_membership(id, b, v) == membership_lookup(
                self.spec_memberships_log(id),
                b,
                v,
            ),
    {
    }

    /// The per-proposal voter lists agree with `spec_voters`, and run parallel
    /// to the proposal list.
    pub proof fn lemma_all_voters_agree(&self, id: VotingRoundId)
        requires
            self.wf(),
            self.has_round(id),
        ensures
            self.spec_all_voters(id).len() == self.spec_proposals(id).len(),
            forall|pid: ProposalCount|
                0 <= pid < self.spec_proposals(id).len()
                    ==> self.spec_all_voters(id)[pid as int] == self.spec_voters(id, pid),
    {
        assert(self.round_wf(self.round_index(id)));
    }

    /// A round exists exactly when its metadata reads as `Some`.
    pub proof fn lemma_has_round(&self, id: VotingRoundId)
        ensures
            self.has_round(id) <==> self.spec_round(id) is Some,
    {
    }

    /// A recorded voter always has a bucket to vote in and a recorded bond:
    /// `vote` only records a voter after finding the proposal's bucket and the
    /// voter's membership in it.
    pub proof fn lemma_recorded_voter_has_bond(&self, id: VotingRoundId, pid: ProposalCount, k: int)
        requires
            self.wf(),
            self.has_round(id),
            0 <= pid < self.spec_proposals(id).len(),
            0 <= k < self.spec_voters(id, pid).len(),
        ensures
            self.spec_proposals(id)[pid as int].bucket_id is Some,
            self.spec_membership(
                id,
                self.spec_proposals(id)[pid as int].bucket_id.unwrap(),
                self.spec_voters(id, pid)[k],
            ) is Some,
    {
        assert(self.round_wf(self.round_index(id)));
        assert(self.proposal_wf(self.round_index(id), pid as int));
    }

    /// The refunds a round owes when it leaves its PostVoting phase: the round
    /// bond to its initializer, then, per proposal, the proposal bond to its
    /// submitter and every recorded voter's full bonded amount, exactly once
    /// per recorded vote.
    pub open spec fn spec_refunds(&self, id: VotingRoundId) -> Seq<(AccountId, Balance)> {
        seq![
            (self.spec_round(id).unwrap().initializer, self.spec_config().bond_for_voting_round),
        ] + refunds_upto(
            self.spec_config(),
            self.spec_memberships_log(id),
            self.spec_proposals(id),
            self.spec_all_voters(id),
            self.spec_proposals(id).len() as int,
        )
    }

    /// The driver will advance the latest round at block `b`: the round
    /// exists, is not `Finalized`, and `b` is its current window's end block.
    pub open spec fn driver_steps(&self, b: BlockNumber) -> bool {
        let id = self.spec_latest();
        &&& id > 0
        &&& self.spec_round(id) is Some
        &&& self.spec_round(id).unwrap().phase != VotingPhases::Finalized
        &&& b == self.spec_round(id).unwrap().current_window_end()
    }

    /// The per-block phase driver. Advances the latest round's phase when the
    /// current block is that phase's end block, performing the transition's
    /// side effects: the Proposal-to-PreVoting shuffle-and-bucket with the
    /// given randomness draw, the Voting-to-PostVoting tally, and the
    /// PostVoting-to-Enactment refund computation.
    ///
    /// Returns a resource-cost accounting number and the bond refunds the
    /// host must now perform, in order.
    pub fn on_initialize(&mut self, block_number: BlockNumber, random_draw: &Vec<u8>) -> (r: (
        u64,
        Vec<(AccountId, Balance)>,
    ))
        requires
            old(self).wf(),
            old(self).spec_latest() > 0 ==> old(self).spec_round(old(self).spec_latest()) is Some,
        ensures
            final(self).wf(),
            final(self).spec_latest() == old(self).spec_latest(),
            config_preserved(*old(self), *final(self)),
            memberships_preserved(*old(self), *final(self)),
            voters_preserved(*old(self), *final(self)),
            rounds_preserved_except(*old(self), *final(self), old(self).spec_latest()),
            proposals_preserved_except(*old(self), *final(self), old(self).spec_latest()),
            forall|x: VotingRoundId, pid: ProposalCount|
                x != old(self).spec_latest() ==> final(self).spec_outcome(x, pid) == old(
                    self,
                ).spec_outcome(x, pid),
            !old(self).driver_steps(block_number) ==> *final(self) == *old(self) && r.1@.len()
                == 0,
            old(self).driver_steps(block_number) ==> ({
                let id = old(self).spec_latest();
                let m = old(self).spec_round(id).unwrap();
                let props = old(self).spec_proposals(id);
                &&& final(self).spec_round(id) == Some(with_phase(m, next_phase(m.phase)))
                &&& final(self).spec_events() == old(self).spec_events().push(
                    Event::PhaseTransition((next_phase(m.phase), id)),
                )
                &&& (m.phase == VotingPhases::Proposal ==> {
                    &&& final(self).spec_proposals(id).len() == props.len()
                    &&& forall|i: int|
                        0 <= i < props.len() ==> final(self).spec_proposals(id)[i]
                            == crate::shuffle::bucketed_view(
                            crate::shuffle::shuffled_by(
                                crate::shuffle::seed_seq(random_draw@),
                                props,
                            )[i],
                            old(self).spec_config().bucket_size,
                            i,
                        )
                    &&& (props.len() > 0 ==> crate::shuffle::shuffled_by(
                        crate::shuffle::seed_seq(random_draw@),
                        props,
                    ).to_multiset() == props.to_multiset())
                    &&& r.1@.len() == 0
                })
                &&& (m.phase != VotingPhases::Proposal ==> final(self).spec_proposals(id)
                    == props)
                &&& (m.phase == VotingPhases::Voting ==> forall|pid: ProposalCount|
                    final(self).spec_outcome(id, pid) == if 0 <= pid < props.len() {
                        Some(outcome_for(props[pid as int]))
                    } else {
                        None::<(Balance, VoteDirection)>
                    })
                &&& (m.phase != VotingPhases::Voting ==> forall|pid: ProposalCount|
                    final(self).spec_outcome(id, pid) == old(self).spec_outcome(id, pid))
                &&& (m.phase == VotingPhases::PostVoting ==> r.1@ == old(self).spec_refunds(id))
                &&& (m.phase != VotingPhases::PostVoting ==> r.1@.len() == 0)
            }),
    {
        let mut weight: u64 = 1;
        let voting_round_id = self.latest_voting_round;
        if voting_round_id == 0 {
            return (weight, Vec::new());
        }

        weight = weight + 1;
        let idx = (voting_round_id - self.genesis_round_id - 1) as usize;
        let round = self.rounds[idx];
        proof {
            assert(old(self).round_wf(idx as int));
        }
        let mut refunds: Vec<(AccountId, Balance)> = Vec::new();

        match round.phase {
            VotingPhases::Proposal => {
                if block_number == round.proposal_phase.end_block {
                    // Group the proposals into buckets, in a shuffled order
                    // drawn from the block's randomness.
                    weight = weight + 1;
                    weight = weight + self.config.max_proposals as u64;
                    if self.proposals[idx].len() > 0 {
                        let mut list: Vec<Proposal> = Vec::new();
                        core::mem::swap(&mut list, &mut self.proposals[idx]);
                        let bucketed = crate::shuffle::shuffle_and_bucket(
                            random_draw,
                            list,
                            self.config.bucket_size,
                        );
                        self.proposals[idx] = bucketed;
                    }
                    weight = weight + 1;
                    self.rounds[idx].phase = VotingPhases::PreVoting;
                    self.events.push(
                        Event::PhaseTransition((VotingPhases::PreVoting, voting_round_id)),
                    );
                }
            },
            VotingPhases::PreVoting => {
                if block_number == round.pre_voting_phase.end_block {
                    weight = weight + 1;
                    self.rounds[idx].phase = VotingPhases::Voting;
                    self.events.push(
                        Event::PhaseTransition((VotingPhases::Voting, voting_round_id)),
                    );
                }
            },
            VotingPhases::Voting => {
                if block_number == round.voting_phase.end_block {
                    // Tally every proposal and store its outcome.
                    weight = weight + self.config.max_proposals as u64;
                    proof {
                        assert forall|p: int, k: int|
                            0 <= p < self.proposals@[idx as int]@.len() && 0 <= k
                                < self.proposals@[idx as int]@[p]@.ayes.len() implies self.proposals@[idx as int]@[p]@.ayes[k]
                            <= u64::MAX by {
                            assert(old(self).proposal_wf(idx as int, p));
                        }
                        assert forall|p: int, k: int|
                            0 <= p < self.proposals@[idx as int]@.len() && 0 <= k
                                < self.proposals@[idx as int]@[p]@.nays.len() implies self.proposals@[idx as int]@[p]@.nays[k]
                            <= u64::MAX by {
                            assert(old(self).proposal_wf(idx as int, p));
                        }
                        assert forall|p: int|
                            0 <= p < self.proposals@[idx as int]@.len()
                            implies self.proposals@[idx as int]@[p]@.ayes.len() <= u32::MAX && self.proposals@[idx as int]@[p]@.nays.len()
                            <= u32::MAX by {
                            assert(old(self).proposal_wf(idx as int, p));
                        }
                    }
                    let tallied = tally_outcomes(&self.proposals[idx]);
                    self.outcomes[idx] = tallied;
                    weight = weight + 1;
                    self.rounds[idx].phase = VotingPhases::PostVoting;
                    self.events.push(
                        Event::PhaseTransition((VotingPhases::PostVoting, voting_round_id)),
                    );
                }
            },
            VotingPhases::PostVoting => {
                if block_number == round.post_voting_phase.end_block {
                    // Return the round bond, the proposal bonds, and every
                    // recorded voter's full bonded amount.
                    weight = weight + 1;
                    weight = weight + self.config.max_proposals as u64;
                    proof {
                        assert((self.proposals@[idx as int]@.len() as int) * (
                        self.config.max_votes as int) <= (u32::MAX as int) * (u32::MAX as int))
                            by (nonlinear_arith)
                            requires
                                0 <= self.proposals@[idx as int]@.len() <= u32::MAX,
                                0 <= self.config.max_votes <= u32::MAX,
                        ;
                    }
                    weight = weight + (self.proposals[idx].len() as u64) * (
                    self.config.max_votes as u64);
                    refunds = compute_refunds(
                        &self.config,
                        round.initializer,
                        self.config.bond_for_voting_round,
                        &self.proposals[idx],
                        &self.voters_voted[idx],
                        &self.memberships[idx],
                    );
                    weight = weight + 1;
                    self.rounds[idx].phase = VotingPhases::Enactment;
                    self.events.push(
                        Event::PhaseTransition((VotingPhases::Enactment, voting_round_id)),
                    );
                }
            },
            VotingPhases::Enactment => {
                if block_number == round.enactment_phase.end_block {
                    weight = weight + 1;
                    self.rounds[idx].phase = VotingPhases::Finalized;
                    self.events.push(
                        Event::PhaseTransition((VotingPhases::Finalized, voting_round_id)),
                    );
                }
            },
            VotingPhases::Finalized => {},
        }

        proof {
            let i0 = idx as int;
            if old(self).driver_steps(block_number) && old(self).spec_round(
                old(self).spec_latest(),
            ).unwrap().phase == VotingPhases::Proposal {
                assert(self.spec_proposals(voting_round_id) =~= proposal_views(
                    self.proposals@[i0]@,
                ));
            }
            assert forall|i: int| 0 <= i < self.rounds@.len() implies self.round_wf(i) by {
                assert(old(self).round_wf(i));
                assert forall|p: int|
                    0 <= p < self.proposals@[i]@.len() implies self.proposal_wf(i, p) by {
                    if i == i0 && old(self).driver_steps(block_number) && old(self).spec_round(
                        old(self).spec_latest(),
                    ).unwrap().phase == VotingPhases::Proposal {
                        assert(old(self).proposal_wf(i, p));
                        assert(self.voters_voted@[i]@[p]@.len() == 0);
                    } else {
                        assert(old(self).proposal_wf(i, p));
                    }
                }
            }
        }

        (weight, refunds)
    }
}

impl GenesisConfig {
    /// Sets up an empty system whose "latest round" pointer starts at the
    /// genesis round id.
    pub fn build(&self, config: Config) -> (p: Pallet)
        ensures
            p.wf(),
            p.spec_config() == config,
            p.spec_genesis() == self.voting_round_id,
            p.spec_latest() == self.voting_round_id,
            forall|id: VotingRoundId| p.spec_round(id) is None,
            forall|id: VotingRoundId| p.spec_proposals(id) == Seq::<ProposalView>::empty(),
            forall|id: VotingRoundId, b: BucketId, v: AccountId|
                p.spec_membership(id, b, v) is None,
            forall|id: VotingRoundId, pid: ProposalCount|
                p.spec_voters(id, pid) == Seq::<AccountId>::empty(),
            forall|id: VotingRoundId, pid: ProposalCount| p.spec_outcome(id, pid) is None,
            p.spec_events() == Seq::<Event>::empty(),
    {
        Pallet {
            config,
            genesis_round_id: self.voting_round_id,
            latest_voting_round: self.voting_round_id,
            rounds: Vec::new(),
            proposals: Vec::new(),
            memberships: Vec::new(),
            voters_voted: Vec::new(),
            outcomes: Vec::new(),
            events: Vec::new(),
        }
    }
}

} // verus!
