//! The global laws of the voting round, proved from the state machine's
//! contracts: phases advance forward one at a time, phase windows never
//! overlap, and resolution refunds every bond exactly once per record.

use vstd::prelude::*;

use crate::pallet::{
    Pallet, bond_of, is_round_metadata, proposal_refund_seq, refunds_upto, voter_refunds,
};
use crate::types::{
    AccountId, Balance, BlockNumber, BucketId, BucketMembership, Config, ProposalCount,
    ProposalView, VotingPhases, VotingRoundId, VotingRoundMetadata, next_phase, phase_rank,
};

verus! {

/// Phase monotonicity: the successor of every non-terminal phase stands
/// exactly one rank further in the fixed order — the driver, which only ever
/// replaces a phase by its successor and only at the phase window's end
/// block, can neither skip nor revisit a phase — and `Finalized` is terminal.
pub proof fn lemma_phase_transitions_forward(p: VotingPhases)
    ensures
        p != VotingPhases::Finalized ==> phase_rank(next_phase(p)) == phase_rank(p) + 1,
        p == VotingPhases::Finalized ==> next_phase(p) == p,
{
}

/// The five phase windows of a newly made round are laid out in order,
/// without overlap, each separated from the previous by the configured
/// one-block gap, and the finalized block follows the last of them.
pub proof fn lemma_windows_ordered(
    m: VotingRoundMetadata,
    config: Config,
    initiator: AccountId,
    start_block: BlockNumber,
    previous_round_id: VotingRoundId,
)
    requires
        is_round_metadata(m, config, initiator, start_block, previous_round_id),
        config.one_block >= 1,
    ensures
        m.proposal_phase.start_block <= m.proposal_phase.end_block,
        m.proposal_phase.end_block < m.pre_voting_phase.start_block,
        m.pre_voting_phase.start_block <= m.pre_voting_phase.end_block,
        m.pre_voting_phase.end_block < m.voting_phase.start_block,
        m.voting_phase.start_block <= m.voting_phase.end_block,
        m.voting_phase.end_block < m.post_voting_phase.start_block,
        m.post_voting_phase.start_block <= m.post_voting_phase.end_block,
        m.post_voting_phase.end_block < m.enactment_phase.start_block,
        m.enactment_phase.start_block <= m.enactment_phase.end_block,
        m.enactment_phase.end_block < m.finalized_block,
{
}

/// Where proposal `pid`'s own refunds start within a refund list: one entry
/// per earlier proposal, plus one per vote recorded on it.
pub open spec fn refund_offset(voters: Seq<Seq<AccountId>>, pid: int) -> int
    decreases pid,
{
    if pid <= 0 {
        0
    } else {
        refund_offset(voters, pid - 1) + 1 + voters[pid - 1].len()
    }
}

/// The refunds of the first `n` proposals occupy exactly the first
/// `refund_offset(voters, n)` positions.
proof fn lemma_refunds_upto_len(
    config: Config,
    members: Seq<BucketMembership>,
    props: Seq<ProposalView>,
    voters: Seq<Seq<AccountId>>,
    n: int,
)
    ensures
        refunds_upto(config, members, props, voters, n).len() == refund_offset(voters, n),
    decreases n,
{
    if n > 0 {
        lemma_refunds_upto_len(config, members, props, voters, n - 1);
    }
}

/// The offsets grow with the proposal index.
proof fn lemma_refund_offset_mono(voters: Seq<Seq<AccountId>>, a: int, b: int)
    requires
        a <= b,
    ensures
        refund_offset(voters, a) <= refund_offset(voters, b),
    decreases b - a,
{
    if a < b {
        lemma_refund_offset_mono(voters, a, b - 1);
    }
}

/// Each proposal's slice of the refund list starts with its submitter's bond
/// and continues with one entry per recorded voter, carrying that voter's
/// logged bond.
proof fn lemma_refunds_upto_index(
    config: Config,
    members: Seq<BucketMembership>,
    props: Seq<ProposalView>,
    voters: Seq<Seq<AccountId>>,
    n: int,
    pid: int,
)
    requires
        0 <= pid < n,
    ensures
        refunds_upto(config, members, props, voters, n)[refund_offset(voters, pid)] == (
            props[pid].initializer,
            config.bond_for_proposal,
        ),
        forall|k: int|
            0 <= k < voters[pid].len() ==> refunds_upto(config, members, props, voters, n)[
                refund_offset(voters, pid) + 1 + k
            ] == (voters[pid][k], bond_of(members, props[pid].bucket_id, voters[pid][k])),
    decreases n,
{
    lemma_refunds_upto_len(config, members, props, voters, n - 1);
    let base = refunds_upto(config, members, props, voters, n - 1);
    let tail = proposal_refund_seq(config, members, props[n - 1], voters[n - 1]);
    assert(refunds_upto(config, members, props, voters, n) == base + tail);
    if pid == n - 1 {
        lemma_refund_offset_mono(voters, 0, pid);
        let vr = voter_refunds(members, props[pid].bucket_id, voters[pid]);
        assert(tail == seq![(props[pid].initializer, config.bond_for_proposal)] + vr);
        assert((base + tail)[refund_offset(voters, pid)] == tail[0]);
        assert(tail[0] == (props[pid].initializer, config.bond_for_proposal));
        assert forall|k: int|
            0 <= k < voters[pid].len() implies refunds_upto(config, members, props, voters, n)[
            refund_offset(voters, pid) + 1 + k
        ] == (voters[pid][k], bond_of(members, props[pid].bucket_id, voters[pid][k])) by {
            assert((base + tail)[refund_offset(voters, pid) + 1 + k] == tail[1 + k]);
            assert(tail[1 + k] == vr[k]);
            assert(vr[k] == (voters[pid][k], bond_of(members, props[pid].bucket_id, voters[pid][k])));
        }
    } else {
        lemma_refunds_upto_index(config, members, props, voters, n - 1, pid);
        lemma_refund_offset_mono(voters, 0, pid);
        lemma_refund_offset_mono(voters, pid + 1, n - 1);
        assert(refund_offset(voters, pid) + 1 + voters[pid].len() == refund_offset(
            voters,
            pid + 1,
        ));
        assert(base.len() == refund_offset(voters, n - 1));
        assert(0 <= refund_offset(voters, pid) < base.len());
        assert((base + tail)[refund_offset(voters, pid)] == base[refund_offset(voters, pid)]);
        assert forall|k: int|
            0 <= k < voters[pid].len() implies refunds_upto(config, members, props, voters, n)[
            refund_offset(voters, pid) + 1 + k
        ] == (voters[pid][k], bond_of(members, props[pid].bucket_id, voters[pid][k])) by {
            assert(refund_offset(voters, pid) + 1 + k < refund_offset(voters, pid + 1));
            assert((base + tail)[refund_offset(voters, pid) + 1 + k] == base[refund_offset(
                voters,
                pid,
            ) + 1 + k]);
        }
    }
}

/// Picks the refund entries that pay `who`.
pub open spec fn names_account(who: AccountId) -> spec_fn((AccountId, Balance)) -> bool {
    |e: (AccountId, Balance)| e.0 == who
}

/// Picks `who` out of a voter list.
pub open spec fn is_account(who: AccountId) -> spec_fn(AccountId) -> bool {
    |v: AccountId| v == who
}

/// How many entries of a refund list pay `who`.
pub open spec fn refund_count(refunds: Seq<(AccountId, Balance)>, who: AccountId) -> int {
    refunds.filter(names_account(who)).len() as int
}

/// How many votes of one proposal's voter list `who` cast.
pub open spec fn occurrences(vs: Seq<AccountId>, who: AccountId) -> int {
    vs.filter(is_account(who)).len() as int
}

/// `who`'s recorded votes across the first `n` voter lists.
pub open spec fn occurrences_upto(voters: Seq<Seq<AccountId>>, who: AccountId, n: int) -> int
    decreases n,
{
    if n <= 0 {
        0
    } else {
        occurrences_upto(voters, who, n - 1) + occurrences(voters[n - 1], who)
    }
}

/// How many of the first `n` proposals `who` submitted.
pub open spec fn initializer_count_upto(props: Seq<ProposalView>, who: AccountId, n: int) -> int
    decreases n,
{
    if n <= 0 {
        0
    } else {
        initializer_count_upto(props, who, n - 1) + if props[n - 1].initializer == who {
            1int
        } else {
            0int
        }
    }
}

/// One proposal's voter refunds pay `who` once per vote `who` cast on it.
proof fn lemma_voter_refund_count(
    members: Seq<BucketMembership>,
    bucket: Option<BucketId>,
    vs: Seq<AccountId>,
    who: AccountId,
)
    ensures
        refund_count(voter_refunds(members, bucket, vs), who) == occurrences(vs, who),
    decreases vs.len(),
{
    reveal(Seq::filter);
    let vr = voter_refunds(members, bucket, vs);
    if vs.len() == 0 {
        assert(vr =~= Seq::<(AccountId, Balance)>::empty());
    } else {
        let vs0 = vs.drop_last();
        lemma_voter_refund_count(members, bucket, vs0, who);
        assert(vr.drop_last() =~= voter_refunds(members, bucket, vs0));
        assert(vr.last() == (vs.last(), bond_of(members, bucket, vs.last())));
        assert(names_account(who)(vr.last()) == is_account(who)(vs.last()));
    }
}

/// One proposal's whole refund slice pays `who` once if `who` submitted it,
/// plus once per vote `who` cast on it.
proof fn lemma_proposal_refund_count(
    config: Config,
    members: Seq<BucketMembership>,
    p: ProposalView,
    vs: Seq<AccountId>,
    who: AccountId,
)
    ensures
        refund_count(proposal_refund_seq(config, members, p, vs), who) == (if p.initializer
            == who {
            1int
        } else {
            0int
        }) + occurrences(vs, who),
{
    reveal_with_fuel(Seq::filter, 3);
    lemma_voter_refund_count(members, p.bucket_id, vs, who);
    let bond_entry = seq![(p.initializer, config.bond_for_proposal)];
    let vr = voter_refunds(members, p.bucket_id, vs);
    Seq::filter_distributes_over_add(bond_entry, vr, names_account(who));
    assert(bond_entry.drop_last() =~= Seq::<(AccountId, Balance)>::empty());
}

/// The first `n` proposals' refunds pay `who` exactly once per proposal
/// `who` submitted plus once per vote `who` cast.
proof fn lemma_refunds_upto_count(
    config: Config,
    members: Seq<BucketMembership>,
    props: Seq<ProposalView>,
    voters: Seq<Seq<AccountId>>,
    who: AccountId,
    n: int,
)
    ensures
        refund_count(refunds_upto(config, members, props, voters, n), who)
            == initializer_count_upto(props, who, n) + occurrences_upto(voters, who, n),
    decreases n,
{
    reveal(Seq::filter);
    if n <= 0 {
        assert(refunds_upto(config, members, props, voters, n) =~= Seq::<
            (AccountId, Balance),
        >::empty());
    } else {
        lemma_refunds_upto_count(config, members, props, voters, who, n - 1);
        lemma_proposal_refund_count(config, members, props[n - 1], voters[n - 1], who);
        Seq::filter_distributes_over_add(
            refunds_upto(config, members, props, voters, n - 1),
            proposal_refund_seq(config, members, props[n - 1], voters[n - 1]),
            names_account(who),
        );
    }
}

/// Exactly-once accounting of a round's refunds: the number of refund entries
/// paying an account is exactly one if it initialized the round, plus one per
/// proposal it submitted, plus one per vote it has recorded — no account is
/// paid more often, none less.
pub proof fn lemma_refunds_exactly_once(p: &Pallet, id: VotingRoundId, who: AccountId)
    requires
        p.wf(),
        p.spec_round(id) is Some,
    ensures
        refund_count(p.spec_refunds(id), who) == (if p.spec_round(id).unwrap().initializer == who {
            1int
        } else {
            0int
        }) + initializer_count_upto(
            p.spec_proposals(id),
            who,
            p.spec_proposals(id).len() as int,
        ) + occurrences_upto(p.spec_all_voters(id), who, p.spec_proposals(id).len() as int),
{
    reveal_with_fuel(Seq::filter, 3);
    let config = p.spec_config();
    let members = p.spec_memberships_log(id);
    let props = p.spec_proposals(id);
    let voters = p.spec_all_voters(id);
    let n = props.len() as int;
    let head = (p.spec_round(id).unwrap().initializer, config.bond_for_voting_round);
    let rest = refunds_upto(config, members, props, voters, n);
    lemma_refunds_upto_count(config, members, props, voters, who, n);
    Seq::filter_distributes_over_add(seq![head], rest, names_account(who));
    assert(seq![head].drop_last() =~= Seq::<(AccountId, Balance)>::empty());
    assert(p.spec_refunds(id) == seq![head] + rest);
}

/// Refund completeness: the refund list a round hands out when it leaves its
/// PostVoting phase carries, at distinct positions, the round bond for the
/// round's initializer first, then for every proposal its submitter's
/// proposal bond, then for every voter recorded on it that voter's full
/// original `total_bond` — one entry per recorded vote, no more and no less,
/// and nothing else: the list's length is exactly accounted for.
pub proof fn lemma_refund_completeness(p: &Pallet, id: VotingRoundId, pid: ProposalCount)
    requires
        p.wf(),
        p.spec_round(id) is Some,
        0 <= pid < p.spec_proposals(id).len(),
    ensures
        p.spec_refunds(id).len() == 1 + refund_offset(
            p.spec_all_voters(id),
            p.spec_proposals(id).len() as int,
        ),
        p.spec_refunds(id)[0] == (
            p.spec_round(id).unwrap().initializer,
            p.spec_config().bond_for_voting_round,
        ),
        p.spec_refunds(id)[1 + refund_offset(p.spec_all_voters(id), pid as int)] == (
            p.spec_proposals(id)[pid as int].initializer,
            p.spec_config().bond_for_proposal,
        ),
        forall|k: int|
            0 <= k < p.spec_voters(id, pid).len() ==> {
                &&& p.spec_membership(
                    id,
                    p.spec_proposals(id)[pid as int].bucket_id.unwrap(),
                    p.spec_voters(id, pid)[k],
                ) is Some
                &&& p.spec_refunds(id)[1 + refund_offset(p.spec_all_voters(id), pid as int) + 1
                    + k] == (
                    p.spec_voters(id, pid)[k],
                    p.spec_membership(
                        id,
                        p.spec_proposals(id)[pid as int].bucket_id.unwrap(),
                        p.spec_voters(id, pid)[k],
                    ).unwrap().0,
                )
            },
{
    p.lemma_has_round(id);
    p.lemma_all_voters_agree(id);
    let config = p.spec_config();
    let members = p.spec_memberships_log(id);
    let props = p.spec_proposals(id);
    let voters = p.spec_all_voters(id);
    let n = props.len() as int;
    lemma_refunds_upto_len(config, members, props, voters, n);
    lemma_refunds_upto_index(config, members, props, voters, n, pid as int);
    lemma_refund_offset_mono(voters, 0, pid as int);
    lemma_refund_offset_mono(voters, pid as int + 1, n);
    assert(refund_offset(voters, pid as int) + 1 + voters[pid as int].len() == refund_offset(
        voters,
        pid as int + 1,
    ));
    assert(voters[pid as int] == p.spec_voters(id, pid));
    let rest = refunds_upto(config, members, props, voters, n);
    let head = (p.spec_round(id).unwrap().initializer, config.bond_for_voting_round);
    assert(p.spec_refunds(id) == seq![head] + rest);
    assert((seq![head] + rest)[0] == head);
    assert((seq![head] + rest)[1 + refund_offset(voters, pid as int)] == rest[refund_offset(
        voters,
        pid as int,
    )]);
    assert forall|k: int| 0 <= k < p.spec_voters(id, pid).len() implies {
        &&& p.spec_membership(
            id,
            p.spec_proposals(id)[pid as int].bucket_id.unwrap(),
            p.spec_voters(id, pid)[k],
        ) is Some
        &&& p.spec_refunds(id)[1 + refund_offset(p.spec_all_voters(id), pid as int) + 1 + k] == (
            p.spec_voters(id, pid)[k],
            p.spec_membership(
                id,
                p.spec_proposals(id)[pid as int].bucket_id.unwrap(),
                p.spec_voters(id, pid)[k],
            ).unwrap().0,
        )
    } by {
        p.lemma_recorded_voter_has_bond(id, pid, k);
        let bucket = p.spec_proposals(id)[pid as int].bucket_id.unwrap();
        let v = p.spec_voters(id, pid)[k];
        p.lemma_membership_is_log_lookup(id, bucket, v);
        assert(bond_of(members, props[pid as int].bucket_id, v) == p.spec_membership(
            id,
            bucket,
            v,
        ).unwrap().0);
        assert(refund_offset(voters, pid as int) + 1 + k < refund_offset(voters, pid as int + 1));
        assert((seq![head] + rest)[1 + refund_offset(voters, pid as int) + 1 + k] == rest[
            refund_offset(voters, pid as int) + 1 + k
        ]);
    }
}

} // verus!

