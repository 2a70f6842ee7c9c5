//! Randomized bucketing: expanding one randomness draw into a fixed-size
//! seed, shuffling the proposal list reproducibly with it, and assigning a
//! bucket to every shuffled position.

use vstd::prelude::*;

use crate::types::{BucketId, Proposal, ProposalView, proposal_views};

verus! {

/// The byte a randomness draw is expanded from: its last byte, or zero when
/// the draw is empty. The expansion deliberately keeps only this one byte of
/// the draw; reproducing it exactly is required for every replica to shuffle
/// alike.
pub open spec fn seed_byte(draw: Seq<u8>) -> u8 {
    if draw.len() == 0 {
        0u8
    } else {
        draw.last()
    }
}

/// Expands a randomness draw into a 32-byte shuffle seed by filling the seed
/// with the draw's last byte.
pub fn expand_randomness(draw: &Vec<u8>) -> (seed: Vec<u8>)
    ensures
        seed@.len() == 32,
        forall|i: int| 0 <= i < 32 ==> seed@[i] == seed_byte(draw@),
{
    let b: u8 = if draw.len() == 0 {
        0u8
    } else {
        draw[draw.len() - 1]
    };
    let mut seed: Vec<u8> = Vec::new();
    let mut i: usize = 0;
    while i < 32
        invariant
            i <= 32,
            seed@.len() == i,
            forall|j: int| 0 <= j < i ==> seed@[j] == b,
            b == seed_byte(draw@),
        decreases 32 - i,
    {
        seed.push(b);
        i = i + 1;
    }
    seed
}

/// The proposal order that the seeded shuffle produces: a pure function of
/// the 32-byte seed and the list being shuffled.
pub uninterp spec fn shuffled_by(seed: Seq<u8>, items: Seq<ProposalView>) -> Seq<ProposalView>;

/// Relies on `rand_chacha::ChaChaRng::from_seed` and
/// `rand::seq::SliceRandom::shuffle`: a Fisher-Yates shuffle whose swaps are
/// drawn from a ChaCha stream cipher seeded by `seed` alone, so the result is
/// a function of the seed and the input list, and a permutation of that list.
#[verifier::external_body]
fn chacha_shuffle(seed: &Vec<u8>, list: Vec<Proposal>) -> (r: Vec<Proposal>)
    requires
        seed@.len() == 32,
    ensures
        proposal_views(r@) == shuffled_by(seed@, proposal_views(list@)),
        proposal_views(r@).to_multiset() == proposal_views(list@).to_multiset(),
        r@.len() == list@.len(),
{
    let mut seed_bytes = [0u8; 32];
    seed_bytes.copy_from_slice(seed.as_slice());
    let mut rng = <rand_chacha::ChaChaRng as rand::SeedableRng>::from_seed(seed_bytes);
    let mut list = list;
    rand::seq::SliceRandom::shuffle(list.as_mut_slice(), &mut rng);
    list
}

/// The bucket assigned to shuffled position `i`: `bucket_size mod (i + 1)`.
/// This concentrates low bucket ids among early positions; it is not a
/// round-robin, and is preserved exactly.
pub open spec fn bucket_for_position(bucket_size: BucketId, i: int) -> BucketId {
    ((bucket_size as int) % (i + 1)) as BucketId
}

/// What bucket assignment leaves at position `i` of a shuffled list: the
/// submitter is kept, the tallies are reset to empty, and the position's
/// bucket is attached.
pub open spec fn bucketed_view(p: ProposalView, bucket_size: BucketId, i: int) -> ProposalView {
    ProposalView {
        initializer: p.initializer,
        ayes: Seq::empty(),
        nays: Seq::empty(),
        bucket_id: Some(bucket_for_position(bucket_size, i)),
    }
}

/// Assigns every proposal of an (already shuffled) list the bucket of its
/// position.
pub fn assign_buckets(list: &Vec<Proposal>, bucket_size: BucketId) -> (r: Vec<Proposal>)
    requires
        list@.len() <= u32::MAX,
    ensures
        r@.len() == list@.len(),
        forall|i: int| 0 <= i < r@.len() ==> r@[i]@ == bucketed_view(list@[i]@, bucket_size, i),
{
    let mut out: Vec<Proposal> = Vec::new();
    let mut i: usize = 0;
    while i < list.len()
        invariant
            i <= list@.len() <= u32::MAX,
            out@.len() == i,
            forall|j: int| 0 <= j < i ==> out@[j]@ == bucketed_view(list@[j]@, bucket_size, j),
        decreases list@.len() - i,
    {
        let bucket: BucketId = bucket_size % ((i as u32) + 1);
        out.push(
            Proposal {
                initializer: list[i].initializer,
                ayes: Vec::new(),
                nays: Vec::new(),
                bucket_id: Some(bucket),
            },
        );
        i = i + 1;
    }
    out
}

/// The 32-byte seed that a draw expands to.
pub open spec fn seed_seq(draw: Seq<u8>) -> Seq<u8> {
    Seq::new(32, |i: int| seed_byte(draw))
}

/// The whole Proposal-to-PreVoting side effect on a proposal list: expand the
/// randomness draw into a seed, shuffle with it, then assign buckets by
/// shuffled position.
pub fn shuffle_and_bucket(draw: &Vec<u8>, list: Vec<Proposal>, bucket_size: BucketId) -> (r: Vec<
    Proposal,
>)
    requires
        list@.len() <= u32::MAX,
    ensures
        r@.len() == list@.len(),
        forall|i: int| 0 <= i < r@.len() ==> r@[i]@ == bucketed_view(
            shuffled_by(seed_seq(draw@), proposal_views(list@))[i],
            bucket_size,
            i,
        ),
        shuffled_by(seed_seq(draw@), proposal_views(list@)).to_multiset() == proposal_views(
            list@,
        ).to_multiset(),
{
    let seed = expand_randomness(draw);
    proof {
        assert(seed@ =~= seed_seq(draw@));
    }
    let shuffled = chacha_shuffle(&seed, list);
    assign_buckets(&shuffled, bucket_size)
}

} // verus!
