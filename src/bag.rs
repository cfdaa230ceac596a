use vstd::prelude::*;

use rand::rngs::ThreadRng;
use rand::seq::SliceRandom;
use std::collections::VecDeque;

use crate::enums::PlayableTetrisPieceType;

verus! {

#[verifier::external_type_specification]
#[verifier::external_body]
pub struct ExThreadRng(ThreadRng);

/// Relies on rand::thread_rng: a handle to the thread-local generator.
#[verifier::external_body]
fn new_rng() -> ThreadRng {
    rand::thread_rng()
}

/// Relies on rand's SliceRandom::shuffle for slices, which only swaps
/// elements (Fisher-Yates): the result is a permutation of the input.
#[verifier::external_body]
fn shuffle_kinds(kinds: &mut Vec<PlayableTetrisPieceType>, rng: &mut ThreadRng)
    ensures
        final(kinds)@.len() == old(kinds)@.len(),
        final(kinds)@.to_multiset() == old(kinds)@.to_multiset(),
{
    kinds.as_mut_slice().shuffle(rng);
}

/// The seven kinds, each once.
pub open spec fn all_kinds() -> Seq<PlayableTetrisPieceType> {
    seq![
        PlayableTetrisPieceType::I,
        PlayableTetrisPieceType::S,
        PlayableTetrisPieceType::Z,
        PlayableTetrisPieceType::O,
        PlayableTetrisPieceType::T,
        PlayableTetrisPieceType::L,
        PlayableTetrisPieceType::J,
    ]
}

/// The sequence is made of whole bags: each aligned run of seven holds every
/// kind exactly once.
pub open spec fn whole_bags(s: Seq<PlayableTetrisPieceType>) -> bool {
    &&& s.len() % 7 == 0
    &&& forall|k: int|
        0 <= k < s.len() / 7 ==> #[trigger] s.subrange(7 * k, 7 * k + 7).to_multiset()
            == all_kinds().to_multiset()
}

/// 7-bag randomizer: kinds are drawn from a random permutation of the seven
/// kinds, refilled whenever it runs out.
pub struct PieceBag {
    internal_permutation: VecDeque<PlayableTetrisPieceType>,
    rng: ThreadRng,
    drawn: Ghost<Seq<PlayableTetrisPieceType>>,
}

proof fn lemma_append_bag(s: Seq<PlayableTetrisPieceType>, p: Seq<PlayableTetrisPieceType>)
    requires
        whole_bags(s),
        p.len() == 7,
        p.to_multiset() == all_kinds().to_multiset(),
    ensures
        whole_bags(s + p),
{
    let t = s + p;
    assert(t.len() / 7 == s.len() / 7 + 1);
    assert forall|k: int| 0 <= k < t.len() / 7 implies #[trigger] t.subrange(7 * k, 7 * k + 7).to_multiset()
        == all_kinds().to_multiset() by {
        if k < s.len() / 7 {
            assert(t.subrange(7 * k, 7 * k + 7) =~= s.subrange(7 * k, 7 * k + 7));
        } else {
            assert(t.subrange(7 * k, 7 * k + 7) =~= p);
        }
    }
}

impl PieceBag {
    pub closed spec fn wf(&self) -> bool {
        whole_bags(self.drawn@ + self.internal_permutation@)
    }

    /// Every kind drawn so far, in order.
    pub closed spec fn drawn(&self) -> Seq<PlayableTetrisPieceType> {
        self.drawn@
    }

    pub fn new() -> (b: Self)
        ensures
            b.wf(),
            b.drawn() == Seq::<PlayableTetrisPieceType>::empty(),
    {
        let b = PieceBag {
            internal_permutation: VecDeque::with_capacity(7),
            rng: new_rng(),
            drawn: Ghost(Seq::empty()),
        };
        assert(b.drawn@ + b.internal_permutation@ =~= Seq::<PlayableTetrisPieceType>::empty());
        b
    }

    /// Appends a random permutation of the seven kinds to the empty bag.
    fn fill_permutation(&mut self)
        requires
            old(self).wf(),
            old(self).internal_permutation@.len() == 0,
        ensures
            final(self).wf(),
            final(self).drawn == old(self).drawn,
            final(self).internal_permutation@.len() == 7,
    {
        let mut nums: Vec<PlayableTetrisPieceType> = vec![
            PlayableTetrisPieceType::I,
            PlayableTetrisPieceType::S,
            PlayableTetrisPieceType::Z,
            PlayableTetrisPieceType::O,
            PlayableTetrisPieceType::T,
            PlayableTetrisPieceType::L,
            PlayableTetrisPieceType::J,
        ];
        assert(nums@ =~= all_kinds());
        shuffle_kinds(&mut nums, &mut self.rng);
        let mut k: usize = 0;
        while k < nums.len()
            invariant
                0 <= k <= nums@.len(),
                nums@.len() == 7,
                self.internal_permutation@ == nums@.subrange(0, k as int),
                self.drawn == old(self).drawn,
            decreases nums@.len() - k,
        {
            self.internal_permutation.push_back(nums[k]);
            k += 1;
            assert(self.internal_permutation@ =~= nums@.subrange(0, k as int));
        }
        proof {
            assert(nums@.subrange(0, 7) =~= nums@);
            assert(old(self).drawn@ + old(self).internal_permutation@ =~= old(self).drawn@);
            lemma_append_bag(self.drawn@, nums@);
        }
    }

    /// Draws the next kind, refilling the bag first when it is empty.
    pub fn draw(&mut self) -> (k: PlayableTetrisPieceType)
        requires
            old(self).wf(),
        ensures
            final(self).wf(),
            final(self).drawn() == old(self).drawn().push(k),
    {
        if self.internal_permutation.len() == 0 {
            self.fill_permutation();
        }
        let ghost before = self.drawn@ + self.internal_permutation@;
        let k = self.internal_permutation.pop_front().unwrap();
        self.drawn = Ghost(self.drawn@.push(k));
        assert(self.drawn@ + self.internal_permutation@ =~= before);
        k
    }
}

/// Bag fairness: every aligned run of seven draws holds each kind exactly once.
pub proof fn lemma_bag_fairness(b: PieceBag, k: int)
    requires
        b.wf(),
        0 <= k,
        7 * k + 7 <= b.drawn().len(),
    ensures
        b.drawn().subrange(7 * k, 7 * k + 7).to_multiset() == all_kinds().to_multiset(),
{
    let all = b.drawn@ + b.internal_permutation@;
    assert(k < all.len() / 7);
    assert(all.subrange(7 * k, 7 * k + 7) =~= b.drawn@.subrange(7 * k, 7 * k + 7));
}

} // verus!
