//! Random choices: one message out of a pool, and the order of a round.

use crate::catalog::views;
use crate::message::Message;
use crate::schedule::{arranged, is_order};
use rand::rngs::ThreadRng;
use rand::seq::{IteratorRandom, SliceRandom};
use vstd::prelude::*;

verus! {

/// `rand::rngs::ThreadRng`, the random generator of the calling thread.
/// Nothing is known of what it holds.
#[verifier::external_type_specification]
#[verifier::external_body]
pub struct ExThreadRng(ThreadRng);

/// Draws one of the positions `0..len` with `rand::seq::IteratorRandom::choose`.
/// The contract claims what holds of every draw: there is none if and only
/// if there is no position to draw from, and a position drawn lies below
/// `len`. Which one it is depends on the generator.
#[verifier::external_body]
pub(crate) fn choose_position(rng: &mut ThreadRng, len: usize) -> (position: Option<usize>)
    ensures
        len == 0 ==> position is None,
        len > 0 ==> position is Some && position.unwrap() < len,
{
    (0..len).choose(rng)
}

/// Shuffles `positions` in place with `rand::seq::SliceRandom::shuffle`, which
/// does nothing but swap items. The contract claims what holds of every
/// shuffle: the list holds the same items as before, each as often. In which
/// order depends on the generator.
#[verifier::external_body]
pub(crate) fn shuffle_positions(positions: &mut Vec<usize>, rng: &mut ThreadRng)
    ensures
        final(positions)@.to_multiset() == old(positions)@.to_multiset(),
{
    positions.shuffle(rng);
}

/// The message that a draw has picked from `pool`: the one at the position
/// drawn, or none where nothing was drawn or the position lies outside the
/// pool.
pub fn message_at(pool: &Vec<Message>, position: Option<usize>) -> (picked: Option<Message>)
    ensures
        match position {
            Some(i) if i < pool.len() => picked is Some && picked.unwrap()@ == pool[i as int]@,
            _ => picked is None,
        },
{
    match position {
        Some(i) => {
            if i < pool.len() {
                Some(pool[i].clone())
            } else {
                None
            }
        },
        None => None,
    }
}

/// A random order of the places `0..len`, drawn with `rng`.
pub fn shuffled_order(rng: &mut ThreadRng, len: usize) -> (order: Vec<usize>)
    ensures
        is_order(order@, len as nat),
{
    let mut order: Vec<usize> = Vec::new();
    let mut i: usize = 0;
    while i < len
        invariant
            i <= len,
            order@.len() == i,
            forall|k: int| 0 <= k < i ==> order@[k] == k,
        decreases len - i,
    {
        order.push(i);
        i += 1;
    }
    let ghost straight = order@;
    shuffle_positions(&mut order, rng);
    proof {
        straight.to_multiset_ensures();
        order@.to_multiset_ensures();
        straight.lemma_multiset_has_no_duplicates();
        order@.lemma_multiset_has_no_duplicates_conv();
        assert forall|k: int| 0 <= k < order@.len() implies #[trigger] order@[k] < len by {
            assert(order@.contains(order@[k]));
            assert(straight.to_multiset().count(order@[k]) > 0);
            assert(straight.contains(order@[k]));
        }
    }
    order
}

/// Whether `order` lists each of the places `0..len` once.
pub fn is_valid_order(order: &Vec<usize>, len: usize) -> (valid: bool)
    ensures
        valid == is_order(order@, len as nat),
{
    if order.len() != len {
        return false;
    }
    let mut seen: Vec<bool> = Vec::new();
    let mut i: usize = 0;
    while i < len
        invariant
            i <= len,
            seen@.len() == i,
            forall|k: int| 0 <= k < i ==> !seen@[k],
        decreases len - i,
    {
        seen.push(false);
        i += 1;
    }
    let mut k: usize = 0;
    while k < len
        invariant
            k <= len,
            order@.len() == len,
            seen@.len() == len,
            forall|j: int| 0 <= j < k ==> #[trigger] order@[j] < len,
            forall|j: int, l: int| 0 <= j < k && 0 <= l < k && j != l ==> order@[j] != order@[l],
            forall|p: int|
                0 <= p < len ==> (#[trigger] seen@[p] <==> exists|j: int|
                    0 <= j < k && order@[j] == p),
        decreases len - k,
    {
        let place = order[k];
        if place >= len {
            return false;
        }
        if seen[place] {
            proof {
                let j = choose|j: int| 0 <= j < k && order@[j] == place;
                assert(order@[j] == order@[k as int] && j != k);
            }
            return false;
        }
        let ghost before = seen@;
        seen.set(place, true);
        proof {
            assert forall|p: int| 0 <= p < len implies (#[trigger] seen@[p] <==> exists|j: int|
                0 <= j < k + 1 && order@[j] == p) by {
                if p == place {
                    assert(order@[k as int] == p);
                } else {
                    assert(seen@[p] == before[p]);
                    if before[p] {
                        let j = choose|j: int| 0 <= j < k && order@[j] == p;
                        assert(0 <= j < k + 1 && order@[j] == p);
                    }
                }
            }
        }
        k += 1;
    }
    true
}

/// The messages of `round`, taken in the order that `order` gives, where it
/// lists each place of the round once; otherwise the round as it is.
pub fn arrange(round: Vec<Message>, order: &Vec<usize>) -> (lineup: Vec<Message>)
    ensures
        views(lineup@) == if is_order(order@, round.len() as nat) {
            arranged(views(round@), order@)
        } else {
            views(round@)
        },
{
    if !is_valid_order(order, round.len()) {
        return round;
    }
    let mut lineup: Vec<Message> = Vec::new();
    let mut k: usize = 0;
    while k < order.len()
        invariant
            k <= order.len(),
            is_order(order@, round.len() as nat),
            lineup@.len() == k,
            forall|j: int| 0 <= j < k ==> (#[trigger] lineup@[j])@ == round@[order@[j] as int]@,
        decreases order.len() - k,
    {
        lineup.push(round[order[k]].clone());
        k += 1;
    }
    assert(views(lineup@) =~= arranged(views(round@), order@));
    lineup
}

} // verus!
