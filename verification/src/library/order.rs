//! Reorderings of a playlist, given as lists of indices: position `i` of the
//! new order holds the item that stood at index `from[i]`.

use vstd::prelude::*;
use vstd::set_lib::{lemma_int_range, lemma_subset_equality, set_int_range};
use crate::library::PlaylistError;

verus! {

/// Every index of `from` lies below `len`.
pub open spec fn in_bounds(from: Seq<usize>, len: nat) -> bool {
    forall|i: int| 0 <= i < from.len() ==> #[trigger] from[i] < len
}

/// No index occurs twice in `from`.
pub open spec fn distinct(from: Seq<usize>) -> bool {
    forall|i: int, j: int| 0 <= i < j < from.len() ==> #[trigger] from[i] != #[trigger] from[j]
}

/// `from` names each of the indices below `len` once.
pub open spec fn is_permutation(from: Seq<usize>, len: nat) -> bool {
    from.len() == len && in_bounds(from, len) && distinct(from)
}

/// Whether `from` can reorder a playlist of `len` items, and if not, why: the
/// length is looked at first, then the bounds, then repetitions.
pub open spec fn spec_check_move(from: Seq<usize>, len: nat) -> Result<(), PlaylistError> {
    if from.len() != len {
        Err(PlaylistError::MoveLengthMismatch)
    } else if !in_bounds(from, len) {
        Err(PlaylistError::IndexOutOfBounds)
    } else if !distinct(from) {
        Err(PlaylistError::MoveDuplicateIndices)
    } else {
        Ok(())
    }
}

/// `items` in the order that `from` gives.
pub open spec fn permuted<T>(items: Seq<T>, from: Seq<usize>) -> Seq<T> {
    Seq::new(from.len(), |i: int| items[from[i] as int])
}

/// The indices that the first `k` places of `from` name.
pub open spec fn named(from: Seq<usize>, k: int) -> Set<int>
    decreases k,
{
    if k <= 0 {
        Set::empty()
    } else {
        named(from, k - 1).insert(from[k - 1] as int)
    }
}

proof fn lemma_named(from: Seq<usize>, k: int)
    requires
        0 <= k <= from.len(),
        distinct(from),
    ensures
        named(from, k).finite(),
        named(from, k).len() == k,
        forall|v: int|
            named(from, k).contains(v) <==> exists|i: int| 0 <= i < k && #[trigger] from[i] == v,
    decreases k,
{
    if k > 0 {
        lemma_named(from, k - 1);
        let last = from[k - 1] as int;
        assert(!named(from, k - 1).contains(last));
        assert forall|v: int| named(from, k).contains(v) implies exists|i: int|
            0 <= i < k && #[trigger] from[i] == v by {
            if v == last {
                assert(from[k - 1] == v);
            } else {
                assert(named(from, k - 1).contains(v));
                let i = choose|i: int| 0 <= i < k - 1 && #[trigger] from[i] == v;
                assert(0 <= i < k && from[i] == v);
            }
        }
    }
}

/// A permutation names every index: no place is left out.
pub proof fn lemma_permutation_onto(from: Seq<usize>, target: int)
    requires
        is_permutation(from, from.len()),
        0 <= target < from.len(),
    ensures
        exists|i: int| 0 <= i < from.len() && #[trigger] from[i] == target,
{
    let n = from.len() as int;
    lemma_named(from, n);
    lemma_int_range(0, n);
    assert(named(from, n).subset_of(set_int_range(0, n))) by {
        assert forall|v: int| named(from, n).contains(v) implies set_int_range(0, n).contains(
            v,
        ) by {
            let i = choose|i: int| 0 <= i < n && #[trigger] from[i] == v;
            assert(from[i] < n);
        }
    }
    lemma_subset_equality(named(from, n), set_int_range(0, n));
    assert(set_int_range(0, n).contains(target));
    assert(named(from, n).contains(target));
}

/// Tells whether a list of indices can reorder a playlist of `len` items.
pub fn check_move(from: &Vec<usize>, len: usize) -> (r: Result<(), PlaylistError>)
    ensures
        r == spec_check_move(from@, len as nat),
{
    if from.len() != len {
        return Err(PlaylistError::MoveLengthMismatch);
    }
    let mut i: usize = 0;
    while i < len
        invariant
            i <= len,
            from@.len() == len,
            forall|k: int| 0 <= k < i ==> #[trigger] from@[k] < len,
        decreases len - i,
    {
        if from[i] >= len {
            return Err(PlaylistError::IndexOutOfBounds);
        }
        i += 1;
    }
    let mut seen: Vec<bool> = Vec::new();
    let mut k: usize = 0;
    while k < len
        invariant
            k <= len,
            seen@.len() == k,
            forall|j: int| 0 <= j < k ==> !(#[trigger] seen@[j]),
        decreases len - k,
    {
        seen.push(false);
        k += 1;
    }
    let mut i: usize = 0;
    while i < len
        invariant
            i <= len,
            from@.len() == len,
            seen@.len() == len,
            in_bounds(from@, len as nat),
            forall|a: int, b: int| 0 <= a < b < i ==> #[trigger] from@[a] != #[trigger] from@[b],
            forall|j: int|
                0 <= j < len ==> (#[trigger] seen@[j] <==> exists|a: int|
                    0 <= a < i && #[trigger] from@[a] == j),
        decreases len - i,
    {
        let j: usize = from[i];
        if seen[j] {
            proof {
                let a = choose|a: int| 0 <= a < i && #[trigger] from@[a] == j;
                assert(from@[a] == from@[i as int]);
            }
            return Err(PlaylistError::MoveDuplicateIndices);
        }
        let ghost before = seen@;
        seen.set(j, true);
        proof {
            assert forall|x: int| 0 <= x < len implies (#[trigger] seen@[x] <==> exists|a: int|
                0 <= a < i + 1 && #[trigger] from@[a] == x) by {
                if x == j {
                    assert(from@[i as int] == x);
                } else {
                    if seen@[x] {
                        assert(before[x]);
                        let a = choose|a: int| 0 <= a < i && #[trigger] from@[a] == x;
                        assert(0 <= a < i + 1 && from@[a] == x);
                    }
                    if exists|a: int| 0 <= a < i + 1 && #[trigger] from@[a] == x {
                        let a = choose|a: int| 0 <= a < i + 1 && #[trigger] from@[a] == x;
                        assert(a != i);
                        assert(0 <= a < i && from@[a] == x);
                        assert(before[x]);
                    }
                }
            }
            assert forall|a: int, b: int| 0 <= a < b < i + 1 implies #[trigger] from@[a]
                != #[trigger] from@[b] by {
                if b == i {
                    if from@[a] == from@[b] {
                        assert(0 <= a < i && from@[a] == j);
                        assert(before[j as int]);
                    }
                }
            }
        }
        i += 1;
    }
    Ok(())
}

/// The place of the new order that holds the item from index `target`: the
/// first, should there be several.
pub fn find_position(from: &Vec<usize>, target: usize) -> (r: Option<usize>)
    ensures
        match r {
            Some(i) => i < from@.len() && from@[i as int] == target && forall|k: int|
                0 <= k < i ==> #[trigger] from@[k] != target,
            None => forall|k: int| 0 <= k < from@.len() ==> #[trigger] from@[k] != target,
        },
{
    let mut i: usize = 0;
    while i < from.len()
        invariant
            i <= from@.len(),
            forall|k: int| 0 <= k < i ==> #[trigger] from@[k] != target,
        decreases from@.len() - i,
    {
        if from[i] == target {
            return Some(i);
        }
        i += 1;
    }
    None
}

/// Puts `items` in the order that `from` gives.
pub fn permute<T>(items: Vec<T>, from: &Vec<usize>) -> (r: Vec<T>)
    requires
        is_permutation(from@, items@.len()),
    ensures
        r@ == permuted(items@, from@),
{
    let ghost given = items@;
    let len: usize = from.len();
    let mut items = items;
    let mut slots: Vec<Option<T>> = Vec::new();
    // Move the items into slots, last first, so that each can be taken out
    // on its own.
    let mut k: usize = len;
    while k > 0
        invariant
            k <= len,
            len == given.len(),
            items@ == given.subrange(0, k as int),
            slots@.len() == len - k,
            forall|j: int|
                0 <= j < slots@.len() ==> #[trigger] slots@[j] == Some(given[len - 1 - j]),
        decreases k,
    {
        let item = items.pop();
        proof {
            assert(item == Some(given[k - 1]));
            assert(items@ =~= given.subrange(0, k - 1));
        }
        slots.push(item);
        k -= 1;
    }
    let mut out: Vec<T> = Vec::new();
    let mut i: usize = 0;
    while i < len
        invariant
            i <= len,
            len == given.len(),
            from@.len() == len,
            is_permutation(from@, len as nat),
            slots@.len() == len,
            out@.len() == i,
            forall|a: int| 0 <= a < i ==> #[trigger] out@[a] == given[from@[a] as int],
            forall|j: int|
                0 <= j < len && (forall|a: int| 0 <= a < i ==> #[trigger] from@[a] != j)
                    ==> #[trigger] slots@[len - 1 - j] == Some(given[j]),
        decreases len - i,
    {
        let j: usize = from[i];
        proof {
            assert forall|a: int| 0 <= a < i implies #[trigger] from@[a] != j by {
                assert(from@[a] != from@[i as int]);
            }
            assert(slots@[len - 1 - j] == Some(given[j as int]));
        }
        let ghost before = slots@;
        let mut taken: Option<T> = None;
        core::mem::swap(&mut taken, &mut slots[len - 1 - j]);
        proof {
            assert(slots@ == before.update(len - 1 - j, None::<T>));
        }
        assert(taken is Some);
        match taken {
            Some(item) => {
                out.push(item);
            },
            None => {},
        }
        proof {
            assert forall|x: int|
                0 <= x < len && (forall|a: int|
                    0 <= a < i + 1 ==> #[trigger] from@[a] != x) implies #[trigger] slots@[len - 1
                - x] == Some(given[x]) by {
                assert(from@[i as int] != x);
                assert forall|a: int| 0 <= a < i implies #[trigger] from@[a] != x by {}
                assert(before[len - 1 - x] == Some(given[x]));
            }
        }
        i += 1;
    }
    proof {
        assert(out@ =~= permuted(given, from@));
    }
    out
}

/// The index whose item stands at place `i` after the items `start..end` of a
/// playlist have been moved in front of the item at index `to`. With `to` below
/// `start` the range moves towards the front, with `to` at or behind `end`
/// towards the back.
pub open spec fn spec_splice_at(start: int, end: int, to: int, i: int) -> int {
    if to < start {
        if i < to {
            i
        } else if i < to + (end - start) {
            start + (i - to)
        } else if i < end {
            i - (end - start)
        } else {
            i
        }
    } else {
        if i < start {
            i
        } else if i < start + (to - end) {
            i + (end - start)
        } else if i < to {
            i - (to - end)
        } else {
            i
        }
    }
}

/// The order that moves the items `start..end` in front of the item at `to`.
pub open spec fn spec_splice_order(len: nat, start: int, end: int, to: int) -> Seq<usize> {
    Seq::new(len, |i: int| spec_splice_at(start, end, to, i) as usize)
}

/// Computes the order that moves a range of items in front of another item.
pub fn splice_order(len: usize, start: usize, end: usize, to: usize) -> (r: Vec<usize>)
    requires
        start <= end <= len,
        to <= len,
        to < start || to >= end,
    ensures
        r@ == spec_splice_order(len as nat, start as int, end as int, to as int),
        is_permutation(r@, len as nat),
{
    let mut order: Vec<usize> = Vec::new();
    let mut i: usize = 0;
    while i < len
        invariant
            i <= len,
            start <= end <= len,
            to <= len,
            to < start || to >= end,
            order@.len() == i,
            forall|k: int|
                0 <= k < i ==> #[trigger] order@[k] == spec_splice_at(
                    start as int,
                    end as int,
                    to as int,
                    k,
                ),
        decreases len - i,
    {
        let from: usize = if to < start {
            if i < to {
                i
            } else if i < to + (end - start) {
                start + (i - to)
            } else if i < end {
                i - (end - start)
            } else {
                i
            }
        } else {
            if i < start {
                i
            } else if i < start + (to - end) {
                i + (end - start)
            } else if i < to {
                i - (to - end)
            } else {
                i
            }
        };
        order.push(from);
        i += 1;
    }
    proof {
        assert(order@ =~= spec_splice_order(len as nat, start as int, end as int, to as int));
        assert forall|a: int, b: int| 0 <= a < b < order@.len() implies #[trigger] order@[a]
            != #[trigger] order@[b] by {
            assert(order@[a] == spec_splice_at(start as int, end as int, to as int, a));
            assert(order@[b] == spec_splice_at(start as int, end as int, to as int, b));
        }
    }
    order
}

/// The order that results from drawing, for each place in turn, one of the
/// indices that are still left: draw `i` picks the one at its value modulo
/// the number left.
pub open spec fn spec_shuffle(left: Seq<usize>, draws: Seq<usize>, i: int) -> Seq<usize>
    decreases left.len(),
{
    if left.len() == 0 || i < 0 || i >= draws.len() {
        Seq::empty()
    } else {
        let pick = draws[i] as int % left.len() as int;
        seq![left[pick]] + spec_shuffle(left.remove(pick), draws, i + 1)
    }
}

/// The indices below `len` in rising order.
pub open spec fn identity_order(len: nat) -> Seq<usize> {
    Seq::new(len, |i: int| i as usize)
}

/// Turns one draw per item into an order of the items.
pub fn shuffle_with(len: usize, draws: &Vec<usize>) -> (r: Vec<usize>)
    requires
        draws@.len() >= len,
    ensures
        r@ == spec_shuffle(identity_order(len as nat), draws@, 0),
        is_permutation(r@, len as nat),
{
    let mut left: Vec<usize> = Vec::new();
    let mut k: usize = 0;
    while k < len
        invariant
            k <= len,
            left@ == identity_order(k as nat),
        decreases len - k,
    {
        left.push(k);
        k += 1;
        assert(left@ =~= identity_order(k as nat));
    }
    let mut out: Vec<usize> = Vec::new();
    let mut i: usize = 0;
    while i < len
        invariant
            i <= len,
            draws@.len() >= len,
            out@.len() == i,
            left@.len() == len - i,
            out@ + spec_shuffle(left@, draws@, i as int) == spec_shuffle(
                identity_order(len as nat),
                draws@,
                0,
            ),
            forall|a: int| 0 <= a < left@.len() ==> #[trigger] left@[a] < len,
            forall|a: int| 0 <= a < out@.len() ==> #[trigger] out@[a] < len,
            forall|a: int, b: int|
                0 <= a < b < left@.len() ==> #[trigger] left@[a] != #[trigger] left@[b],
            forall|a: int, b: int|
                0 <= a < b < out@.len() ==> #[trigger] out@[a] != #[trigger] out@[b],
            forall|a: int, b: int|
                0 <= a < out@.len() && 0 <= b < left@.len() ==> #[trigger] out@[a]
                    != #[trigger] left@[b],
        decreases len - i,
    {
        let pick: usize = draws[i] % left.len();
        let ghost left_before = left@;
        let ghost out_before = out@;
        let value = left.remove(pick);
        out.push(value);
        proof {
            let rest = spec_shuffle(left@, draws@, i + 1);
            assert(left@ == left_before.remove(pick as int));
            assert(spec_shuffle(left_before, draws@, i as int) == seq![value] + rest);
            assert((out_before + seq![value]) + rest =~= out_before + (seq![value] + rest));
            assert(out@ =~= out_before + seq![value]);
            assert forall|a: int| 0 <= a < left@.len() implies #[trigger] left@[a] < len by {
                if a < pick {
                    assert(left@[a] == left_before[a]);
                } else {
                    assert(left@[a] == left_before[a + 1]);
                }
            }
            assert forall|a: int, b: int| 0 <= a < b < left@.len() implies #[trigger] left@[a]
                != #[trigger] left@[b] by {
                let a0 = if a < pick { a } else { a + 1 };
                let b0 = if b < pick { b } else { b + 1 };
                assert(left@[a] == left_before[a0]);
                assert(left@[b] == left_before[b0]);
            }
            assert forall|a: int, b: int|
                0 <= a < out@.len() && 0 <= b < left@.len() implies #[trigger] out@[a]
                != #[trigger] left@[b] by {
                let b0 = if b < pick { b } else { b + 1 };
                assert(left@[b] == left_before[b0]);
                if a < i {
                    assert(out@[a] == out_before[a]);
                } else {
                    assert(out@[a] == left_before[pick as int]);
                }
            }
            assert forall|a: int, b: int| 0 <= a < b < out@.len() implies #[trigger] out@[a]
                != #[trigger] out@[b] by {
                if b == i {
                    assert(out@[a] == out_before[a]);
                    assert(out@[b] == left_before[pick as int]);
                } else {
                    assert(out@[a] == out_before[a]);
                    assert(out@[b] == out_before[b]);
                }
            }
        }
        i += 1;
    }
    proof {
        assert(spec_shuffle(left@, draws@, len as int) =~= Seq::<usize>::empty());
        assert(out@ + Seq::<usize>::empty() =~= out@);
    }
    out
}

/// Draws a number from the thread's random generator, `rand::thread_rng`, by
/// `rand::Rng::gen`. Nothing is claimed of the number.
#[verifier::external_body]
fn random_index() -> (r: usize) {
    rand::Rng::gen::<usize>(&mut rand::thread_rng())
}

/// A random order of `len` items: one draw per item decides it.
pub fn shuffle_order(len: usize) -> (r: Vec<usize>)
    ensures
        is_permutation(r@, len as nat),
{
    let mut draws: Vec<usize> = Vec::new();
    let mut i: usize = 0;
    while i < len
        invariant
            i <= len,
            draws@.len() == i,
        decreases len - i,
    {
        draws.push(random_index());
        i += 1;
    }
    shuffle_with(len, &draws)
}

} // verus!
