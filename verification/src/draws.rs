//! Random draws that were made beforehand, and what is done with them.
//!
//! Every choice in this library that is left to chance is a function of the draws
//! it was given, so each is stated and proved for every sequence of draws.

use vstd::prelude::*;

verus! {

/// Draws of a random source, in the order in which they were made, of which the
/// first ones may have been used.
#[derive(Debug)]
pub struct Draws {
    tape: Vec<u32>,
    used: usize,
}

impl View for Draws {
    type V = Seq<u32>;

    /// The draws that are left.
    closed spec fn view(&self) -> Seq<u32> {
        self.tape@.skip(self.used as int)
    }
}

impl Draws {
    /// No more draws are used than were made.
    #[verifier::type_invariant]
    closed spec fn wf(self) -> bool {
        self.used <= self.tape@.len()
    }

    /// Draws that were just made.
    pub fn new(tape: Vec<u32>) -> (draws: Draws)
        ensures
            draws@ == tape@,
    {
        let draws = Draws { tape, used: 0 };
        proof {
            assert(draws@ =~= tape@);
        }
        draws
    }

    /// How many draws are left.
    pub fn left(&self) -> (left: usize)
        ensures
            left == self@.len(),
    {
        proof {
            use_type_invariant(self);
        }
        self.tape.len() - self.used
    }

    /// Takes the next draw.
    pub fn next_u32(&mut self) -> (draw: u32)
        requires
            old(self)@.len() > 0,
        ensures
            draw == old(self)@[0],
            final(self)@ == old(self)@.skip(1),
    {
        proof {
            use_type_invariant(&*self);
        }
        let made: usize = self.tape.len();
        let draw: u32 = self.tape[self.used];
        proof {
            assert(self.used < made);
        }
        self.used = self.used + 1;
        proof {
            assert(final(self)@ =~= old(self)@.skip(1));
        }
        draw
    }
}

/// A draw scaled into `0..bound`: the high half of the product.
pub open spec fn scaled(draw: u32, bound: int) -> int {
    (draw * bound) / 0x1_0000_0000
}

/// Whether a number can be drawn below `bound` at all.
pub open spec fn drawable(bound: int) -> bool {
    0 < bound <= u32::MAX
}

/// The number drawn below `bound`, which is 0 where none can be drawn.
pub open spec fn drawn(bound: int, tape: Seq<u32>) -> int {
    if drawable(bound) { scaled(tape[0], bound) } else { 0 }
}

/// The draws that are left once a number was drawn below `bound`: one fewer, or
/// all of them where none can be drawn.
pub open spec fn after_one(bound: int, tape: Seq<u32>) -> Seq<u32> {
    if drawable(bound) { tape.skip(1) } else { tape }
}

/// A scaled draw lies in its range.
pub proof fn a_draw_stays_below_its_bound(draw: u32, bound: int)
    requires
        drawable(bound),
    ensures
        0 <= scaled(draw, bound) < bound,
{
    assert(0 <= draw * bound < 0x1_0000_0000 * bound) by (nonlinear_arith)
        requires
            0 <= draw < 0x1_0000_0000,
            0 < bound,
    ;
}

/// Every number below the bound can be drawn: each is what some draw scales to.
pub proof fn every_number_below_the_bound_can_be_drawn(number: int, bound: int)
    requires
        0 <= number < bound <= u32::MAX,
    ensures
        exists|draw: u32| #[trigger] scaled(draw, bound) == number,
{
    let whole: int = 0x1_0000_0000;
    let start = number * whole;
    let least = (start + bound - 1) / bound;
    assert(start <= least * bound < start + bound) by (nonlinear_arith)
        requires
            0 < bound,
            least == (start + bound - 1) / bound,
    ;
    assert(0 <= least) by (nonlinear_arith)
        requires
            0 < bound,
            0 <= number,
            start == number * 0x1_0000_0000,
            start <= least * bound,
    ;
    assert(least < whole) by (nonlinear_arith)
        requires
            0 < bound,
            bound < whole,
            whole == 0x1_0000_0000,
            number + 1 <= bound,
            start == number * whole,
            least * bound < start + bound,
    ;
    let draw = least as u32;
    assert(scaled(draw, bound) == number) by {
        assert(draw * bound == least * bound);
        assert((least * bound) / whole == number) by (nonlinear_arith)
            requires
                whole == 0x1_0000_0000,
                start == number * whole,
                start <= least * bound < start + bound,
                bound < whole,
        ;
    }
}

/// Draws a number below `bound`, or gives 0 and makes no draw where `bound` is
/// zero or does not fit 32 bits.
pub fn below(bound: usize, draws: &mut Draws) -> (picked: usize)
    requires
        drawable(bound as int) ==> old(draws)@.len() > 0,
    ensures
        picked == drawn(bound as int, old(draws)@),
        final(draws)@ == after_one(bound as int, old(draws)@),
        drawable(bound as int) ==> picked < bound,
        1 <= bound <= u32::MAX ==> {
            &&& picked < bound
            &&& picked * 0x1_0000_0000 <= old(draws)@[0] * bound < (picked + 1) * 0x1_0000_0000
            &&& final(draws)@ == old(draws)@.skip(1)
        },
        bound == 0 || bound > u32::MAX ==> picked == 0 && final(draws)@ == old(draws)@,
{
    if bound == 0 || bound as u64 > u32::MAX as u64 {
        return 0;
    }
    let draw: u32 = draws.next_u32();
    proof {
        a_draw_stays_below_its_bound(draw, bound as int);
        assert(draw * bound <= 0xffff_ffff * 0xffff_ffff) by (nonlinear_arith)
            requires
                0 <= draw <= 0xffff_ffff,
                0 <= bound <= 0xffff_ffff,
        ;
    }
    let product: u64 = draw as u64 * bound as u64;
    proof {
        assert(product >> 32 == product / 0x1_0000_0000) by (bit_vector);
    }
    (product >> 32) as usize
}

/// A sequence with two of its items exchanged.
pub open spec fn swapped<T>(items: Seq<T>, i: int, j: int) -> Seq<T> {
    items.update(i, items[j]).update(j, items[i])
}

/// The first `count` items of a sequence put in a drawn order, from the last of
/// them down: each changes places with one at or before it.
pub open spec fn shuffled<T>(items: Seq<T>, count: int, tape: Seq<u32>) -> Seq<T>
    decreases count,
{
    if count <= 1 {
        items
    } else {
        shuffled(
            swapped(items, count - 1, drawn(count, tape)),
            count - 1,
            after_one(count, tape),
        )
    }
}

/// The draws that are left once `count` items were put in a drawn order.
pub open spec fn after_shuffle(count: int, tape: Seq<u32>) -> Seq<u32>
    decreases count,
{
    if count <= 1 {
        tape
    } else {
        after_shuffle(count - 1, after_one(count, tape))
    }
}

/// Shuffling uses one draw per item but the first.
pub proof fn a_shuffle_uses_one_draw_per_item_but_the_first(count: int, tape: Seq<u32>)
    requires
        1 <= count <= u32::MAX,
        tape.len() >= count - 1,
    ensures
        after_shuffle(count, tape) == tape.skip(count - 1),
    decreases count,
{
    if count <= 1 {
        assert(tape.skip(0) =~= tape);
    } else {
        a_shuffle_uses_one_draw_per_item_but_the_first(count - 1, tape.skip(1));
        assert(tape.skip(1).skip(count - 2) =~= tape.skip(count - 1));
    }
}

/// Exchanging two items keeps the items.
pub(crate) proof fn swapping_keeps_the_items<T>(items: Seq<T>, i: int, j: int)
    requires
        0 <= i < items.len(),
        0 <= j < items.len(),
    ensures
        swapped(items, i, j).to_multiset() == items.to_multiset(),
{
    broadcast use {
        vstd::multiset::group_multiset_axioms,
        vstd::seq_lib::group_to_multiset_ensures,
    };

    let once = items.update(i, items[j]);
    vstd::seq_lib::to_multiset_update(items, i, items[j]);
    vstd::seq_lib::to_multiset_update(once, j, items[i]);
    let m = items.to_multiset();
    assert(items.contains(items[i]));
    assert(items.contains(items[j]));
    assert(once[j] == items[j]);
    assert(m.insert(items[j]).remove(items[i]).insert(items[i]).remove(items[j]) =~= m);
}

/// A shuffle loses nothing and makes up nothing: its result holds the items that
/// went in, each as often.
pub proof fn a_shuffle_is_a_permutation<T>(items: Seq<T>, count: int, tape: Seq<u32>)
    requires
        count <= items.len(),
    ensures
        shuffled(items, count, tape).len() == items.len(),
        shuffled(items, count, tape).to_multiset() == items.to_multiset(),
    decreases count,
{
    if count > 1 {
        let j = drawn(count, tape);
        if drawable(count) {
            a_draw_stays_below_its_bound(tape[0], count);
        }
        swapping_keeps_the_items(items, count - 1, j);
        a_shuffle_is_a_permutation(
            swapped(items, count - 1, j),
            count - 1,
            after_one(count, tape),
        );
    }
}

/// Of two sequences with the same items, one holds each item of the other.
proof fn an_item_is_kept<T>(items: Seq<T>, target: Seq<T>, at: int) -> (found: int)
    requires
        items.to_multiset() == target.to_multiset(),
        0 <= at < target.len(),
    ensures
        0 <= found < items.len(),
        items[found] == target[at],
{
    broadcast use vstd::seq_lib::group_to_multiset_ensures;

    assert(target.contains(target[at]));
    assert(target.to_multiset().count(target[at]) > 0);
    assert(items.contains(target[at]));
    choose|found: int| 0 <= found < items.len() && items[found] == target[at]
}

/// The draws that put the first `count` items in the order of `target`, one for each
/// item but the first, in front of any others.
proof fn draws_for_an_order<T>(
    items: Seq<T>,
    target: Seq<T>,
    count: int,
    rest: Seq<u32>,
) -> (tape: Seq<u32>)
    requires
        1 <= count <= items.len() == target.len(),
        count <= u32::MAX,
        forall|i: int| count <= i < items.len() ==> items[i] == target[i],
        items.take(count).to_multiset() == target.take(count).to_multiset(),
    ensures
        tape.len() == count - 1,
        shuffled(items, count, tape + rest) == target,
        after_shuffle(count, tape + rest) == rest,
    decreases count,
{
    let found = an_item_is_kept(items.take(count), target.take(count), count - 1);
    if count == 1 {
        let tape: Seq<u32> = Seq::empty();
        assert(items =~= target);
        assert(tape + rest =~= rest);
        tape
    } else {
        broadcast use {
            vstd::multiset::group_multiset_axioms,
            vstd::seq_lib::group_to_multiset_ensures,
        };

        let next = swapped(items, count - 1, found);
        let last = target[count - 1];
        swapping_keeps_the_items(items.take(count), count - 1, found);
        assert(next.take(count) =~= swapped(items.take(count), count - 1, found));
        assert(next.take(count) =~= next.take(count - 1).push(last));
        assert(target.take(count) =~= target.take(count - 1).push(last));
        let a = next.take(count - 1).to_multiset();
        let b = target.take(count - 1).to_multiset();
        assert(a.insert(last) =~= b.insert(last));
        assert(a =~= a.insert(last).remove(last));
        assert(b =~= b.insert(last).remove(last));
        let fewer = draws_for_an_order(next, target, count - 1, rest);
        every_number_below_the_bound_can_be_drawn(found, count);
        let draw = choose|draw: u32| #[trigger] scaled(draw, count) == found;
        let tape = seq![draw] + fewer;
        assert((tape + rest).skip(1) =~= fewer + rest);
        assert((tape + rest)[0] == draw);
        tape
    }
}

/// Every order can be drawn: however the items are to come out, there are draws that
/// bring them out so, one for each item but the first.
pub proof fn every_order_can_be_drawn<T>(items: Seq<T>, target: Seq<T>, rest: Seq<u32>)
    requires
        1 <= items.len() <= u32::MAX,
        items.to_multiset() == target.to_multiset(),
    ensures
        exists|tape: Seq<u32>|
            tape.len() == items.len() - 1 && #[trigger] shuffled(
                items,
                items.len() as int,
                tape + rest,
            ) == target && after_shuffle(items.len() as int, tape + rest) == rest,
{
    broadcast use vstd::seq_lib::group_to_multiset_ensures;

    let count = items.len() as int;
    assert(items.len() == items.to_multiset().len());
    assert(target.len() == target.to_multiset().len());
    assert(items.take(count) =~= items);
    assert(target.take(count) =~= target);
    let tape = draws_for_an_order(items, target, count, rest);
    assert(shuffled(items, count, tape + rest) == target);
}

/// What a shuffle of the first items leaves behind them stays where it is.
proof fn a_shuffle_leaves_the_rest<T>(items: Seq<T>, count: int, tape: Seq<u32>, at: int)
    requires
        0 <= count <= at < items.len(),
        count <= u32::MAX,
    ensures
        shuffled(items, count, tape)[at] == items[at],
    decreases count,
{
    if count > 1 {
        a_draw_stays_below_its_bound(tape[0], count);
        a_shuffle_leaves_the_rest(
            swapped(items, count - 1, drawn(count, tape)),
            count - 1,
            after_one(count, tape),
            at,
        );
    }
}

/// No order is drawn in two ways: two runs of draws that bring different items out in
/// the same order pick the same place at every step. As every order can be drawn,
/// each is drawn by exactly one run of picks, and none is favoured.
pub proof fn no_order_is_favoured<T>(items: Seq<T>, count: int, one: Seq<u32>, other: Seq<u32>)
    requires
        items.no_duplicates(),
        1 <= count <= items.len(),
        count <= u32::MAX,
        one.len() >= count - 1,
        other.len() >= count - 1,
        shuffled(items, count, one) == shuffled(items, count, other),
    ensures
        forall|i: int|
            0 <= i < count - 1 ==> scaled(#[trigger] one[i], count - i) == scaled(
                other[i],
                count - i,
            ),
    decreases count,
{
    if count > 1 {
        let j = drawn(count, one);
        let k = drawn(count, other);
        a_draw_stays_below_its_bound(one[0], count);
        a_draw_stays_below_its_bound(other[0], count);
        let next = swapped(items, count - 1, j);
        let next_other = swapped(items, count - 1, k);
        a_shuffle_leaves_the_rest(next, count - 1, one.skip(1), count - 1);
        a_shuffle_leaves_the_rest(next_other, count - 1, other.skip(1), count - 1);
        assert(next[count - 1] == items[j]);
        assert(next_other[count - 1] == items[k]);
        assert(j == k);
        no_order_is_favoured(next, count - 1, one.skip(1), other.skip(1));
        assert forall|i: int| 0 <= i < count - 1 implies scaled(#[trigger] one[i], count - i)
            == scaled(other[i], count - i) by {
            if i > 0 {
                assert(one.skip(1)[i - 1] == one[i]);
                assert(other.skip(1)[i - 1] == other[i]);
            }
        }
    }
}

/// Puts the items in a drawn order.
pub fn shuffle<T: Copy>(items: &mut Vec<T>, draws: &mut Draws)
    requires
        old(draws)@.len() + 1 >= old(items)@.len(),
    ensures
        final(items)@ == shuffled(old(items)@, old(items)@.len() as int, old(draws)@),
        final(draws)@ == after_shuffle(old(items)@.len() as int, old(draws)@),
        final(items)@.len() == old(items)@.len(),
        final(items)@.to_multiset() == old(items)@.to_multiset(),
{
    let mut i: usize = items.len();
    while i > 1
        invariant
            i <= items@.len() == old(items)@.len(),
            draws@.len() + 1 >= i,
            shuffled(items@, i as int, draws@) == shuffled(
                old(items)@,
                old(items)@.len() as int,
                old(draws)@,
            ),
            after_shuffle(i as int, draws@) == after_shuffle(
                old(items)@.len() as int,
                old(draws)@,
            ),
        decreases i,
    {
        let ghost before = items@;
        let j: usize = below(i, draws);
        i -= 1;
        let last: T = items[i];
        let picked: T = items[j];
        items.set(i, picked);
        items.set(j, last);
        proof {
            assert(items@ =~= swapped(before, i as int, j as int));
        }
    }
    proof {
        a_shuffle_is_a_permutation(old(items)@, old(items)@.len() as int, old(draws)@);
    }
}

} // verus!
