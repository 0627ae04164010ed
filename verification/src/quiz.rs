//! A quiz on a backup that was written down: eight of its words are asked for,
//! each among three candidates, and a wrong answer asks again.
//!
//! One candidate is the true word, one is another word of the same share and one
//! comes from the whole word list. Where each of them stands is drawn, so the
//! screen says nothing about which is which.

use vstd::prelude::*;
use vstd::string::*;
use crate::draws::{
    a_shuffle_is_a_permutation, a_shuffle_uses_one_draw_per_item_but_the_first, after_one,
    after_shuffle, below, drawable, drawn, every_number_below_the_bound_can_be_drawn,
    every_order_can_be_drawn, scaled, shuffle, shuffled, swapped, swapping_keeps_the_items, Draws,
};
use crate::flow::BACKUP_WORDS;
use crate::keypad::{KEY_CANCEL, QUIZ_KEYS};
use crate::text::{decimal, decimal_of, same_text};

verus! {

/// How many words are asked for: a third of them.
pub const QUIZ_POSITIONS: usize = BACKUP_WORDS / 3;

/// How many candidates a question shows, one for each key that answers.
pub const QUIZ_OPTIONS: usize = 3;

/// The position of the last word, which is always asked for.
pub const LAST_POSITION: u8 = 24;

/// How often a candidate is drawn again before the first that will do is taken.
pub const DRAW_TRIES: usize = 32;

/// As many draws as one question can use.
pub const OPTION_DRAWS: usize = 2 * DRAW_TRIES + QUIZ_OPTIONS - 1;

/// As many draws as starting a quiz can use.
pub const QUIZ_DRAWS: usize = (BACKUP_WORDS - 2) + (QUIZ_POSITIONS - 1) + OPTION_DRAWS;

/// Whether a word is among some words, by its text.
pub open spec fn among(words: Seq<&'static str>, word: Seq<char>) -> bool {
    exists|i: int| 0 <= i < words.len() && (#[trigger] words[i])@ == word
}

/// The first word of `pool` whose text is not taken.
pub open spec fn first_free(pool: Seq<&'static str>, taken: Seq<&'static str>) -> Option<
    &'static str,
>
    decreases pool.len(),
{
    if pool.len() == 0 {
        None
    } else if !among(taken, pool[0]@) {
        Some(pool[0])
    } else {
        first_free(pool.skip(1), taken)
    }
}

/// The word picked from `pool` that is not taken: the first drawn one of up to
/// `tries` draws, else the first in order.
pub open spec fn picked(
    pool: Seq<&'static str>,
    taken: Seq<&'static str>,
    tries: int,
    tape: Seq<u32>,
) -> Option<&'static str>
    decreases tries,
{
    if pool.len() == 0 {
        None
    } else if tries <= 0 {
        first_free(pool, taken)
    } else {
        let pick = pool[drawn(pool.len() as int, tape)];
        if !among(taken, pick@) {
            Some(pick)
        } else {
            picked(pool, taken, tries - 1, after_one(pool.len() as int, tape))
        }
    }
}

/// The draws that are left once a word was picked.
pub open spec fn after_pick(
    pool: Seq<&'static str>,
    taken: Seq<&'static str>,
    tries: int,
    tape: Seq<u32>,
) -> Seq<u32>
    decreases tries,
{
    if pool.len() == 0 || tries <= 0 {
        tape
    } else {
        let rest = after_one(pool.len() as int, tape);
        if !among(taken, pool[drawn(pool.len() as int, tape)]@) {
            rest
        } else {
            after_pick(pool, taken, tries - 1, rest)
        }
    }
}

/// Whether a word is among some words, by its text.
fn contains_word(words: &[&'static str], word: &'static str) -> (found: bool)
    ensures
        found == among(words@, word@),
        found <==> exists|i: int| 0 <= i < words@.len() && (#[trigger] words@[i])@ == word@,
{
    let mut i: usize = 0;
    while i < words.len()
        invariant
            i <= words@.len(),
            forall|j: int| 0 <= j < i ==> (#[trigger] words@[j])@ != word@,
        decreases words@.len() - i,
    {
        if same_text(words[i], word) {
            return true;
        }
        i += 1;
    }
    false
}

/// What the first free word is: a word of the pool that is not taken, unless
/// every word of the pool is.
proof fn first_free_is_free(pool: Seq<&'static str>, taken: Seq<&'static str>)
    ensures
        first_free(pool, taken) matches Some(word) ==> among(pool, word@) && !among(taken, word@),
        first_free(pool, taken) is None <==> forall|i: int|
            0 <= i < pool.len() ==> among(taken, (#[trigger] pool[i])@),
    decreases pool.len(),
{
    if pool.len() > 0 && among(taken, pool[0]@) {
        let rest = pool.skip(1);
        first_free_is_free(rest, taken);
        assert forall|w: Seq<char>| among(rest, w) implies among(pool, w) by {
            let i = choose|i: int| 0 <= i < rest.len() && (#[trigger] rest[i])@ == w;
            assert(pool[i + 1]@ == w);
        }
        assert forall|i: int| 0 <= i < pool.len() && first_free(rest, taken) is None implies among(
            taken,
            (#[trigger] pool[i])@,
        ) by {
            if i > 0 {
                assert(rest[i - 1] == pool[i]);
            }
        }
        if forall|i: int| 0 <= i < pool.len() ==> among(taken, (#[trigger] pool[i])@) {
            assert forall|i: int| 0 <= i < rest.len() implies among(taken, (#[trigger] rest[i])@) by {
                assert(rest[i] == pool[i + 1]);
            }
        }
    } else if pool.len() > 0 {
        assert(among(pool, pool[0]@));
    }
}

/// The first free word is the first: every word of the pool in front of it is taken.
pub proof fn nothing_in_front_of_the_first_free_word_is_free(
    pool: Seq<&'static str>,
    taken: Seq<&'static str>,
    at: int,
)
    requires
        0 <= at < pool.len(),
        !among(taken, pool[at]@),
        forall|i: int| 0 <= i < at ==> among(taken, (#[trigger] pool[i])@),
    ensures
        first_free(pool, taken) == Some(pool[at]),
    decreases at,
{
    if at > 0 {
        let rest = pool.skip(1);
        assert(among(taken, pool[0]@));
        assert forall|i: int| 0 <= i < at - 1 implies among(taken, (#[trigger] rest[i])@) by {
            assert(rest[i] == pool[i + 1]);
        }
        nothing_in_front_of_the_first_free_word_is_free(rest, taken, at - 1);
    }
}

/// A pick takes the first drawn word that is free, and no draw after it.
pub proof fn the_first_free_draw_is_picked(
    pool: Seq<&'static str>,
    taken: Seq<&'static str>,
    tries: int,
    tape: Seq<u32>,
    at: int,
)
    requires
        0 < pool.len() <= u32::MAX,
        0 <= at < tries,
        at < tape.len(),
        forall|i: int|
            0 <= i < at ==> among(taken, pool[scaled(#[trigger] tape[i], pool.len() as int)]@),
        !among(taken, pool[scaled(tape[at], pool.len() as int)]@),
    ensures
        picked(pool, taken, tries, tape) == Some(pool[scaled(tape[at], pool.len() as int)]),
        after_pick(pool, taken, tries, tape) == tape.skip(at + 1),
    decreases at,
{
    if at > 0 {
        let rest = tape.skip(1);
        assert(among(taken, pool[scaled(tape[0], pool.len() as int)]@));
        assert forall|i: int| 0 <= i < at - 1 implies among(
            taken,
            pool[scaled(#[trigger] rest[i], pool.len() as int)]@,
        ) by {
            assert(rest[i] == tape[i + 1]);
        }
        the_first_free_draw_is_picked(pool, taken, tries - 1, rest, at - 1);
        assert(rest.skip(at) =~= tape.skip(at + 1));
    }
}

/// Where every draw of the tries hits a taken word, the first free word is picked, and
/// all of those draws are used.
pub proof fn without_a_free_draw_the_first_free_word_is_picked(
    pool: Seq<&'static str>,
    taken: Seq<&'static str>,
    tries: int,
    tape: Seq<u32>,
)
    requires
        0 < pool.len() <= u32::MAX,
        0 <= tries <= tape.len(),
        forall|i: int|
            0 <= i < tries ==> among(taken, pool[scaled(#[trigger] tape[i], pool.len() as int)]@),
    ensures
        picked(pool, taken, tries, tape) == first_free(pool, taken),
        after_pick(pool, taken, tries, tape) == tape.skip(tries),
    decreases tries,
{
    if tries > 0 {
        let rest = tape.skip(1);
        assert(among(taken, pool[scaled(tape[0], pool.len() as int)]@));
        assert forall|i: int| 0 <= i < tries - 1 implies among(
            taken,
            pool[scaled(#[trigger] rest[i], pool.len() as int)]@,
        ) by {
            assert(rest[i] == tape[i + 1]);
        }
        without_a_free_draw_the_first_free_word_is_picked(pool, taken, tries - 1, rest);
        assert(rest.skip(tries - 1) =~= tape.skip(tries));
    } else {
        assert(tape.skip(0) =~= tape);
    }
}

/// A picked word is a word of the pool that is not taken, and one is picked
/// unless every word of the pool is taken.
pub proof fn a_pick_is_free(
    pool: Seq<&'static str>,
    taken: Seq<&'static str>,
    tries: int,
    tape: Seq<u32>,
)
    ensures
        picked(pool, taken, tries, tape) matches Some(word) ==> among(pool, word@) && !among(
            taken,
            word@,
        ),
        picked(pool, taken, tries, tape) is None <==> forall|i: int|
            0 <= i < pool.len() ==> among(taken, (#[trigger] pool[i])@),
    decreases tries,
{
    first_free_is_free(pool, taken);
    if pool.len() > 0 && tries > 0 {
        let k = drawn(pool.len() as int, tape);
        if drawable(pool.len() as int) {
            crate::draws::a_draw_stays_below_its_bound(tape[0], pool.len() as int);
        }
        assert(among(pool, pool[k]@));
        a_pick_is_free(pool, taken, tries - 1, after_one(pool.len() as int, tape));
    }
}

/// A pick uses at most as many draws as it may try.
proof fn a_pick_uses_at_most_its_tries(
    pool: Seq<&'static str>,
    taken: Seq<&'static str>,
    tries: int,
    tape: Seq<u32>,
)
    requires
        0 <= tries <= tape.len(),
    ensures
        after_pick(pool, taken, tries, tape).len() >= tape.len() - tries,
    decreases tries,
{
    if pool.len() > 0 && tries > 0 {
        a_pick_uses_at_most_its_tries(
            pool,
            taken,
            tries - 1,
            after_one(pool.len() as int, tape),
        );
    }
}

/// The first word of `pool` whose text is not taken.
fn sweep(pool: &[&'static str], taken: &[&'static str]) -> (free: Option<&'static str>)
    ensures
        free == first_free(pool@, taken@),
{
    let mut i: usize = 0;
    proof {
        assert(pool@.skip(0) =~= pool@);
    }
    while i < pool.len()
        invariant
            i <= pool@.len(),
            first_free(pool@.skip(i as int), taken@) == first_free(pool@, taken@),
        decreases pool@.len() - i,
    {
        let word: &'static str = pool[i];
        proof {
            assert(pool@.skip(i as int)[0] == word);
            assert(pool@.skip(i as int).skip(1) =~= pool@.skip(i + 1));
        }
        if !contains_word(taken, word) {
            return Some(word);
        }
        i += 1;
    }
    None
}

/// Picks a word of `pool` that is not taken, or says that every one is.
fn draw_distinct(
    pool: &[&'static str],
    taken: &[&'static str],
    draws: &mut Draws,
) -> (pick: Option<&'static str>)
    requires
        old(draws)@.len() >= DRAW_TRIES,
    ensures
        pick == picked(pool@, taken@, DRAW_TRIES as int, old(draws)@),
        pick == picked(pool@, taken@, 32, old(draws)@),
        final(draws)@ == after_pick(pool@, taken@, DRAW_TRIES as int, old(draws)@),
{
    if pool.len() == 0 {
        return None;
    }
    let mut tries: usize = 0;
    while tries < DRAW_TRIES
        invariant
            pool@.len() > 0,
            tries <= DRAW_TRIES,
            draws@.len() >= DRAW_TRIES - tries,
            picked(pool@, taken@, DRAW_TRIES - tries, draws@) == picked(
                pool@,
                taken@,
                DRAW_TRIES as int,
                old(draws)@,
            ),
            after_pick(pool@, taken@, DRAW_TRIES - tries, draws@) == after_pick(
                pool@,
                taken@,
                DRAW_TRIES as int,
                old(draws)@,
            ),
        decreases DRAW_TRIES - tries,
    {
        let pick: &'static str = pool[below(pool.len(), draws)];
        if !contains_word(taken, pick) {
            return Some(pick);
        }
        tries += 1;
    }
    sweep(pool, taken)
}

/// The positions that a draw may leave out: all but the last.
pub open spec fn open_positions() -> Seq<u8> {
    Seq::new((BACKUP_WORDS - 1) as nat, |i: int| i as u8)
}

/// The positions before they are put in the order of asking: the first of the
/// shuffled open ones, and the last position.
pub open spec fn chosen_positions(tape: Seq<u32>) -> Seq<u8> {
    shuffled(open_positions(), BACKUP_WORDS - 1, tape).take(QUIZ_POSITIONS - 1).push(
        LAST_POSITION,
    )
}

/// The positions that are asked for, in the order in which they are.
pub open spec fn drawn_order(tape: Seq<u32>) -> Seq<u8> {
    shuffled(
        chosen_positions(tape),
        QUIZ_POSITIONS as int,
        after_shuffle(BACKUP_WORDS - 1, tape),
    )
}

/// The draws that are left once the order was drawn.
pub open spec fn after_order(tape: Seq<u32>) -> Seq<u32> {
    after_shuffle(QUIZ_POSITIONS as int, after_shuffle(BACKUP_WORDS - 1, tape))
}

/// An order of asking names eight words of the share, none twice, and always the
/// last.
pub open spec fn fair_order(order: Seq<u8>) -> bool {
    &&& order.len() == QUIZ_POSITIONS
    &&& order.no_duplicates()
    &&& order.contains(LAST_POSITION)
    &&& forall|i: int| 0 <= i < order.len() ==> (#[trigger] order[i]) < BACKUP_WORDS
}

/// Items that are kept by a reordering are still there, and still only once.
proof fn same_items<T>(a: Seq<T>, b: Seq<T>)
    requires
        a.to_multiset() == b.to_multiset(),
    ensures
        a.len() == b.len(),
        forall|x: T| a.contains(x) <==> b.contains(x),
        a.no_duplicates() ==> b.no_duplicates(),
{
    broadcast use vstd::seq_lib::group_to_multiset_ensures;

    assert(a.len() == a.to_multiset().len());
    assert(b.len() == b.to_multiset().len());
    assert forall|x: T| a.contains(x) <==> b.contains(x) by {
        assert(a.contains(x) <==> a.to_multiset().count(x) > 0);
        assert(b.contains(x) <==> b.to_multiset().count(x) > 0);
    }
    if a.no_duplicates() {
        a.lemma_multiset_has_no_duplicates();
        b.lemma_multiset_has_no_duplicates_conv();
    }
}

/// Whatever is drawn, the quiz asks for eight different words and always for the
/// last.
pub proof fn every_drawn_order_is_fair(tape: Seq<u32>)
    ensures
        fair_order(drawn_order(tape)),
        drawn_order(tape).len() == 8,
        drawn_order(tape).no_duplicates(),
        drawn_order(tape).contains(24u8),
        forall|i: int| 0 <= i < 8 ==> (#[trigger] drawn_order(tape)[i]) < 25,
{
    let all = open_positions();
    let mixed = shuffled(all, BACKUP_WORDS - 1, tape);
    a_shuffle_is_a_permutation(all, BACKUP_WORDS - 1, tape);
    assert(all.no_duplicates());
    same_items(all, mixed);
    assert forall|i: int| 0 <= i < mixed.len() implies (#[trigger] mixed[i]) < BACKUP_WORDS - 1 by {
        assert(mixed.contains(mixed[i]));
        assert(all.contains(mixed[i]));
    }
    let chosen = chosen_positions(tape);
    assert(chosen.no_duplicates()) by {
        assert forall|i: int, j: int|
            0 <= i < chosen.len() && 0 <= j < chosen.len() && i != j implies chosen[i]
            != chosen[j] by {
            if i < QUIZ_POSITIONS - 1 && j < QUIZ_POSITIONS - 1 {
                assert(chosen[i] == mixed[i]);
                assert(chosen[j] == mixed[j]);
            }
        }
    }
    assert(chosen[QUIZ_POSITIONS - 1] == LAST_POSITION);
    assert(chosen.contains(LAST_POSITION));
    let rest = after_shuffle(BACKUP_WORDS - 1, tape);
    let order = drawn_order(tape);
    a_shuffle_is_a_permutation(chosen, QUIZ_POSITIONS as int, rest);
    same_items(chosen, order);
    assert forall|i: int| 0 <= i < order.len() implies (#[trigger] order[i]) < BACKUP_WORDS by {
        assert(order.contains(order[i]));
        assert(chosen.contains(order[i]));
        let k = choose|k: int| 0 <= k < chosen.len() && chosen[k] == order[i];
        if k < QUIZ_POSITIONS - 1 {
            assert(chosen[k] == mixed[k]);
        }
    }
}

/// Drawing the order of asking uses the first thirty draws and leaves the others.
pub proof fn an_order_uses_thirty_draws(tape: Seq<u32>)
    requires
        tape.len() >= 30,
    ensures
        after_order(tape) == tape.skip(30),
{
    a_shuffle_uses_one_draw_per_item_but_the_first(BACKUP_WORDS - 1, tape);
    a_shuffle_uses_one_draw_per_item_but_the_first(QUIZ_POSITIONS as int, tape.skip(23));
    assert(tape.skip(23).skip(7) =~= tape.skip(30));
}

/// Items can be put in an order that starts with any of them.
proof fn a_start_can_be_completed<T>(items: Seq<T>, start: Seq<T>) -> (target: Seq<T>)
    requires
        items.no_duplicates(),
        start.no_duplicates(),
        forall|i: int| 0 <= i < start.len() ==> items.contains(#[trigger] start[i]),
    ensures
        target.to_multiset() == items.to_multiset(),
        start.len() <= target.len() == items.len(),
        target.take(start.len() as int) == start,
    decreases start.len(),
{
    if start.len() == 0 {
        assert(items.take(0) =~= start);
        items
    } else {
        let shorter = start.drop_last();
        assert forall|i: int| 0 <= i < shorter.len() implies items.contains(
            #[trigger] shorter[i],
        ) by {
            assert(shorter[i] == start[i]);
        }
        let before = a_start_can_be_completed(items, shorter);
        let at = shorter.len() as int;
        same_items(before, items);
        assert(items.contains(start[at]));
        assert(before.contains(start[at]));
        let found = choose|found: int| 0 <= found < before.len() && before[found] == start[at];
        assert(found >= at) by {
            if found < at {
                assert(before.take(at)[found] == shorter[found]);
                assert(start[found] == start[at]);
            }
        }
        let target = swapped(before, at, found);
        swapping_keeps_the_items(before, at, found);
        assert forall|i: int| 0 <= i < start.len() implies target.take(start.len() as int)[i]
            == start[i] by {
            if i < at {
                assert(before.take(at)[i] == shorter[i]);
            }
        }
        assert(target.take(start.len() as int) =~= start);
        target
    }
}

/// Every order of asking can be drawn: any seven different positions and the last one,
/// in any order, are what some draws ask for. No position is left out, none comes at a
/// fixed place, and none is always asked for but the last.
pub proof fn every_order_of_asking_can_be_drawn(order: Seq<u8>)
    requires
        order.len() == 8,
        order.no_duplicates(),
        order.contains(24u8),
        forall|i: int| 0 <= i < 8 ==> (#[trigger] order[i]) < 25,
    ensures
        exists|tape: Seq<u32>| tape.len() == 30 && #[trigger] drawn_order(tape) == order,
{
    broadcast use {
        vstd::multiset::group_multiset_axioms,
        vstd::seq_lib::group_to_multiset_ensures,
    };

    let at = choose|at: int| 0 <= at < 8 && order[at] == 24u8;
    let seven = order.remove(at);
    let all = open_positions();
    assert forall|i: int| 0 <= i < seven.len() implies all.contains(#[trigger] seven[i]) by {
        let from = if i < at { i } else { i + 1 };
        assert(seven[i] == order[from]);
        assert(order[from] != order[at]);
        assert(all[seven[i] as int] == seven[i]);
    }
    assert(seven.no_duplicates()) by {
        assert forall|i: int, j: int| 0 <= i < seven.len() && 0 <= j < seven.len() && i
            != j implies seven[i] != seven[j] by {
            let a = if i < at { i } else { i + 1 };
            let b = if j < at { j } else { j + 1 };
            assert(seven[i] == order[a] && seven[j] == order[b]);
        }
    }
    assert(all.no_duplicates());
    let mixed = a_start_can_be_completed(all, seven);
    let chosen = seven.push(24u8);
    assert(chosen.to_multiset() =~= order.to_multiset()) by {
        vstd::seq_lib::to_multiset_remove(order, at);
        assert(order.to_multiset().count(24u8) > 0);
    }
    every_order_can_be_drawn(chosen, order, Seq::empty());
    let second = choose|second: Seq<u32>|
        second.len() == chosen.len() - 1 && #[trigger] shuffled(
            chosen,
            chosen.len() as int,
            second + Seq::empty(),
        ) == order && after_shuffle(chosen.len() as int, second + Seq::empty()) == Seq::<u32>::empty();
    assert(second + Seq::<u32>::empty() =~= second);
    every_order_can_be_drawn(all, mixed, second);
    let first = choose|first: Seq<u32>|
        first.len() == all.len() - 1 && #[trigger] shuffled(all, all.len() as int, first + second)
            == mixed && after_shuffle(all.len() as int, first + second) == second;
    let tape = first + second;
    assert(chosen_positions(tape) =~= chosen);
    assert(drawn_order(tape) == order);
}

/// Any seven words besides the last can be asked for: there are draws for which the
/// quiz asks for exactly those and the last.
pub proof fn any_seven_words_can_be_asked_for(seven: Seq<u8>)
    requires
        seven.len() == 7,
        seven.no_duplicates(),
        forall|i: int| 0 <= i < 7 ==> (#[trigger] seven[i]) < 24,
    ensures
        exists|tape: Seq<u32>|
            tape.len() == 30 && (forall|position: u8|
                #[trigger] drawn_order(tape).contains(position) <==> seven.contains(position)
                    || position == 24),
{
    let order = seven.push(24u8);
    assert(order[7] == 24u8);
    every_order_of_asking_can_be_drawn(order);
    let tape = choose|tape: Seq<u32>| tape.len() == 30 && #[trigger] drawn_order(tape) == order;
    assert forall|position: u8| #[trigger] drawn_order(tape).contains(position) <==> seven.contains(
        position,
    ) || position == 24 by {
        if seven.contains(position) {
            let i = choose|i: int| 0 <= i < 7 && seven[i] == position;
            assert(order[i] == position);
        }
        if order.contains(position) && position != 24 {
            let i = choose|i: int| 0 <= i < 8 && order[i] == position;
            assert(seven[i] == position);
        }
    }
}

/// Draws the positions to ask for, in the order of asking.
fn draw_order(draws: &mut Draws) -> (order: [u8; QUIZ_POSITIONS])
    requires
        old(draws)@.len() >= (BACKUP_WORDS - 2) + (QUIZ_POSITIONS - 1),
    ensures
        order@ == drawn_order(old(draws)@),
        final(draws)@ == after_order(old(draws)@),
        final(draws)@.len() == old(draws)@.len() - (BACKUP_WORDS - 2) - (QUIZ_POSITIONS - 1),
{
    let mut pool: Vec<u8> = Vec::new();
    let mut position: u8 = 0;
    while position < LAST_POSITION
        invariant
            position <= LAST_POSITION,
            pool@.len() == position,
            forall|i: int| 0 <= i < position ==> pool@[i] == i,
        decreases LAST_POSITION - position,
    {
        pool.push(position);
        position += 1;
    }
    proof {
        assert(pool@ =~= open_positions());
        a_shuffle_uses_one_draw_per_item_but_the_first(BACKUP_WORDS - 1, draws@);
        a_shuffle_uses_one_draw_per_item_but_the_first(
            QUIZ_POSITIONS as int,
            draws@.skip(BACKUP_WORDS - 2),
        );
    }
    shuffle(&mut pool, draws);
    pool.truncate(QUIZ_POSITIONS - 1);
    pool.push(LAST_POSITION);
    proof {
        assert(pool@ =~= chosen_positions(old(draws)@));
    }
    shuffle(&mut pool, draws);
    let order: [u8; QUIZ_POSITIONS] = [
        pool[0],
        pool[1],
        pool[2],
        pool[3],
        pool[4],
        pool[5],
        pool[6],
        pool[7],
    ];
    proof {
        assert(order@ =~= pool@);
    }
    order
}

/// The three candidates before they are put in the order of the screen.
pub open spec fn candidates(
    words: Seq<&'static str>,
    list: Seq<&'static str>,
    truth: &'static str,
    tape: Seq<u32>,
) -> Option<Seq<&'static str>> {
    match picked(words, seq![truth], DRAW_TRIES as int, tape) {
        None => None,
        Some(own) => match picked(
            list,
            seq![truth, own],
            DRAW_TRIES as int,
            after_pick(words, seq![truth], DRAW_TRIES as int, tape),
        ) {
            None => None,
            Some(other) => Some(seq![truth, own, other]),
        },
    }
}

/// The draws that are left once the three candidates were picked.
pub open spec fn after_candidates(
    words: Seq<&'static str>,
    list: Seq<&'static str>,
    truth: &'static str,
    tape: Seq<u32>,
) -> Seq<u32> {
    let rest = after_pick(words, seq![truth], DRAW_TRIES as int, tape);
    match picked(words, seq![truth], DRAW_TRIES as int, tape) {
        None => rest,
        Some(own) => after_pick(list, seq![truth, own], DRAW_TRIES as int, rest),
    }
}

/// The three candidates in the order of the screen, if there are three.
pub open spec fn drawn_options(
    words: Seq<&'static str>,
    list: Seq<&'static str>,
    truth: &'static str,
    tape: Seq<u32>,
) -> Option<Seq<&'static str>> {
    match candidates(words, list, truth, tape) {
        None => None,
        Some(three) => Some(
            shuffled(three, QUIZ_OPTIONS as int, after_candidates(words, list, truth, tape)),
        ),
    }
}

/// The draws that are left once a question was drawn.
pub open spec fn after_options(
    words: Seq<&'static str>,
    list: Seq<&'static str>,
    truth: &'static str,
    tape: Seq<u32>,
) -> Seq<u32> {
    let rest = after_candidates(words, list, truth, tape);
    if candidates(words, list, truth, tape) is Some {
        after_shuffle(QUIZ_OPTIONS as int, rest)
    } else {
        rest
    }
}

/// Whether every word is in the list.
pub open spec fn all_listed(words: Seq<&'static str>, list: Seq<&'static str>) -> bool {
    forall|i: int| 0 <= i < words.len() ==> among(list, (#[trigger] words[i])@)
}

/// Whether two of the words differ.
pub open spec fn two_differ(words: Seq<&'static str>) -> bool {
    exists|i: int, j: int|
        0 <= i < words.len() && 0 <= j < words.len() && (#[trigger] words[i])@ != (
        #[trigger] words[j])@
}

/// Whether three words of the list differ from one another.
pub open spec fn three_differ(list: Seq<&'static str>) -> bool {
    exists|a: Seq<char>, b: Seq<char>, c: Seq<char>|
        #[trigger] among(list, a) && #[trigger] among(list, b) && #[trigger] among(list, c) && a
            != b && a != c && b != c
}

/// Whether a share can be quizzed: its words are words of the list, and neither
/// they nor the list run out of wrong answers.
pub open spec fn quizzable(words: Seq<&'static str>, list: Seq<&'static str>) -> bool {
    all_listed(words, list) && two_differ(words) && three_differ(list)
}

/// Three candidates that make a fair question: words of the list, no two alike,
/// the true word among them, and among the wrong ones a word of the share.
pub open spec fn fair_options(
    options: Seq<&'static str>,
    truth: Seq<char>,
    words: Seq<&'static str>,
    list: Seq<&'static str>,
) -> bool {
    &&& options.len() == QUIZ_OPTIONS
    &&& forall|i: int, j: int|
        0 <= i < options.len() && 0 <= j < options.len() && i != j ==> (#[trigger] options[i])@ != (
        #[trigger] options[j])@
    &&& among(options, truth)
    &&& exists|i: int|
        0 <= i < options.len() && (#[trigger] options[i])@ != truth && among(words, options[i]@)
    &&& all_listed(options, list)
}

/// Whatever is drawn, the candidates make a fair question; and there are
/// candidates exactly where the share can be quizzed.
pub proof fn every_drawn_question_is_fair(
    words: Seq<&'static str>,
    list: Seq<&'static str>,
    at: int,
    tape: Seq<u32>,
)
    requires
        0 <= at < words.len(),
        all_listed(words, list),
    ensures
        drawn_options(words, list, words[at], tape) is Some <==> quizzable(words, list),
        drawn_options(words, list, words[at], tape) matches Some(options) ==> fair_options(
            options,
            words[at]@,
            words,
            list,
        ),
        drawn_options(words, list, words[at], tape) matches Some(options) ==> {
            &&& options.len() == 3
            &&& options[0]@ != options[1]@ && options[0]@ != options[2]@ && options[1]@
                != options[2]@
            &&& exists|i: int| 0 <= i < 3 && (#[trigger] options[i])@ == words[at]@
            &&& exists|i: int, j: int|
                0 <= i < 3 && 0 <= j < words.len() && (#[trigger] options[i])@ != words[at]@
                    && options[i]@ == (#[trigger] words[j])@
            &&& forall|i: int|
                0 <= i < 3 ==> exists|j: int|
                    0 <= j < list.len() && (#[trigger] list[j])@ == (#[trigger] options[i])@
        },
{
    let truth = words[at];
    let one = seq![truth];
    assert forall|w: Seq<char>| among(one, w) <==> w == truth@ by {
        assert(one[0]@ == truth@);
    }
    a_pick_is_free(words, one, DRAW_TRIES as int, tape);
    let rest = after_pick(words, one, DRAW_TRIES as int, tape);
    assert(picked(words, one, DRAW_TRIES as int, tape) is Some <==> two_differ(words)) by {
        if two_differ(words) {
            let (i, j) = choose|i: int, j: int|
                0 <= i < words.len() && 0 <= j < words.len() && (#[trigger] words[i])@ != (
                #[trigger] words[j])@;
            assert(!among(one, words[i]@) || !among(one, words[j]@));
        }
        if let Some(own) = picked(words, one, DRAW_TRIES as int, tape) {
            let k = choose|k: int| 0 <= k < words.len() && (#[trigger] words[k])@ == own@;
            assert(words[k]@ != words[at]@);
        }
    }
    if let Some(own) = picked(words, one, DRAW_TRIES as int, tape) {
        let two = seq![truth, own];
        assert forall|w: Seq<char>| among(two, w) <==> w == truth@ || w == own@ by {
            assert(two[0]@ == truth@);
            assert(two[1]@ == own@);
        }
        a_pick_is_free(list, two, DRAW_TRIES as int, rest);
        let last = picked(list, two, DRAW_TRIES as int, rest);
        let k = choose|k: int| 0 <= k < words.len() && (#[trigger] words[k])@ == own@;
        assert(among(list, truth@) && among(list, own@));
        assert(last is Some <==> three_differ(list)) by {
            if let Some(other) = last {
                assert(among(list, other@));
            }
            if three_differ(list) {
                let (a, b, c) = choose|a: Seq<char>, b: Seq<char>, c: Seq<char>|
                    #[trigger] among(list, a) && #[trigger] among(list, b) && #[trigger] among(
                        list,
                        c,
                    ) && a != b && a != c && b != c;
                let free = if !among(two, a) {
                    a
                } else if !among(two, b) {
                    b
                } else {
                    c
                };
                assert(!among(two, free));
                let i = choose|i: int| 0 <= i < list.len() && (#[trigger] list[i])@ == free;
                assert(!among(two, list[i]@));
            }
        }
        if let Some(other) = last {
            let three = seq![truth, own, other];
            let left = after_candidates(words, list, truth, tape);
            let options = shuffled(three, QUIZ_OPTIONS as int, left);
            a_shuffle_is_a_permutation(three, QUIZ_OPTIONS as int, left);
            assert(three[0]@ != three[1]@ && three[0]@ != three[2]@ && three[1]@ != three[2]@);
            assert(three.no_duplicates());
            same_items(three, options);
            assert forall|i: int| 0 <= i < options.len() implies (exists|j: int|
                0 <= j < 3 && three[j] == #[trigger] options[i]) by {
                assert(options.contains(options[i]));
                assert(three.contains(options[i]));
            }
            assert(three.contains(three[0]) && three.contains(three[1]));
            assert(options.contains(truth));
            assert(options.contains(own));
            let t = choose|t: int| 0 <= t < options.len() && options[t] == truth;
            assert(options[t]@ == truth@);
            let o = choose|o: int| 0 <= o < options.len() && options[o] == own;
            assert(options[o]@ != truth@ && among(words, options[o]@));
            assert forall|i: int, j: int|
                0 <= i < options.len() && 0 <= j < options.len() && i != j implies (
            #[trigger] options[i])@ != (#[trigger] options[j])@ by {
                assert(options[i] != options[j]);
                let a = choose|a: int| 0 <= a < 3 && three[a] == options[i];
                let b = choose|b: int| 0 <= b < 3 && three[b] == options[j];
                assert(a != b);
            }
            assert forall|i: int| 0 <= i < options.len() implies among(
                list,
                (#[trigger] options[i])@,
            ) by {
                let a = choose|a: int| 0 <= a < 3 && three[a] == options[i];
                assert(among(list, three[a]@));
            }
        }
    }
}

/// Any wrong candidates can be drawn, in any order: whichever other word of the share
/// and whichever third word of the list are to stand beside the true one, and wherever
/// each is to stand, there are draws that put them there.
pub proof fn any_candidates_can_be_drawn(
    words: Seq<&'static str>,
    list: Seq<&'static str>,
    truth: &'static str,
    own: int,
    other: int,
    target: Seq<&'static str>,
)
    requires
        0 <= own < words.len() <= u32::MAX,
        0 <= other < list.len() <= u32::MAX,
        words[own]@ != truth@,
        list[other]@ != truth@,
        list[other]@ != words[own]@,
        target.to_multiset() == seq![truth, words[own], list[other]].to_multiset(),
    ensures
        exists|tape: Seq<u32>|
            tape.len() == 4 && #[trigger] drawn_options(words, list, truth, tape) == Some(target),
{
    let three = seq![truth, words[own], list[other]];
    every_order_can_be_drawn(three, target, Seq::empty());
    let last = choose|last: Seq<u32>|
        last.len() == three.len() - 1 && #[trigger] shuffled(
            three,
            three.len() as int,
            last + Seq::empty(),
        ) == target && after_shuffle(three.len() as int, last + Seq::empty()) == Seq::<u32>::empty();
    assert(last + Seq::<u32>::empty() =~= last);
    every_number_below_the_bound_can_be_drawn(own, words.len() as int);
    let first = choose|draw: u32| #[trigger] scaled(draw, words.len() as int) == own;
    every_number_below_the_bound_can_be_drawn(other, list.len() as int);
    let second = choose|draw: u32| #[trigger] scaled(draw, list.len() as int) == other;
    let tape = seq![first, second] + last;
    let rest = seq![second] + last;
    let one = seq![truth];
    let two = seq![truth, words[own]];
    the_first_free_draw_is_picked(words, one, DRAW_TRIES as int, tape, 0);
    assert(tape.skip(1) =~= rest);
    the_first_free_draw_is_picked(list, two, DRAW_TRIES as int, rest, 0);
    assert(rest.skip(1) =~= last);
    assert(drawn_options(words, list, truth, tape) == Some(target));
}

/// A share can be quizzed where each of its words is a word of the list, two of its
/// words differ, and three words of the list do; and nowhere else.
pub proof fn what_can_be_quizzed(words: Seq<&'static str>, list: Seq<&'static str>)
    ensures
        quizzable(words, list) <==> {
            &&& forall|i: int|
                0 <= i < words.len() ==> exists|j: int|
                    0 <= j < list.len() && (#[trigger] list[j])@ == (#[trigger] words[i])@
            &&& exists|i: int, j: int|
                0 <= i < words.len() && 0 <= j < words.len() && (#[trigger] words[i])@ != (
                #[trigger] words[j])@
            &&& exists|i: int, j: int, k: int|
                0 <= i < list.len() && 0 <= j < list.len() && 0 <= k < list.len() && (
                #[trigger] list[i])@ != (#[trigger] list[j])@ && list[i]@ != (
                #[trigger] list[k])@ && list[j]@ != list[k]@
        },
{
    assert(three_differ(list) <==> exists|i: int, j: int, k: int|
        0 <= i < list.len() && 0 <= j < list.len() && 0 <= k < list.len() && (
        #[trigger] list[i])@ != (#[trigger] list[j])@ && list[i]@ != (#[trigger] list[k])@
            && list[j]@ != list[k]@) by {
        if three_differ(list) {
            let (a, b, c) = choose|a: Seq<char>, b: Seq<char>, c: Seq<char>|
                #[trigger] among(list, a) && #[trigger] among(list, b) && #[trigger] among(list, c)
                    && a != b && a != c && b != c;
            let i = choose|i: int| 0 <= i < list.len() && (#[trigger] list[i])@ == a;
            let j = choose|j: int| 0 <= j < list.len() && (#[trigger] list[j])@ == b;
            let k = choose|k: int| 0 <= k < list.len() && (#[trigger] list[k])@ == c;
            assert(list[i]@ != list[j]@ && list[i]@ != list[k]@ && list[j]@ != list[k]@);
        }
        if exists|i: int, j: int, k: int|
            0 <= i < list.len() && 0 <= j < list.len() && 0 <= k < list.len() && (
            #[trigger] list[i])@ != (#[trigger] list[j])@ && list[i]@ != (#[trigger] list[k])@
                && list[j]@ != list[k]@ {
            let (i, j, k) = choose|i: int, j: int, k: int|
                0 <= i < list.len() && 0 <= j < list.len() && 0 <= k < list.len() && (
                #[trigger] list[i])@ != (#[trigger] list[j])@ && list[i]@ != (
                #[trigger] list[k])@ && list[j]@ != list[k]@;
            assert(among(list, list[i]@) && among(list, list[j]@) && among(list, list[k]@));
        }
    }
    if all_listed(words, list) {
        assert forall|i: int| 0 <= i < words.len() implies exists|j: int|
            0 <= j < list.len() && (#[trigger] list[j])@ == (#[trigger] words[i])@ by {
            assert(among(list, words[i]@));
        }
    }
    if forall|i: int|
        0 <= i < words.len() ==> exists|j: int|
            0 <= j < list.len() && (#[trigger] list[j])@ == (#[trigger] words[i])@ {
        assert forall|i: int| 0 <= i < words.len() implies among(list, (#[trigger] words[i])@) by {
            let j = choose|j: int| 0 <= j < list.len() && (#[trigger] list[j])@ == words[i]@;
            assert(list[j]@ == words[i]@);
        }
    }
}

/// One question, without the words on it.
#[derive(Clone, Copy, Debug, PartialEq, Eq, Structural)]
pub struct QuizWord {
    /// Which word of the share is asked for, counted from 1.
    pub number: usize,
    /// How many questions were answered before this one.
    pub asked: usize,
    /// How many questions there are.
    pub total: usize,
    /// Whether the last answer was wrong.
    pub retry: bool,
}

/// What goes on the glass. It shows words of the share, so it has no text for a
/// log but [`Screen::debug_text`].
#[derive(Clone, Copy, PartialEq, Eq)]
pub enum Screen {
    /// A question and its three candidates.
    Word {
        /// Which word is asked for.
        question: QuizWord,
        /// The candidates, in the order of the keys.
        options: [&'static str; QUIZ_OPTIONS],
    },
    /// Every question was answered.
    Passed {
        /// How many words were checked.
        checked: usize,
    },
}

/// A question as text.
pub open spec fn question_text(question: QuizWord) -> Seq<char> {
    "Word(QuizWord { number: "@ + decimal_of(question.number as nat) + ", asked: "@ + decimal_of(
        question.asked as nat,
    ) + ", total: "@ + decimal_of(question.total as nat) + ", retry: "@ + (if question.retry {
        "true"@
    } else {
        "false"@
    }) + " })"@
}

impl Screen {
    /// The screen as text for a log. A candidate may be a word of the share, so
    /// the text holds none of them.
    pub fn debug_text(&self) -> (text: String)
        ensures
            text@ == (match *self {
                Screen::Word { question, .. } => question_text(question),
                Screen::Passed { checked } => "Passed("@ + decimal_of(checked as nat) + ")"@,
            }),
            *self matches Screen::Word { question, .. } ==> text@ == "Word(QuizWord { number: "@
                + decimal_of(question.number as nat) + ", asked: "@ + decimal_of(
                question.asked as nat,
            ) + ", total: "@ + decimal_of(question.total as nat) + ", retry: "@ + (
            if question.retry {
                "true"@
            } else {
                "false"@
            }) + " })"@,
    {
        match *self {
            Screen::Word { question, .. } => {
                let mut text = "Word(QuizWord { number: ".to_owned();
                text.append(decimal(question.number as u64).as_str());
                text.append(", asked: ");
                text.append(decimal(question.asked as u64).as_str());
                text.append(", total: ");
                text.append(decimal(question.total as u64).as_str());
                text.append(", retry: ");
                text.append(if question.retry { "true" } else { "false" });
                text.append(" })");
                text
            },
            Screen::Passed { checked } => {
                let mut text = "Passed(".to_owned();
                text.append(decimal(checked as u64).as_str());
                text.append(")");
                text
            },
        }
    }
}

/// What one keypress did to a quiz.
#[derive(Clone, Copy, Debug, PartialEq, Eq, Structural)]
pub enum Step {
    /// Nothing, and the screen is to be left as it is.
    Unchanged,
    /// The screen is to be drawn again.
    Redraw,
    /// The person gave up. Nothing is reported.
    Abort,
    /// Every question is answered.
    Passed,
}

/// A quiz, as the sequence of its words and where it stands.
pub ghost struct QuizState {
    /// The words that a word may be.
    pub list: Seq<&'static str>,
    /// The words of the share.
    pub words: Seq<&'static str>,
    /// The positions that are asked for, in the order of asking.
    pub order: Seq<u8>,
    /// How many questions were answered.
    pub asked: int,
    /// The candidates on the glass.
    pub options: Seq<&'static str>,
    /// Whether the last answer was wrong.
    pub wrong: bool,
}

impl QuizState {
    /// Whether every question is answered.
    pub open spec fn over(self) -> bool {
        self.asked >= self.order.len()
    }

    /// The position that is asked for.
    pub open spec fn position(self) -> int {
        self.order[self.asked] as int
    }

    /// The word that is asked for.
    pub open spec fn truth(self) -> &'static str {
        self.words[self.position()]
    }

    /// What holds of every quiz.
    pub open spec fn wf(self) -> bool {
        &&& self.words.len() == BACKUP_WORDS
        &&& self.options.len() == QUIZ_OPTIONS
        &&& fair_order(self.order)
        &&& 0 <= self.asked <= QUIZ_POSITIONS
        &&& quizzable(self.words, self.list)
        &&& !self.over() ==> fair_options(self.options, self.truth()@, self.words, self.list)
    }

    /// Whether `key` answers the question that is up with its true word.
    pub open spec fn answered_by(self, key: u8) -> bool {
        exists|slot: int|
            0 <= slot < QUIZ_OPTIONS && QUIZ_KEYS@[slot] == key && (
            #[trigger] self.options[slot])@ == self.truth()@
    }

    /// The same quiz with the candidates drawn again for the position that is
    /// asked for.
    pub open spec fn redrawn(self, tape: Seq<u32>) -> QuizState {
        QuizState {
            options: drawn_options(self.words, self.list, self.truth(), tape).unwrap(),
            ..self
        }
    }

    /// What a key does.
    pub open spec fn step(self, key: u8) -> Step {
        if self.over() {
            Step::Unchanged
        } else if key == KEY_CANCEL {
            Step::Abort
        } else if !QUIZ_KEYS@.contains(key) {
            Step::Unchanged
        } else if self.answered_by(key) && self.asked + 1 == QUIZ_POSITIONS {
            Step::Passed
        } else {
            Step::Redraw
        }
    }

    /// The quiz before its candidates are drawn again: one question on after the
    /// true answer, and at the same one, marked, after a wrong one.
    pub open spec fn scored(self, key: u8) -> QuizState {
        if self.answered_by(key) {
            QuizState { wrong: false, asked: self.asked + 1, ..self }
        } else {
            QuizState { wrong: true, ..self }
        }
    }

    /// The quiz after a key.
    pub open spec fn after(self, key: u8, tape: Seq<u32>) -> QuizState {
        match self.step(key) {
            Step::Unchanged | Step::Abort => self,
            Step::Passed => self.scored(key),
            Step::Redraw => self.scored(key).redrawn(tape),
        }
    }

    /// The draws that are left after a key.
    pub open spec fn draws_after(self, key: u8, tape: Seq<u32>) -> Seq<u32> {
        if self.step(key) is Redraw {
            let scored = self.scored(key);
            after_options(self.words, self.list, scored.truth(), tape)
        } else {
            tape
        }
    }
}

/// A quiz at its first question: the order is drawn, and then the candidates.
pub open spec fn first_question(
    words: Seq<&'static str>,
    list: Seq<&'static str>,
    tape: Seq<u32>,
) -> QuizState {
    let order = drawn_order(tape);
    QuizState {
        list,
        words,
        order,
        asked: 0,
        options: drawn_options(words, list, words[order[0] as int], after_order(tape)).unwrap(),
        wrong: false,
    }
}

/// The draws that are left once a quiz was asked for. Where a word is not in the
/// list, none is used.
pub open spec fn after_first_question(
    words: Seq<&'static str>,
    list: Seq<&'static str>,
    tape: Seq<u32>,
) -> Seq<u32> {
    if all_listed(words, list) {
        after_options(words, list, words[drawn_order(tape)[0] as int], after_order(tape))
    } else {
        tape
    }
}

/// A quiz on one share. It holds the words of the share.
#[derive(PartialEq, Eq)]
pub struct Quiz {
    list: &'static [&'static str],
    words: [&'static str; BACKUP_WORDS],
    order: [u8; QUIZ_POSITIONS],
    asked: usize,
    options: [&'static str; QUIZ_OPTIONS],
    wrong: bool,
}

impl View for Quiz {
    type V = QuizState;

    closed spec fn view(&self) -> QuizState {
        QuizState {
            list: self.list@,
            words: self.words@,
            order: self.order@,
            asked: self.asked as int,
            options: self.options@,
            wrong: self.wrong,
        }
    }
}

impl Clone for Quiz {
    fn clone(&self) -> (copy: Quiz)
        ensures
            copy@ == self@,
    {
        proof {
            use_type_invariant(self);
        }
        Quiz {
            list: self.list,
            words: self.words,
            order: self.order,
            asked: self.asked,
            options: self.options,
            wrong: self.wrong,
        }
    }
}

impl Quiz {
    /// Every quiz is a valid one.
    #[verifier::type_invariant]
    closed spec fn valid(self) -> bool {
        self@.wf()
    }

    /// The quiz on a share at its first question, or none where the share cannot
    /// be quizzed: a word is not a word of the list, the words are all the same,
    /// or the list has no third word to show.
    ///
    /// [`QUIZ_DRAWS`] draws are enough, and [`OPTION_DRAWS`] for each key after.
    pub fn new(
        words: [&'static str; BACKUP_WORDS],
        list: &'static [&'static str],
        draws: &mut Draws,
    ) -> (made: Option<Quiz>)
        requires
            all_listed(words@, list@) ==> old(draws)@.len() >= QUIZ_DRAWS,
        ensures
            made is Some <==> quizzable(words@, list@),
            made matches Some(quiz) ==> quiz@.wf() && quiz@ == first_question(
                words@,
                list@,
                old(draws)@,
            ),
            made matches Some(quiz) ==> {
                &&& quiz@.words == words@
                &&& quiz@.list == list@
                &&& quiz@.order == drawn_order(old(draws)@)
                &&& Some(quiz@.options) == drawn_options(
                    words@,
                    list@,
                    words@[quiz@.order[0] as int],
                    old(draws)@.skip(30),
                )
                &&& quiz@.asked == 0
                &&& !quiz@.wrong
            },
            final(draws)@ == after_first_question(words@, list@, old(draws)@),
    {
        let mut i: usize = 0;
        while i < BACKUP_WORDS
            invariant
                i <= BACKUP_WORDS,
                forall|j: int| 0 <= j < i ==> among(list@, (#[trigger] words@[j])@),
            decreases BACKUP_WORDS - i,
        {
            if !contains_word(list, words[i]) {
                proof {
                    assert(!among(list@, words@[i as int]@));
                }
                return None;
            }
            i += 1;
        }
        let ghost tape = draws@;
        let order: [u8; QUIZ_POSITIONS] = draw_order(draws);
        proof {
            every_drawn_order_is_fair(tape);
            every_drawn_question_is_fair(words@, list@, order@[0] as int, draws@);
            an_order_uses_thirty_draws(tape);
        }
        match draw_options(&words, list, order[0] as usize, draws) {
            None => None,
            Some(options) => {
                let quiz = Quiz { list, words, order, asked: 0, options, wrong: false };
                Some(quiz)
            },
        }
    }

    /// What goes on the glass: the question that is up, or that every question is
    /// answered.
    pub fn screen(&self) -> (screen: Screen)
        ensures
            self@.over() ==> screen == (Screen::Passed { checked: QUIZ_POSITIONS }),
            self@.asked == 8 <==> screen is Passed,
            !self@.over() ==> {
                &&& screen matches Screen::Word { question, options }
                &&& question.number == self@.position() + 1
                &&& question.number == self@.order[self@.asked] + 1
                &&& question.asked == self@.asked
                &&& question.total == QUIZ_POSITIONS
                &&& question.retry == self@.wrong
                &&& options@ == self@.options
            },
    {
        proof {
            use_type_invariant(self);
        }
        if self.asked >= QUIZ_POSITIONS {
            Screen::Passed { checked: QUIZ_POSITIONS }
        } else {
            Screen::Word {
                question: QuizWord {
                    number: self.order[self.asked] as usize + 1,
                    asked: self.asked,
                    total: QUIZ_POSITIONS,
                    retry: self.wrong,
                },
                options: self.options,
            }
        }
    }

    /// Takes one key. Only the keys of the three candidates and the key that gives
    /// up do anything, and on a passed quiz none does.
    pub fn key(&mut self, key: u8, draws: &mut Draws) -> (step: Step)
        requires
            old(self)@.step(key) is Redraw ==> old(draws)@.len() >= OPTION_DRAWS,
        ensures
            step == old(self)@.step(key),
            final(self)@ == old(self)@.after(key, old(draws)@),
            final(draws)@ == old(self)@.draws_after(key, old(draws)@),
            final(self)@.wf(),
            final(self)@.list == old(self)@.list,
            final(self)@.words == old(self)@.words,
            final(self)@.order == old(self)@.order,
            old(self)@.asked == 8 || (key != KEY_CANCEL && !QUIZ_KEYS@.contains(key)) ==> step
                is Unchanged && final(self)@ == old(self)@ && final(draws)@ == old(draws)@,
            old(self)@.asked < 8 && key == KEY_CANCEL ==> step is Abort && final(self)@
                == old(self)@ && final(draws)@ == old(draws)@,
            forall|slot: int|
                old(self)@.asked < 8 && 0 <= slot < 3 && #[trigger] QUIZ_KEYS@[slot] == key ==> (
                if old(self)@.options[slot]@ == old(self)@.words[old(
                    self,
                )@.order[old(self)@.asked] as int]@ {
                    &&& final(self)@.asked == old(self)@.asked + 1
                    &&& !final(self)@.wrong
                    &&& step == (if old(self)@.asked == 7 { Step::Passed } else { Step::Redraw })
                } else {
                    &&& final(self)@.asked == old(self)@.asked
                    &&& final(self)@.wrong
                    &&& step is Redraw
                }),
            step is Redraw ==> Some(final(self)@.options) == drawn_options(
                old(self)@.words,
                old(self)@.list,
                old(self)@.words[old(self)@.order[final(self)@.asked] as int],
                old(draws)@,
            ) && final(draws)@ == after_options(
                old(self)@.words,
                old(self)@.list,
                old(self)@.words[old(self)@.order[final(self)@.asked] as int],
                old(draws)@,
            ),
            !(step is Redraw) ==> final(self)@.options == old(self)@.options && final(draws)@
                == old(draws)@,
    {
        proof {
            use_type_invariant(&*self);
            a_key_keeps_a_quiz_valid(self@, key, draws@);
        }
        if self.asked >= QUIZ_POSITIONS {
            return Step::Unchanged;
        }
        if key == KEY_CANCEL {
            return Step::Abort;
        }
        let slot: usize = match slot_of(key) {
            None => return Step::Unchanged,
            Some(slot) => slot,
        };
        let truth: &'static str = self.words[self.order[self.asked] as usize];
        let right: bool = same_text(self.options[slot], truth);
        proof {
            assert(self@.options[slot as int] == self.options[slot as int]);
            assert(self@.answered_by(key) == right) by {
                if self@.answered_by(key) {
                    let other = choose|other: int|
                        0 <= other < QUIZ_OPTIONS && QUIZ_KEYS@[other] == key && (
                        #[trigger] self@.options[other])@ == self@.truth()@;
                    assert(other == slot);
                }
            }
        }
        if !right {
            return self.ask(self.asked, true, draws);
        }
        let asked: usize = self.asked + 1;
        if asked >= QUIZ_POSITIONS {
            *self = Quiz {
                list: self.list,
                words: self.words,
                order: self.order,
                asked,
                options: self.options,
                wrong: false,
            };
            return Step::Passed;
        }
        self.ask(asked, false, draws)
    }

    /// Puts the question after `asked` answers on the glass, marked as asked again or
    /// not, or gives up where none can be drawn.
    fn ask(&mut self, asked: usize, wrong: bool, draws: &mut Draws) -> (step: Step)
        requires
            asked < QUIZ_POSITIONS,
            old(draws)@.len() >= OPTION_DRAWS,
        ensures
            ({
                let next = QuizState { asked: asked as int, wrong, ..old(self)@ };
                let drawn = drawn_options(next.words, next.list, next.truth(), old(draws)@);
                &&& step == (if drawn is Some { Step::Redraw } else { Step::Abort })
                &&& final(self)@ == (if drawn is Some {
                    next.redrawn(old(draws)@)
                } else {
                    old(self)@
                })
                &&& final(draws)@ == after_options(
                    next.words,
                    next.list,
                    next.truth(),
                    old(draws)@,
                )
            }),
    {
        proof {
            use_type_invariant(&*self);
            every_drawn_question_is_fair(
                self.words@,
                self.list@,
                self.order@[asked as int] as int,
                draws@,
            );
        }
        match draw_options(&self.words, self.list, self.order[asked] as usize, draws) {
            Some(options) => {
                *self = Quiz {
                    list: self.list,
                    words: self.words,
                    order: self.order,
                    asked,
                    options,
                    wrong,
                };
                Step::Redraw
            },
            None => Step::Abort,
        }
    }
}

/// Draws the candidates for the word at a position.
fn draw_options(
    words: &[&'static str; BACKUP_WORDS],
    list: &'static [&'static str],
    position: usize,
    draws: &mut Draws,
) -> (options: Option<[&'static str; QUIZ_OPTIONS]>)
    requires
        position < BACKUP_WORDS,
        old(draws)@.len() >= OPTION_DRAWS,
    ensures
        options is Some <==> drawn_options(words@, list@, words@[position as int], old(draws)@)
            is Some,
        options matches Some(three) ==> drawn_options(
            words@,
            list@,
            words@[position as int],
            old(draws)@,
        ) == Some(three@),
        final(draws)@ == after_options(words@, list@, words@[position as int], old(draws)@),
{
    let truth: &'static str = words[position];
    let one: [&'static str; 1] = [truth];
    proof {
        assert(one@ =~= seq![truth]);
        a_pick_uses_at_most_its_tries(words@, one@, DRAW_TRIES as int, draws@);
    }
    let own: &'static str = match draw_distinct(words.as_slice(), one.as_slice(), draws) {
        None => return None,
        Some(own) => own,
    };
    let two: [&'static str; 2] = [truth, own];
    proof {
        assert(two@ =~= seq![truth, own]);
        a_pick_uses_at_most_its_tries(list@, two@, DRAW_TRIES as int, draws@);
    }
    let other: &'static str = match draw_distinct(list, two.as_slice(), draws) {
        None => return None,
        Some(other) => other,
    };
    let mut three: Vec<&'static str> = Vec::new();
    three.push(truth);
    three.push(own);
    three.push(other);
    proof {
        assert(three@ =~= seq![truth, own, other]);
    }
    shuffle(&mut three, draws);
    let options: [&'static str; QUIZ_OPTIONS] = [three[0], three[1], three[2]];
    proof {
        assert(options@ =~= three@);
    }
    Some(options)
}

/// The candidate that a key stands for: the first for the first of the keys, and
/// so on.
fn slot_of(key: u8) -> (slot: Option<usize>)
    ensures
        slot is Some <==> QUIZ_KEYS@.contains(key),
        slot matches Some(s) ==> s < QUIZ_OPTIONS && QUIZ_KEYS@[s as int] == key && (forall|t: int|
            0 <= t < QUIZ_OPTIONS && QUIZ_KEYS@[t] == key ==> t == s),
{
    let mut slot: usize = 0;
    while slot < QUIZ_OPTIONS
        invariant
            slot <= QUIZ_OPTIONS,
            forall|t: int| 0 <= t < slot ==> QUIZ_KEYS@[t] != key,
        decreases QUIZ_OPTIONS - slot,
    {
        if QUIZ_KEYS[slot] == key {
            return Some(slot);
        }
        slot += 1;
    }
    None
}

/// No key makes a quiz invalid, and none but the one that gives up ends it
/// unpassed.
pub proof fn a_key_keeps_a_quiz_valid(quiz: QuizState, key: u8, tape: Seq<u32>)
    requires
        quiz.wf(),
    ensures
        quiz.after(key, tape).wf(),
        !quiz.over() ==> drawn_options(quiz.words, quiz.list, quiz.scored(key).truth(), tape)
            is Some || quiz.scored(key).over(),
        quiz.step(key) is Abort <==> !quiz.over() && key == KEY_CANCEL,
{
    if !quiz.over() {
        let scored = quiz.scored(key);
        if !scored.over() {
            every_drawn_question_is_fair(quiz.words, quiz.list, scored.position(), tape);
        }
    }
}

/// Of the three keys, exactly one answers the question that is up.
pub proof fn exactly_one_key_answers(quiz: QuizState)
    requires
        quiz.wf(),
        !quiz.over(),
    ensures
        exists|key: u8| #[trigger] quiz.answered_by(key),
        forall|a: u8, b: u8|
            #[trigger] quiz.answered_by(a) && #[trigger] quiz.answered_by(b) ==> a == b,
{
    let truth = quiz.truth()@;
    let slot = choose|i: int|
        0 <= i < quiz.options.len() && (#[trigger] quiz.options[i])@ == truth;
    assert(quiz.answered_by(QUIZ_KEYS@[slot]));
    assert forall|a: u8, b: u8| #[trigger]
        quiz.answered_by(a) && #[trigger] quiz.answered_by(b) implies a == b by {
        let i = choose|i: int|
            0 <= i < QUIZ_OPTIONS && QUIZ_KEYS@[i] == a && (#[trigger] quiz.options[i])@ == truth;
        let j = choose|j: int|
            0 <= j < QUIZ_OPTIONS && QUIZ_KEYS@[j] == b && (#[trigger] quiz.options[j])@ == truth;
        assert(i == j);
    }
}

/// A wrong answer asks for the same word again and says so. It is never anything
/// else, and nothing counts it.
pub proof fn a_wrong_answer_asks_again(quiz: QuizState, key: u8, tape: Seq<u32>)
    requires
        quiz.wf(),
        !quiz.over(),
        QUIZ_KEYS@.contains(key),
        !quiz.answered_by(key),
    ensures
        quiz.step(key) is Redraw,
        quiz.after(key, tape) == (QuizState {
            wrong: true,
            options: quiz.after(key, tape).options,
            ..quiz
        }),
        quiz.after(key, tape).truth() == quiz.truth(),
{
}

/// A key that is no answer and does not give up changes nothing, and on a passed
/// quiz no key changes anything.
pub proof fn any_other_key_changes_nothing(quiz: QuizState, key: u8, tape: Seq<u32>)
    requires
        quiz.over() || (key != KEY_CANCEL && !QUIZ_KEYS@.contains(key)),
    ensures
        quiz.step(key) is Unchanged,
        quiz.after(key, tape) == quiz,
        quiz.draws_after(key, tape) == tape,
{
}

/// The quiz after some keys, each with the draws it was given.
pub open spec fn played(quiz: QuizState, presses: Seq<(u8, Seq<u32>)>) -> QuizState
    decreases presses.len(),
{
    if presses.len() == 0 {
        quiz
    } else {
        let (key, tape) = presses.last();
        played(quiz, presses.drop_last()).after(key, tape)
    }
}

/// How many of some keys answered the question that was up with its true word.
pub open spec fn right_answers(quiz: QuizState, presses: Seq<(u8, Seq<u32>)>) -> int
    decreases presses.len(),
{
    if presses.len() == 0 {
        0
    } else {
        let before = played(quiz, presses.drop_last());
        right_answers(quiz, presses.drop_last()) + (if !before.over() && before.answered_by(
            presses.last().0,
        ) {
            1int
        } else {
            0
        })
    }
}

/// Whatever is pressed, a quiz counts the right answers and nothing else: it is
/// passed once there were as many as there are questions.
pub proof fn only_right_answers_count(quiz: QuizState, presses: Seq<(u8, Seq<u32>)>)
    requires
        quiz.wf(),
    ensures
        played(quiz, presses).wf(),
        played(quiz, presses).asked == quiz.asked + right_answers(quiz, presses),
        played(quiz, presses).over() <==> quiz.asked + right_answers(quiz, presses)
            == QUIZ_POSITIONS,
        played(quiz, presses).words == quiz.words,
        played(quiz, presses).order == quiz.order,
    decreases presses.len(),
{
    if presses.len() > 0 {
        let (key, tape) = presses.last();
        let before = played(quiz, presses.drop_last());
        only_right_answers_count(quiz, presses.drop_last());
        a_key_keeps_a_quiz_valid(before, key, tape);
        if before.answered_by(key) {
            let slot = choose|slot: int|
                0 <= slot < QUIZ_OPTIONS && QUIZ_KEYS@[slot] == key && (
                #[trigger] before.options[slot])@ == before.truth()@;
            assert(QUIZ_KEYS@.contains(QUIZ_KEYS@[slot]));
        }
    }
}

} // verus!
