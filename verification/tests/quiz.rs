use std::collections::BTreeSet;

use coldsnap::draws::{below, shuffle, Draws};
use coldsnap::flow::BACKUP_WORDS;
use coldsnap::keypad::{KEY_CANCEL, KEY_OK, QUIZ_KEYS};
use coldsnap::quiz::{
    Quiz, QuizWord, Screen, Step, OPTION_DRAWS, QUIZ_DRAWS, QUIZ_OPTIONS, QUIZ_POSITIONS,
};

/// A list of 2,048 different upper-case words.
fn word_list() -> &'static [&'static str] {
    let mut list: Vec<&'static str> = vec!["ABANDON", "ABILITY"];
    for i in 2..2047u32 {
        let mut n = i;
        let mut word = String::from("W");
        for _ in 0..4 {
            word.push((b'A' + (n % 26) as u8) as char);
            n /= 26;
        }
        list.push(Box::leak(word.into_boxed_str()));
    }
    list.push("ZOO");
    assert_eq!(list.len(), 2048);
    Box::leak(list.into_boxed_slice())
}

struct Seeded(u64);

impl Seeded {
    fn new(seed: u64) -> Self {
        Seeded(seed.wrapping_mul(0xD1B5_4A32_D192_ED03))
    }

    fn next_u64(&mut self) -> u64 {
        self.0 = self.0.wrapping_add(0x9E37_79B9_7F4A_7C15);
        let mut z = self.0;
        z = (z ^ (z >> 30)).wrapping_mul(0xBF58_476D_1CE4_E5B9);
        z = (z ^ (z >> 27)).wrapping_mul(0x94D0_49BB_1331_11EB);
        z ^ (z >> 31)
    }

    fn next_u32(&mut self) -> u32 {
        (self.next_u64() >> 32) as u32
    }

    /// This many draws.
    fn tape(mut self, len: usize) -> Draws {
        Draws::new((0..len).map(|_| self.next_u32()).collect())
    }
}

fn share(list: &'static [&'static str], salt: u64) -> [&'static str; BACKUP_WORDS] {
    let mut words = [""; BACKUP_WORDS];
    for (slot, i) in words.iter_mut().zip(0u64..) {
        let index = (salt.wrapping_mul(101).wrapping_add(i.wrapping_mul(37))) as usize;
        *slot = list[index % list.len()];
    }
    words
}

fn fresh(list: &'static [&'static str], seed: u64) -> (Quiz, Draws, [&'static str; BACKUP_WORDS]) {
    let mut rng = Seeded::new(seed).tape(20_000);
    let words = share(list, seed);
    let quiz = Quiz::new(words, list, &mut rng).expect("a real share can be quizzed");
    (quiz, rng, words)
}

fn question(quiz: &Quiz) -> (QuizWord, [&'static str; QUIZ_OPTIONS]) {
    match quiz.screen() {
        Screen::Word { question, options } => (question, options),
        Screen::Passed { .. } => panic!("expected a question"),
    }
}

fn answer(words: &[&'static str; BACKUP_WORDS], q: &QuizWord) -> &'static str {
    words
        .get(q.number.wrapping_sub(1))
        .copied()
        .expect("the screen names a word of the share")
}

fn press_right(quiz: &mut Quiz, rng: &mut Draws, words: &[&'static str; BACKUP_WORDS]) -> Step {
    let (q, options) = question(quiz);
    let truth = answer(words, &q);
    let slot = options
        .iter()
        .position(|option| *option == truth)
        .expect("the answer is on the screen");
    quiz.key(QUIZ_KEYS[slot], rng)
}

fn press_wrong(quiz: &mut Quiz, rng: &mut Draws, words: &[&'static str; BACKUP_WORDS]) -> Step {
    let (q, options) = question(quiz);
    let truth = answer(words, &q);
    let slot = options
        .iter()
        .position(|option| *option != truth)
        .expect("two of the three are wrong");
    quiz.key(QUIZ_KEYS[slot], rng)
}

/// The words asked for, in order, found by answering every question.
fn order_of(
    mut quiz: Quiz,
    rng: &mut Draws,
    words: &[&'static str; BACKUP_WORDS],
) -> [usize; QUIZ_POSITIONS] {
    let mut order = [0; QUIZ_POSITIONS];
    for slot in order.iter_mut() {
        *slot = question(&quiz).0.number - 1;
        let _ = press_right(&mut quiz, rng, words);
    }
    order
}

#[test]
fn the_quiz_asks_a_third_of_the_words_and_always_the_last() {
    let list = word_list();
    assert_eq!(QUIZ_POSITIONS, 8, "a third of the words");
    assert_eq!(QUIZ_POSITIONS, BACKUP_WORDS / 3);
    let mut slots = [0usize; QUIZ_POSITIONS];
    let mut orders = BTreeSet::new();
    for seed in 0..200 {
        let (quiz, mut rng, words) = fresh(list, seed);
        let order = order_of(quiz, &mut rng, &words);
        let mut seen = [false; BACKUP_WORDS];
        for position in order {
            assert!(position < BACKUP_WORDS, "position {position} is not a word");
            assert!(!seen[position], "position {position} is asked twice");
            seen[position] = true;
        }
        let at = order
            .iter()
            .position(|p| *p == BACKUP_WORDS - 1)
            .expect("the checksum word is always quizzed");
        slots[at] += 1;
        orders.insert(order);
    }
    for (slot, hits) in slots.iter().enumerate() {
        assert!(
            *hits > 0,
            "the last word never landed at question {slot}: the second shuffle is missing"
        );
    }
    assert!(
        orders.len() > 150,
        "the order barely varies: {}",
        orders.len()
    );
}

#[test]
fn every_triple_is_three_distinct_words_holding_the_answer_once() {
    let list = word_list();
    for seed in 0..40 {
        let (mut quiz, mut rng, words) = fresh(list, seed);
        let mut triples = 0;
        let mut off_list = 0;
        loop {
            for attempt in 0..3 {
                let (q, options) = question(&quiz);
                let truth = answer(&words, &q);
                triples += 1;
                for (i, option) in options.iter().enumerate() {
                    assert!(list.contains(option), "{option} is not a word of the list");
                    for other in options.iter().skip(i + 1) {
                        assert!(option != other, "{option} is offered twice");
                    }
                }
                assert_eq!(
                    options.iter().filter(|option| **option == truth).count(),
                    1,
                    "the answer must be on the screen exactly once"
                );
                assert!(
                    options
                        .iter()
                        .any(|option| *option != truth && words.contains(option)),
                    "no distractor came from the share's own words"
                );
                if options
                    .iter()
                    .any(|option| *option != truth && !words.contains(option))
                {
                    off_list += 1;
                }
                if attempt < 2 {
                    assert_eq!(press_wrong(&mut quiz, &mut rng, &words), Step::Redraw);
                }
            }
            if press_right(&mut quiz, &mut rng, &words) == Step::Passed {
                break;
            }
        }
        assert_eq!(triples, QUIZ_POSITIONS * 3, "three triples per position");
        assert!(
            off_list * 10 >= triples * 9,
            "only {off_list} of {triples} triples reached outside the share: the \
             second distractor is not coming from the whole list"
        );
    }
}

#[test]
fn the_answer_lands_in_every_slot_uniformly() {
    let list = word_list();
    let mut counts = [0usize; QUIZ_OPTIONS];
    let mut total = 0;
    let mut rng = Seeded::new(17).tape(200_000);
    for salt in 0..400 {
        let words = share(list, salt);
        let mut quiz = Quiz::new(words, list, &mut rng).expect("a real share can be quizzed");
        loop {
            let (q, options) = question(&quiz);
            let truth = answer(&words, &q);
            let slot = options.iter().position(|o| *o == truth).expect("on screen");
            counts[slot] += 1;
            total += 1;
            if press_right(&mut quiz, &mut rng, &words) == Step::Passed {
                break;
            }
        }
    }
    assert_eq!(total, 400 * QUIZ_POSITIONS);
    let expected = total / QUIZ_OPTIONS;
    for (slot, hits) in counts.iter().enumerate() {
        assert!(
            hits * 10 > expected * 9 && hits * 10 < expected * 11,
            "the answer landed in slot {slot} {hits} times, expected ~{expected}"
        );
    }
}

#[test]
fn a_wrong_answer_re_asks_the_same_position_with_fresh_options() {
    let list = word_list();
    for seed in 0..40 {
        let (mut quiz, mut rng, words) = fresh(list, seed);
        let (before, was) = question(&quiz);
        assert!(!before.retry, "a first question is not a re-ask");
        assert_eq!(press_wrong(&mut quiz, &mut rng, &words), Step::Redraw);
        let (after, now) = question(&quiz);
        assert_eq!(
            after.number, before.number,
            "a miss must re-ask the same word"
        );
        assert_eq!(
            after.asked, before.asked,
            "and must not advance the progress"
        );
        assert!(after.retry, "the re-ask must say the last answer was wrong");
        assert!(
            now != was,
            "the re-ask kept the same three in the same slots: a second guess \
             would be 1-in-2"
        );
        assert_eq!(press_right(&mut quiz, &mut rng, &words), Step::Redraw);
        let (next, _) = question(&quiz);
        assert_eq!(next.asked, before.asked + 1);
        assert!(!next.retry, "a correct answer clears the banner");
    }
}

#[test]
fn wrong_answers_never_advance_and_never_end_the_quiz() {
    let list = word_list();
    let (mut quiz, mut rng, words) = fresh(list, 11);
    let (first, _) = question(&quiz);
    for _ in 0..100 {
        let step = press_wrong(&mut quiz, &mut rng, &words);
        assert_eq!(
            step,
            Step::Redraw,
            "a miss is a re-ask, never anything else"
        );
        let (q, _) = question(&quiz);
        assert_eq!(q.number, first.number);
        assert_eq!(q.asked, 0);
    }
    for _ in 0..QUIZ_POSITIONS - 1 {
        assert_eq!(press_right(&mut quiz, &mut rng, &words), Step::Redraw);
    }
    assert_eq!(press_right(&mut quiz, &mut rng, &words), Step::Passed);
}

#[test]
fn the_quiz_passes_after_exactly_eight_correct_answers() {
    let list = word_list();
    let (mut quiz, mut rng, words) = fresh(list, 5);
    let mut asked_about = Vec::new();
    for i in 0..QUIZ_POSITIONS {
        let (q, _) = question(&quiz);
        assert_eq!(q.asked, i, "the progress must be the question index");
        assert_eq!(q.total, QUIZ_POSITIONS);
        assert!((1..=BACKUP_WORDS).contains(&q.number));
        asked_about.push(q.number);
        let step = press_right(&mut quiz, &mut rng, &words);
        if i + 1 == QUIZ_POSITIONS {
            assert_eq!(step, Step::Passed, "the last correct answer passes it");
        } else {
            assert_eq!(step, Step::Redraw, "question {i} must not end the quiz");
        }
    }
    assert!(
        quiz.screen()
            == Screen::Passed {
                checked: QUIZ_POSITIONS
            }
    );
    asked_about.sort_unstable();
    asked_about.dedup();
    assert_eq!(
        asked_about.len(),
        QUIZ_POSITIONS,
        "a position was asked twice"
    );
    assert!(
        asked_about.contains(&BACKUP_WORDS),
        "the checksum word must have been one of them"
    );
    let before = quiz.clone();
    for key in 0u8..=255 {
        assert_eq!(
            quiz.key(key, &mut rng),
            Step::Unchanged,
            "key {key} after passing"
        );
        assert!(quiz == before, "key {key} moved a passed quiz");
    }
}

#[test]
fn every_invalid_key_is_a_no_op_at_every_state() {
    let list = word_list();
    let (fresh_quiz, mut rng, words) = fresh(list, 3);
    let mut retry = fresh_quiz.clone();
    assert_eq!(press_wrong(&mut retry, &mut rng, &words), Step::Redraw);
    let mut last = fresh_quiz.clone();
    for _ in 0..QUIZ_POSITIONS - 1 {
        assert_eq!(press_right(&mut last, &mut rng, &words), Step::Redraw);
    }
    for state in [fresh_quiz, retry, last] {
        for key in 0u8..=255 {
            if QUIZ_KEYS.contains(&key) || key == KEY_CANCEL {
                continue;
            }
            let mut probe = state.clone();
            let left = rng.left();
            assert_eq!(probe.key(key, &mut rng), Step::Unchanged, "key {key}");
            assert!(probe == state, "key {key} moved the state");
            assert_eq!(rng.left(), left, "key {key} used a draw");
        }
    }
}

#[test]
fn cancel_gives_up_from_a_question_and_from_a_re_ask() {
    let list = word_list();
    let (mut quiz, mut rng, words) = fresh(list, 7);
    assert_eq!(quiz.clone().key(KEY_CANCEL, &mut rng), Step::Abort);
    assert_eq!(press_wrong(&mut quiz, &mut rng, &words), Step::Redraw);
    assert!(question(&quiz).0.retry);
    assert_eq!(quiz.key(KEY_CANCEL, &mut rng), Step::Abort);
}

#[test]
fn the_pad_ok_key_does_not_show_the_words_again() {
    let list = word_list();
    let (mut quiz, mut rng, _) = fresh(list, 2);
    let before = quiz.clone();
    assert_eq!(quiz.key(KEY_OK, &mut rng), Step::Unchanged);
    assert!(quiz == before);
}

#[test]
fn every_screen_the_machine_produces_is_renderable() {
    // What a renderer of a question asks of it.
    let list = word_list();
    let renderable = |q: QuizWord, options: [&'static str; QUIZ_OPTIONS]| {
        (1..=BACKUP_WORDS).contains(&q.number)
            && (1..=BACKUP_WORDS).contains(&q.total)
            && q.asked < q.total
            && options
                .iter()
                .all(|o| !o.is_empty() && o.len() <= 8 && o.chars().all(|c| c.is_ascii_uppercase()))
    };
    for seed in 0..12 {
        let (mut quiz, mut rng, words) = fresh(list, seed);
        loop {
            match quiz.screen() {
                Screen::Word { question, options } => {
                    assert!(
                        renderable(question, options),
                        "unrenderable question {question:?}"
                    );
                }
                Screen::Passed { checked } => {
                    assert!((1..=BACKUP_WORDS).contains(&checked));
                    break;
                }
            }
            assert_eq!(press_wrong(&mut quiz, &mut rng, &words), Step::Redraw);
            let (q, options) = question(&quiz);
            assert!(q.retry);
            assert!(renderable(q, options));
            let _ = press_right(&mut quiz, &mut rng, &words);
        }
    }
}

#[test]
fn a_share_this_cannot_quiz_honestly_gets_no_quiz() {
    let list = word_list();
    let mut rng = Seeded::new(1).tape(20_000);
    assert!(Quiz::new([list[0]; BACKUP_WORDS], list, &mut rng).is_none());
    let mut two = [list[0]; BACKUP_WORDS];
    two[BACKUP_WORDS - 1] = list[1];
    let mut quiz = Quiz::new(two, list, &mut rng).expect("two distinct words can be quizzed");
    for _ in 0..QUIZ_POSITIONS - 1 {
        assert_eq!(press_right(&mut quiz, &mut rng, &two), Step::Redraw);
    }
    assert_eq!(press_right(&mut quiz, &mut rng, &two), Step::Passed);
    for bad in ["notaword", "abandon", "", "ABANDONED"] {
        let mut words = share(list, 9);
        words[7] = bad;
        assert!(
            Quiz::new(words, list, &mut rng).is_none(),
            "{bad:?} must not be quizzable"
        );
    }
    let mut words = share(list, 9);
    words[7] = "ABANDON";
    assert!(Quiz::new(words, list, &mut rng).is_some());
}

#[test]
fn a_list_without_a_third_word_gets_no_quiz() {
    let mut rng = Seeded::new(8).tape(20_000);
    let short: &'static [&'static str] = Box::leak(Box::new(["ABANDON", "ZOO"]));
    let mut words = ["ABANDON"; BACKUP_WORDS];
    words[3] = "ZOO";
    assert!(Quiz::new(words, short, &mut rng).is_none());
    let three: &'static [&'static str] = Box::leak(Box::new(["ABANDON", "ZOO", "ABILITY"]));
    assert!(Quiz::new(words, three, &mut rng).is_some());
}

#[test]
fn the_bounded_draw_stays_in_range() {
    let mut rng = Seeded::new(4).tape(500_000);
    assert_eq!(
        below(0, &mut rng),
        0,
        "a zero bound has no member to return"
    );
    assert_eq!(below(1, &mut rng), 0);
    assert_eq!(
        below(usize::MAX, &mut rng),
        0,
        "an over-u32 bound is refused"
    );
    for bound in [2usize, 3, 7, 25, 2048] {
        let mut counts = vec![0usize; bound];
        for _ in 0..bound * 200 {
            let draw = below(bound, &mut rng);
            assert!(draw < bound, "{draw} is not below {bound}");
            counts[draw] += 1;
        }
        let low = counts.iter().min().copied().unwrap_or(0);
        let high = counts.iter().max().copied().unwrap_or(0);
        assert!(
            low > 100 && high < 320,
            "bound {bound}: {low}..{high} per value"
        );
    }
}

#[test]
fn a_draw_is_scaled_by_its_high_bits() {
    let mut rng = Draws::new(vec![0, u32::MAX, 0x8000_0000, 0x5555_5556]);
    assert_eq!(below(25, &mut rng), 0);
    assert_eq!(below(25, &mut rng), 24);
    assert_eq!(below(25, &mut rng), 12);
    assert_eq!(below(3, &mut rng), 1);
    assert_eq!(rng.left(), 0);
}

#[test]
fn a_shuffle_exchanges_from_the_last_item_down() {
    // Every draw of zero exchanges with the first item.
    let mut items = vec![1u8, 2, 3, 4];
    let mut rng = Draws::new(vec![0, 0, 0, 7]);
    shuffle(&mut items, &mut rng);
    assert_eq!(items, vec![2, 3, 4, 1]);
    assert_eq!(rng.left(), 1, "one draw per item but the first");
    // The highest draws leave everything where it is.
    let mut rng = Draws::new(vec![u32::MAX; 3]);
    shuffle(&mut items, &mut rng);
    assert_eq!(items, vec![2, 3, 4, 1]);
    let mut none: Vec<u8> = vec![];
    shuffle(&mut none, &mut rng);
    assert!(none.is_empty());
}

#[test]
fn a_quiz_needs_no_more_draws_than_it_says() {
    let list = word_list();
    // Every draw picks the first word, which is always taken in the end.
    let words = share(list, 0);
    let mut rng = Draws::new(vec![0; QUIZ_DRAWS]);
    let mut quiz = Quiz::new(words, list, &mut rng).unwrap();
    let mut rng = Draws::new(vec![0; OPTION_DRAWS]);
    assert_eq!(press_wrong(&mut quiz, &mut rng, &words), Step::Redraw);
    assert!(question(&quiz).0.retry);
}

#[test]
fn a_key_that_draws_nothing_needs_no_draws() {
    let list = word_list();
    let (mut quiz, _, words) = fresh(list, 4);
    let mut none = Draws::new(Vec::new());
    assert_eq!(quiz.key(b'5', &mut none), Step::Unchanged);
    assert_eq!(quiz.key(KEY_CANCEL, &mut none), Step::Abort);
    let mut lower = words;
    lower[0] = "abandon";
    assert!(Quiz::new(lower, list, &mut none).is_none());
}

#[test]
fn no_debug_output_holds_a_word() {
    let list = word_list();
    let (mut quiz, mut rng, words) = fresh(list, 6);
    for _ in 0..QUIZ_POSITIONS {
        let printed = format!(
            "{} {:?} {:?}",
            quiz.screen().debug_text(),
            Step::Passed,
            Step::Unchanged
        );
        for word in words {
            assert!(
                !printed.contains(word),
                "{word} reached a log line: {printed}"
            );
        }
        let _ = press_right(&mut quiz, &mut rng, &words);
    }
    assert_eq!(
        quiz.screen().debug_text(),
        format!("Passed({QUIZ_POSITIONS})")
    );
}

#[test]
fn the_text_of_a_question_is_the_question() {
    let question = QuizWord {
        number: 25,
        asked: 7,
        total: 8,
        retry: true,
    };
    let screen = Screen::Word {
        question,
        options: ["ABANDON", "ZOO", "ABILITY"],
    };
    assert_eq!(screen.debug_text(), format!("Word({question:?})"));
}
