//! What a person is in the middle of with a backup: whether its words are still to
//! be acknowledged, and the quiz on a written one.
//!
//! The coordinator is told two things of it, each once: that the words were
//! written down, and that a written backup was checked.

use vstd::prelude::*;
use crate::desk::{quiz_outcome, Checked};
use crate::draws::Draws;
use crate::fault::{Fault, Refusal};
use crate::flow::BACKUP_WORDS;
use crate::keypad::QUIZ_KEYS;
use crate::messages::{CommsMisc, DeviceSendBody};
use crate::quiz::{
    after_first_question, all_listed, first_question, quizzable, Quiz, QuizState, Screen, Step,
    OPTION_DRAWS, QUIZ_DRAWS, QUIZ_POSITIONS,
};

verus! {

/// What a person is in the middle of with a backup.
pub struct Ceremony {
    quiz: Option<Quiz>,
    record_pending: bool,
}

impl Ceremony {
    /// The quiz that is being taken.
    pub closed spec fn quiz(self) -> Option<QuizState> {
        match self.quiz {
            Some(quiz) => Some(quiz@),
            None => None,
        }
    }

    /// Whether the words of a backup were shown to the end and not acknowledged.
    pub closed spec fn pending(self) -> bool {
        self.record_pending
    }

    /// A quiz that is being taken is a valid one with a question left.
    #[verifier::type_invariant]
    closed spec fn wf(self) -> bool {
        self.quiz() matches Some(quiz) ==> quiz.wf() && !quiz.over()
    }

    /// In the middle of nothing.
    pub fn new() -> (ceremony: Ceremony)
        ensures
            ceremony.quiz() is None,
            !ceremony.pending(),
    {
        Ceremony { quiz: None, record_pending: false }
    }

    /// The coordinator abandoned whatever it had begun.
    pub fn cancel(&mut self)
        ensures
            final(self).quiz() is None,
            !final(self).pending(),
    {
        self.quiz = None;
        self.record_pending = false;
    }

    /// Takes note of what came of showing a page of a backup. Only where the pages
    /// ran out can the words be acknowledged: not while there are pages left, and
    /// not after a fault.
    pub fn backup_shown(&mut self, shown: &Result<bool, Fault>)
        ensures
            final(self).pending() == (*shown == Ok::<bool, Fault>(false)),
            final(self).quiz() == old(self).quiz(),
    {
        proof {
            use_type_invariant(&*self);
        }
        self.record_pending = match shown {
            Ok(drawn) => !*drawn,
            Err(_) => false,
        };
    }

    /// Whether the words of a backup were shown to the end and not acknowledged.
    pub fn record_pending(&self) -> (pending: bool)
        ensures
            pending == self.pending(),
    {
        self.record_pending
    }

    /// What to tell the coordinator when the person says that the words were
    /// written down. It is told once, and only of words that were shown to the
    /// end.
    pub fn backup_recorded(&mut self) -> (told: Option<DeviceSendBody>)
        ensures
            old(self).pending() ==> told == Some(DeviceSendBody::Misc(CommsMisc::BackupRecorded)),
            !old(self).pending() ==> told is None,
            !final(self).pending(),
            final(self).quiz() == old(self).quiz(),
    {
        if !self.record_pending {
            return None;
        }
        proof {
            use_type_invariant(&*self);
        }
        self.record_pending = false;
        Some(DeviceSendBody::Misc(CommsMisc::BackupRecorded))
    }

    /// Begins a quiz on a share, and says whether there is one: a share that cannot
    /// be quizzed gets none.
    pub fn begin_quiz(
        &mut self,
        words: [&'static str; BACKUP_WORDS],
        list: &'static [&'static str],
        draws: &mut Draws,
    ) -> (begun: bool)
        requires
            all_listed(words@, list@) ==> old(draws)@.len() >= QUIZ_DRAWS,
        ensures
            begun == quizzable(words@, list@),
            final(self).quiz() == (if begun {
                Some(first_question(words@, list@, old(draws)@))
            } else {
                None
            }),
            final(draws)@ == after_first_question(words@, list@, old(draws)@),
            final(self).pending() == old(self).pending(),
    {
        self.quiz = Quiz::new(words, list, draws);
        self.quiz.is_some()
    }

    /// The screen of the quiz that is being taken.
    pub fn quiz_screen(&self) -> (screen: Option<Screen>)
        ensures
            screen is Some <==> self.quiz() is Some,
            self.quiz() matches Some(quiz) ==> {
                &&& screen matches Some(Screen::Word { question, options })
                &&& question.number == quiz.position() + 1
                &&& question.number == quiz.order[quiz.asked] + 1
                &&& question.asked == quiz.asked
                &&& question.total == QUIZ_POSITIONS
                &&& question.retry == quiz.wrong
                &&& options@ == quiz.options
            },
    {
        proof {
            use_type_invariant(self);
        }
        match &self.quiz {
            None => None,
            Some(quiz) => Some(quiz.screen()),
        }
    }

    /// Takes one key of the quiz. Passing it tells the coordinator so, once, and
    /// ends it; giving up ends it and tells nobody. Without a quiz the key is
    /// refused.
    pub fn quiz_key(&mut self, key: u8, draws: &mut Draws) -> (done: Result<
        (Checked, Option<DeviceSendBody>),
        Fault,
    >)
        requires
            old(self).quiz() matches Some(quiz) ==> (quiz.step(key) is Redraw ==> old(draws)@.len()
                >= OPTION_DRAWS),
        ensures
            match old(self).quiz() {
                None => {
                    &&& done == Err::<(Checked, Option<DeviceSendBody>), Fault>(
                        Fault::Refused(Refusal::PhysicalBackup),
                    )
                    &&& final(self).quiz() is None
                    &&& final(draws)@ == old(draws)@
                },
                Some(quiz) => {
                    let step = quiz.step(key);
                    &&& done matches Ok((checked, told))
                    &&& checked == (match step {
                        Step::Unchanged => Checked::Unchanged,
                        Step::Redraw => Checked::Redraw,
                        Step::Abort => Checked::Ended { checked: None },
                        Step::Passed => Checked::Ended { checked: Some(QUIZ_POSITIONS) },
                    })
                    &&& told == (if step is Passed {
                        Some(DeviceSendBody::Misc(CommsMisc::BackupChecked))
                    } else {
                        None
                    })
                    &&& final(self).quiz() == (if step is Passed || step is Abort {
                        None
                    } else {
                        Some(quiz.after(key, old(draws)@))
                    })
                    &&& final(draws)@ == quiz.draws_after(key, old(draws)@)
                },
            },
            final(self).pending() == old(self).pending(),
    {
        proof {
            use_type_invariant(&*self);
        }
        let mut quiz: Quiz = match &self.quiz {
            None => return Err(Fault::Refused(Refusal::PhysicalBackup)),
            Some(quiz) => quiz.clone(),
        };
        self.quiz = None;
        let step: Step = quiz.key(key, draws);
        let told: Option<DeviceSendBody> = match step {
            Step::Passed => Some(DeviceSendBody::Misc(CommsMisc::BackupChecked)),
            Step::Abort => None,
            Step::Unchanged | Step::Redraw => {
                self.quiz = Some(quiz);
                None
            },
        };
        Ok((quiz_outcome(step), told))
    }
}

/// The coordinator hears that a backup was checked only on a right answer to the
/// last question.
pub proof fn a_backup_is_checked_only_by_the_last_right_answer(quiz: QuizState, key: u8)
    requires
        quiz.wf(),
    ensures
        quiz.step(key) is Passed ==> quiz.answered_by(key) && quiz.asked + 1 == QUIZ_POSITIONS,
        quiz.step(key) is Passed <==> quiz.asked == 7 && exists|slot: int|
            0 <= slot < 3 && #[trigger] QUIZ_KEYS@[slot] == key && quiz.options[slot]@
                == quiz.words[quiz.order[7] as int]@,
{
}

} // verus!
