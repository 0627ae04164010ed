//! What is on the glass and what waits there for a key: one turn of the device's
//! loop after another.
//!
//! Whatever takes the glass ends the flow that was on it, so no key can answer a
//! screen that is gone. A device without a panel shows nothing and so has nothing
//! that could be answered.

use vstd::prelude::*;
use crate::consent::{ask, meaning, Answer, ConfirmDigit, Consent};
use crate::fault::{Fault, Refusal};
use crate::flow::{
    check_step, entry_step, flow_asks, flow_consent, granted, grants, page_after, reveal_draw,
    reveal_drawn, reveal_next, reveal_step, Check, CheckStep, EntryStep, Flow, Grant, Reveal,
    RevealScreen, RevealStep, BACKUP_END,
};
use crate::keypad::{Event, KeypadError, BACK_KEY, NEXT_KEY};
use crate::messages::DeviceToUserMessage;
use crate::quiz::{Screen, Step, QUIZ_POSITIONS};
use crate::screens::{
    entry_frame, prompt_screen_at, prompt_shows, Drawn, EntryScreen, Shown,
};

verus! {

/// A prompt that is on the glass and waits for its key.
#[derive(Debug)]
pub struct Parked {
    /// The prompt.
    pub prompt: DeviceToUserMessage,
    /// The digit that it was drawn with.
    pub confirm: ConfirmDigit,
    /// The page that is on the glass.
    pub page: usize,
    /// Whether that page is the last, the one that prints the digit.
    pub last: bool,
}

/// What is to be done after a key, or after something else that happened.
#[derive(Debug)]
pub enum DeskAction {
    /// Nothing.
    Nothing,
    /// Draw these prompts, one after the other, each on its first page and with a
    /// digit of its own, and hand them to [`Desk::draw_batch`].
    DrawPrompts(Vec<DeviceToUserMessage>),
    /// Draw this page of a prompt with the digit that it has, and hand it to
    /// [`Desk::draw_prompt`].
    TurnPage {
        /// The prompt.
        prompt: DeviceToUserMessage,
        /// The digit that it was drawn with.
        confirm: ConfirmDigit,
        /// The page to draw.
        page: usize,
    },
    /// The person said yes to this page of a prompt. What comes of it goes to
    /// [`Desk::confirmed`].
    Confirm {
        /// The prompt.
        prompt: DeviceToUserMessage,
        /// The page that was on the glass.
        page: usize,
        /// The flow that the yes opens.
        grant: Option<Grant>,
    },
    /// Draw a refusal.
    Refuse,
    /// Draw the resting screen.
    Idle,
    /// Draw the resting screen, and then these prompts as for
    /// [`DeskAction::DrawPrompts`].
    Rest(Vec<DeviceToUserMessage>),
    /// Draw this page of the backup that may be shown, and hand it to
    /// [`Desk::backup_drawn`].
    ShowBackup(usize),
    /// Tell the coordinator that the words were written down, and draw the resting
    /// screen.
    AckBackup,
    /// Hand this key to the share that is being typed in. What comes of it goes to
    /// [`Desk::typed`].
    TypeKey(u8),
    /// Draw the share that is being typed in, and hand it to
    /// [`Desk::entry_drawn`].
    ShowEntry,
    /// Hand this key to the quiz. What comes of it goes to [`Desk::checked`].
    AnswerQuiz(u8),
    /// Draw the quiz, and hand it to [`Desk::quiz_drawn`].
    ShowQuiz,
    /// Draw that this many words were checked, and hand it to
    /// [`Desk::quiz_drawn`].
    ShowPassed(usize),
}

/// What a keystroke did to a share that is being typed in.
#[derive(Debug)]
pub enum Typed {
    /// Nothing.
    Unchanged,
    /// The screen is to be drawn again.
    Redraw,
    /// The entry is over, with these prompts.
    Ended(Vec<DeviceToUserMessage>),
}

/// What a key did to a quiz.
#[derive(Clone, Copy, Debug, PartialEq, Eq, Structural)]
pub enum Checked {
    /// Nothing.
    Unchanged,
    /// The screen is to be drawn again.
    Redraw,
    /// The quiz is over. If it was passed, this many words were checked.
    Ended {
        /// How many words.
        checked: Option<usize>,
    },
}

/// What a key did to a quiz, as the desk takes it. A quiz that was given up is
/// over and checked nothing; a passed one checked as many words as it asked for.
pub fn quiz_outcome(step: Step) -> (checked: Checked)
    ensures
        checked == (match step {
            Step::Unchanged => Checked::Unchanged,
            Step::Redraw => Checked::Redraw,
            Step::Abort => Checked::Ended { checked: None },
            Step::Passed => Checked::Ended { checked: Some(QUIZ_POSITIONS) },
        }),
{
    match step {
        Step::Unchanged => Checked::Unchanged,
        Step::Redraw => Checked::Redraw,
        Step::Abort => Checked::Ended { checked: None },
        Step::Passed => Checked::Ended { checked: Some(QUIZ_POSITIONS) },
    }
}

/// Where a quiz stands whose screen is this one.
pub open spec fn quiz_stands(screen: Screen) -> Check {
    if screen is Word {
        Check::Asking
    } else {
        Check::Passed
    }
}

/// What goes over the screen of a flow once it was asked for.
#[derive(Clone, Copy, Debug, PartialEq, Eq, Structural)]
pub enum FlowScreen {
    /// The screen itself, which is drawn.
    Itself,
    /// The resting screen.
    Idle,
    /// A refusal.
    Refuse,
}

/// A prompt of a batch with the digit that it was drawn with and what the renderer
/// said of its first page.
#[derive(Debug)]
pub struct Offered {
    /// The prompt.
    pub prompt: DeviceToUserMessage,
    /// The digit.
    pub confirm: ConfirmDigit,
    /// What the renderer said.
    pub drawn: Drawn,
}

/// What is on the glass and what waits there.
pub ghost struct DeskState {
    /// Whether there is a panel.
    pub panel: bool,
    /// The prompt that waits for its key.
    pub parked: Option<Parked>,
    /// The flow that is on the glass.
    pub glass: Option<Flow>,
}

/// What the pad says to a screen. A pad that never opened refuses.
pub open spec fn verdict(
    scan: Option<Result<Event, KeypadError>>,
    consent: Consent,
    last: bool,
) -> Answer {
    match scan {
        None => Answer::No,
        Some(event) => meaning(event, consent, last),
    }
}

impl DeskState {
    /// A device without a panel has nothing on the glass, and no glass shows a
    /// prompt and a flow at once.
    pub open spec fn wf(self) -> bool {
        &&& !self.panel ==> self.parked is None && self.glass is None
        &&& !(self.parked is Some && self.glass is Some)
    }

    /// The desk after something else took the glass: nothing that was on it waits
    /// for a key any more.
    pub open spec fn covered(self) -> DeskState {
        if self.panel {
            DeskState { glass: None, parked: None, ..self }
        } else {
            self
        }
    }

    /// The desk after the screen of a flow took the glass, if it is one that waits
    /// for a key.
    pub open spec fn with_flow(self, flow: Option<Flow>) -> DeskState {
        if self.panel {
            DeskState { glass: flow, parked: None, ..self }
        } else {
            self
        }
    }

    /// The desk after page `page` of a prompt was drawn. A prompt without a screen
    /// leaves everything as it is, and one that could not be drawn takes the glass
    /// for a refusal.
    pub open spec fn with_prompt(
        self,
        prompt: DeviceToUserMessage,
        confirm: ConfirmDigit,
        page: usize,
        drawn: Drawn,
    ) -> DeskState {
        if !self.panel {
            self
        } else {
            match prompt_shows(prompt, page, drawn) {
                Ok(Shown::Nothing) => self,
                Ok(Shown::Page { last }) => DeskState {
                    glass: None,
                    parked: Some(Parked { prompt, confirm, page, last }),
                    ..self
                },
                Err(_) => self.covered(),
            }
        }
    }

    /// The desk after the first pages of some prompts were drawn, one after the
    /// other.
    pub open spec fn with_batch(self, batch: Seq<Offered>) -> DeskState
        decreases batch.len(),
    {
        if batch.len() == 0 {
            self
        } else {
            let offered = batch.last();
            self.with_batch(batch.drop_last()).with_prompt(
                offered.prompt,
                offered.confirm,
                0,
                offered.drawn,
            )
        }
    }

    /// The desk after a refusal took the glass.
    pub open spec fn refused(self) -> DeskState {
        self.covered()
    }

    /// What a key does to the prompt that waits.
    pub open spec fn key_on_prompt(
        self,
        waiting: Parked,
        scan: Option<Result<Event, KeypadError>>,
    ) -> (DeskState, DeskAction) {
        let taken = DeskState { parked: None, ..self };
        let Parked { prompt, confirm, page, last } = waiting;
        match verdict(scan, Consent::Prompt(&prompt, confirm), last) {
            Answer::Wait => (self, DeskAction::Nothing),
            Answer::Next => (
                taken,
                DeskAction::TurnPage { prompt, confirm, page: page_after(page) },
            ),
            Answer::Yes => (
                taken,
                DeskAction::Confirm { prompt, page, grant: granted(prompt) },
            ),
            Answer::Back | Answer::Key(_) | Answer::No => (taken.refused(), DeskAction::Refuse),
        }
    }

    /// What a key does to the flow on the glass, where `entry_live` and `quiz_live`
    /// say whether there still is a share to type in, or a question to answer.
    pub open spec fn key_on_flow(
        self,
        flow: Flow,
        scan: Option<Result<Event, KeypadError>>,
        entry_live: bool,
        quiz_live: bool,
    ) -> (DeskState, DeskAction) {
        let taken = DeskState { glass: None, ..self };
        let (consent, last) = flow_asks(flow);
        let said = verdict(scan, consent, last);
        match flow {
            Flow::Reveal(state) => match reveal_next(state, said, BACKUP_END) {
                RevealStep::Park => (self, DeskAction::Nothing),
                RevealStep::Show(page) => (taken, DeskAction::ShowBackup(page)),
                RevealStep::Ack => (taken, DeskAction::AckBackup),
                RevealStep::Idle => (taken, DeskAction::Idle),
            },
            Flow::Entry => if !entry_live {
                (taken, DeskAction::Idle)
            } else {
                match said {
                    Answer::Wait => (self, DeskAction::Nothing),
                    Answer::Key(key) => (taken, DeskAction::TypeKey(key)),
                    _ => (taken, DeskAction::Idle),
                }
            },
            Flow::Check(state) => if state is Asking && !quiz_live {
                (taken, DeskAction::Idle)
            } else {
                match (state, said) {
                    (_, Answer::Wait) => (self, DeskAction::Nothing),
                    (Check::Asking, Answer::Key(key)) => (taken, DeskAction::AnswerQuiz(key)),
                    _ => (taken, DeskAction::Idle),
                }
            },
        }
    }

    /// What one reading of the pad does: it is read for the prompt that waits, else
    /// for the flow on the glass, else for nothing.
    pub open spec fn key(
        self,
        scan: Option<Result<Event, KeypadError>>,
        entry_live: bool,
        quiz_live: bool,
    ) -> (DeskState, DeskAction) {
        match (self.parked, self.glass) {
            (Some(waiting), _) => self.key_on_prompt(waiting, scan),
            (None, Some(flow)) => self.key_on_flow(flow, scan, entry_live, quiz_live),
            (None, None) => (self, DeskAction::Nothing),
        }
    }
}

/// What is on the glass and what waits there.
pub struct Desk {
    panel: bool,
    parked: Option<Parked>,
    glass: Option<Flow>,
}

impl View for Desk {
    type V = DeskState;

    closed spec fn view(&self) -> DeskState {
        DeskState { panel: self.panel, parked: self.parked, glass: self.glass }
    }
}

impl Desk {
    /// A desk with nothing on it.
    pub fn new(panel: bool) -> (desk: Desk)
        ensures
            desk@ == (DeskState { panel, parked: None, glass: None }),
            desk@.wf(),
    {
        Desk { panel, parked: None, glass: None }
    }

    /// The prompt that waits for its key.
    pub fn parked(&self) -> (parked: Option<&Parked>)
        ensures
            self@.parked is None ==> parked is None,
            self@.parked matches Some(p) ==> (parked matches Some(shown) && *shown == p),
    {
        match &self.parked {
            None => None,
            Some(parked) => Some(parked),
        }
    }

    /// The flow that is on the glass.
    pub fn glass(&self) -> (glass: Option<Flow>)
        ensures
            glass == self@.glass,
    {
        self.glass
    }

    /// Takes note of page `page` of a prompt that was drawn with this digit, and
    /// of what the renderer said of it.
    pub fn draw_prompt(
        &mut self,
        prompt: DeviceToUserMessage,
        confirm: ConfirmDigit,
        page: usize,
        drawn: Drawn,
    ) -> (shown: Option<bool>)
        ensures
            final(self)@ == old(self)@.with_prompt(prompt, confirm, page, drawn),
            shown == (match prompt_shows(prompt, page, drawn) {
                Ok(Shown::Page { last }) => if old(self)@.panel { Some(last) } else { None },
                _ => None,
            }),
            shown matches Some(last) ==> final(self)@.glass is None && final(self)@.parked == Some(
                Parked { prompt, confirm, page, last },
            ),
            old(self)@.wf() ==> final(self)@.wf(),
    {
        if !self.panel {
            return None;
        }
        match prompt_screen_at(&prompt, page, drawn) {
            Ok(Shown::Nothing) => None,
            Ok(Shown::Page { last }) => {
                self.glass = None;
                self.parked = Some(Parked { prompt, confirm, page, last });
                Some(last)
            },
            Err(_) => {
                self.cover();
                None
            },
        }
    }

    /// Takes note of the first pages of some prompts that were drawn one after the
    /// other. The last that took the glass is the one that waits, unless it could
    /// not be drawn.
    pub fn draw_batch(&mut self, batch: Vec<Offered>)
        ensures
            final(self)@ == old(self)@.with_batch(batch@),
            old(self)@.wf() ==> final(self)@.wf(),
    {
        let ghost all = batch@;
        let mut batch = batch;
        let ghost mut done: int = 0;
        while batch.len() > 0
            invariant
                0 <= done <= all.len(),
                batch@ == all.skip(done),
                self@ == old(self)@.with_batch(all.take(done)),
                old(self)@.wf() ==> self@.wf(),
            decreases batch@.len(),
        {
            let offered: Offered = batch.remove(0);
            self.draw_prompt(offered.prompt, offered.confirm, 0, offered.drawn);
            proof {
                assert(offered == all[done]);
                assert(all.take(done + 1).drop_last() =~= all.take(done));
                assert(batch@ =~= all.skip(done + 1));
                done = done + 1;
            }
        }
        proof {
            assert(all.take(done) =~= all);
        }
    }

    /// What is to be done with what came of a message of a coordinator: its
    /// prompts are drawn, and a refusal is shown where the device refused or could
    /// not keep something.
    pub fn received(&mut self, outcome: Result<Vec<DeviceToUserMessage>, Fault>) -> (action:
        DeskAction)
        ensures
            match outcome {
                Ok(prompts) => {
                    &&& final(self)@ == old(self)@
                    &&& action == (if old(self)@.panel {
                        DeskAction::DrawPrompts(prompts)
                    } else {
                        DeskAction::Nothing
                    })
                },
                Err(fault) => if fault is Refused || fault is Store {
                    &&& final(self)@ == old(self)@.refused()
                    &&& action == DeskAction::Refuse
                } else {
                    &&& final(self)@ == old(self)@
                    &&& action == DeskAction::Nothing
                },
            },
            old(self)@.wf() ==> final(self)@.wf(),
    {
        match outcome {
            Ok(prompts) => if self.panel {
                DeskAction::DrawPrompts(prompts)
            } else {
                DeskAction::Nothing
            },
            Err(Fault::Refused(_)) | Err(Fault::Store(_)) => self.refuse(),
            Err(_) => DeskAction::Nothing,
        }
    }

    /// Lets something else take the glass.
    fn cover(&mut self)
        ensures
            final(self)@ == old(self)@.covered(),
    {
        if self.panel {
            self.glass = None;
            self.parked = None;
        }
    }

    /// Lets a refusal take the glass.
    fn refuse(&mut self) -> (action: DeskAction)
        ensures
            final(self)@ == old(self)@.refused(),
            action == DeskAction::Refuse,
    {
        self.cover();
        DeskAction::Refuse
    }

    /// Reads the pad once, for whatever waits for a key.
    ///
    /// `scan` is what the pad reports, and there is none where it never opened.
    /// `entry_live` says whether there still is a share to type in, `quiz_live`
    /// whether there still is a question to answer.
    pub fn key(
        &mut self,
        scan: Option<Result<Event, KeypadError>>,
        entry_live: bool,
        quiz_live: bool,
    ) -> (action: DeskAction)
        ensures
            final(self)@ == old(self)@.key(scan, entry_live, quiz_live).0,
            action == old(self)@.key(scan, entry_live, quiz_live).1,
            old(self)@.wf() ==> final(self)@.wf(),
    {
        match self.parked.take() {
            Some(waiting) => self.key_on_prompt(waiting, scan),
            None => match self.glass {
                Some(flow) => self.key_on_flow(flow, scan, entry_live, quiz_live),
                None => DeskAction::Nothing,
            },
        }
    }

    /// Reads the pad for the prompt that waits.
    fn key_on_prompt(&mut self, waiting: Parked, scan: Option<Result<Event, KeypadError>>) -> (action:
        DeskAction)
        requires
            old(self)@.parked is None,
        ensures
            ({
                let before = DeskState { parked: Some(waiting), ..old(self)@ };
                &&& final(self)@ == before.key_on_prompt(waiting, scan).0
                &&& action == before.key_on_prompt(waiting, scan).1
            }),
    {
        let grant: Option<Grant> = grants(&waiting.prompt);
        match ask(scan, Consent::Prompt(&waiting.prompt, waiting.confirm), waiting.last) {
            Answer::Wait => {
                self.parked = Some(waiting);
                DeskAction::Nothing
            },
            Answer::Next => DeskAction::TurnPage {
                prompt: waiting.prompt,
                confirm: waiting.confirm,
                page: waiting.page.saturating_add(1),
            },
            Answer::Yes => DeskAction::Confirm {
                prompt: waiting.prompt,
                page: waiting.page,
                grant,
            },
            Answer::Back | Answer::Key(_) | Answer::No => self.refuse(),
        }
    }

    /// Reads the pad for the flow on the glass.
    fn key_on_flow(
        &mut self,
        flow: Flow,
        scan: Option<Result<Event, KeypadError>>,
        entry_live: bool,
        quiz_live: bool,
    ) -> (action: DeskAction)
        requires
            old(self)@.glass == Some(flow),
        ensures
            final(self)@ == old(self)@.key_on_flow(flow, scan, entry_live, quiz_live).0,
            action == old(self)@.key_on_flow(flow, scan, entry_live, quiz_live).1,
    {
        let (consent, last) = flow_consent(flow);
        let said: Answer = ask(scan, consent, last);
        self.glass = None;
        match flow {
            Flow::Reveal(state) => match reveal_step(state, said, BACKUP_END) {
                RevealStep::Park => {
                    self.glass = Some(flow);
                    DeskAction::Nothing
                },
                RevealStep::Show(page) => DeskAction::ShowBackup(page),
                RevealStep::Ack => DeskAction::AckBackup,
                RevealStep::Idle => DeskAction::Idle,
            },
            Flow::Entry => {
                let step: EntryStep = if entry_live { entry_step(said) } else { EntryStep::End };
                match step {
                    EntryStep::Park => {
                        self.glass = Some(flow);
                        DeskAction::Nothing
                    },
                    EntryStep::Key(key) => DeskAction::TypeKey(key),
                    EntryStep::End => DeskAction::Idle,
                }
            },
            Flow::Check(state) => {
                let step: CheckStep = if state == Check::Asking && !quiz_live {
                    CheckStep::Done
                } else {
                    check_step(state, said)
                };
                match step {
                    CheckStep::Park => {
                        self.glass = Some(flow);
                        DeskAction::Nothing
                    },
                    CheckStep::Key(key) => DeskAction::AnswerQuiz(key),
                    CheckStep::Done => DeskAction::Idle,
                }
            },
        }
    }

    /// What is to be done with what came of a yes: the flow that it opened begins,
    /// or what it led to is drawn, and a fault is refused.
    pub fn confirmed(
        &mut self,
        grant: Option<Grant>,
        outcome: Result<Vec<DeviceToUserMessage>, Fault>,
    ) -> (action: DeskAction)
        ensures
            match outcome {
                Ok(prompts) => {
                    &&& final(self)@ == old(self)@
                    &&& action == (if !old(self)@.panel {
                        DeskAction::Nothing
                    } else {
                        match grant {
                            Some(Grant::Reveal) => DeskAction::ShowBackup(0),
                            Some(Grant::Entry) => DeskAction::ShowEntry,
                            Some(Grant::Check) => DeskAction::ShowQuiz,
                            None => DeskAction::DrawPrompts(prompts),
                        }
                    })
                },
                Err(_) => {
                    &&& final(self)@ == old(self)@.refused()
                    &&& action == DeskAction::Refuse
                },
            },
            old(self)@.wf() ==> final(self)@.wf(),
    {
        match outcome {
            Ok(prompts) => if !self.panel {
                DeskAction::Nothing
            } else {
                match grant {
                    Some(Grant::Reveal) => DeskAction::ShowBackup(0),
                    Some(Grant::Entry) => DeskAction::ShowEntry,
                    Some(Grant::Check) => DeskAction::ShowQuiz,
                    None => DeskAction::DrawPrompts(prompts),
                }
            },
            Err(_) => self.refuse(),
        }
    }

    /// Takes note of page `page` of a backup, and says what goes on the glass: see
    /// [`reveal_draw`].
    pub fn backup_drawn(
        &mut self,
        page: usize,
        shown: Result<bool, ()>,
        record_pending: bool,
        confirm: ConfirmDigit,
    ) -> (screen: Option<RevealScreen>)
        ensures
            !old(self)@.panel ==> screen is None && final(self)@ == old(self)@,
            old(self)@.panel ==> {
                let (drawn, next) = reveal_drawn(page, shown, record_pending, confirm);
                &&& screen == Some(drawn)
                &&& final(self)@ == old(self)@.with_flow(
                    match next {
                        Some(state) => Some(Flow::Reveal(state)),
                        None => None,
                    },
                )
            },
            old(self)@.wf() ==> final(self)@.wf(),
    {
        if !self.panel {
            return None;
        }
        let (screen, next) = reveal_draw(page, shown, record_pending, confirm);
        self.parked = None;
        self.glass = match next {
            Some(state) => Some(Flow::Reveal(state)),
            None => None,
        };
        Some(screen)
    }

    /// Takes note of a share that is being typed in, and says what goes on the
    /// glass. `screen` is what there is to draw, and `rendered` whether the
    /// renderer drew it.
    pub fn entry_drawn(&mut self, screen: Option<EntryScreen>, rendered: bool) -> (shows: Option<
        FlowScreen,
    >)
        ensures
            !old(self)@.panel ==> shows is None && final(self)@ == old(self)@,
            old(self)@.panel ==> {
                &&& shows == Some(match screen {
                    None => FlowScreen::Idle,
                    Some(screen) => if rendered || screen is Failed {
                        FlowScreen::Itself
                    } else {
                        FlowScreen::Refuse
                    },
                })
                &&& final(self)@ == old(self)@.with_flow(
                    if shows == Some(FlowScreen::Itself) { Some(Flow::Entry) } else { None },
                )
            },
            old(self)@.wf() ==> final(self)@.wf(),
    {
        if !self.panel {
            return None;
        }
        self.cover();
        match screen {
            None => Some(FlowScreen::Idle),
            Some(screen) => if entry_frame(screen, rendered) {
                self.glass = Some(Flow::Entry);
                Some(FlowScreen::Itself)
            } else {
                Some(FlowScreen::Refuse)
            },
        }
    }

    /// What is to be done with what a keystroke did to a share that is being typed
    /// in.
    pub fn typed(&mut self, outcome: Result<Typed, Fault>) -> (action: DeskAction)
        ensures
            match outcome {
                Ok(Typed::Unchanged) => {
                    &&& final(self)@ == old(self)@.with_flow(Some(Flow::Entry))
                    &&& action == DeskAction::Nothing
                },
                Ok(Typed::Redraw) => {
                    &&& final(self)@ == old(self)@
                    &&& action == (if old(self)@.panel {
                        DeskAction::ShowEntry
                    } else {
                        DeskAction::Nothing
                    })
                },
                Ok(Typed::Ended(prompts)) => {
                    &&& final(self)@ == old(self)@.covered()
                    &&& action == (if old(self)@.panel {
                        DeskAction::Rest(prompts)
                    } else {
                        DeskAction::Nothing
                    })
                },
                Err(_) => {
                    &&& final(self)@ == old(self)@.refused()
                    &&& action == DeskAction::Refuse
                },
            },
            old(self)@.wf() ==> final(self)@.wf(),
    {
        match outcome {
            Ok(Typed::Unchanged) => {
                if self.panel {
                    self.parked = None;
                    self.glass = Some(Flow::Entry);
                }
                DeskAction::Nothing
            },
            Ok(Typed::Redraw) => if self.panel {
                DeskAction::ShowEntry
            } else {
                DeskAction::Nothing
            },
            Ok(Typed::Ended(prompts)) => if self.panel {
                self.cover();
                DeskAction::Rest(prompts)
            } else {
                DeskAction::Nothing
            },
            Err(_) => self.refuse(),
        }
    }

    /// Takes note of a quiz, and says what goes on the glass. `screen` is what there
    /// is to draw, and `rendered` whether the renderer drew it. What the next key
    /// means is read off the screen that was drawn.
    pub fn quiz_drawn(&mut self, screen: Option<Screen>, rendered: bool) -> (shows: Option<
        FlowScreen,
    >)
        ensures
            !old(self)@.panel ==> shows is None && final(self)@ == old(self)@,
            old(self)@.panel ==> {
                &&& shows == Some(
                    if screen is None {
                        FlowScreen::Idle
                    } else if rendered {
                        FlowScreen::Itself
                    } else {
                        FlowScreen::Refuse
                    },
                )
                &&& final(self)@ == old(self)@.with_flow(
                    match screen {
                        Some(screen) => if rendered {
                            Some(Flow::Check(quiz_stands(screen)))
                        } else {
                            None
                        },
                        None => None,
                    },
                )
                &&& final(self)@.parked is None
                &&& final(self)@.glass == Some(Flow::Check(Check::Asking)) <==> (rendered && (
                screen matches Some(s) && s is Word))
                &&& final(self)@.glass == Some(Flow::Check(Check::Passed)) <==> (rendered && (
                screen matches Some(s) && s is Passed))
            },
            old(self)@.wf() ==> final(self)@.wf(),
    {
        if !self.panel {
            return None;
        }
        self.cover();
        match screen {
            None => Some(FlowScreen::Idle),
            Some(screen) => if rendered {
                self.glass = Some(
                    Flow::Check(
                        match screen {
                            Screen::Word { .. } => Check::Asking,
                            Screen::Passed { .. } => Check::Passed,
                        },
                    ),
                );
                Some(FlowScreen::Itself)
            } else {
                Some(FlowScreen::Refuse)
            },
        }
    }

    /// What is to be done with what a key did to a quiz.
    pub fn checked(&mut self, outcome: Result<Checked, Fault>) -> (action: DeskAction)
        ensures
            match outcome {
                Ok(Checked::Unchanged) => {
                    &&& final(self)@ == old(self)@.with_flow(Some(Flow::Check(Check::Asking)))
                    &&& action == DeskAction::Nothing
                },
                Ok(Checked::Redraw) => {
                    &&& final(self)@ == old(self)@
                    &&& action == (if old(self)@.panel {
                        DeskAction::ShowQuiz
                    } else {
                        DeskAction::Nothing
                    })
                },
                Ok(Checked::Ended { checked }) => {
                    &&& final(self)@ == old(self)@.covered()
                    &&& action == (if !old(self)@.panel {
                        DeskAction::Nothing
                    } else {
                        match checked {
                            Some(count) => DeskAction::ShowPassed(count),
                            None => DeskAction::Idle,
                        }
                    })
                },
                Err(_) => {
                    &&& final(self)@ == old(self)@.refused()
                    &&& action == DeskAction::Refuse
                },
            },
            old(self)@.wf() ==> final(self)@.wf(),
    {
        match outcome {
            Ok(Checked::Unchanged) => {
                if self.panel {
                    self.parked = None;
                    self.glass = Some(Flow::Check(Check::Asking));
                }
                DeskAction::Nothing
            },
            Ok(Checked::Redraw) => if self.panel {
                DeskAction::ShowQuiz
            } else {
                DeskAction::Nothing
            },
            Ok(Checked::Ended { checked }) => if !self.panel {
                DeskAction::Nothing
            } else {
                self.cover();
                match checked {
                    Some(count) => DeskAction::ShowPassed(count),
                    None => DeskAction::Idle,
                }
            },
            Err(_) => self.refuse(),
        }
    }
}

/// A yes is acted on only for the prompt on the glass, on the page on the glass,
/// and only when that page is the last and the digit that it printed was pressed.
pub proof fn only_the_printed_digit_is_acted_on(
    desk: DeskState,
    scan: Option<Result<Event, KeypadError>>,
    entry_live: bool,
    quiz_live: bool,
)
    ensures
        desk.key(scan, entry_live, quiz_live).1 matches DeskAction::Confirm {
            prompt,
            page,
            grant,
        } ==> {
            &&& desk.parked matches Some(waiting) && waiting.prompt == prompt && waiting.page
                == page && waiting.last && scan == Some(
                Ok::<Event, KeypadError>(Event::Down(waiting.confirm.key())),
            )
            &&& grant == granted(prompt)
        },
{
}

/// What is confirmed is on the glass and was shown in full: after a prompt took the
/// glass, or a refusal in its place, nothing can be said yes to but that prompt, at
/// the page that was drawn, and only if that page was its last.
pub proof fn what_is_confirmed_was_shown_in_full(
    desk: DeskState,
    prompt: DeviceToUserMessage,
    confirm: ConfirmDigit,
    page: usize,
    drawn: Drawn,
    scan: Option<Result<Event, KeypadError>>,
    entry_live: bool,
    quiz_live: bool,
)
    requires
        desk.wf(),
        prompt_shows(prompt, page, drawn) != Ok::<Shown, Refusal>(Shown::Nothing),
    ensures
        desk.with_prompt(prompt, confirm, page, drawn).key(
            scan,
            entry_live,
            quiz_live,
        ).1 matches DeskAction::Confirm { prompt: said, page: at, .. } ==> {
            &&& said == prompt
            &&& at == page
            &&& prompt_shows(prompt, page, drawn) == Ok::<Shown, Refusal>(Shown::Page { last: true })
        },
{
}

/// A backup is acknowledged only by the digit of the question whether its words
/// were written down, and only while that question is on the glass.
pub proof fn only_the_question_acknowledges_a_backup(
    desk: DeskState,
    scan: Option<Result<Event, KeypadError>>,
    entry_live: bool,
    quiz_live: bool,
)
    ensures
        desk.key(scan, entry_live, quiz_live).1 is AckBackup ==> {
            &&& desk.parked is None
            &&& desk.glass matches Some(Flow::Reveal(Reveal::Recorded(confirm))) && scan == Some(
                Ok::<Event, KeypadError>(Event::Down(confirm.key())),
            )
        },
{
}

/// While a prompt waits, the pad is read for it and the flow on the glass gets no
/// key: no reading of the pad is used twice.
pub proof fn the_prompt_that_waits_comes_first(
    desk: DeskState,
    scan: Option<Result<Event, KeypadError>>,
    entry_live: bool,
    quiz_live: bool,
)
    requires
        desk.parked is Some,
    ensures
        desk.key(scan, entry_live, quiz_live) == desk.key_on_prompt(desk.parked.unwrap(), scan),
        !(desk.key(scan, entry_live, quiz_live).1 is TypeKey),
        !(desk.key(scan, entry_live, quiz_live).1 is AnswerQuiz),
        !(desk.key(scan, entry_live, quiz_live).1 is ShowBackup),
{
}

/// Whatever takes the glass from a flow ends the flow: after a key, a flow goes on
/// only where nothing is drawn at all.
pub proof fn a_flow_ends_with_its_screen(
    desk: DeskState,
    scan: Option<Result<Event, KeypadError>>,
    entry_live: bool,
    quiz_live: bool,
)
    requires
        desk.parked is None,
    ensures
        ({
            let (next, action) = desk.key(scan, entry_live, quiz_live);
            &&& next.glass is Some ==> action is Nothing && next == desk
            &&& desk.glass is Some && !(action is Nothing) ==> next.glass is None
        }),
{
}

/// Whatever takes the glass ends what was on it, a flow and a prompt alike: after a
/// refusal, after a prompt that could not be drawn and after the screen of a flow no
/// prompt waits, so none can be confirmed. Only a prompt without a screen leaves
/// what waits as it is.
pub proof fn no_screen_is_answered_once_it_is_covered(
    desk: DeskState,
    prompt: DeviceToUserMessage,
    confirm: ConfirmDigit,
    page: usize,
    drawn: Drawn,
    flow: Option<Flow>,
    scan: Option<Result<Event, KeypadError>>,
    entry_live: bool,
    quiz_live: bool,
)
    ensures
        desk.panel ==> desk.refused().parked is None && desk.refused().glass is None,
        desk.panel && prompt_shows(prompt, page, drawn) is Err ==> desk.with_prompt(
            prompt,
            confirm,
            page,
            drawn,
        ) == desk.refused(),
        desk.panel ==> desk.with_flow(flow).parked is None && desk.with_flow(flow).glass == flow,
        prompt_shows(prompt, page, drawn) == Ok::<Shown, Refusal>(Shown::Nothing)
            ==> desk.with_prompt(prompt, confirm, page, drawn) == desk,
        desk.with_prompt(prompt, confirm, page, drawn).glass is Some ==> desk.with_prompt(
            prompt,
            confirm,
            page,
            drawn,
        ) == desk,
        desk.wf() ==> {
            &&& !(desk.refused().key(scan, entry_live, quiz_live).1 is Confirm)
            &&& !(desk.with_flow(flow).key(scan, entry_live, quiz_live).1 is Confirm)
            &&& desk.refused().key(scan, entry_live, quiz_live).1 is Nothing
        },
{
}

/// As long as nothing is pressed, everything stays as it is, for as long as the
/// person takes.
pub proof fn nothing_pressed_changes_nothing(desk: DeskState, event: Result<Event, KeypadError>)
    requires
        crate::consent::nothing_pressed(event),
    ensures
        desk.key(Some(event), true, true) == (desk, DeskAction::Nothing),
{
}

/// A flow whose share or question is gone ends at the next reading of the pad,
/// whether or not a key is pressed.
pub proof fn a_flow_ends_with_what_it_shows(
    desk: DeskState,
    scan: Option<Result<Event, KeypadError>>,
)
    requires
        desk.parked is None,
        desk.glass == Some(Flow::Entry) || desk.glass == Some(Flow::Check(Check::Asking)),
    ensures
        desk.key(scan, false, false).1 is Idle,
        desk.key(scan, false, false).0.glass is None,
{
}

/// Without a panel nothing is ever on the glass, so nothing can be confirmed.
pub proof fn without_a_panel_nothing_is_confirmed(
    desk: DeskState,
    scan: Option<Result<Event, KeypadError>>,
    entry_live: bool,
    quiz_live: bool,
    batch: Seq<Offered>,
)
    requires
        desk.wf(),
    ensures
        desk.refused().wf(),
        desk.covered().wf(),
        desk.with_batch(batch).wf(),
        desk.key(scan, entry_live, quiz_live).0.wf(),
        !desk.panel ==> desk.with_batch(batch) == desk,
        !desk.panel ==> desk.key(scan, entry_live, quiz_live) == (desk, DeskAction::Nothing),
    decreases batch.len(),
{
    if batch.len() > 0 {
        without_a_panel_nothing_is_confirmed(
            desk,
            scan,
            entry_live,
            quiz_live,
            batch.drop_last(),
        );
    }
}

/// Whether an offered prompt took the glass, with its first page or with a refusal.
pub open spec fn takes_glass(offered: Offered) -> bool {
    prompt_shows(offered.prompt, 0, offered.drawn) != Ok::<Shown, Refusal>(Shown::Nothing)
}

/// Of a batch, the last prompt that took the glass is the one that waits, and none
/// waits if that one could not be drawn. Where none took the glass, what waited
/// before still does.
pub proof fn the_last_prompt_on_the_glass_waits(desk: DeskState, batch: Seq<Offered>, at: int)
    requires
        desk.panel,
        -1 <= at < batch.len(),
        at >= 0 ==> takes_glass(batch[at]),
        forall|i: int| at < i < batch.len() ==> !takes_glass(#[trigger] batch[i]),
    ensures
        at == -1 ==> desk.with_batch(batch) == desk,
        at >= 0 ==> desk.with_batch(batch) == (DeskState {
            glass: None,
            parked: match prompt_shows(batch[at].prompt, 0, batch[at].drawn) {
                Ok(Shown::Page { last }) => Some(
                    Parked {
                        prompt: batch[at].prompt,
                        confirm: batch[at].confirm,
                        page: 0,
                        last,
                    },
                ),
                _ => None,
            },
            ..desk
        }),
    decreases batch.len(),
{
    if batch.len() > 0 {
        let front = batch.drop_last();
        if at == batch.len() - 1 {
            the_panel_stays(desk, front);
        } else {
            assert(!takes_glass(batch[batch.len() - 1]));
            assert forall|i: int| at < i < front.len() implies !takes_glass(
                #[trigger] front[i],
            ) by {
                assert(front[i] == batch[i]);
            }
            the_last_prompt_on_the_glass_waits(desk, front, at);
        }
    }
}

/// A page that was drawn waits for a key as it was drawn: with its prompt, its digit
/// and its number, and as the last page or not, alone on the glass.
pub proof fn a_page_that_was_drawn_waits(
    desk: DeskState,
    prompt: DeviceToUserMessage,
    confirm: ConfirmDigit,
    page: usize,
    drawn: Drawn,
    last: bool,
)
    requires
        desk.panel,
        prompt_shows(prompt, page, drawn) == Ok::<Shown, Refusal>(Shown::Page { last }),
    ensures
        desk.with_prompt(prompt, confirm, page, drawn) == (DeskState {
            panel: true,
            parked: Some(Parked { prompt, confirm, page, last }),
            glass: None,
        }),
{
}

/// Everything that the pad can do to a prompt that waits. Where nothing is pressed,
/// nothing changes. The key for the next page asks for the next number, with the same
/// prompt and the same digit, and does nothing on the last page. On the last page the
/// digit that was printed says yes to the prompt at that page. Everything else refuses.
pub proof fn what_the_pad_does_to_a_prompt(
    desk: DeskState,
    waiting: Parked,
    key: u8,
    code: KeypadError,
    entry_live: bool,
    quiz_live: bool,
)
    requires
        desk.parked == Some(waiting),
    ensures
        desk.key(Some(Ok(Event::AllUp)), entry_live, quiz_live) == (desk, DeskAction::Nothing),
        desk.key(Some(Ok(Event::Unsettled)), entry_live, quiz_live) == (desk, DeskAction::Nothing),
        ({
            let (next, action) = desk.key(Some(Ok(Event::Down(key))), entry_live, quiz_live);
            if key == NEXT_KEY && waiting.last {
                next == desk && action == DeskAction::Nothing
            } else if key == NEXT_KEY {
                &&& next == (DeskState { parked: None, ..desk })
                &&& action matches DeskAction::TurnPage { prompt, confirm, page }
                &&& prompt == waiting.prompt
                &&& confirm == waiting.confirm
                &&& waiting.page < usize::MAX ==> page == waiting.page + 1
                &&& waiting.page == usize::MAX ==> page == waiting.page
            } else if waiting.last && key == waiting.confirm.key() {
                &&& next == (DeskState { parked: None, ..desk })
                &&& action matches DeskAction::Confirm { prompt, page, grant }
                &&& prompt == waiting.prompt
                &&& page == waiting.page
                &&& grant == granted(waiting.prompt)
            } else {
                &&& next.parked is None
                &&& desk.panel ==> next.glass is None
                &&& action == DeskAction::Refuse
            }
        }),
        desk.key(None, entry_live, quiz_live).1 == DeskAction::Refuse,
        desk.key(Some(Err(code)), entry_live, quiz_live).1 == DeskAction::Refuse,
        desk.key(Some(Ok(Event::MultiKey)), entry_live, quiz_live).1 == DeskAction::Refuse,
        desk.key(None, entry_live, quiz_live).0.parked is None,
        desk.key(Some(Err(code)), entry_live, quiz_live).0.parked is None,
        desk.key(Some(Ok(Event::MultiKey)), entry_live, quiz_live).0.parked is None,
{
}

/// Everything that a key does to a backup that is being shown: on a page the two paging
/// keys go one page on and one page back, and every other key goes past the last page;
/// on the question the digit that it prints acknowledges, and every other key ends it.
/// A share that is being typed in and a question get the key as it was pressed.
pub proof fn what_a_key_does_to_a_flow(desk: DeskState, flow: Flow, key: u8)
    requires
        desk.parked is None,
        desk.glass == Some(flow),
    ensures
        ({
            let (next, action) = desk.key(Some(Ok(Event::Down(key))), true, true);
            match flow {
                Flow::Reveal(Reveal::Page(page)) => {
                    &&& next == (DeskState { glass: None, ..desk })
                    &&& action matches DeskAction::ShowBackup(to)
                    &&& key == NEXT_KEY && page < usize::MAX ==> to == page + 1
                    &&& key == NEXT_KEY && page == usize::MAX ==> to == page
                    &&& key == BACK_KEY && page > 0 ==> to == page - 1
                    &&& key == BACK_KEY && page == 0 ==> to == 0
                    &&& key != NEXT_KEY && key != BACK_KEY ==> to == BACKUP_END
                },
                Flow::Reveal(Reveal::Recorded(confirm)) => if key == NEXT_KEY {
                    next == desk && action == DeskAction::Nothing
                } else {
                    &&& next == (DeskState { glass: None, ..desk })
                    &&& action == (if key == confirm.key() {
                        DeskAction::AckBackup
                    } else {
                        DeskAction::Idle
                    })
                },
                Flow::Entry => {
                    &&& next == (DeskState { glass: None, ..desk })
                    &&& action == DeskAction::TypeKey(key)
                },
                Flow::Check(Check::Asking) => {
                    &&& next == (DeskState { glass: None, ..desk })
                    &&& action == DeskAction::AnswerQuiz(key)
                },
                Flow::Check(Check::Passed) => {
                    &&& next == (DeskState { glass: None, ..desk })
                    &&& action == DeskAction::Idle
                },
            }
        }),
{
}

/// The desk after the first page of a prompt was drawn and the pad was read some times,
/// with the pages that were drawn, in order. Each reading comes with what the renderer
/// says of the page that the key asks for, if it asks for one.
pub open spec fn reading(
    desk: DeskState,
    prompt: DeviceToUserMessage,
    confirm: ConfirmDigit,
    first: Drawn,
    turns: Seq<(Option<Result<Event, KeypadError>>, Drawn)>,
) -> (DeskState, Seq<usize>)
    decreases turns.len(),
{
    if turns.len() == 0 {
        (desk.with_prompt(prompt, confirm, 0, first), seq![0usize])
    } else {
        let (before, pages) = reading(desk, prompt, confirm, first, turns.drop_last());
        let (scan, drawn) = turns.last();
        let (next, action) = before.key(scan, true, true);
        match action {
            DeskAction::TurnPage { prompt, confirm, page } => (
                next.with_prompt(prompt, confirm, page, drawn),
                pages.push(page),
            ),
            _ => (next, pages),
        }
    }
}

/// Whatever is pressed, a prompt that waits at a page has had every page up to that one
/// drawn, each once and in order. So a yes, which names the page on the glass, comes
/// only after each page up to the last was drawn.
pub proof fn no_page_is_skipped(
    desk: DeskState,
    prompt: DeviceToUserMessage,
    confirm: ConfirmDigit,
    first: Drawn,
    turns: Seq<(Option<Result<Event, KeypadError>>, Drawn)>,
    scan: Option<Result<Event, KeypadError>>,
)
    requires
        desk.panel,
        prompt_shows(prompt, 0, first) != Ok::<Shown, Refusal>(Shown::Nothing),
        turns.len() < usize::MAX,
    ensures
        ({
            let (now, pages) = reading(desk, prompt, confirm, first, turns);
            &&& now.panel
            &&& now.glass is None
            &&& now.parked matches Some(waiting) ==> {
                &&& waiting.prompt == prompt
                &&& waiting.confirm == confirm
                &&& waiting.page <= turns.len()
                &&& pages == Seq::new((waiting.page + 1) as nat, |i: int| i as usize)
            }
            &&& now.key(scan, true, true).1 matches DeskAction::Confirm {
                prompt: said,
                page,
                ..
            } ==> said == prompt && pages == Seq::new((page + 1) as nat, |i: int| i as usize)
        }),
    decreases turns.len(),
{
    if turns.len() == 0 {
        assert(seq![0usize] =~= Seq::new(1, |i: int| i as usize));
    } else {
        no_page_is_skipped(desk, prompt, confirm, first, turns.drop_last(), turns.last().0);
        let (before, pages) = reading(desk, prompt, confirm, first, turns.drop_last());
        if let DeskAction::TurnPage { page, .. } = before.key(turns.last().0, true, true).1 {
            assert(pages.push(page) =~= Seq::new((page + 1) as nat, |i: int| i as usize));
        }
    }
}

/// Paging on from the first page draws every page, one after the other, until one is
/// the last: after as many presses, that page is on the glass.
pub proof fn paging_on_draws_every_page(
    desk: DeskState,
    prompt: DeviceToUserMessage,
    confirm: ConfirmDigit,
    first: Drawn,
    turns: Seq<(Option<Result<Event, KeypadError>>, Drawn)>,
    last: bool,
)
    requires
        desk.panel,
        turns.len() < usize::MAX,
        forall|i: int|
            0 <= i < turns.len() ==> (#[trigger] turns[i]).0 == Some(
                Ok::<Event, KeypadError>(Event::Down(NEXT_KEY)),
            ),
        prompt_shows(prompt, 0, first) == Ok::<Shown, Refusal>(
            Shown::Page { last: turns.len() == 0 && last },
        ),
        forall|i: int|
            0 <= i < turns.len() ==> prompt_shows(
                prompt,
                (i + 1) as usize,
                (#[trigger] turns[i]).1,
            ) == Ok::<Shown, Refusal>(Shown::Page { last: i == turns.len() - 1 && last }),
    ensures
        reading(desk, prompt, confirm, first, turns) == (
            DeskState {
                panel: true,
                parked: Some(Parked { prompt, confirm, page: turns.len() as usize, last }),
                glass: None,
            },
            Seq::new((turns.len() + 1) as nat, |i: int| i as usize),
        ),
    decreases turns.len(),
{
    if turns.len() == 0 {
        assert(seq![0usize] =~= Seq::new(1, |i: int| i as usize));
    } else {
        let front = turns.drop_last();
        assert forall|i: int| 0 <= i < front.len() implies (#[trigger] front[i]).0 == Some(
            Ok::<Event, KeypadError>(Event::Down(NEXT_KEY)),
        ) && prompt_shows(prompt, (i + 1) as usize, front[i].1) == Ok::<Shown, Refusal>(
            Shown::Page { last: false },
        ) by {
            assert(front[i] == turns[i]);
        }
        paging_on_draws_every_page(desk, prompt, confirm, first, front, false);
        assert(turns.last() == turns[turns.len() - 1]);
        let (before, pages) = reading(desk, prompt, confirm, first, front);
        assert(pages.push(turns.len() as usize) =~= Seq::new(
            (turns.len() + 1) as nat,
            |i: int| i as usize,
        ));
    }
}

/// Nothing gives a device a panel or takes it away, and without one nothing changes.
pub proof fn the_panel_is_there_or_not(
    desk: DeskState,
    flow: Option<Flow>,
    prompt: DeviceToUserMessage,
    confirm: ConfirmDigit,
    page: usize,
    drawn: Drawn,
    scan: Option<Result<Event, KeypadError>>,
    entry_live: bool,
    quiz_live: bool,
)
    ensures
        desk.refused() == desk.covered(),
        desk.covered().panel == desk.panel,
        desk.with_flow(flow).panel == desk.panel,
        desk.with_prompt(prompt, confirm, page, drawn).panel == desk.panel,
        desk.key(scan, entry_live, quiz_live).0.panel == desk.panel,
        !desk.panel ==> desk.covered() == desk && desk.with_flow(flow) == desk && desk.with_prompt(
            prompt,
            confirm,
            page,
            drawn,
        ) == desk,
{
}

/// Drawing prompts does not take the panel away.
proof fn the_panel_stays(desk: DeskState, batch: Seq<Offered>)
    ensures
        desk.with_batch(batch).panel == desk.panel,
    decreases batch.len(),
{
    if batch.len() > 0 {
        the_panel_stays(desk, batch.drop_last());
    }
}

} // verus!
