//! The screens that the device pages through by itself, once a person has
//! consented to one: a backup shown page by page, a backup typed in, and a quiz
//! on a written one.

use vstd::prelude::*;
use crate::consent::{meaning, pressed, Answer, ConfirmDigit, Consent};
use crate::keypad::{Event, KeypadError, BACK_KEY, NEXT_KEY};
use crate::messages::{DeviceToUserMessage, ToUserRestoration};

verus! {

/// How many words a share is written down as.
pub const BACKUP_WORDS: usize = 25;

/// How many of them one page shows.
pub const WORDS_PER_PAGE: usize = 4;

/// One past the last page of a backup: the page of the share's index, then the
/// words, [`WORDS_PER_PAGE`] to a page.
pub const BACKUP_END: usize = 1 + (BACKUP_WORDS + WORDS_PER_PAGE - 1) / WORDS_PER_PAGE;

/// Where a backup that is being shown stands.
#[derive(Clone, Copy, Debug, PartialEq, Eq, Structural)]
pub enum Reveal {
    /// This page is on the glass.
    Page(usize),
    /// The words are gone, and the device asks whether they were written down.
    Recorded(ConfirmDigit),
}

/// What a page of a backup asks of the pad, and whether it is the last of its
/// screen. A page of words prints no digit; the question does.
pub fn reveal_consent(state: Reveal) -> (asks: (Consent<'static>, bool))
    ensures
        asks == reveal_asks(state),
        state is Page ==> asks == (Consent::Pages, false),
        state matches Reveal::Recorded(confirm) ==> asks == (Consent::Question(confirm), true),
{
    match state {
        Reveal::Page(_) => (Consent::Pages, false),
        Reveal::Recorded(confirm) => (Consent::Question(confirm), true),
    }
}

/// What [`reveal_consent`] gives.
pub open spec fn reveal_asks(state: Reveal) -> (Consent<'static>, bool) {
    match state {
        Reveal::Page(_) => (Consent::Pages, false),
        Reveal::Recorded(confirm) => (Consent::Question(confirm), true),
    }
}

/// What to do next with a backup that is being shown.
#[derive(Clone, Copy, Debug, PartialEq, Eq, Structural)]
pub enum RevealStep {
    /// Leave the screen as it is.
    Park,
    /// Show this page, or end there if there is no such page.
    Show(usize),
    /// Tell the coordinator that the words were written down, then rest.
    Ack,
    /// Rest, and tell nobody anything.
    Idle,
}

/// What goes on the glass when a page of a backup was asked for.
#[derive(Clone, Copy, Debug, PartialEq, Eq, Structural)]
pub enum RevealScreen {
    /// The page itself.
    Page,
    /// The question whether the words were written down, with this digit.
    Recorded(ConfirmDigit),
    /// The resting screen.
    Idle,
    /// A refusal.
    Refuse,
}

/// What to draw and where the backup then stands, once page `page` was asked
/// for: `shown` says whether there was such a page, and `record_pending` whether
/// the pages have run out on a backup that can be acknowledged.
///
/// The digit on the glass and the digit that is waited for are one value.
pub fn reveal_draw(
    page: usize,
    shown: Result<bool, ()>,
    record_pending: bool,
    confirm: ConfirmDigit,
) -> (drawn: (RevealScreen, Option<Reveal>))
    ensures
        drawn == reveal_drawn(page, shown, record_pending, confirm),
        shown is Err <==> drawn.0 is Refuse,
        shown == Ok::<bool, ()>(true) <==> drawn.0 is Page,
        shown == Ok::<bool, ()>(false) && record_pending <==> drawn.0 == RevealScreen::Recorded(
            confirm,
        ),
        drawn.1 == (match drawn.0 {
            RevealScreen::Page => Some(Reveal::Page(page)),
            RevealScreen::Recorded(digit) => Some(Reveal::Recorded(digit)),
            _ => None,
        }),
{
    match shown {
        Ok(true) => (RevealScreen::Page, Some(Reveal::Page(page))),
        Ok(false) => if record_pending {
            (RevealScreen::Recorded(confirm), Some(Reveal::Recorded(confirm)))
        } else {
            (RevealScreen::Idle, None)
        },
        Err(()) => (RevealScreen::Refuse, None),
    }
}

/// What [`reveal_draw`] gives.
pub open spec fn reveal_drawn(
    page: usize,
    shown: Result<bool, ()>,
    record_pending: bool,
    confirm: ConfirmDigit,
) -> (RevealScreen, Option<Reveal>) {
    if shown is Err {
        (RevealScreen::Refuse, None)
    } else if shown == Ok::<bool, ()>(true) {
        (RevealScreen::Page, Some(Reveal::Page(page)))
    } else if record_pending {
        (RevealScreen::Recorded(confirm), Some(Reveal::Recorded(confirm)))
    } else {
        (RevealScreen::Idle, None)
    }
}

/// The page after `page`, which is `page` itself at the end of the numbers.
pub open spec fn page_after(page: usize) -> usize {
    if page == usize::MAX { page } else { (page + 1) as usize }
}

/// The page before `page`, which is `page` itself at the first.
pub open spec fn page_before(page: usize) -> usize {
    if page == 0 { page } else { (page - 1) as usize }
}

/// What to do with a backup that is being shown, on one answer of the pad.
///
/// A page turns one page at a time and never past either end of the numbers; any
/// other key on a page goes to `end`, which has no page and so ends the backup.
pub fn reveal_step(state: Reveal, answer: Answer, end: usize) -> (step: RevealStep)
    ensures
        step == reveal_next(state, answer, end),
        step is Park <==> answer is Wait,
        step is Ack <==> state is Recorded && answer is Yes,
        step is Idle <==> state is Recorded && !(answer is Yes) && !(answer is Wait),
        state matches Reveal::Page(page) ==> {
            &&& answer is Next && page < usize::MAX ==> step == RevealStep::Show((page + 1) as usize)
            &&& answer is Next && page == usize::MAX ==> step == RevealStep::Show(page)
            &&& answer is Back && page > 0 ==> step == RevealStep::Show((page - 1) as usize)
            &&& answer is Back && page == 0 ==> step == RevealStep::Show(0)
            &&& answer is Yes || answer is No || answer is Key ==> step == RevealStep::Show(end)
        },
{
    match (state, answer) {
        (_, Answer::Wait) => RevealStep::Park,
        (Reveal::Page(page), Answer::Next) => RevealStep::Show(page.saturating_add(1)),
        (Reveal::Page(page), Answer::Back) => RevealStep::Show(page.saturating_sub(1)),
        (Reveal::Page(_), _) => RevealStep::Show(end),
        (Reveal::Recorded(_), Answer::Yes) => RevealStep::Ack,
        (Reveal::Recorded(_), _) => RevealStep::Idle,
    }
}

/// What [`reveal_step`] gives.
pub open spec fn reveal_next(state: Reveal, answer: Answer, end: usize) -> RevealStep {
    if answer is Wait {
        RevealStep::Park
    } else {
        match state {
            Reveal::Page(page) => RevealStep::Show(
                if answer is Next {
                    page_after(page)
                } else if answer is Back {
                    page_before(page)
                } else {
                    end
                },
            ),
            Reveal::Recorded(_) => if answer is Yes { RevealStep::Ack } else { RevealStep::Idle },
        }
    }
}

/// Where a quiz stands.
#[derive(Clone, Copy, Debug, PartialEq, Eq, Structural)]
pub enum Check {
    /// A question is on the glass.
    Asking,
    /// Every question was answered, and the glass says so.
    Passed,
}

/// The one flow that owns the glass.
#[derive(Clone, Copy, Debug, PartialEq, Eq, Structural)]
pub enum Flow {
    /// A backup is being shown.
    Reveal(Reveal),
    /// A backup is being typed in.
    Entry,
    /// A written backup is being checked.
    Check(Check),
}

/// What the flow on the glass asks of the pad, and whether its page is the last.
pub fn flow_consent(flow: Flow) -> (asks: (Consent<'static>, bool))
    ensures
        asks == flow_asks(flow),
        flow == Flow::Entry ==> asks == (Consent::Entry, true),
        flow is Check ==> asks == (Consent::Quiz, true),
        flow matches Flow::Reveal(state) ==> asks == (match state {
            Reveal::Page(_) => (Consent::Pages, false),
            Reveal::Recorded(confirm) => (Consent::Question(confirm), true),
        }),
{
    match flow {
        Flow::Reveal(state) => reveal_consent(state),
        Flow::Entry => (Consent::Entry, true),
        Flow::Check(_) => (Consent::Quiz, true),
    }
}

/// What [`flow_consent`] gives.
pub open spec fn flow_asks(flow: Flow) -> (Consent<'static>, bool) {
    match flow {
        Flow::Reveal(state) => reveal_asks(state),
        Flow::Entry => (Consent::Entry, true),
        Flow::Check(_) => (Consent::Quiz, true),
    }
}

/// What to do with a backup that is being typed in.
#[derive(Clone, Copy, PartialEq, Eq, Structural)]
pub enum EntryStep {
    /// Leave the screen as it is.
    Park,
    /// Hand this key to the word that is being typed.
    Key(u8),
    /// End the entry.
    End,
}

impl EntryStep {
    /// The step as text for a log, which never names the key.
    pub fn debug_text(&self) -> (text: String)
        ensures
            text@ == (match *self {
                EntryStep::Park => "Park"@,
                EntryStep::Key(_) => "Key(<press>)"@,
                EntryStep::End => "End"@,
            }),
    {
        match *self {
            EntryStep::Park => "Park".to_owned(),
            EntryStep::Key(_) => "Key(<press>)".to_owned(),
            EntryStep::End => "End".to_owned(),
        }
    }
}

/// What to do with a backup that is being typed in, on one answer of the pad: a
/// keystroke is typed, no press leaves the screen, and everything else ends it.
pub fn entry_step(answer: Answer) -> (step: EntryStep)
    ensures
        answer is Wait <==> step is Park,
        forall|key: u8| answer == Answer::Key(key) <==> step == EntryStep::Key(key),
        !(answer is Wait) && !(answer is Key) <==> step is End,
{
    match answer {
        Answer::Wait => EntryStep::Park,
        Answer::Key(key) => EntryStep::Key(key),
        Answer::Yes | Answer::No | Answer::Next | Answer::Back => EntryStep::End,
    }
}

/// What to do with a quiz.
#[derive(Clone, Copy, PartialEq, Eq, Structural)]
pub enum CheckStep {
    /// Leave the screen as it is.
    Park,
    /// Hand this key to the quiz.
    Key(u8),
    /// End the quiz.
    Done,
}

impl CheckStep {
    /// The step as text for a log, which never names the key.
    pub fn debug_text(&self) -> (text: String)
        ensures
            text@ == (match *self {
                CheckStep::Park => "Park"@,
                CheckStep::Key(_) => "Key(<press>)"@,
                CheckStep::Done => "Done"@,
            }),
    {
        match *self {
            CheckStep::Park => "Park".to_owned(),
            CheckStep::Key(_) => "Key(<press>)".to_owned(),
            CheckStep::Done => "Done".to_owned(),
        }
    }
}

/// What to do with a quiz, on one answer of the pad: a question takes every
/// keystroke, and the screen of a passed quiz is dismissed by any key.
pub fn check_step(state: Check, answer: Answer) -> (step: CheckStep)
    ensures
        answer is Wait <==> step is Park,
        forall|key: u8|
            state is Asking && answer == Answer::Key(key) <==> step == CheckStep::Key(key),
        !(answer is Wait) && !(state is Asking && answer is Key) <==> step is Done,
{
    match (state, answer) {
        (_, Answer::Wait) => CheckStep::Park,
        (Check::Asking, Answer::Key(key)) => CheckStep::Key(key),
        _ => CheckStep::Done,
    }
}

/// The flow that a consent to a prompt opens.
#[derive(Clone, Copy, Debug, PartialEq, Eq, Structural)]
pub enum Grant {
    /// The words of a share may be shown.
    Reveal,
    /// A share may be typed in.
    Entry,
    /// A written backup may be checked.
    Check,
}

/// Which flow a consent to `prompt` opens, if it opens one.
pub fn grants(prompt: &DeviceToUserMessage) -> (grant: Option<Grant>)
    ensures
        grant == granted(*prompt),
        grant == Some(Grant::Reveal) <==> (prompt matches DeviceToUserMessage::Restoration(r)
            && r is DisplayBackup),
        grant == Some(Grant::Entry) <==> (prompt matches DeviceToUserMessage::Restoration(r)
            && r is EnterBackup),
        grant == Some(Grant::Check) <==> (prompt matches DeviceToUserMessage::Restoration(r)
            && r is CheckBackup),
{
    match prompt {
        DeviceToUserMessage::Restoration(restoration) => match restoration {
            ToUserRestoration::DisplayBackup { .. } => Some(Grant::Reveal),
            ToUserRestoration::EnterBackup { .. } => Some(Grant::Entry),
            ToUserRestoration::CheckBackup { .. } => Some(Grant::Check),
            ToUserRestoration::BackupSaved => None,
            ToUserRestoration::ConsolidateBackup { .. } => None,
        },
        _ => None,
    }
}

/// What [`grants`] gives.
pub open spec fn granted(prompt: DeviceToUserMessage) -> Option<Grant> {
    match prompt {
        DeviceToUserMessage::Restoration(ToUserRestoration::DisplayBackup { .. }) => Some(
            Grant::Reveal,
        ),
        DeviceToUserMessage::Restoration(ToUserRestoration::EnterBackup { .. }) => Some(
            Grant::Entry,
        ),
        DeviceToUserMessage::Restoration(ToUserRestoration::CheckBackup { .. }) => Some(
            Grant::Check,
        ),
        _ => None,
    }
}

/// What one scan of the pad does to a backup that is being shown.
pub open spec fn reveal_on(state: Reveal, event: Result<Event, KeypadError>) -> RevealStep {
    let (consent, last) = reveal_asks(state);
    reveal_next(state, meaning(event, consent, last), BACKUP_END)
}

/// No key on a page of a backup acknowledges anything: the two paging keys turn
/// one page, and everything else that the pad can say takes the words away.
pub proof fn a_page_of_a_backup_never_acknowledges(page: usize, event: Result<Event, KeypadError>)
    ensures
        reveal_on(Reveal::Page(page), event) == (if crate::consent::nothing_pressed(event) {
            RevealStep::Park
        } else if pressed(event, NEXT_KEY) {
            RevealStep::Show(page_after(page))
        } else if pressed(event, BACK_KEY) {
            RevealStep::Show(page_before(page))
        } else {
            RevealStep::Show(BACKUP_END)
        }),
{
}

/// The question whether the words were written down is answered by the digit that
/// it prints and by nothing else.
pub proof fn only_its_digit_acknowledges_a_backup(
    confirm: ConfirmDigit,
    event: Result<Event, KeypadError>,
)
    requires
        confirm.key() != NEXT_KEY,
    ensures
        reveal_on(Reveal::Recorded(confirm), event) is Ack <==> pressed(event, confirm.key()),
{
}

/// The page that is reached from page 0 by pressing the key for the next page so
/// many times, each page being drawn on the way.
pub open spec fn pages_on(presses: nat) -> Option<Reveal>
    decreases presses,
{
    if presses == 0 {
        Some(Reveal::Page(0))
    } else {
        match pages_on((presses - 1) as nat) {
            Some(state) => match reveal_on(state, Ok(Event::Down(NEXT_KEY))) {
                RevealStep::Show(page) => if page < BACKUP_END {
                    Some(Reveal::Page(page))
                } else {
                    None
                },
                _ => None,
            },
            None => None,
        }
    }
}

/// Paging on from the first page shows every page, one after the other, and then
/// ends.
pub proof fn paging_on_shows_every_page(presses: nat)
    ensures
        presses < BACKUP_END ==> pages_on(presses) == Some(Reveal::Page(presses as usize)),
        presses >= BACKUP_END ==> pages_on(presses) is None,
    decreases presses,
{
    if presses > 0 {
        paging_on_shows_every_page((presses - 1) as nat);
    }
}

/// The two paging keys undo each other: a page that is not the last number is turned
/// to the next one, and back from there, and a page that is not the first is turned
/// back to the one before it, and on from there.
pub proof fn paging_back_undoes_paging_on(page: usize)
    ensures
        page < usize::MAX ==> reveal_on(Reveal::Page(page), Ok(Event::Down(NEXT_KEY)))
            == RevealStep::Show((page + 1) as usize) && reveal_on(
            Reveal::Page((page + 1) as usize),
            Ok(Event::Down(BACK_KEY)),
        ) == RevealStep::Show(page),
        page > 0 ==> reveal_on(Reveal::Page(page), Ok(Event::Down(BACK_KEY))) == RevealStep::Show(
            (page - 1) as usize,
        ) && reveal_on(Reveal::Page((page - 1) as usize), Ok(Event::Down(NEXT_KEY)))
            == RevealStep::Show(page),
        reveal_on(Reveal::Page(0), Ok(Event::Down(BACK_KEY))) == RevealStep::Show(0),
{
}

/// No flow on the glass can say yes but the question whether the words were
/// written down.
pub proof fn no_other_flow_says_yes(flow: Flow, event: Result<Event, KeypadError>)
    ensures
        meaning(event, flow_asks(flow).0, flow_asks(flow).1) == Answer::Yes ==> flow matches Flow::Reveal(
            Reveal::Recorded(_),
        ),
{
}

} // verus!
