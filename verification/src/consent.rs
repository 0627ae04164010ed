//! What a keypress means on the screen that is up.
//!
//! Nothing but the digit that a screen printed, pressed while the last page of
//! that screen is up, says yes. A pad that cannot be read refuses.

use vstd::prelude::*;
use crate::keypad::{Event, KeypadError, BACK_KEY, CONFIRM_CHARSET, NEXT_KEY};
use crate::messages::DeviceToUserMessage;

verus! {

/// The digit one consent screen printed, and the only key that says yes to it.
#[derive(Clone, Copy, Debug, PartialEq, Eq, Structural)]
pub struct ConfirmDigit {
    digit: u8,
}

impl ConfirmDigit {
    /// The key that this digit is on.
    pub closed spec fn key(self) -> u8 {
        self.digit
    }

    /// Every digit is one that a consent screen may print.
    #[verifier::type_invariant]
    pub closed spec fn wf(self) -> bool {
        CONFIRM_CHARSET@.contains(self.digit)
    }

    /// The digit for a key that a consent screen may print, and `None` for every
    /// other byte.
    pub fn printing(digit: u8) -> (made: Option<ConfirmDigit>)
        ensures
            made is Some <==> CONFIRM_CHARSET@.contains(digit),
            made matches Some(d) ==> d.key() == digit,
    {
        let mut i: usize = 0;
        while i < CONFIRM_CHARSET.len()
            invariant
                i <= 5,
                forall|j: int| 0 <= j < i ==> CONFIRM_CHARSET@[j] != digit,
            decreases 5 - i,
        {
            if CONFIRM_CHARSET[i] == digit {
                assert(CONFIRM_CHARSET@[i as int] == digit);
                return Some(ConfirmDigit { digit });
            }
            i += 1;
        }
        None
    }

    /// Whether `key` is the key that the screen asked for.
    pub fn accepts(&self, key: u8) -> (yes: bool)
        ensures
            yes == (key == self.key()),
    {
        self.digit == key
    }

    /// The digit as the one-character text that the screen prints.
    pub fn as_str(&self) -> (legend: &'static str)
        ensures
            legend@ == seq![self.key() as char],
    {
        proof {
            use_type_invariant(self);
            reveal_strlit("1");
            reveal_strlit("2");
            reveal_strlit("3");
            reveal_strlit("4");
            reveal_strlit("6");
        }
        if self.digit == 0x31 {
            "1"
        } else if self.digit == 0x32 {
            "2"
        } else if self.digit == 0x33 {
            "3"
        } else if self.digit == 0x34 {
            "4"
        } else {
            "6"
        }
    }
}

/// What the pad said, read against the screen that is up.
#[derive(Clone, Copy, PartialEq, Eq, Structural)]
pub enum Answer {
    /// Nothing was pressed. The screen stays as it is.
    Wait,
    /// Turn to the next page.
    Next,
    /// Turn to the page before.
    Back,
    /// The person pressed the digit that the screen printed.
    Yes,
    /// Anything else, and every fault of the pad.
    No,
    /// A key of a screen that takes keystrokes.
    Key(u8),
}

impl Answer {
    /// The answer as text for a log. A keystroke is part of a share that somebody
    /// types in, so the text never names the key.
    pub fn debug_text(&self) -> (text: String)
        ensures
            text@ == (match *self {
                Answer::Wait => "Wait"@,
                Answer::Next => "Next"@,
                Answer::Back => "Back"@,
                Answer::Yes => "Yes"@,
                Answer::No => "No"@,
                Answer::Key(_) => "Key(<press>)"@,
            }),
    {
        match *self {
            Answer::Wait => "Wait".to_owned(),
            Answer::Next => "Next".to_owned(),
            Answer::Back => "Back".to_owned(),
            Answer::Yes => "Yes".to_owned(),
            Answer::No => "No".to_owned(),
            Answer::Key(_) => "Key(<press>)".to_owned(),
        }
    }
}

/// What the screen that is up asks of the pad.
#[derive(Clone, Copy)]
pub enum Consent<'a> {
    /// A request of the coordinator, and the digit that its last page prints.
    Prompt(&'a DeviceToUserMessage, ConfirmDigit),
    /// A question of the device itself, and the digit that it prints.
    Question(ConfirmDigit),
    /// Pages to read, with no digit on any of them.
    Pages,
    /// A share that is being typed in.
    Entry,
    /// A quiz on a written backup.
    Quiz,
}

impl<'a> Consent<'a> {
    /// The digit that the screen prints, if it prints one.
    pub open spec fn digit(self) -> Option<u8> {
        match self {
            Consent::Prompt(_, confirm) => Some(confirm.key()),
            Consent::Question(confirm) => Some(confirm.key()),
            _ => None,
        }
    }

    /// Whether the screen takes every key as a keystroke.
    pub open spec fn takes_keystrokes(self) -> bool {
        self is Entry || self is Quiz
    }
}

/// Whether the scan saw exactly the key `key` go down.
pub open spec fn pressed(event: Result<Event, KeypadError>, key: u8) -> bool {
    event == Ok::<Event, KeypadError>(Event::Down(key))
}

/// Whether the scan saw nothing that could be an answer yet.
pub open spec fn nothing_pressed(event: Result<Event, KeypadError>) -> bool {
    event == Ok::<Event, KeypadError>(Event::AllUp)
        || event == Ok::<Event, KeypadError>(Event::Unsettled)
}

/// What one scan of the pad means on the screen that is up, where `last` says
/// that the page on the glass is the last of its screen.
pub open spec fn meaning(event: Result<Event, KeypadError>, consent: Consent, last: bool) -> Answer {
    if nothing_pressed(event) {
        Answer::Wait
    } else {
        match event {
            Ok(Event::Down(key)) => if consent.takes_keystrokes() {
                Answer::Key(key)
            } else if key == NEXT_KEY {
                if last { Answer::Wait } else { Answer::Next }
            } else if key == BACK_KEY && consent is Pages {
                Answer::Back
            } else if last && consent.digit() == Some(key) {
                Answer::Yes
            } else {
                Answer::No
            },
            _ => Answer::No,
        }
    }
}

/// Reads one scan of the pad against the screen that is up.
///
/// `last` says that the page on the glass is the last of its screen: only that
/// page prints the digit, so only there can it be pressed.
pub fn answer(event: Result<Event, KeypadError>, consent: Consent, last: bool) -> (said: Answer)
    ensures
        said == meaning(event, consent, last),
        said == Answer::Yes <==> last && exists|key: u8|
            #[trigger] pressed(event, key) && consent.digit() == Some(key),
        said == Answer::Next <==> pressed(event, NEXT_KEY) && !last && !consent.takes_keystrokes(),
        said == Answer::Back <==> pressed(event, BACK_KEY) && consent is Pages,
        forall|key: u8|
            said == Answer::Key(key) <==> (consent is Entry || consent is Quiz) && event == Ok::<
                Event,
                KeypadError,
            >(Event::Down(key)),
        forall|key: u8|
            event == Ok::<Event, KeypadError>(Event::Down(key)) && said == Answer::Yes ==> last && (
            match consent {
                Consent::Prompt(_, confirm) => key == confirm.key(),
                Consent::Question(confirm) => key == confirm.key(),
                _ => false,
            }),
        said is Key <==> consent.takes_keystrokes() && event matches Ok(Event::Down(_)),
        said is Wait <==> nothing_pressed(event) || (pressed(event, NEXT_KEY) && last
            && !consent.takes_keystrokes()),
{
    let key: u8 = match event {
        Ok(Event::AllUp) | Ok(Event::Unsettled) => return Answer::Wait,
        Ok(Event::MultiKey) | Err(_) => return Answer::No,
        Ok(Event::Down(key)) => key,
    };
    proof {
        assert(pressed(event, key));
    }
    match consent {
        Consent::Entry | Consent::Quiz => Answer::Key(key),
        Consent::Pages => if key == NEXT_KEY {
            if last { Answer::Wait } else { Answer::Next }
        } else if key == BACK_KEY {
            Answer::Back
        } else {
            Answer::No
        },
        Consent::Question(confirm) | Consent::Prompt(_, confirm) => {
            proof {
                use_type_invariant(&confirm);
            }
            if key == NEXT_KEY {
                if last { Answer::Wait } else { Answer::Next }
            } else if last && confirm.accepts(key) {
                Answer::Yes
            } else {
                Answer::No
            }
        },
    }
}

/// Reads the pad against the screen that is up. A pad that never opened gives no
/// scan at all, and refuses.
pub fn ask(scan: Option<Result<Event, KeypadError>>, consent: Consent, last: bool) -> (said: Answer)
    ensures
        scan is None ==> said == Answer::No,
        scan matches Some(event) ==> said == meaning(event, consent, last),
{
    match scan {
        None => Answer::No,
        Some(event) => answer(event, consent, last),
    }
}

/// A page that is not the last of its screen cannot be confirmed, whatever is
/// pressed on it.
pub proof fn only_the_last_page_confirms(event: Result<Event, KeypadError>, consent: Consent)
    ensures
        meaning(event, consent, false) != Answer::Yes,
{
}

/// A screen confirms on one key and on no other: two scans that both say yes to
/// the same screen saw the same key.
pub proof fn one_key_confirms(
    first: Result<Event, KeypadError>,
    second: Result<Event, KeypadError>,
    consent: Consent,
    last: bool,
)
    requires
        meaning(first, consent, last) == Answer::Yes,
        meaning(second, consent, last) == Answer::Yes,
    ensures
        first == second,
{
}

/// Every prompt is answered by the same rule: what the prompt says has no part
/// in what a key means on it.
pub proof fn every_prompt_is_answered_alike(
    event: Result<Event, KeypadError>,
    one: &DeviceToUserMessage,
    other: &DeviceToUserMessage,
    confirm: ConfirmDigit,
    last: bool,
)
    ensures
        meaning(event, Consent::Prompt(one, confirm), last) == meaning(
            event,
            Consent::Prompt(other, confirm),
            last,
        ),
{
}

/// A screen that prints no digit confirms nothing, and a screen that prints one
/// takes no keystroke.
pub proof fn keystrokes_and_digits_never_meet(
    event: Result<Event, KeypadError>,
    consent: Consent,
    last: bool,
)
    ensures
        consent.digit() is None ==> meaning(event, consent, last) != Answer::Yes,
        consent.digit() is Some ==> !(meaning(event, consent, last) is Key),
{
}

/// A pad that reports a fault or more than one key refuses on every screen.
pub proof fn an_unreadable_pad_refuses(
    event: Result<Event, KeypadError>,
    consent: Consent,
    last: bool,
)
    requires
        event is Err || event == Ok::<Event, KeypadError>(Event::MultiKey),
    ensures
        meaning(event, consent, last) == Answer::No,
{
}

} // verus!
