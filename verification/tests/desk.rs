use coldsnap::boot::{hold_reason, Greeting, IdentityFault, Turns};
use coldsnap::consent::ConfirmDigit;
use coldsnap::desk::{quiz_outcome, Checked, Desk, DeskAction, FlowScreen, Offered, Typed};
use coldsnap::fault::{Fault, Refusal};
use coldsnap::flow::{Check, Flow, Grant, Reveal, RevealScreen, BACKUP_END};
use coldsnap::keypad::{
    Event, KeypadError, BACK_KEY, CONFIRM_CHARSET, KEY_CANCEL, NEXT_KEY, QUIZ_KEYS,
};
use coldsnap::messages::{
    BackupDisplayPhase, DeviceToUserMessage, SignPhase1, SignTask, ToUserRestoration,
    TransactionPrompt,
};
use coldsnap::names::{FlashError, StoreFault};
use coldsnap::quiz::{QuizWord, Screen, Step};
use coldsnap::screens::{Drawn, EntryScreen};

const SHOWN: Drawn = Drawn {
    accepted: true,
    rendered: true,
    last: true,
};

const MORE: Drawn = Drawn {
    accepted: true,
    rendered: true,
    last: false,
};

const UNDRAWABLE: Drawn = Drawn {
    accepted: false,
    rendered: false,
    last: false,
};

fn digit(key: u8) -> ConfirmDigit {
    ConfirmDigit::printing(key).unwrap()
}

fn transaction(ticket: u64) -> DeviceToUserMessage {
    DeviceToUserMessage::SignatureRequest {
        phase: SignPhase1 {
            task: SignTask::BitcoinTransaction {
                prompt: Some(TransactionPrompt {
                    foreign_recipients: Vec::new(),
                    fee_sats: 1,
                }),
            },
            ticket,
        },
    }
}

fn ticket_of(prompt: &DeviceToUserMessage) -> u64 {
    match prompt {
        DeviceToUserMessage::SignatureRequest { phase } => phase.ticket,
        other => panic!("{other:?}"),
    }
}

fn told() -> DeviceToUserMessage {
    DeviceToUserMessage::FinalizeKeyGen {
        key_name: String::from("k"),
    }
}

fn backup() -> DeviceToUserMessage {
    DeviceToUserMessage::Restoration(ToUserRestoration::DisplayBackup {
        key_name: String::from("vault"),
        phase: BackupDisplayPhase {
            share_index: Some(1),
            ticket: 77,
        },
    })
}

fn down(key: u8) -> Option<Result<Event, KeypadError>> {
    Some(Ok(Event::Down(key)))
}

fn press(desk: &mut Desk, key: u8) -> DeskAction {
    desk.key(down(key), true, true)
}

/// A desk whose glass shows page `page` of a backup.
fn revealing(page: usize) -> Desk {
    let mut desk = Desk::new(true);
    assert_eq!(
        desk.backup_drawn(page, Ok(true), false, digit(b'1')),
        Some(RevealScreen::Page)
    );
    assert_eq!(desk.glass(), Some(Flow::Reveal(Reveal::Page(page))));
    desk
}

/// A desk whose glass asks whether the words were written down.
fn asking(key: u8) -> Desk {
    let mut desk = Desk::new(true);
    assert_eq!(
        desk.backup_drawn(BACKUP_END, Ok(false), true, digit(key)),
        Some(RevealScreen::Recorded(digit(key)))
    );
    desk
}

fn typing() -> Desk {
    let mut desk = Desk::new(true);
    assert_eq!(
        desk.entry_drawn(Some(EntryScreen::Word), true),
        Some(FlowScreen::Itself)
    );
    assert_eq!(desk.glass(), Some(Flow::Entry));
    desk
}

const QUESTION: Screen = Screen::Word {
    question: QuizWord {
        number: 7,
        asked: 2,
        total: 8,
        retry: false,
    },
    options: ["ABANDON", "ZOO", "ACTUAL"],
};

const PASSED: Screen = Screen::Passed { checked: 8 };

fn quizzing(state: Check) -> Desk {
    let mut desk = Desk::new(true);
    let screen = match state {
        Check::Asking => QUESTION,
        Check::Passed => PASSED,
    };
    assert_eq!(desk.quiz_drawn(Some(screen), true), Some(FlowScreen::Itself));
    assert_eq!(desk.glass(), Some(Flow::Check(state)));
    desk
}

#[test]
fn the_only_consent_call_passes_the_page_that_was_drawn() {
    let mut desk = Desk::new(true);
    assert_eq!(
        desk.draw_prompt(transaction(5), digit(b'4'), 0, MORE),
        Some(false)
    );
    // The digit is not on this page, and pressing it refuses.
    assert!(matches!(press(&mut desk, b'4'), DeskAction::Refuse));
    assert!(desk.parked().is_none());

    desk.draw_prompt(transaction(5), digit(b'4'), 0, MORE);
    match press(&mut desk, NEXT_KEY) {
        DeskAction::TurnPage {
            prompt,
            confirm,
            page,
        } => {
            assert_eq!(page, 1);
            assert_eq!(confirm, digit(b'4'), "the digit stays the same");
            assert!(desk.parked().is_none(), "nothing waits until it is drawn");
            assert_eq!(desk.draw_prompt(prompt, confirm, page, SHOWN), Some(true));
        }
        other => panic!("{other:?}"),
    }
    match press(&mut desk, b'4') {
        DeskAction::Confirm {
            prompt,
            page,
            grant,
        } => {
            assert_eq!(ticket_of(&prompt), 5);
            assert_eq!(page, 1, "the page that was on the glass");
            assert_eq!(grant, None);
        }
        other => panic!("{other:?}"),
    }
    assert!(desk.parked().is_none(), "one yes is acted on once");
}

#[test]
fn a_reveal_begins_on_the_share_index_page() {
    let mut desk = Desk::new(true);
    desk.draw_prompt(backup(), digit(b'2'), 0, SHOWN);
    let grant = match press(&mut desk, b'2') {
        DeskAction::Confirm { page, grant, .. } => {
            assert_eq!(page, 0);
            grant
        }
        other => panic!("{other:?}"),
    };
    assert_eq!(grant, Some(Grant::Reveal));
    assert!(matches!(
        desk.confirmed(grant, Ok(Vec::new())),
        DeskAction::ShowBackup(0)
    ));
    assert!(matches!(
        desk.confirmed(Some(Grant::Entry), Ok(Vec::new())),
        DeskAction::ShowEntry
    ));
    assert!(matches!(
        desk.confirmed(Some(Grant::Check), Ok(Vec::new())),
        DeskAction::ShowQuiz
    ));
    assert!(matches!(
        desk.confirmed(None, Ok(vec![told()])),
        DeskAction::DrawPrompts(prompts) if prompts.len() == 1
    ));
    assert!(matches!(
        desk.confirmed(Some(Grant::Reveal), Err(Fault::NotConfirmable)),
        DeskAction::Refuse
    ));
}

#[test]
fn every_exit_from_the_reveal_takes_the_words_off_the_glass() {
    for key in 0..=u8::MAX {
        let mut desk = revealing(3);
        match press(&mut desk, key) {
            DeskAction::ShowBackup(page) => {
                let want = if key == NEXT_KEY {
                    4
                } else if key == BACK_KEY {
                    2
                } else {
                    BACKUP_END
                };
                assert_eq!(page, want);
            }
            other => panic!("{other:?}"),
        }
        assert_eq!(desk.glass(), None, "no flow waits until its page is drawn");
    }
    // Nothing pressed leaves the same page up.
    let mut desk = revealing(3);
    assert!(matches!(
        desk.key(Some(Ok(Event::AllUp)), true, true),
        DeskAction::Nothing
    ));
    assert_eq!(desk.glass(), Some(Flow::Reveal(Reveal::Page(3))));
    // A pad that is not there ends it.
    assert!(matches!(
        desk.key(None, true, true),
        DeskAction::ShowBackup(page) if page == BACKUP_END
    ));
    // The endings draw something else, and end the flow.
    assert_eq!(
        desk.backup_drawn(BACKUP_END, Ok(false), false, digit(b'1')),
        Some(RevealScreen::Idle)
    );
    assert_eq!(desk.glass(), None);
    let mut desk = revealing(3);
    assert_eq!(
        desk.backup_drawn(4, Err(()), true, digit(b'1')),
        Some(RevealScreen::Refuse)
    );
    assert_eq!(desk.glass(), None);
    // So does anything that takes the glass.
    let mut desk = revealing(3);
    assert!(matches!(
        desk.received(Err(Fault::Refused(Refusal::DataErase))),
        DeskAction::Refuse
    ));
    assert_eq!(desk.glass(), None);
    let mut desk = revealing(3);
    desk.draw_prompt(transaction(1), digit(b'1'), 0, UNDRAWABLE);
    assert_eq!(desk.glass(), None, "a refusal is on the glass");
    assert!(desk.parked().is_none());
    let mut desk = revealing(3);
    desk.draw_prompt(transaction(1), digit(b'1'), 0, SHOWN);
    assert_eq!(desk.glass(), None, "the prompt is on the glass");
    assert!(desk.parked().is_some());
    // A message without a screen does not.
    let mut desk = revealing(3);
    assert_eq!(desk.draw_prompt(told(), digit(b'1'), 0, SHOWN), None);
    assert_eq!(desk.glass(), Some(Flow::Reveal(Reveal::Page(3))));
}

#[test]
fn the_recorded_ack_is_sent_from_one_place_and_only_on_the_digit() {
    for rendered in CONFIRM_CHARSET {
        for key in 0..=u8::MAX {
            let mut desk = asking(rendered);
            let action = press(&mut desk, key);
            if key == rendered {
                assert!(matches!(action, DeskAction::AckBackup));
                assert_eq!(desk.glass(), None);
            } else if key == NEXT_KEY {
                assert!(matches!(action, DeskAction::Nothing));
                assert_eq!(
                    desk.glass(),
                    Some(Flow::Reveal(Reveal::Recorded(digit(rendered))))
                );
            } else {
                assert!(matches!(action, DeskAction::Idle));
                assert_eq!(desk.glass(), None);
            }
        }
        // A refusal over the question takes its digit with it.
        let mut desk = asking(rendered);
        desk.received(Err(Fault::Store(StoreFault::Flash(FlashError::Other))));
        assert!(matches!(press(&mut desk, rendered), DeskAction::Nothing));
    }
}

#[test]
fn a_parked_prompt_is_serviced_once_per_iteration_and_never_in_a_loop() {
    let mut desk = Desk::new(true);
    desk.draw_prompt(transaction(9), digit(b'3'), 0, SHOWN);
    assert!(matches!(
        desk.key(Some(Ok(Event::Unsettled)), true, true),
        DeskAction::Nothing
    ));
    assert_eq!(ticket_of(&desk.parked().unwrap().prompt), 9);
    match press(&mut desk, b'3') {
        DeskAction::Confirm { prompt, .. } => assert_eq!(ticket_of(&prompt), 9),
        other => panic!("{other:?}"),
    }
    // One press is used once.
    assert!(matches!(press(&mut desk, b'3'), DeskAction::Nothing));
    // The screen of a flow takes the glass, and the prompt with it.
    desk.draw_prompt(transaction(9), digit(b'3'), 0, SHOWN);
    desk.backup_drawn(2, Ok(true), false, digit(b'1'));
    assert!(desk.parked().is_none());
    assert_eq!(desk.glass(), Some(Flow::Reveal(Reveal::Page(2))));
    // Nothing waits: nothing is read.
    let mut desk = Desk::new(true);
    assert!(matches!(press(&mut desk, b'3'), DeskAction::Nothing));
}

#[test]
fn a_prompt_that_was_covered_cannot_be_answered() {
    let parked = || {
        let mut desk = Desk::new(true);
        assert_eq!(
            desk.draw_prompt(transaction(9), digit(b'3'), 0, SHOWN),
            Some(true)
        );
        desk
    };
    // A refused message, one that could not be kept, and a prompt that could not be
    // drawn all put a refusal on the glass.
    let mut refused = parked();
    refused.received(Err(Fault::Refused(Refusal::DataErase)));
    let mut unkept = parked();
    unkept.received(Err(Fault::Store(StoreFault::Flash(FlashError::Other))));
    let mut undrawable = parked();
    assert_eq!(
        undrawable.draw_prompt(transaction(10), digit(b'4'), 0, UNDRAWABLE),
        None
    );
    let mut faulted = parked();
    faulted.confirmed(None, Err(Fault::NotConfirmable));
    // The screens of the flows take the glass too, drawn or not.
    let mut entry = parked();
    entry.entry_drawn(None, false);
    let mut quiz = parked();
    quiz.quiz_drawn(Some(QUESTION), false);
    let mut backup = parked();
    backup.backup_drawn(0, Err(()), false, digit(b'1'));
    let mut ended = parked();
    ended.typed(Ok(Typed::Ended(Vec::new())));
    let mut given_up = parked();
    given_up.checked(Ok(Checked::Ended { checked: None }));
    for mut desk in [
        refused, unkept, undrawable, faulted, entry, quiz, backup, ended, given_up,
    ] {
        assert!(desk.parked().is_none());
        for key in CONFIRM_CHARSET {
            assert!(matches!(press(&mut desk, key), DeskAction::Nothing));
        }
    }
    // What has no screen and what is not shown leaves the prompt on the glass.
    let mut desk = parked();
    desk.draw_prompt(told(), digit(b'1'), 0, SHOWN);
    desk.received(Err(Fault::NotConfirmable));
    desk.received(Ok(Vec::new()));
    assert!(matches!(press(&mut desk, b'3'), DeskAction::Confirm { .. }));
    // A prompt drawn over another is the one that is answered.
    let mut desk = parked();
    desk.draw_prompt(transaction(11), digit(b'2'), 0, SHOWN);
    match press(&mut desk, b'2') {
        DeskAction::Confirm { prompt, .. } => assert_eq!(ticket_of(&prompt), 11),
        other => panic!("{other:?}"),
    }
}

#[test]
fn the_last_prompt_of_a_batch_that_took_the_glass_waits() {
    let offered = |ticket, key, drawn| Offered {
        prompt: transaction(ticket),
        confirm: digit(key),
        drawn,
    };
    let mut desk = Desk::new(true);
    desk.draw_batch(vec![
        offered(1, b'1', SHOWN),
        offered(3, b'3', UNDRAWABLE),
        offered(2, b'2', MORE),
        Offered {
            prompt: told(),
            confirm: digit(b'4'),
            drawn: SHOWN,
        },
    ]);
    let parked = desk.parked().expect("one of them waits");
    assert_eq!(ticket_of(&parked.prompt), 2);
    assert_eq!(parked.confirm, digit(b'2'));
    assert_eq!(parked.page, 0);
    assert!(!parked.last);
    // A batch without a screen leaves the one that waits.
    desk.draw_batch(vec![Offered {
        prompt: told(),
        confirm: digit(b'4'),
        drawn: SHOWN,
    }]);
    assert_eq!(ticket_of(&desk.parked().unwrap().prompt), 2);
    desk.draw_batch(Vec::new());
    assert_eq!(ticket_of(&desk.parked().unwrap().prompt), 2);
    // A refusal that took the glass last leaves nothing to answer.
    desk.draw_batch(vec![
        offered(4, b'1', SHOWN),
        offered(5, b'3', UNDRAWABLE),
        Offered {
            prompt: told(),
            confirm: digit(b'4'),
            drawn: SHOWN,
        },
    ]);
    assert!(desk.parked().is_none());
    assert_eq!(desk.glass(), None);
}

#[test]
fn a_page_that_cannot_be_drawn_drops_the_prompt() {
    let mut desk = Desk::new(true);
    desk.draw_prompt(transaction(1), digit(b'1'), usize::MAX, MORE);
    match press(&mut desk, NEXT_KEY) {
        DeskAction::TurnPage {
            prompt,
            confirm,
            page,
        } => {
            assert_eq!(page, usize::MAX, "the page number does not wrap");
            assert_eq!(
                desk.draw_prompt(
                    prompt,
                    confirm,
                    page,
                    Drawn {
                        rendered: false,
                        ..SHOWN
                    }
                ),
                None
            );
        }
        other => panic!("{other:?}"),
    }
    assert!(desk.parked().is_none());
}

#[test]
fn a_keystroke_or_a_fault_on_a_prompt_is_a_refusal() {
    for scan in [
        None,
        Some(Err(KeypadError::NotOnThisTarget)),
        Some(Ok(Event::MultiKey)),
        down(b'7'),
        down(KEY_CANCEL),
        down(b'1'),
    ] {
        let mut desk = Desk::new(true);
        desk.draw_prompt(transaction(1), digit(b'2'), 0, SHOWN);
        assert!(matches!(desk.key(scan, true, true), DeskAction::Refuse));
        assert!(desk.parked().is_none());
        assert_eq!(desk.glass(), None);
    }
}

#[test]
fn every_exit_from_the_entry_takes_the_words_off_the_glass() {
    for key in 0..=u8::MAX {
        let mut desk = typing();
        assert!(matches!(press(&mut desk, key), DeskAction::TypeKey(k) if k == key));
        assert_eq!(desk.glass(), None);
        assert!(matches!(
            desk.typed(Ok(Typed::Unchanged)),
            DeskAction::Nothing
        ));
        assert_eq!(desk.glass(), Some(Flow::Entry), "the same screen is still up");
    }
    let mut desk = typing();
    press(&mut desk, b'1');
    assert!(matches!(
        desk.typed(Ok(Typed::Redraw)),
        DeskAction::ShowEntry
    ));
    assert_eq!(desk.entry_drawn(None, true), Some(FlowScreen::Idle));
    assert_eq!(desk.glass(), None);
    assert_eq!(
        desk.entry_drawn(Some(EntryScreen::Word), false),
        Some(FlowScreen::Refuse)
    );
    assert_eq!(desk.glass(), None);
    assert_eq!(
        desk.entry_drawn(Some(EntryScreen::Failed), false),
        Some(FlowScreen::Itself)
    );
    press(&mut desk, b'1');
    assert!(matches!(
        desk.typed(Ok(Typed::Ended(vec![told()]))),
        DeskAction::Rest(prompts) if prompts.len() == 1
    ));
    assert_eq!(desk.glass(), None);
    let mut desk = typing();
    press(&mut desk, b'1');
    assert!(matches!(
        desk.typed(Err(Fault::NotConfirmable)),
        DeskAction::Refuse
    ));
    assert_eq!(desk.glass(), None);
    // A pad fault ends it, and so does an entry that is gone, key or no key.
    let mut desk = typing();
    assert!(matches!(
        desk.key(Some(Ok(Event::MultiKey)), true, true),
        DeskAction::Idle
    ));
    assert_eq!(desk.glass(), None);
    for scan in [Some(Ok(Event::AllUp)), down(b'1')] {
        let mut desk = typing();
        assert!(matches!(desk.key(scan, false, true), DeskAction::Idle));
        assert_eq!(desk.glass(), None);
    }
    let mut desk = typing();
    assert!(matches!(
        desk.key(Some(Ok(Event::AllUp)), true, false),
        DeskAction::Nothing
    ));
    assert_eq!(desk.glass(), Some(Flow::Entry));
}

#[test]
fn every_exit_from_the_quiz_takes_the_candidates_off_the_glass() {
    for key in QUIZ_KEYS.iter().copied().chain([KEY_CANCEL, NEXT_KEY]) {
        let mut desk = quizzing(Check::Asking);
        assert!(matches!(press(&mut desk, key), DeskAction::AnswerQuiz(k) if k == key));
        assert_eq!(desk.glass(), None);
        assert!(matches!(
            desk.checked(Ok(Checked::Unchanged)),
            DeskAction::Nothing
        ));
        assert_eq!(desk.glass(), Some(Flow::Check(Check::Asking)));
    }
    let mut desk = quizzing(Check::Asking);
    press(&mut desk, b'1');
    assert!(matches!(
        desk.checked(Ok(Checked::Redraw)),
        DeskAction::ShowQuiz
    ));
    assert!(matches!(
        desk.checked(Ok(Checked::Ended { checked: Some(8) })),
        DeskAction::ShowPassed(8)
    ));
    assert_eq!(
        desk.quiz_drawn(Some(PASSED), true),
        Some(FlowScreen::Itself)
    );
    // The passed screen stays without a quiz behind it, and any key dismisses it.
    assert!(matches!(
        desk.key(Some(Ok(Event::AllUp)), false, false),
        DeskAction::Nothing
    ));
    assert_eq!(desk.glass(), Some(Flow::Check(Check::Passed)));
    assert!(matches!(press(&mut desk, b'1'), DeskAction::Idle));
    assert_eq!(desk.glass(), None);

    let mut desk = quizzing(Check::Asking);
    press(&mut desk, KEY_CANCEL);
    assert!(matches!(
        desk.checked(Ok(Checked::Ended { checked: None })),
        DeskAction::Idle
    ));
    assert_eq!(desk.glass(), None);
    let mut desk = quizzing(Check::Asking);
    press(&mut desk, b'1');
    assert!(matches!(
        desk.checked(Err(Fault::NotConfirmable)),
        DeskAction::Refuse
    ));
    assert_eq!(desk.glass(), None);
    // A quiz that is gone ends at the next reading of the pad.
    let mut desk = quizzing(Check::Asking);
    assert!(matches!(
        desk.key(Some(Ok(Event::AllUp)), true, false),
        DeskAction::Idle
    ));
    assert_eq!(desk.glass(), None);
    assert_eq!(desk.quiz_drawn(None, true), Some(FlowScreen::Idle));
    assert_eq!(
        desk.quiz_drawn(Some(QUESTION), false),
        Some(FlowScreen::Refuse)
    );
    assert_eq!(desk.glass(), None);
}

#[test]
fn a_device_without_a_panel_has_nothing_to_confirm() {
    let mut desk = Desk::new(false);
    assert!(matches!(
        desk.received(Ok(vec![transaction(1)])),
        DeskAction::Nothing
    ));
    assert_eq!(
        desk.draw_prompt(transaction(1), digit(b'1'), 0, SHOWN),
        None
    );
    desk.draw_batch(vec![Offered {
        prompt: transaction(1),
        confirm: digit(b'1'),
        drawn: SHOWN,
    }]);
    assert_eq!(desk.backup_drawn(0, Ok(true), false, digit(b'1')), None);
    assert_eq!(desk.entry_drawn(Some(EntryScreen::Word), true), None);
    assert_eq!(desk.quiz_drawn(Some(QUESTION), true), None);
    assert!(matches!(
        desk.confirmed(Some(Grant::Reveal), Ok(Vec::new())),
        DeskAction::Nothing
    ));
    assert!(desk.parked().is_none());
    assert_eq!(desk.glass(), None);
    assert!(matches!(press(&mut desk, b'1'), DeskAction::Nothing));
}

#[test]
fn only_a_refusal_and_a_store_fault_are_shown() {
    for (fault, shown) in [
        (Fault::Refused(Refusal::GroupTooLarge), true),
        (Fault::Store(StoreFault::NotOneKeygen), true),
        (Fault::Signer(String::from("e")), false),
        (Fault::Action(String::from("e")), false),
        (Fault::NotConfirmable, false),
        (Fault::IdentityScalar, false),
    ] {
        let mut desk = revealing(1);
        let action = desk.received(Err(fault));
        assert_eq!(matches!(action, DeskAction::Refuse), shown);
        assert_eq!(matches!(action, DeskAction::Nothing), !shown);
        assert_eq!(desk.glass().is_none(), shown);
    }
    let mut desk = revealing(1);
    assert!(matches!(
        desk.received(Ok(vec![told(), told()])),
        DeskAction::DrawPrompts(prompts) if prompts.len() == 2
    ));
    assert!(desk.glass().is_some());
}

#[test]
fn the_panic_counter_clear_stays_behind_both_of_its_conditions() {
    for handled in [false, true] {
        for looping in [false, true] {
            let mut turns = Turns::new();
            assert_eq!(turns.finished(handled, looping), handled && !looping);
            // Once is enough.
            assert_eq!(turns.finished(true, false), !(handled && !looping));
            assert!(!turns.finished(true, false));
            assert!(!turns.finished(true, true));
        }
    }
}

#[test]
fn a_device_announces_itself_on_the_edge() {
    let mut turns = Turns::new();
    for (was_linked, linked) in [(false, true), (true, true), (true, false), (false, false)] {
        assert_eq!(
            turns.polled(false, true, was_linked, linked),
            Some(Greeting {
                reply: false,
                announce: !was_linked && linked
            })
        );
    }
}

#[test]
fn magic_bytes_are_answered_once_and_not_forgotten_by_a_failed_poll() {
    let mut turns = Turns::new();
    assert_eq!(turns.polled(true, false, false, true), None);
    assert_eq!(turns.polled(false, false, false, true), None);
    let greeting = turns.polled(false, true, true, true).unwrap();
    assert!(greeting.reply && !greeting.announce);
    let greeting = turns.polled(false, true, true, true).unwrap();
    assert!(!greeting.reply);
    let greeting = turns.polled(true, true, false, true).unwrap();
    assert!(greeting.reply && greeting.announce);
}

#[test]
fn a_device_without_an_identity_says_why() {
    assert_eq!(hold_reason(IdentityFault::Damaged), "damaged record");
    assert_eq!(hold_reason(IdentityFault::Flash), "flash refused");
    assert_eq!(hold_reason(IdentityFault::VerifyFailed), "write unverified");
    assert_eq!(hold_reason(IdentityFault::NoScalar), "no valid scalar");
}

#[test]
fn a_quiz_reports_only_that_it_was_passed() {
    assert_eq!(quiz_outcome(Step::Unchanged), Checked::Unchanged);
    assert_eq!(quiz_outcome(Step::Redraw), Checked::Redraw);
    assert_eq!(quiz_outcome(Step::Abort), Checked::Ended { checked: None });
    assert_eq!(
        quiz_outcome(Step::Passed),
        Checked::Ended { checked: Some(8) }
    );
}
