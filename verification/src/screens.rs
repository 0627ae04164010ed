//! Which screen a prompt gets, and whether what was drawn lets a person answer
//! it.
//!
//! A prompt that cannot be shown in full is refused whole: nobody can consent to
//! what was not shown.

use vstd::prelude::*;
use vstd::string::*;
use crate::consent::ConfirmDigit;
use crate::fault::{Fault, Refusal};
use crate::messages::{
    DeviceToUserMessage, KeyGenPhase3, Recipient, SignPhase1, SignTask, ToUserRestoration,
    TransactionPrompt,
};
use crate::text::{decimal, decimal_of};

verus! {

/// How many rows of text the panel shows.
pub const ROWS: usize = 8;

/// How many characters of a row the panel shows.
pub const COLS: usize = 16;

/// One row of text. The panel shows its first [`COLS`] characters.
#[derive(Clone, Debug, PartialEq, Eq)]
pub struct TextRow {
    /// Which row, counted from the top.
    pub row: usize,
    /// The text.
    pub text: String,
}

/// Whether a row of text is this one.
pub open spec fn is_row(row: TextRow, at: int, text: Seq<char>) -> bool {
    row.row == at && row.text@ == text
}

/// A row that shows a fixed text.
fn fixed_row(row: usize, text: &'static str) -> (made: TextRow)
    ensures
        is_row(made, row as int, text@),
        made.row == row,
        made.text@ == text@,
{
    TextRow { row, text: text.to_owned() }
}

/// Whether these are the rows that ask for consent to show a share: what is
/// asked for, and the digit that grants it, and no word of the share.
pub open spec fn asks_to_reveal(
    rows: Seq<TextRow>,
    key_name: Seq<char>,
    share_index: u32,
    confirm: ConfirmDigit,
) -> bool {
    &&& rows.len() == 5
    &&& is_row(rows[0], 0, "Reveal backup?"@)
    &&& is_row(rows[1], 2, key_name)
    &&& is_row(rows[2], 4, "share #"@ + decimal_of(share_index as nat))
    &&& is_row(rows[3], 6, "SECRET on glass"@)
    &&& is_row(rows[4], 7, "Press ("@ + seq![confirm.key() as char] + ") x=no"@)
}

/// The screen that asks for consent to show a share.
fn backup_consent(key_name: &String, share_index: u32, confirm: ConfirmDigit) -> (rows: Vec<TextRow>)
    ensures
        asks_to_reveal(rows@, key_name@, share_index, confirm),
{
    let mut what = "share #".to_owned();
    what.append(decimal(share_index as u64).as_str());
    let mut legend = "Press (".to_owned();
    legend.append(confirm.as_str());
    legend.append(") x=no");
    let mut rows: Vec<TextRow> = Vec::new();
    rows.push(fixed_row(0, "Reveal backup?"));
    rows.push(TextRow { row: 2, text: key_name.clone() });
    rows.push(TextRow { row: 4, text: what });
    rows.push(fixed_row(6, "SECRET on glass"));
    rows.push(TextRow { row: 7, text: legend });
    rows
}

/// What one look at the glass shows.
#[derive(Clone, Copy, Debug, PartialEq, Eq, Structural)]
pub enum Shown {
    /// The prompt has no screen, and the glass is as it was.
    Nothing,
    /// A page is on the glass in full.
    Page {
        /// Whether it is the last of its screen, the one that prints the digit.
        last: bool,
    },
}

/// What the renderer said of the screen that it was handed. Where a screen cannot
/// fail, or was not handed over, none of it is read.
#[derive(Clone, Copy, Debug, PartialEq, Eq, Structural)]
pub struct Drawn {
    /// Whether the renderer takes the contents at all.
    pub accepted: bool,
    /// Whether the page that was asked for was drawn.
    pub rendered: bool,
    /// Whether that page is the last of its screen.
    pub last: bool,
}

/// The screen to hand to the renderer.
pub enum Layout<'a> {
    /// No screen: the glass stays as it is.
    Nothing,
    /// No screen can be drawn: the glass shows a refusal.
    Refuse(Refusal),
    /// Does every device show this code?
    KeygenCheck {
        /// How many devices must sign.
        threshold: u16,
        /// How many devices there are.
        parties: u16,
        /// The first bytes of the session hash.
        code: [u8; 4],
        /// The name of the key.
        key_name: &'a String,
        /// The digit that says yes.
        confirm: ConfirmDigit,
    },
    /// May this text be signed?
    TestMessage {
        /// The text.
        message: &'a String,
        /// The digit that says yes.
        confirm: ConfirmDigit,
    },
    /// May this transaction be signed? One page of it.
    SignPages {
        /// Everybody who is paid, in the transaction's order.
        recipients: &'a Vec<Recipient>,
        /// The fee in satoshi.
        fee_sats: u64,
        /// The digit that says yes, printed on the last page.
        confirm: ConfirmDigit,
        /// The page.
        page: usize,
    },
    /// Plain rows of text.
    Rows(Vec<TextRow>),
}

/// What can be shown of a signing task: the transaction's prompt, nothing for a
/// text, and a refusal for what has no screen or does not fit it.
pub open spec fn displayable(task: SignTask, accepted: bool) -> Result<
    Option<TransactionPrompt>,
    Refusal,
> {
    match task {
        SignTask::Test { .. } => Ok(None),
        SignTask::Nostr => Err(Refusal::Undisplayable),
        SignTask::BitcoinTransaction { prompt } => match prompt {
            None => Err(Refusal::Undisplayable),
            Some(prompt) => if accepted {
                Ok(Some(prompt))
            } else {
                Err(Refusal::Undisplayable)
            },
        },
    }
}

/// What a person has to be shown of a signing task, or a refusal. `accepted` says
/// whether the renderer takes the recipients and the fee.
///
/// A transaction is shown with every recipient and the fee, or not at all. A text
/// has no recipients; that is no consent either.
pub fn sign_consent(task: &SignTask, accepted: bool) -> (shown: Result<
    Option<&TransactionPrompt>,
    Refusal,
>)
    ensures
        shown matches Ok(Some(p)) ==> {
            &&& accepted
            &&& task matches SignTask::BitcoinTransaction { prompt: Some(tx) }
            &&& p.fee_sats == tx.fee_sats
            &&& p.foreign_recipients@ == tx.foreign_recipients@
        },
        shown is Ok <==> (task is Test || (accepted
            && task matches SignTask::BitcoinTransaction { prompt: Some(_) })),
        shown == Ok::<Option<&TransactionPrompt>, Refusal>(None) <==> task is Test,
        shown matches Err(refusal) ==> refusal == Refusal::Undisplayable,
        match displayable(*task, accepted) {
            Err(refusal) => shown == Err::<Option<&TransactionPrompt>, Refusal>(refusal),
            Ok(None) => shown == Ok::<Option<&TransactionPrompt>, Refusal>(None),
            Ok(Some(prompt)) => shown matches Ok(Some(p)) && *p == prompt,
        },
{
    match task {
        SignTask::Test { .. } => Ok(None),
        SignTask::Nostr => Err(Refusal::Undisplayable),
        SignTask::BitcoinTransaction { prompt } => match prompt {
            None => Err(Refusal::Undisplayable),
            Some(prompt) => if accepted {
                Ok(Some(prompt))
            } else {
                Err(Refusal::Undisplayable)
            },
        },
    }
}

/// What one page of a signing task shows: a page of a transaction that was drawn
/// in full, and a refusal for everything else.
pub open spec fn sign_page_shows(task: SignTask, drawn: Drawn) -> Result<Shown, Refusal> {
    if displayable(task, drawn.accepted) matches Ok(Some(_)) && drawn.rendered {
        Ok(Shown::Page { last: drawn.last })
    } else {
        Err(Refusal::Undisplayable)
    }
}

/// What came of drawing one page of a signing task.
pub fn sign_page(task: &SignTask, drawn: Drawn) -> (shown: Result<Shown, Refusal>)
    ensures
        shown == sign_page_shows(*task, drawn),
        shown is Ok <==> drawn.accepted && drawn.rendered
            && task matches SignTask::BitcoinTransaction { prompt: Some(_) },
        shown matches Ok(at) ==> at == (Shown::Page { last: drawn.last }),
        shown matches Err(refusal) ==> refusal == Refusal::Undisplayable,
{
    match sign_consent(task, drawn.accepted) {
        Ok(Some(_)) => if drawn.rendered {
            Ok(Shown::Page { last: drawn.last })
        } else {
            Err(Refusal::Undisplayable)
        },
        Ok(None) => Err(Refusal::Undisplayable),
        Err(refusal) => Err(refusal),
    }
}

/// What page `page` of a prompt shows, given what the renderer said of it.
pub open spec fn prompt_shows(prompt: DeviceToUserMessage, page: usize, drawn: Drawn) -> Result<
    Shown,
    Refusal,
> {
    match prompt {
        DeviceToUserMessage::CheckKeyGen { .. } => if page == 0 {
            Ok(Shown::Page { last: true })
        } else {
            Err(Refusal::Undisplayable)
        },
        DeviceToUserMessage::SignatureRequest { phase } => if phase.task is Test {
            if page == 0 && drawn.accepted {
                Ok(Shown::Page { last: true })
            } else {
                Err(Refusal::Undisplayable)
            }
        } else {
            sign_page_shows(phase.task, drawn)
        },
        DeviceToUserMessage::Restoration(ToUserRestoration::DisplayBackup { phase, .. }) => {
            if phase.share_index is Some && page == 0 {
                Ok(Shown::Page { last: true })
            } else {
                Err(Refusal::DisplayBackup)
            }
        },
        _ => Ok(Shown::Nothing),
    }
}

/// Whether this is the screen to draw for page `page` of a prompt.
pub open spec fn is_layout_of(
    layout: Layout,
    prompt: DeviceToUserMessage,
    confirm: ConfirmDigit,
    page: usize,
) -> bool {
    match prompt {
        DeviceToUserMessage::CheckKeyGen { phase } => if page == 0 {
            layout matches Layout::KeygenCheck {
                threshold,
                parties,
                code,
                key_name,
                confirm: digit,
            } && threshold == phase.threshold && parties == phase.parties && code@
                == phase.session_hash@.take(4) && *key_name == phase.key_name && digit == confirm
        } else {
            layout == Layout::Refuse(Refusal::Undisplayable)
        },
        DeviceToUserMessage::SignatureRequest { phase } => match phase.task {
            SignTask::Test { message } => if page == 0 {
                layout matches Layout::TestMessage { message: shown, confirm: digit } && *shown
                    == message && digit == confirm
            } else {
                layout == Layout::Refuse(Refusal::Undisplayable)
            },
            SignTask::Nostr => layout == Layout::Refuse(Refusal::Undisplayable),
            SignTask::BitcoinTransaction { prompt } => match prompt {
                None => layout == Layout::Refuse(Refusal::Undisplayable),
                Some(prompt) => layout matches Layout::SignPages {
                    recipients,
                    fee_sats,
                    confirm: digit,
                    page: at,
                } && *recipients == prompt.foreign_recipients && fee_sats == prompt.fee_sats
                    && digit == confirm && at == page,
            },
        },
        DeviceToUserMessage::Restoration(ToUserRestoration::DisplayBackup { key_name, phase }) => {
            match phase.share_index {
                Some(index) => if page == 0 {
                    layout matches Layout::Rows(rows) && asks_to_reveal(
                        rows@,
                        key_name@,
                        index,
                        confirm,
                    )
                } else {
                    layout == Layout::Refuse(Refusal::DisplayBackup)
                },
                None => layout == Layout::Refuse(Refusal::DisplayBackup),
            }
        },
        _ => layout is Nothing,
    }
}

/// The screen to draw for page `page` of a prompt.
pub fn prompt_layout<'a>(
    prompt: &'a DeviceToUserMessage,
    confirm: ConfirmDigit,
    page: usize,
) -> (layout: Layout<'a>)
    ensures
        is_layout_of(layout, *prompt, confirm, page),
        page == 0 ==> (prompt matches DeviceToUserMessage::CheckKeyGen { phase } ==> {
            &&& layout matches Layout::KeygenCheck {
                threshold,
                parties,
                code,
                key_name,
                confirm: digit,
            }
            &&& threshold == phase.threshold
            &&& parties == phase.parties
            &&& forall|i: int| 0 <= i < 4 ==> #[trigger] code@[i] == phase.session_hash@[i]
            &&& key_name@ == phase.key_name@
            &&& digit.key() == confirm.key()
        }),
        prompt matches DeviceToUserMessage::SignatureRequest { phase } ==> {
            &&& page == 0 ==> (phase.task matches SignTask::Test { message } ==> {
                &&& layout matches Layout::TestMessage { message: shown, confirm: digit }
                &&& shown@ == message@
                &&& digit.key() == confirm.key()
            })
            &&& (phase.task matches SignTask::BitcoinTransaction { prompt: Some(tx) } ==> {
                &&& layout matches Layout::SignPages {
                    recipients,
                    fee_sats,
                    confirm: digit,
                    page: at,
                }
                &&& fee_sats == tx.fee_sats
                &&& recipients@.len() == tx.foreign_recipients@.len()
                &&& forall|i: int|
                    0 <= i < recipients@.len() ==> (#[trigger] recipients@[i]).sats
                        == tx.foreign_recipients@[i].sats && recipients@[i].address@
                        == tx.foreign_recipients@[i].address@
                &&& digit.key() == confirm.key()
                &&& at == page
            })
        },
        page == 0 ==> (prompt matches DeviceToUserMessage::Restoration(
            ToUserRestoration::DisplayBackup { key_name, phase },
        ) ==> (phase.share_index matches Some(index) ==> {
            &&& layout matches Layout::Rows(rows)
            &&& rows@.len() == 5
            &&& rows@[0].row == 0 && rows@[0].text@ == "Reveal backup?"@
            &&& rows@[1].row == 2 && rows@[1].text@ == key_name@
            &&& rows@[2].row == 4 && rows@[2].text@ == "share #"@ + decimal_of(index as nat)
            &&& rows@[3].row == 6 && rows@[3].text@ == "SECRET on glass"@
            &&& rows@[4].row == 7 && rows@[4].text@ == "Press ("@ + seq![confirm.key() as char]
                + ") x=no"@
        })),
        page != 0 && prompt is CheckKeyGen ==> layout == Layout::Refuse(Refusal::Undisplayable),
        prompt matches DeviceToUserMessage::SignatureRequest { phase } ==> ((page != 0
            && phase.task is Test) || phase.task is Nostr || phase.task == (
        SignTask::BitcoinTransaction { prompt: None }) ==> layout == Layout::Refuse(
            Refusal::Undisplayable,
        )),
        prompt matches DeviceToUserMessage::Restoration(restoration) ==> {
            &&& (restoration matches ToUserRestoration::DisplayBackup { phase, .. } ==> (page != 0
                || phase.share_index is None ==> layout == Layout::Refuse(Refusal::DisplayBackup)))
            &&& !(restoration is DisplayBackup) ==> layout is Nothing
        },
        !(prompt is CheckKeyGen) && !(prompt is SignatureRequest) && !(prompt is Restoration)
            ==> layout is Nothing,
{
    match prompt {
        DeviceToUserMessage::CheckKeyGen { phase } => {
            if page != 0 {
                return Layout::Refuse(Refusal::Undisplayable);
            }
            let code: [u8; 4] = [
                phase.session_hash[0],
                phase.session_hash[1],
                phase.session_hash[2],
                phase.session_hash[3],
            ];
            proof {
                assert(code@ =~= phase.session_hash@.take(4));
            }
            Layout::KeygenCheck {
                threshold: phase.threshold,
                parties: phase.parties,
                code,
                key_name: &phase.key_name,
                confirm,
            }
        },
        DeviceToUserMessage::SignatureRequest { phase } => match &phase.task {
            SignTask::Test { message } => if page == 0 {
                Layout::TestMessage { message, confirm }
            } else {
                Layout::Refuse(Refusal::Undisplayable)
            },
            SignTask::Nostr => Layout::Refuse(Refusal::Undisplayable),
            SignTask::BitcoinTransaction { prompt } => match prompt {
                None => Layout::Refuse(Refusal::Undisplayable),
                Some(prompt) => Layout::SignPages {
                    recipients: &prompt.foreign_recipients,
                    fee_sats: prompt.fee_sats,
                    confirm,
                    page,
                },
            },
        },
        DeviceToUserMessage::Restoration(restoration) => match restoration {
            ToUserRestoration::DisplayBackup { key_name, phase } => match phase.share_index {
                Some(index) => if page == 0 {
                    Layout::Rows(backup_consent(key_name, index, confirm))
                } else {
                    Layout::Refuse(Refusal::DisplayBackup)
                },
                None => Layout::Refuse(Refusal::DisplayBackup),
            },
            _ => Layout::Nothing,
        },
        _ => Layout::Nothing,
    }
}

/// What page `page` of a prompt put on the glass, given what the renderer said of
/// the screen that [`prompt_layout`] makes of it. Where this is a refusal, the
/// glass shows one.
pub fn prompt_screen_at(prompt: &DeviceToUserMessage, page: usize, drawn: Drawn) -> (shown: Result<
    Shown,
    Refusal,
>)
    ensures
        shown == prompt_shows(*prompt, page, drawn),
        prompt is CheckKeyGen ==> shown == (if page == 0 {
            Ok::<Shown, Refusal>(Shown::Page { last: true })
        } else {
            Err::<Shown, Refusal>(Refusal::Undisplayable)
        }),
        prompt matches DeviceToUserMessage::SignatureRequest { phase } ==> shown == (match phase.task {
            SignTask::Test { .. } => if page == 0 && drawn.accepted {
                Ok::<Shown, Refusal>(Shown::Page { last: true })
            } else {
                Err::<Shown, Refusal>(Refusal::Undisplayable)
            },
            SignTask::BitcoinTransaction { prompt: Some(_) } => if drawn.accepted
                && drawn.rendered {
                Ok::<Shown, Refusal>(Shown::Page { last: drawn.last })
            } else {
                Err::<Shown, Refusal>(Refusal::Undisplayable)
            },
            _ => Err::<Shown, Refusal>(Refusal::Undisplayable),
        }),
        prompt matches DeviceToUserMessage::Restoration(
            ToUserRestoration::DisplayBackup { phase, .. },
        ) ==> shown == (if page == 0 && phase.share_index is Some {
            Ok::<Shown, Refusal>(Shown::Page { last: true })
        } else {
            Err::<Shown, Refusal>(Refusal::DisplayBackup)
        }),
        prompt matches DeviceToUserMessage::Restoration(restoration) ==> (!(restoration
            is DisplayBackup) ==> shown == Ok::<Shown, Refusal>(Shown::Nothing)),
        !(prompt is CheckKeyGen) && !(prompt is SignatureRequest) && !(prompt is Restoration)
            ==> shown == Ok::<Shown, Refusal>(Shown::Nothing),
{
    match prompt {
        DeviceToUserMessage::CheckKeyGen { .. } => if page == 0 {
            Ok(Shown::Page { last: true })
        } else {
            Err(Refusal::Undisplayable)
        },
        DeviceToUserMessage::SignatureRequest { phase } => match &phase.task {
            SignTask::Test { .. } => if page == 0 && drawn.accepted {
                Ok(Shown::Page { last: true })
            } else {
                Err(Refusal::Undisplayable)
            },
            _ => sign_page(&phase.task, drawn),
        },
        DeviceToUserMessage::Restoration(restoration) => match restoration {
            ToUserRestoration::DisplayBackup { phase, .. } => match phase.share_index {
                Some(_) => if page == 0 {
                    Ok(Shown::Page { last: true })
                } else {
                    Err(Refusal::DisplayBackup)
                },
                None => Err(Refusal::DisplayBackup),
            },
            _ => Ok(Shown::Nothing),
        },
        _ => Ok(Shown::Nothing),
    }
}

/// Whether the first page of a prompt is one that a person may answer.
pub fn prompt_screen(prompt: &DeviceToUserMessage, drawn: Drawn) -> (answerable: Result<
    bool,
    Refusal,
>)
    ensures
        answerable == (match prompt_shows(*prompt, 0, drawn) {
            Ok(shown) => Ok::<bool, Refusal>(shown == (Shown::Page { last: true })),
            Err(refusal) => Err::<bool, Refusal>(refusal),
        }),
{
    match prompt_screen_at(prompt, 0, drawn) {
        Ok(Shown::Page { last }) => Ok(last),
        Ok(Shown::Nothing) => Ok(false),
        Err(refusal) => Err(refusal),
    }
}

/// A transaction's screen tells its fee and its recipients from any other: two screens
/// show the same fee exactly where the two transactions pay the same fee, and the same
/// recipients exactly where they pay the same amounts to the same addresses in the same
/// order, whatever page is up and whatever digit is printed.
pub proof fn a_transactions_screen_tells_what_is_signed(
    layout: Layout,
    other_layout: Layout,
    one: SignPhase1,
    other: SignPhase1,
    tx: TransactionPrompt,
    other_tx: TransactionPrompt,
    confirm: ConfirmDigit,
    other_confirm: ConfirmDigit,
    page: usize,
    other_page: usize,
)
    requires
        one.task == (SignTask::BitcoinTransaction { prompt: Some(tx) }),
        other.task == (SignTask::BitcoinTransaction { prompt: Some(other_tx) }),
        is_layout_of(
            layout,
            DeviceToUserMessage::SignatureRequest { phase: one },
            confirm,
            page,
        ),
        is_layout_of(
            other_layout,
            DeviceToUserMessage::SignatureRequest { phase: other },
            other_confirm,
            other_page,
        ),
    ensures
        layout is SignPages,
        other_layout is SignPages,
        layout->fee_sats == tx.fee_sats,
        layout->fee_sats == other_layout->fee_sats <==> tx.fee_sats == other_tx.fee_sats,
        layout->recipients == other_layout->recipients <==> tx.foreign_recipients
            == other_tx.foreign_recipients,
        layout->SignPages_confirm == other_layout->SignPages_confirm <==> confirm == other_confirm,
        layout->page == other_layout->page <==> page == other_page,
{
}

/// The screen of a key generation tells its code from any other: two screens show the
/// same code exactly where the two session hashes agree in every bit of their first
/// four bytes.
pub proof fn a_keygens_screen_tells_the_code(
    layout: Layout,
    other_layout: Layout,
    one: KeyGenPhase3,
    other: KeyGenPhase3,
    confirm: ConfirmDigit,
    other_confirm: ConfirmDigit,
)
    requires
        is_layout_of(layout, DeviceToUserMessage::CheckKeyGen { phase: one }, confirm, 0),
        is_layout_of(
            other_layout,
            DeviceToUserMessage::CheckKeyGen { phase: other },
            other_confirm,
            0,
        ),
    ensures
        layout is KeygenCheck,
        other_layout is KeygenCheck,
        forall|i: int| 0 <= i < 4 ==> #[trigger] layout->code@[i] == one.session_hash@[i],
        layout->code@ == other_layout->code@ <==> forall|i: int|
            0 <= i < 4 ==> #[trigger] one.session_hash@[i] == other.session_hash@[i],
        layout->threshold == other_layout->threshold <==> one.threshold == other.threshold,
        layout->parties == other_layout->parties <==> one.parties == other.parties,
        layout->key_name == other_layout->key_name <==> one.key_name == other.key_name,
        layout->KeygenCheck_confirm == other_layout->KeygenCheck_confirm <==> confirm
            == other_confirm,
{
    let a = one.session_hash@.take(4);
    let b = other.session_hash@.take(4);
    if a == b {
        assert forall|i: int| 0 <= i < 4 implies #[trigger] one.session_hash@[i]
            == other.session_hash@[i] by {
            assert(a[i] == b[i]);
        }
    }
    if forall|i: int| 0 <= i < 4 ==> #[trigger] one.session_hash@[i] == other.session_hash@[i] {
        assert(a =~= b);
    }
}

/// The question for a share tells which share is asked for: two that get the same
/// screen name the same key and the same index.
pub proof fn a_backup_question_tells_which_share(
    rows: Seq<TextRow>,
    key_name: Seq<char>,
    other_name: Seq<char>,
    index: u32,
    other_index: u32,
    confirm: ConfirmDigit,
    other_confirm: ConfirmDigit,
)
    requires
        asks_to_reveal(rows, key_name, index, confirm),
        asks_to_reveal(rows, other_name, other_index, other_confirm),
    ensures
        key_name == other_name,
        index == other_index,
{
    let label = "share #"@;
    let a = label + decimal_of(index as nat);
    let b = label + decimal_of(other_index as nat);
    assert(a == b);
    assert(a.skip(label.len() as int) =~= decimal_of(index as nat));
    assert(b.skip(label.len() as int) =~= decimal_of(other_index as nat));
    crate::text::a_number_reads_back(index as nat);
    crate::text::a_number_reads_back(other_index as nat);
}

/// A screen that is not drawn at all can show nothing but a refusal, and a prompt
/// without a screen shows nothing.
pub proof fn what_is_not_drawn_is_not_answerable(
    layout: Layout,
    prompt: DeviceToUserMessage,
    confirm: ConfirmDigit,
    page: usize,
    drawn: Drawn,
)
    requires
        is_layout_of(layout, prompt, confirm, page),
    ensures
        layout matches Layout::Refuse(refusal) ==> prompt_shows(prompt, page, drawn) == Err::<
            Shown,
            Refusal,
        >(refusal),
        layout is Nothing <==> prompt_shows(prompt, page, drawn) == Ok::<Shown, Refusal>(
            Shown::Nothing,
        ),
{
}

/// Every screen but that of a transaction is one page: there is no page behind the
/// first, neither the first again nor the last.
pub proof fn a_page_past_the_end_is_refused(
    prompt: DeviceToUserMessage,
    page: usize,
    drawn: Drawn,
)
    requires
        page != 0,
    ensures
        prompt is CheckKeyGen ==> prompt_shows(prompt, page, drawn) == Err::<Shown, Refusal>(
            Refusal::Undisplayable,
        ),
        prompt matches DeviceToUserMessage::SignatureRequest { phase } && (phase.task is Test
            || !drawn.rendered) ==> prompt_shows(prompt, page, drawn) == Err::<Shown, Refusal>(
            Refusal::Undisplayable,
        ),
        prompt matches DeviceToUserMessage::Restoration(ToUserRestoration::DisplayBackup { .. })
            ==> prompt_shows(prompt, page, drawn) == Err::<Shown, Refusal>(Refusal::DisplayBackup),
{
}

/// What came of getting a share ready to be shown.
pub open spec fn backup_readiness(
    share_index: Option<u32>,
    decrypted: Result<(), String>,
    accepted: bool,
) -> Result<(), Fault> {
    match decrypted {
        Err(e) => Err(Fault::Action(e)),
        Ok(()) => if share_index is Some && accepted {
            Ok(())
        } else {
            Err(Fault::Refused(Refusal::DisplayBackup))
        },
    }
}

/// Whether a share can be shown in full: it could be decrypted, its index can be
/// printed, and the renderer takes all of its words.
pub fn backup_pages(
    share_index: Option<u32>,
    decrypted: Result<(), String>,
    accepted: bool,
) -> (ready: Result<(), Fault>)
    ensures
        ready == backup_readiness(share_index, decrypted, accepted),
        ready is Ok <==> decrypted is Ok && share_index is Some && accepted,
        decrypted matches Err(e) ==> ready == Err::<(), Fault>(Fault::Action(e)),
        decrypted is Ok && ready is Err ==> ready == Err::<(), Fault>(
            Fault::Refused(Refusal::DisplayBackup),
        ),
{
    match decrypted {
        Err(e) => Err(Fault::Action(e)),
        Ok(()) => match share_index {
            None => Err(Fault::Refused(Refusal::DisplayBackup)),
            Some(_) => if accepted {
                Ok(())
            } else {
                Err(Fault::Refused(Refusal::DisplayBackup))
            },
        },
    }
}

/// What the entry of a share has on the glass.
#[derive(Clone, Copy, Debug, PartialEq, Eq, Structural)]
pub enum EntryScreen {
    /// The share's index.
    ShareIndex {
        /// As much of it as was typed.
        typed: Option<u32>,
    },
    /// A word.
    Word,
    /// The words do not fit their checksum.
    Failed,
}

/// The screen of an entry to hand to the renderer.
#[derive(Clone, Debug)]
pub enum EntryLayout {
    /// The page of the share's index, with these digits on it.
    ShareIndex {
        /// The digits.
        partial: String,
    },
    /// The page of the word that is being typed.
    Word,
    /// Plain rows of text.
    Rows(Vec<TextRow>),
}

/// Whether these are the rows that say that the words do not fit their checksum.
/// They name no word and no position.
pub open spec fn says_checksum_failed(rows: Seq<TextRow>) -> bool {
    &&& rows.len() == 6
    &&& is_row(rows[0], 0, "CHECKSUM FAILED"@)
    &&& is_row(rows[1], 2, "All 25 words"@)
    &&& is_row(rows[2], 3, "are still held."@)
    &&& is_row(rows[3], 5, "Check them"@)
    &&& is_row(rows[4], 6, "against paper."@)
    &&& is_row(rows[5], ROWS - 1, "any key=word 25"@)
}

/// The screen to draw for the entry of a share.
pub fn entry_layout(screen: EntryScreen) -> (layout: EntryLayout)
    ensures
        match screen {
            EntryScreen::ShareIndex { typed } => layout matches EntryLayout::ShareIndex { partial }
                && partial@ == (match typed {
                Some(index) => decimal_of(index as nat),
                None => Seq::<char>::empty(),
            }),
            EntryScreen::Word => layout is Word,
            EntryScreen::Failed => layout matches EntryLayout::Rows(rows) && says_checksum_failed(
                rows@,
            ),
        },
{
    match screen {
        EntryScreen::ShareIndex { typed } => EntryLayout::ShareIndex {
            partial: match typed {
                Some(index) => decimal(index as u64),
                None => String::new(),
            },
        },
        EntryScreen::Word => EntryLayout::Word,
        EntryScreen::Failed => {
            let mut rows: Vec<TextRow> = Vec::new();
            rows.push(fixed_row(0, "CHECKSUM FAILED"));
            rows.push(fixed_row(2, "All 25 words"));
            rows.push(fixed_row(3, "are still held."));
            rows.push(fixed_row(5, "Check them"));
            rows.push(fixed_row(6, "against paper."));
            rows.push(fixed_row(ROWS - 1, "any key=word 25"));
            EntryLayout::Rows(rows)
        },
    }
}

/// Whether a screen of an entry is on the glass, given what the renderer said of
/// it. Plain rows of text are always drawn.
pub fn entry_frame(screen: EntryScreen, rendered: bool) -> (drawn: bool)
    ensures
        drawn == (rendered || screen is Failed),
{
    match screen {
        EntryScreen::Failed => true,
        _ => rendered,
    }
}

} // verus!
