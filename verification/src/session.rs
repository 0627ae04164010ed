//! What the device is between resets, and what it does with a message of a
//! coordinator and with a yes of a person.
//!
//! Nothing here answers a question by itself: a prompt is handed back, and only a
//! yes to the screen that showed it in full is acted on.

use vstd::prelude::*;
use vstd::string::*;
use vstd::utf8::encode_utf8;
use crate::digest::Secrets;
use crate::fault::{Fault, Refusal};
use crate::messages::{
    BackupDisplayPhase, CoordinatorRestoration, CoordinatorSendBody, CoordinatorToDeviceMessage,
    DeviceId, DeviceSendBody, DeviceToUserMessage, Keygen, NameCommand, Sha256Digest,
    ToUserRestoration,
};
use crate::names::{
    name_record, AbWriteOutcome, NameStore, StoreFault, DEVICE_NAME_MAX_BYTES,
    DEVICE_NAME_MAX_LENGTH, NAME_RECORD_LEN,
};
use crate::screens::{
    backup_pages, backup_readiness, prompt_screen_at, prompt_shows, Drawn, Shown,
};

verus! {

/// The largest group that this device begins a key generation for.
pub const MAX_PARTIES: usize = 12;

/// How many nonce streams are kept.
pub const NONCE_SLOTS: u32 = 4;

/// What the flash holds of a key generation that was finished before.
pub enum HeldShare {
    /// Nothing.
    Empty,
    /// Something that does not read as a share.
    Damaged,
    /// A share, as the changes that bring it back, in the order in which the
    /// signer made them. Each number says where the change is kept.
    Share {
        /// The changes.
        mutations: Vec<u64>,
    },
}

/// What to do with a message that this device takes.
#[derive(Clone, Copy, Debug, PartialEq, Eq, Structural)]
pub enum Dispatch {
    /// Nothing more.
    Done,
    /// Have the signer drop what is half finished.
    ClearSigner,
    /// Hand the message to the signer.
    AskSigner,
}

/// What to do on a yes that counts.
#[derive(Clone, Copy, Debug, PartialEq, Eq, Structural)]
pub enum Confirmed {
    /// Tell the signer that the session hash is right.
    KeygenAck {
        /// Where the signer's phase is kept.
        ticket: u64,
    },
    /// Have the signer sign.
    SignAck {
        /// Where the signer's phase is kept.
        ticket: u64,
    },
    /// Nothing: the share may now be shown.
    Revealed,
}

/// Whether a group is one that a key generation may begin for.
pub open spec fn group_fits(devices: int, threshold: int) -> bool {
    1 <= threshold <= devices <= MAX_PARTIES
}

/// Why a message for the device's core is refused before the signer sees it.
pub open spec fn core_refusal(core: CoordinatorToDeviceMessage) -> Option<Refusal> {
    match core {
        CoordinatorToDeviceMessage::KeyGen(Keygen::Begin { devices, threshold }) => if group_fits(
            devices@.len() as int,
            threshold as int,
        ) {
            None
        } else {
            Some(Refusal::GroupTooLarge)
        },
        CoordinatorToDeviceMessage::KeyGen(_) => None,
        CoordinatorToDeviceMessage::Signing(_) => None,
        CoordinatorToDeviceMessage::Restoration(asked) => if asked is RequestHeldShares
            || asked is DisplayBackup {
            None
        } else {
            Some(Refusal::PhysicalBackup)
        },
        CoordinatorToDeviceMessage::ScreenVerify => Some(Refusal::AddressVerify),
    }
}

/// Why a message is refused.
pub open spec fn refusal_of(body: CoordinatorSendBody) -> Option<Refusal> {
    match body {
        CoordinatorSendBody::Core(core) => core_refusal(core),
        CoordinatorSendBody::Upgrade(_) => Some(Refusal::FirmwareUpgrade),
        CoordinatorSendBody::DataErase => Some(Refusal::DataErase),
        CoordinatorSendBody::Challenge => Some(Refusal::GenuineChallenge),
        _ => None,
    }
}

/// What is to be done with a message that is not refused.
pub open spec fn dispatch_of(body: CoordinatorSendBody) -> Dispatch {
    match body {
        CoordinatorSendBody::Core(_) => Dispatch::AskSigner,
        CoordinatorSendBody::Cancel => Dispatch::ClearSigner,
        _ => Dispatch::Done,
    }
}

/// What a yes to page `page` of a prompt is to do, given what the renderer says
/// of that page: only the last page of a prompt that was shown in full counts.
pub open spec fn yes_to(prompt: DeviceToUserMessage, page: usize, drawn: Drawn) -> Result<
    Confirmed,
    Fault,
> {
    match prompt_shows(prompt, page, drawn) {
        Err(refusal) => Err(Fault::Refused(refusal)),
        Ok(shown) => if shown != (Shown::Page { last: true }) {
            Err(Fault::NotConfirmable)
        } else {
            match prompt {
                DeviceToUserMessage::CheckKeyGen { phase } => Ok(
                    Confirmed::KeygenAck { ticket: phase.ticket },
                ),
                DeviceToUserMessage::SignatureRequest { phase } => Ok(
                    Confirmed::SignAck { ticket: phase.ticket },
                ),
                DeviceToUserMessage::Restoration(ToUserRestoration::DisplayBackup { .. }) => Ok(
                    Confirmed::Revealed,
                ),
                _ => Err(Fault::NotConfirmable),
            }
        },
    }
}

/// The share that a prompt asks to show.
pub open spec fn asked_share(prompt: DeviceToUserMessage) -> Option<BackupDisplayPhase> {
    match prompt {
        DeviceToUserMessage::Restoration(ToUserRestoration::DisplayBackup { phase, .. }) => Some(
            phase,
        ),
        _ => None,
    }
}

/// A name as it is told to a coordinator: its first characters, as many as a name
/// may have.
pub open spec fn device_name_of(name: Seq<char>) -> Seq<char> {
    if name.len() <= DEVICE_NAME_MAX_LENGTH {
        name
    } else {
        name.take(DEVICE_NAME_MAX_LENGTH as int)
    }
}

/// Cuts a name to as many characters as a name may have.
fn device_name(name: String) -> (cut: String)
    ensures
        cut@ == device_name_of(name@),
        cut@.is_prefix_of(name@),
        name@.len() <= 14 ==> cut@.len() == name@.len(),
        name@.len() > 14 ==> cut@.len() == 14,
{
    let chars: usize = name.as_str().unicode_len();
    if chars <= DEVICE_NAME_MAX_LENGTH {
        name
    } else {
        let cut = name.as_str().substring_char(0, DEVICE_NAME_MAX_LENGTH).to_owned();
        proof {
            assert(name@.subrange(0, DEVICE_NAME_MAX_LENGTH as int) =~= name@.take(
                DEVICE_NAME_MAX_LENGTH as int,
            ));
        }
        cut
    }
}

/// What the device is between resets.
pub struct Session {
    id: DeviceId,
    acked: bool,
    secrets: Secrets,
    names: NameStore,
    pending_name: Option<String>,
    reveal: Option<BackupDisplayPhase>,
}

impl Session {
    /// The device's identity on the wire.
    pub closed spec fn identity(self) -> DeviceId {
        self.id
    }

    /// Whether the coordinator has acknowledged the announce.
    pub closed spec fn acknowledged(self) -> bool {
        self.acked
    }

    /// The identity secret that everything is derived from.
    pub closed spec fn seed(self) -> Seq<u8> {
        self.secrets.seed()
    }

    /// The region of the flash that holds the name.
    pub closed spec fn store(self) -> NameStore {
        self.names
    }

    /// A name that the coordinator has shown and nobody has approved.
    pub closed spec fn pending(self) -> Option<String> {
        self.pending_name
    }

    /// The share that somebody consented to have shown.
    pub closed spec fn granted(self) -> Option<BackupDisplayPhase> {
        self.reveal
    }

    /// The device as it comes up, and the changes to apply to the signer, in that
    /// order, so that it holds its share again.
    ///
    /// `identity` is the public key of the secret, and there is none where the
    /// secret is no usable key. `slot` is what the region of the name reads as.
    pub fn open(
        identity: Option<DeviceId>,
        secret: &[u8; 32],
        slot: Option<[u8; NAME_RECORD_LEN]>,
        held: HeldShare,
    ) -> (opened: Result<(Session, Vec<u64>), Fault>)
        ensures
            identity is None ==> opened == Err::<(Session, Vec<u64>), Fault>(Fault::IdentityScalar),
            identity matches Some(id) ==> {
                &&& opened matches Ok((session, replay))
                &&& session.identity() == id
                &&& session.seed() == secret@
                &&& !session.acknowledged()
                &&& session.pending() is None
                &&& session.granted() is None
                &&& session.store().slot() == (match slot {
                    None => None::<Seq<u8>>,
                    Some(record) => Some(record@),
                })
                &&& replay@ == (match held {
                    HeldShare::Share { mutations } => mutations@,
                    _ => Seq::<u64>::empty(),
                })
            },
    {
        let id: DeviceId = match identity {
            None => return Err(Fault::IdentityScalar),
            Some(id) => id,
        };
        let replay: Vec<u64> = match held {
            HeldShare::Share { mutations } => mutations,
            _ => Vec::new(),
        };
        let session = Session {
            id,
            acked: false,
            secrets: Secrets::new(secret),
            names: NameStore::open(slot),
            pending_name: None,
            reveal: None,
        };
        Ok((session, replay))
    }

    /// The name that the coordinator has shown and nobody has approved.
    pub fn pending_name(&self) -> (name: Option<&str>)
        ensures
            self.pending() is None ==> name is None,
            self.pending() matches Some(n) ==> (name matches Some(shown) && shown@ == n@),
    {
        match &self.pending_name {
            None => None,
            Some(name) => Some(name.as_str()),
        }
    }

    /// The name on the flash.
    pub fn stored_name(&self) -> (name: Option<String>)
        ensures
            name is Some <==> self.store().name() is Some,
            name matches Some(n) ==> Some(n@) == self.store().name(),
    {
        self.names.load()
    }

    /// Takes note of what the region of the name reads as now.
    pub fn reread_name(&mut self, slot: Option<[u8; NAME_RECORD_LEN]>)
        ensures
            final(self).store().slot() == (match slot {
                None => None::<Seq<u8>>,
                Some(record) => Some(record@),
            }),
            final(self).same_but_store(*old(self)),
            final(self).identity() == old(self).identity(),
            final(self).seed() == old(self).seed(),
            final(self).acknowledged() == old(self).acknowledged(),
            final(self).pending() == old(self).pending(),
            final(self).granted() == old(self).granted(),
    {
        self.names = NameStore::open(slot);
    }

    /// The device's identity on the wire.
    pub fn device_id(&self) -> (id: DeviceId)
        ensures
            id == self.identity(),
    {
        self.id
    }

    /// Whether the coordinator has acknowledged the announce.
    pub fn coordinator_acked(&self) -> (acked: bool)
        ensures
            acked == self.acknowledged(),
    {
        self.acked
    }

    /// The values that are derived from the identity secret.
    pub fn secrets(&self) -> (secrets: &Secrets)
        ensures
            secrets.seed() == self.seed(),
    {
        &self.secrets
    }

    /// The share that somebody consented to have shown.
    pub fn revealing(&self) -> (phase: Option<BackupDisplayPhase>)
        ensures
            phase == self.granted(),
    {
        self.reveal
    }

    /// Whether two sessions differ in nothing but the region of the name.
    pub open spec fn same_but_store(self, other: Session) -> bool {
        &&& self.identity() == other.identity()
        &&& self.seed() == other.seed()
        &&& self.acknowledged() == other.acknowledged()
        &&& self.pending() == other.pending()
        &&& self.granted() == other.granted()
    }

    /// Whether two sessions differ in nothing but what a message may change.
    pub open spec fn same_device(self, other: Session) -> bool {
        &&& self.identity() == other.identity()
        &&& self.seed() == other.seed()
        &&& self.store() == other.store()
    }

    /// What to tell a coordinator that has just connected, in this order: that the
    /// device is here, and its name or that it has none.
    pub fn announce(&self, firmware_digest: Sha256Digest) -> (bodies: Vec<DeviceSendBody>)
        ensures
            bodies@.len() == 2,
            bodies@[0] == (DeviceSendBody::Announce { firmware_digest }),
            self.store().name() is None ==> bodies@[1] is NeedName,
            self.store().name() matches Some(stored) ==> (bodies@[1] matches DeviceSendBody::SetName {
                name,
            } && name@ == device_name_of(stored)),
            self.store().name() matches Some(stored) ==> (bodies@[1] matches DeviceSendBody::SetName {
                name,
            } && name@.is_prefix_of(stored) && name@.len() == (if stored.len() <= 14 {
                stored.len()
            } else {
                14
            })),
    {
        let mut bodies: Vec<DeviceSendBody> = Vec::new();
        bodies.push(DeviceSendBody::Announce { firmware_digest });
        match self.names.load() {
            Some(name) => {
                bodies.push(DeviceSendBody::SetName { name: device_name(name) });
            },
            None => {
                bodies.push(DeviceSendBody::NeedName);
            },
        }
        bodies
    }

    /// Takes one message of a coordinator.
    ///
    /// A preview of a name is remembered and nothing else, and an abandoned
    /// ceremony takes its previewed name and its consent to a backup with it.
    pub fn recv(&mut self, body: CoordinatorSendBody) -> (taken: Result<Dispatch, Fault>)
        ensures
            match refusal_of(body) {
                Some(refusal) => taken == Err::<Dispatch, Fault>(Fault::Refused(refusal)),
                None => taken == Ok::<Dispatch, Fault>(dispatch_of(body)),
            },
            match body {
                CoordinatorSendBody::Core(core) => match core {
                    CoordinatorToDeviceMessage::KeyGen(Keygen::Begin { devices, threshold }) => taken
                        == (if 1 <= threshold <= devices@.len() <= 12 {
                        Ok::<Dispatch, Fault>(Dispatch::AskSigner)
                    } else {
                        Err::<Dispatch, Fault>(Fault::Refused(Refusal::GroupTooLarge))
                    }),
                    CoordinatorToDeviceMessage::KeyGen(_)
                    | CoordinatorToDeviceMessage::Signing(_) => taken == Ok::<Dispatch, Fault>(
                        Dispatch::AskSigner,
                    ),
                    CoordinatorToDeviceMessage::Restoration(asked) => taken == (if asked
                        is RequestHeldShares || asked is DisplayBackup {
                        Ok::<Dispatch, Fault>(Dispatch::AskSigner)
                    } else {
                        Err::<Dispatch, Fault>(Fault::Refused(Refusal::PhysicalBackup))
                    }),
                    CoordinatorToDeviceMessage::ScreenVerify => taken == Err::<Dispatch, Fault>(
                        Fault::Refused(Refusal::AddressVerify),
                    ),
                },
                CoordinatorSendBody::Naming(_) | CoordinatorSendBody::AnnounceAck => taken == Ok::<
                    Dispatch,
                    Fault,
                >(Dispatch::Done),
                CoordinatorSendBody::Cancel => taken == Ok::<Dispatch, Fault>(
                    Dispatch::ClearSigner,
                ),
                CoordinatorSendBody::Upgrade(_) => taken == Err::<Dispatch, Fault>(
                    Fault::Refused(Refusal::FirmwareUpgrade),
                ),
                CoordinatorSendBody::DataErase => taken == Err::<Dispatch, Fault>(
                    Fault::Refused(Refusal::DataErase),
                ),
                CoordinatorSendBody::Challenge => taken == Err::<Dispatch, Fault>(
                    Fault::Refused(Refusal::GenuineChallenge),
                ),
            },
            final(self).same_device(*old(self)),
            final(self).identity() == old(self).identity(),
            final(self).seed() == old(self).seed(),
            final(self).store() == old(self).store(),
            final(self).acknowledged() == (old(self).acknowledged() || body is AnnounceAck),
            final(self).pending() == (match body {
                CoordinatorSendBody::Naming(NameCommand::Preview(name)) => Some(name),
                CoordinatorSendBody::Cancel => None,
                _ => old(self).pending(),
            }),
            final(self).granted() == (if body is Cancel {
                None
            } else {
                old(self).granted()
            }),
    {
        match body {
            CoordinatorSendBody::Core(core) => match recv_core(&core) {
                Ok(()) => Ok(Dispatch::AskSigner),
                Err(refusal) => Err(Fault::Refused(refusal)),
            },
            CoordinatorSendBody::Naming(NameCommand::Preview(name)) => {
                self.pending_name = Some(name);
                Ok(Dispatch::Done)
            },
            CoordinatorSendBody::Naming(NameCommand::Retired) => Ok(Dispatch::Done),
            CoordinatorSendBody::AnnounceAck => {
                self.acked = true;
                Ok(Dispatch::Done)
            },
            CoordinatorSendBody::Cancel => {
                self.pending_name = None;
                self.reveal = None;
                Ok(Dispatch::ClearSigner)
            },
            CoordinatorSendBody::Upgrade(_) => Err(Fault::Refused(Refusal::FirmwareUpgrade)),
            CoordinatorSendBody::DataErase => Err(Fault::Refused(Refusal::DataErase)),
            CoordinatorSendBody::Challenge => Err(Fault::Refused(Refusal::GenuineChallenge)),
        }
    }

    /// Takes the name that waits for approval, so that none waits.
    pub(crate) fn take_pending(&mut self) -> (name: Option<String>)
        ensures
            name == old(self).pending(),
            final(self).pending() is None,
            final(self).same_but_pending(*old(self)),
    {
        self.pending_name.take()
    }

    /// The record to write so that `name` is kept.
    pub(crate) fn name_to_write(&self, name: &str) -> (record: Result<
        [u8; NAME_RECORD_LEN],
        StoreFault,
    >)
        ensures
            record is Ok <==> encode_utf8(name@).len() <= DEVICE_NAME_MAX_BYTES,
            record matches Ok(r) ==> r@ == name_record(encode_utf8(name@)),
            record matches Err(fault) ==> fault == StoreFault::TooBig,
    {
        self.names.save(name)
    }

    /// Takes note of what came of writing a record to the region of the name.
    pub(crate) fn name_written(
        &mut self,
        record: [u8; NAME_RECORD_LEN],
        outcome: AbWriteOutcome,
    ) -> (kept: Result<(), StoreFault>)
        ensures
            outcome is Committed || outcome is CommittedSingleCopy ==> kept is Ok
                && final(self).store().slot() == Some(record@),
            outcome matches AbWriteOutcome::NotCommitted(e) ==> kept == Err::<(), StoreFault>(
                StoreFault::Flash(e),
            ) && final(self).store() == old(self).store(),
            final(self).same_but_store(*old(self)),
    {
        self.names.written(record, outcome)
    }

    /// Whether two sessions differ in nothing but the name that waits.
    pub open spec fn same_but_pending(self, other: Session) -> bool {
        &&& self.same_device(other)
        &&& self.acknowledged() == other.acknowledged()
        &&& self.granted() == other.granted()
    }

    /// Whether two sessions differ in nothing but the names.
    pub open spec fn same_but_name(self, other: Session) -> bool {
        &&& self.identity() == other.identity()
        &&& self.seed() == other.seed()
        &&& self.acknowledged() == other.acknowledged()
        &&& self.granted() == other.granted()
    }

    /// A yes to the first page of a prompt, for a screen that has no other.
    pub fn confirm(
        &mut self,
        prompt: &DeviceToUserMessage,
        drawn: Drawn,
        decrypted: Result<(), String>,
        accepted: bool,
    ) -> (done: Result<Confirmed, Fault>)
        ensures
            done == old(self).confirmed(*prompt, 0, drawn, decrypted, accepted),
            final(self).granted() == old(self).grant_after(*prompt, done),
            final(self).same_but_grant(*old(self)),
            final(self).identity() == old(self).identity(),
            final(self).seed() == old(self).seed(),
            final(self).store() == old(self).store(),
            final(self).acknowledged() == old(self).acknowledged(),
            final(self).pending() == old(self).pending(),
    {
        self.confirm_at(prompt, 0, drawn, decrypted, accepted)
    }

    /// What a yes to page `page` of a prompt comes to: what [`yes_to`] says, and
    /// for a share also whether it could be shown in full.
    pub open spec fn confirmed(
        self,
        prompt: DeviceToUserMessage,
        page: usize,
        drawn: Drawn,
        decrypted: Result<(), String>,
        accepted: bool,
    ) -> Result<Confirmed, Fault> {
        match (yes_to(prompt, page, drawn), asked_share(prompt)) {
            (Ok(confirmed), Some(phase)) => match backup_readiness(
                phase.share_index,
                decrypted,
                accepted,
            ) {
                Ok(()) => Ok(confirmed),
                Err(fault) => Err(fault),
            },
            (outcome, _) => outcome,
        }
    }

    /// The share that may be shown after a yes: the one that was asked for, if the
    /// yes counted, and else the one before.
    pub open spec fn grant_after(
        self,
        prompt: DeviceToUserMessage,
        done: Result<Confirmed, Fault>,
    ) -> Option<BackupDisplayPhase> {
        if done == Ok::<Confirmed, Fault>(Confirmed::Revealed) {
            asked_share(prompt)
        } else {
            self.granted()
        }
    }

    /// Whether two sessions differ in nothing but the consent to a backup.
    pub open spec fn same_but_grant(self, other: Session) -> bool {
        &&& self.same_device(other)
        &&& self.acknowledged() == other.acknowledged()
        &&& self.pending() == other.pending()
    }

    /// A yes to page `page` of a prompt.
    ///
    /// `drawn` is what the renderer says of that page. Where the prompt asks to
    /// show a share, `decrypted` says whether it could be decrypted and `accepted`
    /// whether the renderer takes its words; they are not read otherwise.
    pub fn confirm_at(
        &mut self,
        prompt: &DeviceToUserMessage,
        page: usize,
        drawn: Drawn,
        decrypted: Result<(), String>,
        accepted: bool,
    ) -> (done: Result<Confirmed, Fault>)
        ensures
            done == old(self).confirmed(*prompt, page, drawn, decrypted, accepted),
            final(self).granted() == old(self).grant_after(*prompt, done),
            final(self).same_but_grant(*old(self)),
            match prompt_shows(*prompt, page, drawn) {
                Err(refusal) => done == Err::<Confirmed, Fault>(Fault::Refused(refusal)),
                Ok(Shown::Page { last: true }) => match *prompt {
                    DeviceToUserMessage::CheckKeyGen { phase } => done == Ok::<Confirmed, Fault>(
                        Confirmed::KeygenAck { ticket: phase.ticket },
                    ),
                    DeviceToUserMessage::SignatureRequest { phase } => done == Ok::<
                        Confirmed,
                        Fault,
                    >(Confirmed::SignAck { ticket: phase.ticket }),
                    DeviceToUserMessage::Restoration(
                        ToUserRestoration::DisplayBackup { phase, .. },
                    ) => match decrypted {
                        Err(e) => done == Err::<Confirmed, Fault>(Fault::Action(e)),
                        Ok(()) => if accepted {
                            done == Ok::<Confirmed, Fault>(Confirmed::Revealed)
                                && final(self).granted() == Some(phase)
                        } else {
                            done == Err::<Confirmed, Fault>(Fault::Refused(Refusal::DisplayBackup))
                        },
                    },
                    _ => done == Err::<Confirmed, Fault>(Fault::NotConfirmable),
                },
                Ok(_) => done == Err::<Confirmed, Fault>(Fault::NotConfirmable),
            },
            done != Ok::<Confirmed, Fault>(Confirmed::Revealed) ==> final(self).granted() == old(
                self,
            ).granted(),
            final(self).identity() == old(self).identity(),
            final(self).seed() == old(self).seed(),
            final(self).store() == old(self).store(),
            final(self).acknowledged() == old(self).acknowledged(),
            final(self).pending() == old(self).pending(),
    {
        match prompt_screen_at(prompt, page, drawn) {
            Err(refusal) => return Err(Fault::Refused(refusal)),
            Ok(Shown::Nothing) => return Err(Fault::NotConfirmable),
            Ok(Shown::Page { last }) => if !last {
                return Err(Fault::NotConfirmable);
            },
        }
        match prompt {
            DeviceToUserMessage::CheckKeyGen { phase } => Ok(
                Confirmed::KeygenAck { ticket: phase.ticket },
            ),
            DeviceToUserMessage::SignatureRequest { phase } => Ok(
                Confirmed::SignAck { ticket: phase.ticket },
            ),
            DeviceToUserMessage::Restoration(restoration) => match restoration {
                ToUserRestoration::DisplayBackup { phase, .. } => match backup_pages(
                    phase.share_index,
                    decrypted,
                    accepted,
                ) {
                    Ok(()) => {
                        self.reveal = Some(*phase);
                        Ok(Confirmed::Revealed)
                    },
                    Err(fault) => Err(fault),
                },
                _ => Err(Fault::NotConfirmable),
            },
            _ => Err(Fault::NotConfirmable),
        }
    }

    /// What showing a page of a backup comes to.
    pub open spec fn backup_shown(
        self,
        decrypted: Result<(), String>,
        accepted: bool,
        rendered: bool,
    ) -> Result<bool, Fault> {
        match self.granted() {
            None => Err(Fault::Refused(Refusal::DisplayBackup)),
            Some(phase) => match backup_readiness(phase.share_index, decrypted, accepted) {
                Err(fault) => Err(fault),
                Ok(()) => Ok(rendered),
            },
        }
    }

    /// Says whether a page of the backup that somebody consented to is on the
    /// glass. Past the last page it is not, and that ends the consent, as does
    /// every fault.
    ///
    /// `decrypted` says whether the share of [`Session::revealing`] could be
    /// decrypted, `accepted` whether the renderer takes its words and `rendered`
    /// whether it drew the page. Without a consent none of them is read.
    pub fn show_backup(
        &mut self,
        decrypted: Result<(), String>,
        accepted: bool,
        rendered: bool,
    ) -> (shown: Result<bool, Fault>)
        ensures
            shown == old(self).backup_shown(decrypted, accepted, rendered),
            old(self).granted() is None ==> shown == Err::<bool, Fault>(
                Fault::Refused(Refusal::DisplayBackup),
            ),
            old(self).granted() matches Some(phase) ==> shown == (match decrypted {
                Err(e) => Err::<bool, Fault>(Fault::Action(e)),
                Ok(()) => if phase.share_index is Some && accepted {
                    Ok::<bool, Fault>(rendered)
                } else {
                    Err::<bool, Fault>(Fault::Refused(Refusal::DisplayBackup))
                },
            }),
            final(self).identity() == old(self).identity(),
            final(self).seed() == old(self).seed(),
            final(self).store() == old(self).store(),
            final(self).acknowledged() == old(self).acknowledged(),
            final(self).pending() == old(self).pending(),
            final(self).granted() == (if shown == Ok::<bool, Fault>(true) {
                old(self).granted()
            } else {
                None
            }),
            final(self).same_but_grant(*old(self)),
    {
        let phase: BackupDisplayPhase = match self.reveal {
            None => return Err(Fault::Refused(Refusal::DisplayBackup)),
            Some(phase) => phase,
        };
        self.reveal = None;
        match backup_pages(phase.share_index, decrypted, accepted) {
            Err(fault) => Err(fault),
            Ok(()) => {
                if rendered {
                    self.reveal = Some(phase);
                }
                Ok(rendered)
            },
        }
    }
}

/// Whether a message for the device's core may reach the signer.
fn recv_core(core: &CoordinatorToDeviceMessage) -> (admitted: Result<(), Refusal>)
    ensures
        match core_refusal(*core) {
            Some(refusal) => admitted == Err::<(), Refusal>(refusal),
            None => admitted is Ok,
        },
{
    match core {
        CoordinatorToDeviceMessage::KeyGen(keygen) => match keygen {
            Keygen::Begin { devices, threshold } => {
                let n: usize = devices.len();
                if n > MAX_PARTIES || *threshold == 0 || *threshold as usize > n {
                    Err(Refusal::GroupTooLarge)
                } else {
                    Ok(())
                }
            },
            Keygen::CertifyPlease | Keygen::Check | Keygen::Finalize => Ok(()),
        },
        CoordinatorToDeviceMessage::Signing(_) => Ok(()),
        CoordinatorToDeviceMessage::Restoration(asked) => match asked {
            CoordinatorRestoration::RequestHeldShares | CoordinatorRestoration::DisplayBackup => {
                Ok(())
            },
            CoordinatorRestoration::EnterPhysicalBackup
            | CoordinatorRestoration::SavePhysicalBackup
            | CoordinatorRestoration::SavePhysicalBackup2
            | CoordinatorRestoration::Consolidate
            | CoordinatorRestoration::CheckBackup => Err(Refusal::PhysicalBackup),
        },
        CoordinatorToDeviceMessage::ScreenVerify => Err(Refusal::AddressVerify),
    }
}

/// A yes counts only on the last page of a prompt that was shown in full, and
/// only for the three prompts that ask for one.
pub proof fn only_a_full_screen_is_confirmed(prompt: DeviceToUserMessage, page: usize, drawn: Drawn)
    requires
        yes_to(prompt, page, drawn) is Ok,
    ensures
        prompt_shows(prompt, page, drawn) == Ok::<Shown, Refusal>(Shown::Page { last: true }),
        prompt is CheckKeyGen || prompt is SignatureRequest || asked_share(prompt) is Some,
{
}

/// A consent to a backup comes from a yes to the one page of its question, on a
/// share that can be shown in full, and from nothing else.
pub proof fn a_backup_is_granted_only_in_full(
    session: Session,
    prompt: DeviceToUserMessage,
    page: usize,
    drawn: Drawn,
    decrypted: Result<(), String>,
    accepted: bool,
)
    ensures
        session.confirmed(prompt, page, drawn, decrypted, accepted) == Ok::<Confirmed, Fault>(
            Confirmed::Revealed,
        ) <==> {
            &&& asked_share(prompt) matches Some(phase) && phase.share_index is Some
            &&& page == 0
            &&& decrypted is Ok
            &&& accepted
        },
{
}

/// Without a consent no page of a backup is shown, whatever could be drawn.
pub proof fn no_backup_is_shown_without_consent(
    session: Session,
    decrypted: Result<(), String>,
    accepted: bool,
    rendered: bool,
)
    requires
        session.granted() is None,
    ensures
        session.backup_shown(decrypted, accepted, rendered) == Err::<bool, Fault>(
            Fault::Refused(Refusal::DisplayBackup),
        ),
{
}

/// A key generation reaches the signer only for a group that this device has
/// memory for and a threshold that the group can meet.
pub proof fn a_keygen_begins_only_for_a_group_that_fits(devices: Vec<DeviceId>, threshold: u16)
    ensures
        core_refusal(CoordinatorToDeviceMessage::KeyGen(Keygen::Begin { devices, threshold }))
            is None <==> 1 <= threshold <= devices@.len() <= MAX_PARTIES,
{
}

/// No message of a coordinator has a share typed in, kept or checked, replaces
/// the firmware or erases anything.
pub proof fn what_is_never_done_on_a_coordinators_word(body: CoordinatorSendBody)
    ensures
        body is Upgrade || body is DataErase || body is Challenge ==> refusal_of(body) is Some,
        body matches CoordinatorSendBody::Core(CoordinatorToDeviceMessage::Restoration(asked)) ==> (
        refusal_of(body) is None <==> asked is RequestHeldShares || asked is DisplayBackup),
{
}

} // verus!
