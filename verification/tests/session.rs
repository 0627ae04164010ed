use coldsnap::fault::{Fault, Refusal};
use coldsnap::messages::{
    BackupDisplayPhase, CoordinatorRestoration, CoordinatorSendBody, CoordinatorSigning,
    CoordinatorToDeviceMessage, CoordinatorUpgradeMessage, DeviceId, DeviceSend, DeviceSendBody,
    DeviceSigning, DeviceToCoordinatorMessage, DeviceToUserMessage, KeyGenPhase3, Keygen,
    NameCommand, NonceSegment, Recipient, Sha256Digest, SignPhase1, SignTask, ToUserRestoration,
    TransactionPrompt,
};
use coldsnap::names::{AbWriteOutcome, FlashError, NameStore, StoreFault, NAME_RECORD_LEN};
use coldsnap::outbox::{split, CommsError, Outbox};
use coldsnap::run::{Run, RunAction, RunEvent, Unsaved};
use coldsnap::screens::Drawn;
use coldsnap::session::{Confirmed, Dispatch, HeldShare, Session, MAX_PARTIES, NONCE_SLOTS};

const ID: DeviceId = DeviceId([2u8; 33]);

/// A screen that was drawn, and is the last page.
const SHOWN: Drawn = Drawn {
    accepted: true,
    rendered: true,
    last: true,
};

fn open() -> Session {
    let (session, replay) = Session::open(Some(ID), &[7u8; 32], None, HeldShare::Empty)
        .expect("a usable secret opens");
    assert!(replay.is_empty());
    session
}

/// The flash, the encoder and the nonces, as far as a run needs them.
struct World {
    refuse_writes: bool,
    slot: Option<[u8; NAME_RECORD_LEN]>,
    writes: usize,
    /// What happened, in order.
    log: Vec<String>,
}

impl World {
    fn new() -> World {
        World {
            refuse_writes: false,
            slot: None,
            writes: 0,
            log: Vec::new(),
        }
    }

    fn encode(&self, body: &DeviceSendBody) -> Result<Vec<u8>, CommsError> {
        Ok(format!("{body:?};").into_bytes())
    }

    fn persist(&mut self) -> Result<(), StoreFault> {
        if self.refuse_writes {
            return Err(StoreFault::Flash(FlashError::Other));
        }
        self.log.push(String::from("persist"));
        Ok(())
    }

    fn drive(
        &mut self,
        mut run: Run,
        session: &mut Session,
        out: &mut Outbox,
    ) -> Result<Vec<DeviceToUserMessage>, Fault> {
        let mut event = RunEvent::Go;
        loop {
            event = match run.step(session, event, out) {
                RunAction::Encode(frames) => {
                    for frame in &frames {
                        self.log.push(format!("encode {frame:?}"));
                    }
                    RunEvent::Encoded(frames.iter().map(|f| self.encode(f)).collect())
                }
                RunAction::Generate { ticket } => {
                    self.log.push(format!("generate {ticket}"));
                    RunEvent::Generated(
                        (0..ticket)
                            .map(|ticket| NonceSegment { ticket })
                            .collect(),
                    )
                }
                RunAction::WriteName(record) => {
                    if self.refuse_writes {
                        RunEvent::Written(AbWriteOutcome::NotCommitted(FlashError::Other))
                    } else {
                        self.log.push(String::from("write name"));
                        self.writes += 1;
                        self.slot = Some(record);
                        RunEvent::Written(AbWriteOutcome::Committed)
                    }
                }
                RunAction::Done(prompts) => return Ok(prompts),
                RunAction::Failed(fault) => return Err(fault),
            };
        }
    }

    /// One message of a coordinator, where `signer` is what the signer would say
    /// to it.
    fn recv(
        &mut self,
        session: &mut Session,
        body: CoordinatorSendBody,
        signer: Result<Vec<DeviceSend>, String>,
        out: &mut Outbox,
    ) -> Result<Vec<DeviceToUserMessage>, Fault> {
        match session.recv(body)? {
            Dispatch::Done | Dispatch::ClearSigner => Ok(Vec::new()),
            Dispatch::AskSigner => {
                let unsaved = Unsaved::answered(signer)?;
                let kept = self.persist();
                let run = unsaved.persisted(kept)?;
                self.drive(run, session, out)
            }
        }
    }

    fn run(
        &mut self,
        session: &mut Session,
        sends: Vec<DeviceSend>,
        out: &mut Outbox,
    ) -> Result<Vec<DeviceToUserMessage>, Fault> {
        let unsaved = Unsaved::acknowledged(Ok(sends))?;
        let kept = self.persist();
        let run = unsaved.persisted(kept)?;
        self.drive(run, session, out)
    }
}

fn begin(n: usize, threshold: u16) -> CoordinatorSendBody {
    CoordinatorSendBody::Core(CoordinatorToDeviceMessage::KeyGen(Keygen::Begin {
        devices: vec![ID; n],
        threshold,
    }))
}

fn one_frame() -> Vec<DeviceSend> {
    vec![DeviceSend::ToCoordinator(
        DeviceToCoordinatorMessage::KeyGen { ticket: 6 },
    )]
}

fn refuse(body: CoordinatorSendBody) -> Refusal {
    let mut session = open();
    let mut out = Outbox::new(session.device_id());
    let fault = World::new()
        .recv(&mut session, body, Ok(one_frame()), &mut out)
        .expect_err("this body must be refused");
    assert_eq!(out.frames(), 0, "a refusal must not answer");
    match fault {
        Fault::Refused(r) => r,
        other => panic!("expected a refusal, got {other:?}"),
    }
}

fn restoration(asked: CoordinatorRestoration) -> CoordinatorSendBody {
    CoordinatorSendBody::Core(CoordinatorToDeviceMessage::Restoration(asked))
}

#[test]
fn firmware_upgrade_is_refused() {
    for message in [
        CoordinatorUpgradeMessage::EnterUpgradeMode,
        CoordinatorUpgradeMessage::PrepareUpgrade,
        CoordinatorUpgradeMessage::PrepareUpgrade2,
    ] {
        assert_eq!(
            refuse(CoordinatorSendBody::Upgrade(message)),
            Refusal::FirmwareUpgrade
        );
    }
}

#[test]
fn data_erase_is_refused() {
    assert_eq!(refuse(CoordinatorSendBody::DataErase), Refusal::DataErase);
}

#[test]
fn genuine_challenge_is_refused() {
    assert_eq!(
        refuse(CoordinatorSendBody::Challenge),
        Refusal::GenuineChallenge
    );
}

#[test]
fn address_verify_is_refused() {
    let body = CoordinatorSendBody::Core(CoordinatorToDeviceMessage::ScreenVerify);
    assert_eq!(refuse(body), Refusal::AddressVerify);
}

#[test]
fn physical_backup_is_refused() {
    for asked in [
        CoordinatorRestoration::CheckBackup,
        CoordinatorRestoration::EnterPhysicalBackup,
        CoordinatorRestoration::SavePhysicalBackup,
        CoordinatorRestoration::SavePhysicalBackup2,
        CoordinatorRestoration::Consolidate,
    ] {
        assert_eq!(refuse(restoration(asked)), Refusal::PhysicalBackup);
    }
}

#[test]
fn display_backup_for_a_share_we_do_not_hold_is_refused_pre_consent() {
    let mut session = open();
    let mut out = Outbox::new(session.device_id());
    let mut world = World::new();
    let fault = world
        .recv(
            &mut session,
            restoration(CoordinatorRestoration::DisplayBackup),
            Err(String::from("no such share")),
            &mut out,
        )
        .expect_err("a backup we do not hold must be refused");
    assert!(
        matches!(fault, Fault::Signer(ref e) if e == "no such share"),
        "expected the signer to refuse, got {fault:?}"
    );
    assert_eq!(out.frames(), 0, "a refused backup request must not answer");
    assert!(world.log.is_empty(), "a refused backup request must keep nothing");
    assert!(matches!(
        session.show_backup(Ok(()), true, true),
        Err(Fault::Refused(Refusal::DisplayBackup))
    ));
}

#[test]
fn announce_ack_is_latched_and_announce_asks_for_a_name() {
    let mut session = open();
    let bodies = session.announce(Sha256Digest([1u8; 32]));
    assert_eq!(
        bodies.len(),
        2,
        "Announce alone never registers a device: the coordinator's gate is a name"
    );
    assert!(matches!(
        bodies[0],
        DeviceSendBody::Announce { firmware_digest } if firmware_digest == Sha256Digest([1u8; 32])
    ));
    assert!(matches!(bodies[1], DeviceSendBody::NeedName));

    assert!(!session.coordinator_acked());
    assert!(matches!(
        session.recv(CoordinatorSendBody::AnnounceAck),
        Ok(Dispatch::Done)
    ));
    assert!(session.coordinator_acked());
    session.recv(CoordinatorSendBody::Cancel).unwrap();
    assert!(session.coordinator_acked(), "it stays acknowledged");
}

#[test]
fn a_group_over_max_parties_or_a_bad_threshold_is_refused_before_the_signer() {
    let mut session = open();
    let mut world = World::new();
    for (n, threshold) in [(13, 13u16), (16, 16), (13, 1), (1, 0), (1, 2), (0, 0)] {
        let mut out = Outbox::new(ID);
        let r = world.recv(&mut session, begin(n, threshold), Ok(one_frame()), &mut out);
        assert!(
            matches!(r, Err(Fault::Refused(Refusal::GroupTooLarge))),
            "n={n} t={threshold} must be refused as GroupTooLarge, got {r:?}"
        );
        assert_eq!(
            out.frames(),
            0,
            "n={n} t={threshold}: the refusal must precede any work"
        );
    }
    assert!(world.log.is_empty());
    let mut out = Outbox::new(ID);
    let r = world.recv(
        &mut session,
        begin(MAX_PARTIES, MAX_PARTIES as u16),
        Ok(one_frame()),
        &mut out,
    );
    assert!(
        !matches!(r, Err(Fault::Refused(Refusal::GroupTooLarge))),
        "n=MAX_PARTIES must not be refused for its size, got {r:?}"
    );
    assert_eq!(MAX_PARTIES, 12);
    assert_eq!(NONCE_SLOTS, 4);
}

#[test]
fn keygen_begin_reaches_the_signer() {
    let mut session = open();
    let mut out = Outbox::new(session.device_id());
    let prompts = World::new()
        .recv(&mut session, begin(1, 1), Ok(one_frame()), &mut out)
        .expect("Begin must be handled");
    assert_eq!(out.frames(), 1, "the device must answer Begin");
    assert!(prompts.is_empty(), "Begin asks the human nothing yet");
}

#[test]
fn everything_else_of_a_ceremony_reaches_the_signer() {
    for core in [
        CoordinatorToDeviceMessage::KeyGen(Keygen::CertifyPlease),
        CoordinatorToDeviceMessage::KeyGen(Keygen::Check),
        CoordinatorToDeviceMessage::KeyGen(Keygen::Finalize),
        CoordinatorToDeviceMessage::Signing(CoordinatorSigning::OpenNonceStreams),
        CoordinatorToDeviceMessage::Signing(CoordinatorSigning::RequestSign),
        CoordinatorToDeviceMessage::Restoration(CoordinatorRestoration::RequestHeldShares),
        CoordinatorToDeviceMessage::Restoration(CoordinatorRestoration::DisplayBackup),
    ] {
        let mut session = open();
        assert!(matches!(
            session.recv(CoordinatorSendBody::Core(core)),
            Ok(Dispatch::AskSigner)
        ));
    }
}

#[test]
fn sign_request_for_a_key_we_do_not_hold_is_refused_pre_consent() {
    let mut session = open();
    let mut out = Outbox::new(session.device_id());
    let mut world = World::new();
    let fault = world
        .recv(
            &mut session,
            CoordinatorSendBody::Core(CoordinatorToDeviceMessage::Signing(
                CoordinatorSigning::RequestSign,
            )),
            Err(String::from("unknown key")),
            &mut out,
        )
        .expect_err("a sign request for a key we do not hold must be refused");
    assert!(
        matches!(fault, Fault::Signer(_)),
        "expected the signer to refuse, got {fault:?}"
    );
    assert_eq!(out.frames(), 0, "a refused sign request must not answer");
    assert!(
        world.log.is_empty(),
        "a refused sign request must keep nothing"
    );
}

#[test]
fn confirm_on_a_non_consent_prompt_is_not_confirmable() {
    let mut session = open();
    for prompt in [
        DeviceToUserMessage::FinalizeKeyGen {
            key_name: String::from("k"),
        },
        DeviceToUserMessage::VerifyAddress { ticket: 1 },
        DeviceToUserMessage::NonceJobs { ticket: 1 },
        DeviceToUserMessage::Restoration(ToUserRestoration::BackupSaved),
        DeviceToUserMessage::Restoration(ToUserRestoration::EnterBackup { ticket: 1 }),
        DeviceToUserMessage::Restoration(ToUserRestoration::ConsolidateBackup { ticket: 1 }),
        DeviceToUserMessage::Restoration(ToUserRestoration::CheckBackup {
            phase: BackupDisplayPhase {
                share_index: Some(1),
                ticket: 1,
            },
        }),
    ] {
        let fault = session
            .confirm(&prompt, SHOWN, Ok(()), true)
            .expect_err("not a consent prompt");
        assert!(matches!(fault, Fault::NotConfirmable), "got {fault:?}");
    }
    assert!(session.revealing().is_none());
}

#[test]
fn a_yes_to_a_key_generation_and_to_a_text_goes_to_the_signer() {
    let mut session = open();
    let keygen = DeviceToUserMessage::CheckKeyGen {
        phase: KeyGenPhase3 {
            threshold: 2,
            parties: 3,
            session_hash: [1; 32],
            key_name: String::from("k"),
            ticket: 11,
        },
    };
    assert!(matches!(
        session.confirm(&keygen, SHOWN, Ok(()), true),
        Ok(Confirmed::KeygenAck { ticket: 11 })
    ));
    let text = DeviceToUserMessage::SignatureRequest {
        phase: SignPhase1 {
            task: SignTask::Test {
                message: String::from("m"),
            },
            ticket: 12,
        },
    };
    assert!(matches!(
        session.confirm(&text, SHOWN, Ok(()), true),
        Ok(Confirmed::SignAck { ticket: 12 })
    ));
    let unshowable = Drawn {
        accepted: false,
        ..SHOWN
    };
    assert!(matches!(
        session.confirm(&text, unshowable, Ok(()), true),
        Err(Fault::Refused(Refusal::Undisplayable))
    ));
    assert!(matches!(
        Unsaved::acknowledged(Err(String::from("stale"))),
        Err(Fault::Action(e)) if e == "stale"
    ));
}

fn transaction(prompt: Option<TransactionPrompt>) -> DeviceToUserMessage {
    DeviceToUserMessage::SignatureRequest {
        phase: SignPhase1 {
            task: SignTask::BitcoinTransaction { prompt },
            ticket: 5,
        },
    }
}

fn two_recipients() -> TransactionPrompt {
    TransactionPrompt {
        foreign_recipients: vec![
            Recipient {
                address: String::from("bc1qa"),
                sats: 300_000,
            },
            Recipient {
                address: String::from("bc1qb"),
                sats: 200_000,
            },
        ],
        fee_sats: 500_000,
    }
}

#[test]
fn the_consent_gate_uses_the_page_it_was_given_and_demands_the_last_one() {
    let mut session = open();
    let prompt = transaction(Some(two_recipients()));
    let middle = Drawn {
        last: false,
        ..SHOWN
    };
    assert!(matches!(
        session.confirm_at(&prompt, 0, middle, Ok(()), true),
        Err(Fault::NotConfirmable)
    ));
    assert!(matches!(
        session.confirm_at(&prompt, 6, SHOWN, Ok(()), true),
        Ok(Confirmed::SignAck { ticket: 5 })
    ));
    let past_the_end = Drawn {
        rendered: false,
        ..SHOWN
    };
    assert!(matches!(
        session.confirm_at(&prompt, 7, past_the_end, Ok(()), true),
        Err(Fault::Refused(Refusal::Undisplayable))
    ));
    assert!(matches!(
        session.confirm_at(&transaction(None), 0, SHOWN, Ok(()), true),
        Err(Fault::Refused(Refusal::Undisplayable))
    ));
}

#[test]
fn a_persisted_keygen_survives_a_reset_and_answers_request_held_shares() {
    let (mut session, replay) = Session::open(
        Some(ID),
        &[7u8; 32],
        None,
        HeldShare::Share {
            mutations: vec![31, 32, 33],
        },
    )
    .unwrap();
    assert_eq!(
        replay,
        vec![31, 32, 33],
        "the changes must come back in the order in which they were made"
    );
    let mut out = Outbox::new(session.device_id());
    World::new()
        .recv(
            &mut session,
            restoration(CoordinatorRestoration::RequestHeldShares),
            Ok(vec![DeviceSend::ToCoordinator(
                DeviceToCoordinatorMessage::Restoration { ticket: 31 },
            )]),
            &mut out,
        )
        .expect("RequestHeldShares is answered");
    assert_eq!(out.frames(), 1);

    for held in [HeldShare::Empty, HeldShare::Damaged] {
        let (_, replay) = Session::open(Some(ID), &[7u8; 32], None, held).unwrap();
        assert!(replay.is_empty(), "there is no share to bring back");
    }
}

#[test]
fn a_secret_that_is_no_key_opens_no_session() {
    assert!(matches!(
        Session::open(None, &[0u8; 32], None, HeldShare::Empty),
        Err(Fault::IdentityScalar)
    ));
    let session = open();
    assert_eq!(session.device_id(), ID);
    assert_eq!(
        session.secrets().derive_nonce_seed(&[1; 16], 2, &[3; 32]),
        coldsnap::digest::Secrets::new(&[7u8; 32]).derive_nonce_seed(&[1; 16], 2, &[3; 32])
    );
}

#[test]
fn a_share_that_cannot_be_written_is_never_acked() {
    let mut session = open();
    let mut out = Outbox::new(session.device_id());
    let mut world = World::new();
    world.refuse_writes = true;
    let fault = world
        .recv(&mut session, begin(1, 1), Ok(one_frame()), &mut out)
        .expect_err("a persist failure must fail the whole message");
    assert!(
        matches!(fault, Fault::Store(StoreFault::Flash(_))),
        "expected a store fault, got {fault:?}"
    );
    assert_eq!(
        out.frames(),
        0,
        "the ack reached the outbox although the share was not written"
    );
    assert!(world.log.is_empty(), "nothing was even encoded");

    world.refuse_writes = false;
    world
        .recv(&mut session, begin(1, 1), Ok(one_frame()), &mut out)
        .expect("dispatch after the flash recovers");
    assert!(out.frames() > 0, "the retry must answer");
    assert_eq!(world.log[0], "persist");
}

fn preview(name: &str) -> CoordinatorSendBody {
    CoordinatorSendBody::Naming(NameCommand::Preview(String::from(name)))
}

#[test]
fn a_previewed_name_is_neither_written_nor_announced() {
    let mut session = open();
    let mut out = Outbox::new(session.device_id());
    let mut world = World::new();

    let prompts = world
        .recv(&mut session, preview("cold-1"), Ok(Vec::new()), &mut out)
        .expect("a preview is handled");
    assert!(prompts.is_empty(), "a preview asks the human nothing");
    assert_eq!(out.frames(), 0, "a preview is not answered");
    assert_eq!(world.writes, 0, "a preview reached flash");
    assert_eq!(session.pending_name(), Some("cold-1"));
    assert_eq!(session.stored_name(), None, "a preview is not durable");

    session
        .recv(CoordinatorSendBody::Naming(NameCommand::Retired))
        .expect("ignored");
    assert_eq!(session.pending_name(), Some("cold-1"));

    session
        .recv(CoordinatorSendBody::Cancel)
        .expect("Cancel is handled");
    assert_eq!(session.pending_name(), None);
}

fn finalize() -> Vec<DeviceSend> {
    vec![DeviceSend::ToUser(DeviceToUserMessage::FinalizeKeyGen {
        key_name: String::from("vault"),
    })]
}

#[test]
fn a_name_is_committed_at_finalize_and_written_before_it_is_announced() {
    let mut session = open();
    let mut out = Outbox::new(session.device_id());
    let mut world = World::new();
    session.recv(preview("cold-1")).unwrap();

    // The share can be kept, and then the flash refuses the name.
    let run = Unsaved::answered(Ok(finalize()))
        .unwrap()
        .persisted(Ok(()))
        .ok()
        .unwrap();
    world.refuse_writes = true;
    let fault = world
        .drive(run, &mut session, &mut out)
        .expect_err("a name that cannot be stored must not be announced");
    assert!(
        matches!(fault, Fault::Store(StoreFault::Flash(_))),
        "got {fault:?}"
    );
    assert_eq!(out.frames(), 0, "SetName went out before the write landed");
    assert_eq!(session.pending_name(), None, "the name was consumed");

    world.refuse_writes = false;
    session.recv(preview("cold-1")).unwrap();
    let prompts = world
        .run(&mut session, finalize(), &mut out)
        .expect("finalize");
    assert_eq!(
        session.stored_name().as_deref(),
        Some("cold-1"),
        "the approved name was not written: it dies at the next unplug"
    );
    assert_eq!(NameStore::open(world.slot).load().as_deref(), Some("cold-1"));
    assert_eq!(out.frames(), 1, "exactly one SetName");
    assert!(
        out.bytes().windows(6).any(|w| w == b"cold-1"),
        "the name is not on the wire"
    );
    assert!(
        matches!(
            prompts.as_slice(),
            [DeviceToUserMessage::FinalizeKeyGen { .. }]
        ),
        "the prompt must still reach the caller, got {prompts:?}"
    );
    assert_eq!(session.pending_name(), None);
    assert_eq!(
        world.log[..2],
        [String::from("persist"), String::from("write name")],
        "the share is kept first, then the name, and only then is anything sent"
    );
    assert_eq!(world.log.len(), 3);
}

#[test]
fn a_store_fault_leaves_the_outbox_as_it_was_when_the_run_began() {
    let sends = || {
        let mut sends = one_frame();
        sends.extend(finalize());
        sends.extend(one_frame());
        sends
    };
    let mut session = open();
    let mut out = Outbox::new(session.device_id());
    out.push(&vec![Ok(vec![8, 9])]).unwrap();
    let mut world = World::new();

    session.recv(preview("cold-1")).unwrap();
    let run = Unsaved::answered(Ok(sends()))
        .unwrap()
        .persisted(Ok(()))
        .ok()
        .unwrap();
    world.refuse_writes = true;
    assert!(matches!(
        world.drive(run, &mut session, &mut out),
        Err(Fault::Store(StoreFault::Flash(_)))
    ));
    assert_eq!(out.bytes(), &[8, 9], "something was acknowledged");
    assert_eq!(out.frames(), 1);

    world.refuse_writes = false;
    session.recv(preview(&"e".repeat(57))).unwrap();
    assert!(matches!(
        world.run(&mut session, sends(), &mut out),
        Err(Fault::Store(StoreFault::TooBig))
    ));
    assert_eq!(out.bytes(), &[8, 9]);
    assert_eq!(out.frames(), 1);

    session.recv(preview("cold-1")).unwrap();
    world.run(&mut session, sends(), &mut out).unwrap();
    assert_eq!(out.frames(), 4, "two messages and the name");
}

#[test]
fn a_name_that_does_not_fit_is_not_written_and_not_told() {
    let mut session = open();
    let mut out = Outbox::new(session.device_id());
    let mut world = World::new();
    session.recv(preview(&"e".repeat(57))).unwrap();
    let fault = world
        .run(&mut session, finalize(), &mut out)
        .expect_err("too long");
    assert!(matches!(fault, Fault::Store(StoreFault::TooBig)));
    assert_eq!(world.writes, 0);
    assert_eq!(out.frames(), 0);
    assert_eq!(session.pending_name(), None);
}

#[test]
fn without_a_previewed_name_nothing_is_written() {
    let mut session = open();
    let mut out = Outbox::new(session.device_id());
    let mut world = World::new();
    let prompts = world.run(&mut session, finalize(), &mut out).unwrap();
    assert_eq!(prompts.len(), 1);
    assert_eq!(world.writes, 0);
    assert_eq!(out.frames(), 0);
}

#[test]
fn a_run_sends_and_prompts_in_order_and_generates_nonces() {
    let mut session = open();
    let mut out = Outbox::new(session.device_id());
    let mut world = World::new();
    let sends = vec![
        DeviceSend::ToUser(DeviceToUserMessage::VerifyAddress { ticket: 1 }),
        DeviceSend::ToCoordinator(DeviceToCoordinatorMessage::KeyGen { ticket: 2 }),
        DeviceSend::ToUser(DeviceToUserMessage::NonceJobs { ticket: 3 }),
        DeviceSend::ToCoordinator(DeviceToCoordinatorMessage::Signing(
            DeviceSigning::SignatureShare { ticket: 4 },
        )),
        DeviceSend::ToUser(DeviceToUserMessage::Restoration(
            ToUserRestoration::BackupSaved,
        )),
    ];
    let prompts = world.run(&mut session, sends, &mut out).unwrap();
    assert!(matches!(
        prompts[..],
        [
            DeviceToUserMessage::VerifyAddress { ticket: 1 },
            DeviceToUserMessage::Restoration(ToUserRestoration::BackupSaved),
        ]
    ));
    assert_eq!(out.frames(), 5, "one, three segments, and one");
    assert_eq!(world.log[0], "persist");
    assert_eq!(
        world.log[1],
        "encode Core(KeyGen { ticket: 2 })"
    );
    assert_eq!(world.log[2], "generate 3");
    for (i, line) in world.log[3..6].iter().enumerate() {
        assert_eq!(
            line,
            &format!(
                "encode Core(Signing(NonceResponse {{ segments: [NonceSegment {{ ticket: {i} }}] }}))"
            )
        );
    }
    assert_eq!(
        world.log[6],
        "encode Core(Signing(SignatureShare { ticket: 4 }))"
    );
}

#[test]
fn a_frame_that_does_not_fit_ends_the_run_and_leaves_the_outbox_as_it_was() {
    let mut session = open();
    let mut out = Outbox::new(session.device_id());
    out.push(&vec![Ok(vec![8])]).unwrap();
    let sends = vec![
        DeviceSend::ToCoordinator(DeviceToCoordinatorMessage::KeyGen { ticket: 1 }),
        DeviceSend::ToCoordinator(DeviceToCoordinatorMessage::Restoration { ticket: 2 }),
        DeviceSend::ToCoordinator(DeviceToCoordinatorMessage::KeyGen { ticket: 3 }),
    ];
    let mut run = Unsaved::answered(Ok(sends))
        .unwrap()
        .persisted(Ok(()))
        .ok()
        .unwrap();
    assert!(matches!(
        run.step(&mut session, RunEvent::Go, &mut out),
        RunAction::Encode(frames) if frames.len() == 1
    ));
    assert!(matches!(
        run.step(
            &mut session,
            RunEvent::Encoded(vec![Ok(vec![1, 2, 3])]),
            &mut out
        ),
        RunAction::Encode(frames) if frames.len() == 1
    ));
    assert!(matches!(
        run.step(
            &mut session,
            RunEvent::Encoded(vec![Ok(vec![9; 5000])]),
            &mut out
        ),
        RunAction::Failed(Fault::Comms(CommsError::FrameTooLong))
    ));
    assert_eq!(out.bytes(), &[8]);
    assert_eq!(out.frames(), 1);
    assert!(matches!(
        Fault::from(CommsError::Unencodable),
        Fault::Comms(CommsError::Unencodable)
    ));
}

#[test]
fn a_stored_name_is_announced_as_setname_after_the_announce() {
    let nameless = open().announce(Sha256Digest([1u8; 32]));
    assert_eq!(nameless.len(), 2, "Announce and a name message");

    let record = NameStore::open(None).save("cold-1").unwrap();
    let (mut session, _) =
        Session::open(Some(ID), &[7u8; 32], Some(record), HeldShare::Empty).unwrap();
    assert_eq!(session.stored_name().as_deref(), Some("cold-1"));
    let named = session.announce(Sha256Digest([1u8; 32]));
    assert_eq!(named.len(), 2, "Announce and SetName");
    assert_eq!(
        format!("{:?}", named[0]),
        format!("{:?}", nameless[0]),
        "SetName overtook the announce"
    );
    assert!(matches!(&named[1], DeviceSendBody::SetName { name } if name == "cold-1"));

    // A record may hold more characters than a name has on the wire.
    let long = "abcdefghijklmnopqrst";
    session.reread_name(Some(NameStore::open(None).save(long).unwrap()));
    assert_eq!(session.stored_name().as_deref(), Some(long));
    let bodies = session.announce(Sha256Digest([1u8; 32]));
    assert!(matches!(&bodies[1], DeviceSendBody::SetName { name } if name == "abcdefghijklmn"));
    session.reread_name(None);
    assert_eq!(session.stored_name(), None);
}

fn backup_prompt() -> DeviceToUserMessage {
    DeviceToUserMessage::Restoration(ToUserRestoration::DisplayBackup {
        key_name: String::from("vault"),
        phase: BackupDisplayPhase {
            share_index: Some(1),
            ticket: 77,
        },
    })
}

/// Drives the request to the one prompt that it produces.
fn ask_for_backup(session: &mut Session, out: &mut Outbox) -> DeviceToUserMessage {
    let mut prompts = World::new()
        .recv(
            session,
            restoration(CoordinatorRestoration::DisplayBackup),
            Ok(vec![DeviceSend::ToUser(backup_prompt())]),
            out,
        )
        .expect("a backup we hold must reach the human");
    assert_eq!(prompts.len(), 1, "one request, one question");
    prompts.pop().expect("checked above")
}

const PAGES: usize = 8;

#[test]
fn a_backup_is_never_drawn_before_the_digit_is_pressed() {
    let mut session = open();
    let mut out = Outbox::new(session.device_id());
    let prompt = ask_for_backup(&mut session, &mut out);
    assert_eq!(
        out.frames(),
        0,
        "`recv` must answer NOTHING for a backup request"
    );

    assert!(session.revealing().is_none());
    assert!(
        matches!(
            session.show_backup(Ok(()), true, true),
            Err(Fault::Refused(Refusal::DisplayBackup))
        ),
        "a backup was drawn with no consent behind it"
    );

    assert!(matches!(
        session.confirm(&prompt, SHOWN, Ok(()), true),
        Ok(Confirmed::Revealed)
    ));
    assert_eq!(
        out.frames(),
        0,
        "consenting to a reveal must not answer the coordinator either"
    );
    assert_eq!(session.revealing().map(|p| p.ticket), Some(77));

    for page in 0..PAGES {
        assert!(
            session
                .show_backup(Ok(()), true, true)
                .expect("a granted reveal must draw"),
            "page {page} of a granted reveal did not draw"
        );
    }
}

#[test]
fn a_backup_that_cannot_be_shown_in_full_is_not_granted() {
    let mut session = open();
    assert!(matches!(
        session.confirm(&backup_prompt(), SHOWN, Err(String::from("bad key")), true),
        Err(Fault::Action(e)) if e == "bad key"
    ));
    assert!(matches!(
        session.confirm(&backup_prompt(), SHOWN, Ok(()), false),
        Err(Fault::Refused(Refusal::DisplayBackup))
    ));
    let unprintable = DeviceToUserMessage::Restoration(ToUserRestoration::DisplayBackup {
        key_name: String::from("vault"),
        phase: BackupDisplayPhase {
            share_index: None,
            ticket: 78,
        },
    });
    assert!(matches!(
        session.confirm(&unprintable, SHOWN, Ok(()), true),
        Err(Fault::Refused(Refusal::DisplayBackup))
    ));
    assert!(session.revealing().is_none());
}

#[test]
fn no_word_of_a_revealed_backup_ever_reaches_the_outbox() {
    let mut session = open();
    let mut out = Outbox::new(session.device_id());
    let world = World::new();
    for body in session.announce(Sha256Digest([9u8; 32])) {
        let encoded: Vec<_> = split(body).iter().map(|f| world.encode(f)).collect();
        out.push(&encoded).unwrap();
    }
    let framed = out.frames();
    let bytes = out.bytes().to_vec();
    assert!(framed > 0);

    let prompt = ask_for_backup(&mut session, &mut out);
    session
        .confirm(&prompt, SHOWN, Ok(()), true)
        .expect("grant");
    for page in 0..=PAGES {
        let _ = session.show_backup(Ok(()), true, page < PAGES);
    }
    assert_eq!(
        out.frames(),
        framed,
        "the backup flow put {} extra frame(s) on the wire",
        out.frames() - framed
    );
    assert_eq!(out.bytes(), &bytes[..]);
}

#[test]
fn a_reveal_grant_ends_with_its_pages_and_is_revoked_by_cancel() {
    let mut session = open();
    let mut out = Outbox::new(session.device_id());

    let prompt = ask_for_backup(&mut session, &mut out);
    session
        .confirm(&prompt, SHOWN, Ok(()), true)
        .expect("grant");
    for _ in 0..PAGES {
        assert!(session.show_backup(Ok(()), true, true).unwrap());
    }
    assert!(
        !session
            .show_backup(Ok(()), true, false)
            .expect("past the end is not a fault, it is the end"),
        "there must be no page after the last one"
    );
    assert!(
        matches!(
            session.show_backup(Ok(()), true, true),
            Err(Fault::Refused(Refusal::DisplayBackup))
        ),
        "the grant outlived its reveal: a second look needs a second consent"
    );

    let prompt = ask_for_backup(&mut session, &mut out);
    session
        .confirm(&prompt, SHOWN, Ok(()), true)
        .expect("grant");
    assert!(session.show_backup(Ok(()), true, true).unwrap());
    assert!(matches!(
        session.recv(CoordinatorSendBody::Cancel),
        Ok(Dispatch::ClearSigner)
    ));
    assert!(
        matches!(
            session.show_backup(Ok(()), true, true),
            Err(Fault::Refused(Refusal::DisplayBackup))
        ),
        "a cancelled ceremony left a live reveal grant behind"
    );

    // A fault while revealing ends the consent as well.
    let prompt = ask_for_backup(&mut session, &mut out);
    session
        .confirm(&prompt, SHOWN, Ok(()), true)
        .expect("grant");
    assert!(matches!(
        session.show_backup(Err(String::from("gone")), true, true),
        Err(Fault::Action(_))
    ));
    assert!(session.revealing().is_none());
}

#[test]
fn only_page_0_of_the_backup_question_draws_or_authorises() {
    let mut session = open();
    let mut out = Outbox::new(session.device_id());
    let prompt = ask_for_backup(&mut session, &mut out);

    for page in [1usize, 2, 8, usize::MAX] {
        assert_eq!(
            coldsnap::screens::prompt_screen_at(&prompt, page, SHOWN),
            Err(Refusal::DisplayBackup),
            "page {page} of a one-page question must refuse"
        );
        let fault = session
            .confirm_at(&prompt, page, SHOWN, Ok(()), true)
            .expect_err("a page that does not draw cannot authorise");
        assert!(
            matches!(fault, Fault::Refused(Refusal::DisplayBackup)),
            "page {page}: got {fault:?}"
        );
        assert!(
            matches!(
                session.show_backup(Ok(()), true, true),
                Err(Fault::Refused(Refusal::DisplayBackup))
            ),
            "page {page} granted a reveal"
        );
    }
    assert_eq!(out.frames(), 0, "a refused question must not answer");
}

#[test]
fn cancel_is_handled_and_silent() {
    let mut session = open();
    let mut out = Outbox::new(session.device_id());
    let prompts = World::new()
        .recv(
            &mut session,
            CoordinatorSendBody::Cancel,
            Ok(Vec::new()),
            &mut out,
        )
        .expect("Cancel is handled");
    assert!(prompts.is_empty());
    assert_eq!(out.frames(), 0);
}
