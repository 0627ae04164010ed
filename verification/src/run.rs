//! Carrying out what the signer hands back: what it keeps is kept first, then its
//! messages go out in order, and its prompts come back to be shown.
//!
//! The work is done step by step. Each step says what has to be done outside of
//! this library, and the next takes what came of it.

use vstd::prelude::*;
use vstd::utf8::encode_utf8;
use crate::fault::Fault;
use crate::messages::{
    DeviceSend, DeviceSendBody, DeviceSigning, DeviceToCoordinatorMessage, DeviceToUserMessage,
    NonceSegment,
};
use crate::names::{
    name_record, stored_name_in, AbWriteOutcome, StoreFault, DEVICE_NAME_MAX_BYTES,
    NAME_RECORD_LEN,
};
use crate::outbox::{
    after_push, counted, first_refusal, frame_count, frames_join, frames_of, joined, refusal,
    split, CommsError, Outbox,
};
use crate::session::Session;

verus! {

/// What the signer handed back, before what it keeps is on the flash. Nothing of
/// it can be sent yet.
pub struct Unsaved {
    work: Vec<DeviceSend>,
}

impl Unsaved {
    /// What is to be done, in order.
    pub closed spec fn work(self) -> Seq<DeviceSend> {
        self.work@
    }

    /// What the signer made of a message of the coordinator.
    pub fn answered(answer: Result<Vec<DeviceSend>, String>) -> (unsaved: Result<Unsaved, Fault>)
        ensures
            match answer {
                Ok(sends) => unsaved matches Ok(u) && u.work() == sends@,
                Err(e) => unsaved == Err::<Unsaved, Fault>(Fault::Signer(e)),
            },
    {
        match answer {
            Ok(work) => Ok(Unsaved { work }),
            Err(e) => Err(Fault::Signer(e)),
        }
    }

    /// What the signer made of a yes.
    pub fn acknowledged(answer: Result<Vec<DeviceSend>, String>) -> (unsaved: Result<Unsaved, Fault>)
        ensures
            match answer {
                Ok(sends) => unsaved matches Ok(u) && u.work() == sends@,
                Err(e) => unsaved == Err::<Unsaved, Fault>(Fault::Action(e)),
            },
    {
        match answer {
            Ok(work) => Ok(Unsaved { work }),
            Err(e) => Err(Fault::Action(e)),
        }
    }

    /// Begins to carry out the work, once what the signer keeps is on the flash.
    /// Where it could not be kept there is nothing to carry out.
    pub fn persisted(self, kept: Result<(), StoreFault>) -> (run: Result<Run, Fault>)
        ensures
            match kept {
                Ok(()) => run matches Ok(r) && r.work() == self.work() && r.prompts()
                    == Seq::<DeviceToUserMessage>::empty() && r.staged() == Seq::<
                    Result<Vec<u8>, CommsError>,
                >::empty() && r.waits() is Ready,
                Err(e) => run == Err::<Run, Fault>(Fault::Store(e)),
            },
    {
        match kept {
            Ok(()) => {
                let run = Run {
                    work: self.work,
                    prompts: Vec::new(),
                    staged: Vec::new(),
                    waiting: Waiting::Ready,
                };
                proof {
                    assert(run.prompts() =~= Seq::<DeviceToUserMessage>::empty());
                    assert(run.staged() =~= Seq::<Result<Vec<u8>, CommsError>>::empty());
                }
                Ok(run)
            },
            Err(e) => Err(Fault::Store(e)),
        }
    }
}

/// What a run waits for.
enum Waiting {
    Ready,
    Encoding { frames: usize, after: Option<DeviceToUserMessage> },
    Nonces,
    Name { record: [u8; NAME_RECORD_LEN], name: String, after: DeviceToUserMessage },
    Over,
}

/// What a run waits for.
pub ghost enum Waits {
    /// To be begun.
    Ready,
    /// The encoding of a message. A prompt may follow it.
    Encoding {
        /// How many frames the message has.
        frames: int,
        /// The prompt.
        after: Option<DeviceToUserMessage>,
    },
    /// The nonces that were asked for.
    Nonces,
    /// A record with the device's name to be written.
    Name {
        /// The record.
        record: Seq<u8>,
        /// The name in it.
        name: String,
        /// The prompt that follows.
        after: DeviceToUserMessage,
    },
    /// Nothing: the run is over.
    Over,
}

impl Waits {
    /// Whether an event is what is waited for.
    pub open spec fn expects(self, event: RunEvent) -> bool {
        match event {
            RunEvent::Go => self is Ready,
            RunEvent::Encoded(encoded) => self matches Waits::Encoding { frames, .. }
                && encoded@.len() == frames,
            RunEvent::Generated(_) => self is Nonces,
            RunEvent::Written(_) => self is Name,
        }
    }
}

/// What came of the last thing that was to be done.
pub enum RunEvent {
    /// Nothing was to be done yet.
    Go,
    /// What encoding said of each frame.
    Encoded(Vec<Result<Vec<u8>, CommsError>>),
    /// The nonces were generated.
    Generated(Vec<NonceSegment>),
    /// A record was written, or not.
    Written(AbWriteOutcome),
}

/// What is to be done next.
pub enum RunAction {
    /// Encode these frames.
    Encode(Vec<DeviceSendBody>),
    /// Generate the nonces of this batch.
    Generate {
        /// Where the signer's batch is kept.
        ticket: u64,
    },
    /// Write this record to the region of the device's name.
    WriteName([u8; NAME_RECORD_LEN]),
    /// Nothing. These are the prompts.
    Done(Vec<DeviceToUserMessage>),
    /// Nothing. This went wrong.
    Failed(Fault),
}

/// What is to be done next, as one value.
pub ghost enum Job {
    /// Send a message of the signer.
    Forward(DeviceToCoordinatorMessage),
    /// Generate the nonces of a batch.
    Generate(u64),
    /// Send nonces.
    Respond(Vec<NonceSegment>),
    /// Write a record.
    Write(Seq<u8>),
    /// Tell the coordinator the device's name.
    TellName(String),
    /// Nothing: the run is over, with these prompts.
    Done(Seq<DeviceToUserMessage>),
    /// Nothing: the run went wrong.
    Fail(Fault),
}

/// Whether an action is the one that does a job.
pub open spec fn does(action: RunAction, job: Job) -> bool {
    match job {
        Job::Forward(message) => action matches RunAction::Encode(frames) && frames_of(
            DeviceSendBody::Core(message),
            frames@,
        ),
        Job::Generate(t) => action == RunAction::Generate { ticket: t },
        Job::Respond(segments) => action matches RunAction::Encode(frames) && frames_of(
            DeviceSendBody::Core(
                DeviceToCoordinatorMessage::Signing(DeviceSigning::NonceResponse { segments }),
            ),
            frames@,
        ),
        Job::Write(bytes) => action matches RunAction::WriteName(record) && record@ == bytes,
        Job::TellName(name) => action matches RunAction::Encode(frames) && frames_of(
            DeviceSendBody::SetName { name },
            frames@,
        ),
        Job::Done(all) => action matches RunAction::Done(prompts) && prompts@ == all,
        Job::Fail(why) => action == RunAction::Failed(why),
    }
}

/// A run, with what it changes of the device and of the outbox.
pub ghost struct RunState {
    /// What is still to be done.
    pub work: Seq<DeviceSend>,
    /// The prompts so far.
    pub prompts: Seq<DeviceToUserMessage>,
    /// The frames that go into the outbox once the run is done.
    pub staged: Seq<Result<Vec<u8>, CommsError>>,
    /// What the run waits for.
    pub waits: Waits,
    /// The name that waits for approval.
    pub pending: Option<String>,
    /// The record in the region of the name.
    pub slot: Option<Seq<u8>>,
    /// The bytes in the outbox.
    pub sent: Seq<u8>,
    /// How many frames they are.
    pub count: int,
}

impl RunState {
    /// The run once it has gone on to the next thing to do, and that thing.
    ///
    /// A message is encoded, nonces are generated, and a finished key generation
    /// has the approved name written. Every other prompt is only handed back. When
    /// nothing is left to do, everything that was encoded goes into the outbox, and
    /// not before: a run that goes wrong leaves the outbox as it was.
    pub open spec fn gone_on(self) -> (RunState, Job)
        decreases self.work.len(),
    {
        if self.work.len() == 0 {
            match first_refusal(self.staged) {
                Some(e) => (RunState { waits: Waits::Over, ..self }, Job::Fail(Fault::Comms(e))),
                None => {
                    let (sent, count) = after_push(self.sent, self.count, self.staged);
                    (
                        RunState {
                            waits: Waits::Over,
                            prompts: Seq::empty(),
                            staged: Seq::empty(),
                            sent,
                            count,
                            ..self
                        },
                        Job::Done(self.prompts),
                    )
                },
            }
        } else {
            let rest = self.work.skip(1);
            match self.work[0] {
                DeviceSend::ToCoordinator(message) => (
                    RunState { work: rest, ..self }.encoding(DeviceSendBody::Core(message), None),
                    Job::Forward(message),
                ),
                DeviceSend::ToUser(DeviceToUserMessage::NonceJobs { ticket }) => (
                    RunState { work: rest, waits: Waits::Nonces, ..self },
                    Job::Generate(ticket),
                ),
                DeviceSend::ToUser(prompt) => match (prompt, self.pending) {
                    (DeviceToUserMessage::FinalizeKeyGen { .. }, Some(name)) => {
                        RunState { work: rest, pending: None, ..self }.naming(prompt, name)
                    },
                    _ => RunState {
                        work: rest,
                        prompts: self.prompts.push(prompt),
                        ..self
                    }.gone_on(),
                },
            }
        }
    }

    /// The run while the frames of a message are encoded, with the prompt that
    /// follows it.
    pub open spec fn encoding(
        self,
        body: DeviceSendBody,
        after: Option<DeviceToUserMessage>,
    ) -> RunState {
        RunState { waits: Waits::Encoding { frames: frame_count(body), after }, ..self }
    }

    /// The run once the frames of a message were encoded, with the prompt that
    /// followed it.
    pub open spec fn with_frames(
        self,
        encoded: Seq<Result<Vec<u8>, CommsError>>,
        after: Option<DeviceToUserMessage>,
    ) -> RunState {
        RunState {
            waits: Waits::Over,
            staged: self.staged + encoded,
            prompts: match after {
                Some(prompt) => self.prompts.push(prompt),
                None => self.prompts,
            },
            ..self
        }
    }

    /// The run once the name that was approved is to be written, unless it does
    /// not fit, in which case the run is over.
    pub open spec fn naming(self, prompt: DeviceToUserMessage, name: String) -> (RunState, Job) {
        let bytes = encode_utf8(name@);
        if bytes.len() > DEVICE_NAME_MAX_BYTES {
            (
                RunState { waits: Waits::Over, ..self },
                Job::Fail(Fault::Store(StoreFault::TooBig)),
            )
        } else {
            (
                RunState {
                    waits: Waits::Name { record: name_record(bytes), name, after: prompt },
                    ..self
                },
                Job::Write(name_record(bytes)),
            )
        }
    }

    /// The run after an event that it waits for, and the next thing to do.
    pub open spec fn step(self, event: RunEvent) -> (RunState, Job) {
        match (self.waits, event) {
            (Waits::Encoding { after, .. }, RunEvent::Encoded(encoded)) => {
                match first_refusal(encoded@) {
                    Some(e) => (
                        RunState { waits: Waits::Over, ..self },
                        Job::Fail(Fault::Comms(e)),
                    ),
                    None => self.with_frames(encoded@, after).gone_on(),
                }
            },
            (Waits::Nonces, RunEvent::Generated(segments)) => (
                self.encoding(
                    DeviceSendBody::Core(
                        DeviceToCoordinatorMessage::Signing(
                            DeviceSigning::NonceResponse { segments },
                        ),
                    ),
                    None,
                ),
                Job::Respond(segments),
            ),
            (Waits::Name { record, name, after }, RunEvent::Written(outcome)) => match outcome {
                AbWriteOutcome::NotCommitted(e) => (
                    RunState { waits: Waits::Over, ..self },
                    Job::Fail(Fault::Store(StoreFault::Flash(e))),
                ),
                _ => (
                    RunState { slot: Some(record), ..self }.encoding(
                        DeviceSendBody::SetName { name },
                        Some(after),
                    ),
                    Job::TellName(name),
                ),
            },
            _ => RunState { waits: Waits::Over, ..self }.gone_on(),
        }
    }
}

/// Work of the signer that is being carried out.
pub struct Run {
    work: Vec<DeviceSend>,
    prompts: Vec<DeviceToUserMessage>,
    staged: Vec<Result<Vec<u8>, CommsError>>,
    waiting: Waiting,
}

impl Run {
    /// What is still to be done.
    pub closed spec fn work(self) -> Seq<DeviceSend> {
        self.work@
    }

    /// The prompts so far.
    pub closed spec fn prompts(self) -> Seq<DeviceToUserMessage> {
        self.prompts@
    }

    /// The frames that go into the outbox once the run is done.
    pub closed spec fn staged(self) -> Seq<Result<Vec<u8>, CommsError>> {
        self.staged@
    }

    /// What the run waits for.
    pub closed spec fn waits(self) -> Waits {
        match self.waiting {
            Waiting::Ready => Waits::Ready,
            Waiting::Encoding { frames, after } => Waits::Encoding { frames: frames as int, after },
            Waiting::Nonces => Waits::Nonces,
            Waiting::Name { record, name, after } => Waits::Name { record: record@, name, after },
            Waiting::Over => Waits::Over,
        }
    }

    /// The run, with what it changes of the device and of the outbox.
    pub open spec fn state(self, session: Session, out: Outbox) -> RunState {
        RunState {
            work: self.work(),
            prompts: self.prompts(),
            staged: self.staged(),
            waits: self.waits(),
            pending: session.pending(),
            slot: session.store().slot(),
            sent: out.waiting(),
            count: out.count(),
        }
    }

    /// Takes what came of the last thing that was to be done, and says what is to
    /// be done next.
    pub fn step(&mut self, session: &mut Session, event: RunEvent, out: &mut Outbox) -> (action:
        RunAction)
        requires
            old(self).waits().expects(event),
        ensures
            final(self).state(*final(session), *final(out)) == old(self).state(
                *old(session),
                *old(out),
            ).step(event).0,
            does(action, old(self).state(*old(session), *old(out)).step(event).1),
            !(action is Done) ==> final(out).waiting() == old(out).waiting() && final(out).count()
                == old(out).count(),
            match old(self).state(*old(session), *old(out)).step(event).1 {
                Job::Forward(_) | Job::Respond(_) | Job::TellName(_) => action is Encode,
                Job::Generate(ticket) => action == RunAction::Generate { ticket },
                Job::Write(bytes) => action matches RunAction::WriteName(record) && record@
                    == bytes,
                Job::Done(all) => action matches RunAction::Done(prompts) && prompts@ == all,
                Job::Fail(why) => action == RunAction::Failed(why),
            },
            final(session).same_but_name(*old(session)),
            final(session).identity() == old(session).identity(),
            final(session).seed() == old(session).seed(),
            final(session).acknowledged() == old(session).acknowledged(),
            final(session).granted() == old(session).granted(),
            final(out).sender() == old(out).sender(),
    {
        proof {
            only_a_finished_run_reaches_the_outbox(self.state(*session, *out), event);
        }
        let mut waiting = Waiting::Over;
        core::mem::swap(&mut self.waiting, &mut waiting);
        match (waiting, event) {
            (Waiting::Ready, RunEvent::Go) => self.go_on(session, out),
            (Waiting::Encoding { after, .. }, RunEvent::Encoded(encoded)) => match refusal(&encoded) {
                Some(e) => RunAction::Failed(Fault::Comms(e)),
                None => {
                    let mut encoded = encoded;
                    self.staged.append(&mut encoded);
                    match after {
                        None => {},
                        Some(prompt) => self.prompts.push(prompt),
                    }
                    self.go_on(session, out)
                },
            },
            (Waiting::Nonces, RunEvent::Generated(segments)) => {
                self.encode(
                    DeviceSendBody::Core(
                        DeviceToCoordinatorMessage::Signing(
                            DeviceSigning::NonceResponse { segments },
                        ),
                    ),
                    None,
                )
            },
            (Waiting::Name { record, name, after }, RunEvent::Written(outcome)) => {
                match session.name_written(record, outcome) {
                    Err(e) => RunAction::Failed(Fault::Store(e)),
                    Ok(()) => {
                        self.encode(DeviceSendBody::SetName { name }, Some(after))
                    },
                }
            },
            _ => RunAction::Failed(Fault::NotConfirmable),
        }
    }

    /// Has a message encoded.
    fn encode(&mut self, body: DeviceSendBody, after: Option<DeviceToUserMessage>) -> (action:
        RunAction)
        ensures
            action matches RunAction::Encode(frames) && frames_of(body, frames@),
            final(self).work() == old(self).work(),
            final(self).prompts() == old(self).prompts(),
            final(self).staged() == old(self).staged(),
            final(self).waits() == (Waits::Encoding { frames: frame_count(body), after }),
    {
        let frames: Vec<DeviceSendBody> = split(body);
        self.waiting = Waiting::Encoding { frames: frames.len(), after };
        RunAction::Encode(frames)
    }

    /// Goes on to the next thing to do.
    fn go_on(&mut self, session: &mut Session, out: &mut Outbox) -> (action: RunAction)
        requires
            old(self).waits() is Over,
        ensures
            final(self).state(*final(session), *final(out)) == old(self).state(
                *old(session),
                *old(out),
            ).gone_on().0,
            does(action, old(self).state(*old(session), *old(out)).gone_on().1),
            final(session).same_but_name(*old(session)),
            final(out).sender() == old(out).sender(),
    {
        while self.work.len() > 0
            invariant
                self.waits() is Over,
                self.state(*session, *out).gone_on() == old(self).state(
                    *old(session),
                    *old(out),
                ).gone_on(),
                session.same_but_name(*old(session)),
                out.sender() == old(out).sender(),
            decreases self.work@.len(),
        {
            let ghost before = self.state(*session, *out);
            let send: DeviceSend = self.work.remove(0);
            proof {
                assert(self.work() =~= before.work.skip(1));
            }
            match send {
                DeviceSend::ToCoordinator(message) => {
                    return self.encode(DeviceSendBody::Core(message), None);
                },
                DeviceSend::ToUser(DeviceToUserMessage::NonceJobs { ticket }) => {
                    self.waiting = Waiting::Nonces;
                    return RunAction::Generate { ticket };
                },
                DeviceSend::ToUser(DeviceToUserMessage::FinalizeKeyGen { key_name }) => {
                    let prompt = DeviceToUserMessage::FinalizeKeyGen { key_name };
                    match session.take_pending() {
                        None => self.prompts.push(prompt),
                        Some(name) => match session.name_to_write(name.as_str()) {
                            Err(e) => return RunAction::Failed(Fault::Store(e)),
                            Ok(record) => {
                                self.waiting = Waiting::Name { record, name, after: prompt };
                                return RunAction::WriteName(record);
                            },
                        },
                    }
                },
                DeviceSend::ToUser(prompt) => self.prompts.push(prompt),
            }
        }
        match out.push(&self.staged) {
            Err(e) => return RunAction::Failed(Fault::Comms(e)),
            Ok(()) => {},
        }
        self.staged.clear();
        let mut prompts: Vec<DeviceToUserMessage> = Vec::new();
        prompts.append(&mut self.prompts);
        proof {
            assert(self.prompts() =~= Seq::<DeviceToUserMessage>::empty());
            assert(self.staged() =~= Seq::<Result<Vec<u8>, CommsError>>::empty());
        }
        RunAction::Done(prompts)
    }
}

/// The prompts in some work, in order: everything for the person but nonces.
pub open spec fn prompts_in(work: Seq<DeviceSend>) -> Seq<DeviceToUserMessage>
    decreases work.len(),
{
    if work.len() == 0 {
        Seq::empty()
    } else {
        match work[0] {
            DeviceSend::ToUser(prompt) => if prompt is NonceJobs {
                prompts_in(work.skip(1))
            } else {
                seq![prompt] + prompts_in(work.skip(1))
            },
            _ => prompts_in(work.skip(1)),
        }
    }
}

/// Whether some work is nothing but prompts that are handed on.
pub open spec fn only_prompts(work: Seq<DeviceSend>) -> bool {
    forall|i: int|
        0 <= i < work.len() ==> (#[trigger] work[i] matches DeviceSend::ToUser(prompt)
            && !(prompt is NonceJobs))
}

/// The messages for the coordinator in some work, in order.
pub open spec fn messages_in(work: Seq<DeviceSend>) -> Seq<DeviceToCoordinatorMessage>
    decreases work.len(),
{
    if work.len() == 0 {
        Seq::empty()
    } else {
        match work[0] {
            DeviceSend::ToCoordinator(message) => seq![message] + messages_in(work.skip(1)),
            _ => messages_in(work.skip(1)),
        }
    }
}

/// The batches of nonces in some work, in order.
pub open spec fn batches_in(work: Seq<DeviceSend>) -> Seq<u64>
    decreases work.len(),
{
    if work.len() == 0 {
        Seq::empty()
    } else {
        match work[0] {
            DeviceSend::ToUser(DeviceToUserMessage::NonceJobs { ticket }) => seq![ticket]
                + batches_in(work.skip(1)),
            _ => batches_in(work.skip(1)),
        }
    }
}

impl Job {
    /// The message that a job sends on.
    pub open spec fn forwards(self) -> Seq<DeviceToCoordinatorMessage> {
        match self {
            Job::Forward(message) => seq![message],
            _ => Seq::empty(),
        }
    }

    /// Whether a job is what is to be done with a piece of work.
    pub open spec fn takes(self, send: DeviceSend) -> bool {
        match self {
            Job::Forward(message) => send == DeviceSend::ToCoordinator(message),
            Job::Generate(ticket) => send == DeviceSend::ToUser(
                DeviceToUserMessage::NonceJobs { ticket },
            ),
            Job::Write(_) => is_finished_keygen(send),
            _ => false,
        }
    }

    /// The batch that a job generates.
    pub open spec fn generates(self) -> Seq<u64> {
        match self {
            Job::Generate(ticket) => seq![ticket],
            _ => Seq::empty(),
        }
    }
}

impl RunState {
    /// The prompt that follows what is waited for.
    pub open spec fn held_back(self) -> Seq<DeviceToUserMessage> {
        match self.waits {
            Waits::Encoding { after: Some(prompt), .. } => seq![prompt],
            Waits::Name { after, .. } => seq![after],
            _ => Seq::empty(),
        }
    }

    /// All prompts of the run: those that it has, the one that is held back, and
    /// those that are still to come.
    pub open spec fn all_prompts(self) -> Seq<DeviceToUserMessage> {
        self.prompts + self.held_back() + prompts_in(self.work)
    }

    /// What holds of every run: a record that is being written is the record of
    /// the name that is to be told, and every frame that is kept for the outbox can
    /// go out.
    pub open spec fn wf(self) -> bool {
        &&& self.waits matches Waits::Name { record, name, .. } ==> record == name_record(
            encode_utf8(name@),
        ) && encode_utf8(name@).len() <= DEVICE_NAME_MAX_BYTES
        &&& first_refusal(self.staged) is None
    }
}

/// What going on to the next thing to do keeps.
proof fn going_on_keeps(state: RunState)
    requires
        state.waits is Over,
    ensures
        ({
            let (next, job) = state.gone_on();
            &&& first_refusal(state.staged) is None ==> next.wf()
            &&& !(job is Done) ==> next.sent == state.sent && next.count == state.count
                && next.staged == state.staged
            &&& job is Done ==> first_refusal(state.staged) is None && (next.sent, next.count)
                == after_push(state.sent, state.count, state.staged)
            &&& next.slot == state.slot
            &&& !(job is TellName)
            &&& messages_in(state.work) == job.forwards() + messages_in(next.work)
            &&& batches_in(state.work) == job.generates() + batches_in(next.work)
            &&& !(job is Done) && !(job is Fail) ==> next.all_prompts() == state.all_prompts()
            &&& job matches Job::Done(all) ==> all == state.all_prompts() && next.work.len() == 0
            &&& job is Done || job is Fail ==> next.waits is Over
        }),
    decreases state.work.len(),
{
    let (next, job) = state.gone_on();
    if state.work.len() == 0 {
        assert(state.all_prompts() =~= state.prompts);
        assert(job.forwards() + messages_in(next.work) =~= messages_in(state.work));
        assert(job.generates() + batches_in(next.work) =~= batches_in(state.work));
    } else {
        let rest = state.work.skip(1);
        match state.work[0] {
            DeviceSend::ToCoordinator(message) => {
                assert(next.all_prompts() =~= state.all_prompts());
                assert(job.generates() + batches_in(next.work) =~= batches_in(state.work));
            },
            DeviceSend::ToUser(DeviceToUserMessage::NonceJobs { ticket }) => {
                assert(next.all_prompts() =~= state.all_prompts());
                assert(job.forwards() + messages_in(next.work) =~= messages_in(state.work));
            },
            DeviceSend::ToUser(prompt) => {
                if prompt is FinalizeKeyGen && state.pending is Some {
                    assert(job.forwards() + messages_in(next.work) =~= messages_in(state.work));
                    assert(job.generates() + batches_in(next.work) =~= batches_in(state.work));
                    assert(!(job is Fail) ==> next.all_prompts() =~= state.all_prompts());
                } else {
                    let told = RunState {
                        work: rest,
                        prompts: state.prompts.push(prompt),
                        ..state
                    };
                    going_on_keeps(told);
                    assert(told.all_prompts() =~= state.all_prompts());
                }
            },
        }
    }
}

/// What one step of a run keeps: messages and nonces leave the work from its
/// front, and no prompt is lost or made up.
pub proof fn a_step_loses_nothing(state: RunState, event: RunEvent)
    requires
        state.wf(),
        state.waits.expects(event),
    ensures
        ({
            let (next, job) = state.step(event);
            &&& next.wf()
            &&& messages_in(state.work) == job.forwards() + messages_in(next.work)
            &&& batches_in(state.work) == job.generates() + batches_in(next.work)
            &&& !(job is Done) && !(job is Fail) ==> next.all_prompts() == state.all_prompts()
            &&& job matches Job::Done(all) ==> all == state.all_prompts() && next.work.len() == 0
            &&& job is Done || job is Fail ==> next.waits is Over
        }),
{
    let (next, job) = state.step(event);
    match (state.waits, event) {
        (Waits::Encoding { after, .. }, RunEvent::Encoded(encoded)) => {
            if first_refusal(encoded@) is Some {
                assert(job.forwards() + messages_in(next.work) =~= messages_in(state.work));
                assert(job.generates() + batches_in(next.work) =~= batches_in(state.work));
            } else {
                let told = state.with_frames(encoded@, after);
                frames_join(state.staged, encoded@);
                going_on_keeps(told);
                assert(told.all_prompts() =~= state.all_prompts());
            }
        },
        (Waits::Nonces, RunEvent::Generated(_)) | (Waits::Name { .. }, RunEvent::Written(_)) => {
            assert(job.forwards() + messages_in(next.work) =~= messages_in(state.work));
            assert(job.generates() + batches_in(next.work) =~= batches_in(state.work));
            assert(!(job is Fail) ==> next.all_prompts() =~= state.all_prompts());
        },
        _ => {
            let begun = RunState { waits: Waits::Over, ..state };
            going_on_keeps(begun);
            assert(begun.all_prompts() =~= state.all_prompts());
        },
    }
}

/// The coordinator is told a name only when the flash holds it: at that moment
/// the region of the name reads as exactly that name.
pub proof fn a_name_is_told_only_once_it_is_kept(state: RunState, event: RunEvent)
    requires
        state.wf(),
        state.waits.expects(event),
    ensures
        state.step(event).1 matches Job::TellName(name) ==> {
            &&& event matches RunEvent::Written(outcome) && !(outcome is NotCommitted)
            &&& stored_name_in(state.step(event).0.slot) == Some(name@)
            &&& state.step(event).0.sent == state.sent
        },
{
    match (state.waits, event) {
        (Waits::Encoding { after, .. }, RunEvent::Encoded(encoded)) => {
            going_on_keeps(state.with_frames(encoded@, after));
        },
        (Waits::Name { record, name, after }, RunEvent::Written(outcome)) => {
            crate::names::a_saved_name_is_loaded_back(name@);
        },
        _ => {
            going_on_keeps(RunState { waits: Waits::Over, ..state });
        },
    }
}

/// A name is written only for a key generation that was finished, and what is
/// written is the name that waited for approval. Nothing else in a run changes
/// what the flash holds of it.
pub proof fn a_name_is_written_only_for_a_finished_keygen(state: RunState, event: RunEvent)
    requires
        state.waits.expects(event),
    ensures
        state.step(event).1 matches Job::Write(record) ==> {
            &&& exists|i: int|
                0 <= i < state.work.len() && #[trigger] is_finished_keygen(state.work[i])
            &&& state.pending matches Some(name) && record == name_record(encode_utf8(name@))
            &&& state.step(event).0.pending is None
        },
        state.step(event).0.slot != state.slot ==> event is Written,
{
    match (state.waits, event) {
        (Waits::Encoding { after, .. }, RunEvent::Encoded(encoded)) => {
            let told = state.with_frames(encoded@, after);
            going_on_writes(told);
            going_on_keeps(told);
        },
        (Waits::Ready, RunEvent::Go) => {
            let begun = RunState { waits: Waits::Over, ..state };
            going_on_writes(begun);
            going_on_keeps(begun);
        },
        _ => {},
    }
}

/// Whether this tells the person that a key generation is finished.
pub open spec fn is_finished_keygen(send: DeviceSend) -> bool {
    send matches DeviceSend::ToUser(DeviceToUserMessage::FinalizeKeyGen { .. })
}

/// What going on to the next thing to do writes.
proof fn going_on_writes(state: RunState)
    ensures
        state.gone_on().1 matches Job::Write(record) ==> {
            &&& exists|i: int|
                0 <= i < state.work.len() && #[trigger] is_finished_keygen(state.work[i])
            &&& state.pending matches Some(name) && record == name_record(encode_utf8(name@))
            &&& state.gone_on().0.pending is None
        },
    decreases state.work.len(),
{
    if state.work.len() > 0 {
        if let DeviceSend::ToUser(prompt) = state.work[0] {
            if prompt is FinalizeKeyGen {
                assert(is_finished_keygen(state.work[0]));
            }
            if !(prompt is NonceJobs) && !(prompt is FinalizeKeyGen && state.pending is Some) {
                let told = RunState {
                    work: state.work.skip(1),
                    prompts: state.prompts.push(prompt),
                    ..state
                };
                going_on_writes(told);
                if let Job::Write(_) = state.gone_on().1 {
                    let i = choose|i: int|
                        0 <= i < told.work.len() && #[trigger] is_finished_keygen(told.work[i]);
                    assert(is_finished_keygen(state.work[i + 1]));
                }
            }
        }
    }
}

/// What going on to the next thing to do does with the name that waits.
proof fn going_on_names(state: RunState)
    requires
        state.waits is Over,
        first_refusal(state.staged) is None,
    ensures
        ({
            let (next, job) = state.gone_on();
            let taken = state.work.len() - next.work.len();
            &&& taken >= 0
            &&& next.work == state.work.skip(taken)
            &&& job matches Job::Write(record) ==> {
                &&& next.waits matches Waits::Name { record: kept, name, after }
                &&& kept == record
                &&& state.pending == Some(name)
                &&& after is FinalizeKeyGen
                &&& encode_utf8(name@).len() <= DEVICE_NAME_MAX_BYTES
            }
            &&& job matches Job::Fail(why) ==> {
                &&& why == Fault::Store(StoreFault::TooBig)
                &&& next.pending is None
                &&& state.pending matches Some(name) && encode_utf8(name@).len()
                    > DEVICE_NAME_MAX_BYTES
                &&& taken > 0 && is_finished_keygen(state.work[taken - 1])
            }
            &&& !(job is Write) && !(job is Fail) ==> next.pending == state.pending
            &&& !(job is Respond) && !(job is TellName)
            &&& state.pending is Some && (exists|i: int|
                0 <= i < taken && #[trigger] is_finished_keygen(state.work[i])) ==> job is Write
                || job is Fail
        }),
    decreases state.work.len(),
{
    let (next, job) = state.gone_on();
    if state.work.len() == 0 {
        assert(next.work =~= state.work.skip(0));
    } else {
        let rest = state.work.skip(1);
        if let DeviceSend::ToUser(prompt) = state.work[0] {
            if !(prompt is NonceJobs) && !(prompt is FinalizeKeyGen && state.pending is Some) {
                let told = RunState { work: rest, prompts: state.prompts.push(prompt), ..state };
                going_on_names(told);
                let taken = rest.len() - next.work.len();
                assert(rest.skip(taken) =~= state.work.skip(taken + 1));
                if state.pending is Some {
                    assert forall|i: int| 0 <= i < taken + 1 && #[trigger] is_finished_keygen(
                        state.work[i],
                    ) implies job is Write || job is Fail by {
                        assert(i > 0);
                        assert(is_finished_keygen(rest[i - 1]));
                    }
                }
                if job is Fail {
                    assert(rest[taken - 1] == state.work[taken]);
                }
            }
        }
    }
}

/// What going on to the next thing to do takes from the work.
proof fn going_on_takes(state: RunState)
    requires
        state.waits is Over,
    ensures
        ({
            let (next, job) = state.gone_on();
            let taken = state.work.len() - next.work.len();
            let passed = if job is Done { taken } else { taken - 1 };
            &&& taken >= 0
            &&& next.work == state.work.skip(taken)
            &&& !(job is Fail) ==> {
                &&& passed >= 0
                &&& only_prompts(state.work.take(passed))
                &&& (if let Job::Done(all) = job { all } else { next.prompts }) == state.prompts
                    + Seq::new(passed as nat, |i: int| state.work[i]->ToUser_0)
                &&& job.takes(state.work[taken - 1]) || (job is Done && next.work.len() == 0)
                &&& job is Write ==> (next.waits matches Waits::Name { after, .. }
                    && DeviceSend::ToUser(after) == state.work[taken - 1])
            }
        }),
    decreases state.work.len(),
{
    let (next, job) = state.gone_on();
    let none = Seq::new(0, |i: int| state.work[i]->ToUser_0);
    assert(state.prompts + none =~= state.prompts);
    assert(state.work.skip(0) =~= state.work);
    if state.work.len() > 0 {
        let rest = state.work.skip(1);
        if let DeviceSend::ToUser(prompt) = state.work[0] {
            if !(prompt is NonceJobs) && !(prompt is FinalizeKeyGen && state.pending is Some) {
                let told = RunState { work: rest, prompts: state.prompts.push(prompt), ..state };
                going_on_takes(told);
                let taken = rest.len() - next.work.len();
                let passed = if job is Done { taken } else { taken - 1 };
                assert(rest.skip(taken) =~= state.work.skip(taken + 1));
                if !(job is Fail) {
                    let front = state.work.take(passed + 1);
                    assert forall|i: int| 0 <= i < front.len() implies #[trigger] front[i]
                        matches DeviceSend::ToUser(p) && !(p is NonceJobs) by {
                        if i > 0 {
                            assert(rest.take(passed)[i - 1] == front[i]);
                        }
                    }
                    let later = Seq::new(passed as nat, |i: int| rest[i]->ToUser_0);
                    let whole = Seq::new((passed + 1) as nat, |i: int| state.work[i]->ToUser_0);
                    assert(told.prompts + later =~= state.prompts + whole);
                    if taken > 0 {
                        assert(rest[taken - 1] == state.work[taken]);
                    }
                }
            }
        }
    }
}

/// A step takes work from its front and skips nothing: what it passes over are prompts,
/// all of which it hands on in their order, and what it stops at is the message that it
/// has sent, the batch that it has generated or the finished key generation whose name
/// it has written. It is done only when no work is left.
pub proof fn a_step_takes_work_from_the_front(state: RunState, event: RunEvent)
    requires
        state.waits.expects(event),
        !(state.step(event).1 is Fail),
    ensures
        ({
            let (next, job) = state.step(event);
            let taken = state.work.len() - next.work.len();
            let prompts = if let Job::Done(all) = job { all } else { next.prompts };
            if event is Generated || event is Written {
                taken == 0 && next.work == state.work && prompts == state.prompts
            } else {
                let passed = if job is Done { taken } else { taken - 1 };
                let held = if event is Encoded { state.held_back() } else { Seq::empty() };
                &&& passed >= 0
                &&& next.work == state.work.skip(taken)
                &&& only_prompts(state.work.take(passed))
                &&& prompts == state.prompts + held + Seq::new(
                    passed as nat,
                    |i: int| state.work[i]->ToUser_0,
                )
                &&& job.takes(state.work[taken - 1]) || (job is Done && next.work.len() == 0)
                &&& job is Write ==> (next.waits matches Waits::Name { after, .. }
                    && DeviceSend::ToUser(after) == state.work[taken - 1])
            }
        }),
{
    match (state.waits, event) {
        (Waits::Encoding { after, .. }, RunEvent::Encoded(encoded)) => {
            let told = state.with_frames(encoded@, after);
            going_on_takes(told);
            assert(told.prompts =~= state.prompts + state.held_back());
        },
        (Waits::Ready, RunEvent::Go) => {
            going_on_takes(RunState { waits: Waits::Over, ..state });
            assert(state.prompts + Seq::<DeviceToUserMessage>::empty() =~= state.prompts);
        },
        _ => {},
    }
}

/// A name that waits for approval is written as soon as a key generation is finished,
/// and waits no longer then. Until then it waits, whatever the run does.
pub proof fn an_approved_name_is_written(state: RunState, event: RunEvent)
    requires
        state.wf(),
        state.waits.expects(event),
    ensures
        ({
            let (next, job) = state.step(event);
            let taken = state.work.len() - next.work.len();
            &&& taken >= 0
            &&& next.work == state.work.skip(taken)
            &&& job matches Job::Write(record) ==> {
                &&& next.waits matches Waits::Name { record: kept, name, after }
                &&& kept == record
                &&& state.pending == Some(name)
                &&& after is FinalizeKeyGen
                &&& next.pending is None
            }
            &&& !(job is Write) && job != Job::Fail(Fault::Store(StoreFault::TooBig))
                ==> next.pending == state.pending
            &&& state.pending is Some && (exists|i: int|
                0 <= i < taken && #[trigger] is_finished_keygen(state.work[i])) ==> job is Write
                || job == Job::Fail(Fault::Store(StoreFault::TooBig))
        }),
{
    a_name_is_written_only_for_a_finished_keygen(state, event);
    assert(state.work.skip(0) =~= state.work);
    match (state.waits, event) {
        (Waits::Encoding { after, .. }, RunEvent::Encoded(encoded)) => {
            if first_refusal(encoded@) is None {
                frames_join(state.staged, encoded@);
                going_on_names(state.with_frames(encoded@, after));
            }
        },
        (Waits::Ready, RunEvent::Go) => {
            going_on_names(RunState { waits: Waits::Over, ..state });
        },
        _ => {},
    }
}

/// A run goes wrong only for one of three reasons, and then says which: a frame cannot
/// go out, the flash refused the record, or the name that waits does not fit its record.
/// For each of them it does go wrong.
pub proof fn a_run_goes_wrong_only_for_a_reason(state: RunState, event: RunEvent)
    requires
        state.wf(),
        state.waits.expects(event),
    ensures
        event matches RunEvent::Encoded(encoded) ==> (first_refusal(encoded@) matches Some(e)
            ==> state.step(event).1 == Job::Fail(Fault::Comms(e))),
        event matches RunEvent::Written(outcome) ==> (outcome matches AbWriteOutcome::NotCommitted(
            e,
        ) ==> state.step(event).1 == Job::Fail(Fault::Store(StoreFault::Flash(e)))
            && state.step(event).0.slot == state.slot),
        state.step(event).1 matches Job::Fail(why) ==> match why {
            Fault::Comms(e) => event matches RunEvent::Encoded(encoded) && first_refusal(encoded@)
                == Some(e),
            Fault::Store(StoreFault::Flash(e)) => event == RunEvent::Written(
                AbWriteOutcome::NotCommitted(e),
            ),
            Fault::Store(StoreFault::TooBig) => state.pending matches Some(name) && encode_utf8(
                name@,
            ).len() > DEVICE_NAME_MAX_BYTES,
            _ => false,
        },
{
    match (state.waits, event) {
        (Waits::Encoding { after, .. }, RunEvent::Encoded(encoded)) => {
            if first_refusal(encoded@) is None {
                frames_join(state.staged, encoded@);
                going_on_names(state.with_frames(encoded@, after));
            }
        },
        (Waits::Ready, RunEvent::Go) => {
            going_on_names(RunState { waits: Waits::Over, ..state });
        },
        _ => {},
    }
}

/// What was made outside is used as it came: nonces are sent as they were generated,
/// and a record that was written is the one that the region then holds and whose name
/// is told.
pub proof fn what_came_of_a_job_is_used_as_it_came(state: RunState, event: RunEvent)
    requires
        state.waits.expects(event),
    ensures
        event matches RunEvent::Generated(segments) ==> {
            let (next, job) = state.step(event);
            &&& job matches Job::Respond(sent) && sent@ == segments@
            &&& next.waits matches Waits::Encoding { frames, after } && after is None && frames
                == (if segments@.len() > 1 { segments@.len() as int } else { 1 })
            &&& next.work == state.work
            &&& next.prompts == state.prompts
            &&& next.staged == state.staged
            &&& next.pending == state.pending
            &&& next.slot == state.slot
        },
        event matches RunEvent::Written(outcome) ==> (outcome is Committed || outcome
            is CommittedSingleCopy ==> {
            let (next, job) = state.step(event);
            &&& state.waits matches Waits::Name { record, name, after: held }
            &&& next.slot == Some(record)
            &&& job matches Job::TellName(told) && told@ == name@
            &&& next.waits matches Waits::Encoding { frames, after } && after == Some(held)
                && frames == 1
            &&& next.work == state.work
            &&& next.prompts == state.prompts
            &&& next.staged == state.staged
            &&& next.pending == state.pending
        }),
{
}

/// The frames that an event brings.
pub open spec fn frames_of_event(event: RunEvent) -> Seq<Result<Vec<u8>, CommsError>> {
    match event {
        RunEvent::Encoded(encoded) => encoded@,
        _ => Seq::empty(),
    }
}

/// The outbox is touched once, when the run is done, and then everything that was
/// kept for it goes in at once. Every other step leaves it as it was, and so does
/// every fault.
pub proof fn only_a_finished_run_reaches_the_outbox(state: RunState, event: RunEvent)
    requires
        state.waits.expects(event),
    ensures
        ({
            let (next, job) = state.step(event);
            let kept = state.staged + frames_of_event(event);
            &&& !(job is Done) ==> next.sent == state.sent && next.count == state.count
            &&& !(job is Done) && !(job is Fail) ==> next.staged == kept
            &&& job is Done ==> first_refusal(kept) is None && (next.sent, next.count)
                == after_push(state.sent, state.count, kept)
            &&& job is Done || job is Fail ==> next.waits is Over
            &&& job matches Job::Fail(Fault::Store(_)) ==> next.slot == state.slot
        }),
{
    assert(state.staged + Seq::<Result<Vec<u8>, CommsError>>::empty() =~= state.staged);
    match (state.waits, event) {
        (Waits::Encoding { after, .. }, RunEvent::Encoded(encoded)) => {
            going_on_keeps(state.with_frames(encoded@, after));
        },
        (Waits::Ready, RunEvent::Go) => {
            going_on_keeps(RunState { waits: Waits::Over, ..state });
        },
        _ => {},
    }
}

/// A message goes out whole, frame for frame, or the run is over and nothing of it
/// goes out: where a run goes on, as many frames are kept for the outbox as the
/// message has.
pub proof fn a_message_goes_out_whole(state: RunState, encoded: Vec<Result<Vec<u8>, CommsError>>)
    requires
        state.waits.expects(RunEvent::Encoded(encoded)),
    ensures
        ({
            let (next, job) = state.step(RunEvent::Encoded(encoded));
            &&& state.waits matches Waits::Encoding { frames, .. } && encoded@.len() == frames
            &&& first_refusal(encoded@) matches Some(e) ==> job == Job::Fail(Fault::Comms(e))
                && next.sent == state.sent && next.count == state.count
            &&& !(job is Done) && !(job is Fail) ==> next.staged == state.staged + encoded@
        }),
{
    only_a_finished_run_reaches_the_outbox(state, RunEvent::Encoded(encoded));
}

/// A run after some events.
pub open spec fn after_events(state: RunState, events: Seq<RunEvent>) -> RunState
    decreases events.len(),
{
    if events.len() == 0 {
        state
    } else {
        after_events(state, events.drop_last()).step(events.last()).0
    }
}

/// What a run had done over some events.
pub open spec fn jobs_of(state: RunState, events: Seq<RunEvent>) -> Seq<Job>
    decreases events.len(),
{
    if events.len() == 0 {
        Seq::empty()
    } else {
        jobs_of(state, events.drop_last()).push(
            after_events(state, events.drop_last()).step(events.last()).1,
        )
    }
}

/// Whether each event is what the run waits for when it comes.
pub open spec fn in_turn(state: RunState, events: Seq<RunEvent>) -> bool
    decreases events.len(),
{
    events.len() == 0 || {
        &&& in_turn(state, events.drop_last())
        &&& after_events(state, events.drop_last()).waits.expects(events.last())
    }
}

/// The messages that some jobs send on, in order.
pub open spec fn all_forwards(jobs: Seq<Job>) -> Seq<DeviceToCoordinatorMessage>
    decreases jobs.len(),
{
    if jobs.len() == 0 {
        Seq::empty()
    } else {
        all_forwards(jobs.drop_last()) + jobs.last().forwards()
    }
}

/// The batches that some jobs generate, in order.
pub open spec fn all_generates(jobs: Seq<Job>) -> Seq<u64>
    decreases jobs.len(),
{
    if jobs.len() == 0 {
        Seq::empty()
    } else {
        all_generates(jobs.drop_last()) + jobs.last().generates()
    }
}

/// A run that is done has sent every message of the signer and generated every
/// batch, each in the order in which the signer handed them back, and hands back
/// every prompt in that order.
pub proof fn a_finished_run_did_everything_in_order(state: RunState, events: Seq<RunEvent>)
    requires
        state.waits is Ready,
        state.prompts.len() == 0,
        state.staged.len() == 0,
        events.len() > 0,
        in_turn(state, events),
        jobs_of(state, events).last() is Done,
    ensures
        all_forwards(jobs_of(state, events)) == messages_in(state.work),
        all_generates(jobs_of(state, events)) == batches_in(state.work),
        jobs_of(state, events).last() == Job::Done(prompts_in(state.work)),
{
    let before = events.drop_last();
    let last = after_events(state, before);
    a_run_so_far(state, before);
    a_step_loses_nothing(last, events.last());
    let jobs = jobs_of(state, events);
    assert(jobs.drop_last() =~= jobs_of(state, before));
    assert(messages_in(last.step(events.last()).0.work) =~= Seq::empty());
    assert(batches_in(last.step(events.last()).0.work) =~= Seq::empty());
    assert(all_forwards(jobs) =~= messages_in(state.work));
    assert(all_generates(jobs) =~= batches_in(state.work));
    assert(state.all_prompts() =~= prompts_in(state.work));
}

/// What holds of a run that waits for more.
proof fn a_run_so_far(state: RunState, events: Seq<RunEvent>)
    requires
        state.waits is Ready,
        state.wf(),
        in_turn(state, events),
        !(after_events(state, events).waits is Over),
    ensures
        after_events(state, events).wf(),
        after_events(state, events).all_prompts() == state.all_prompts(),
        messages_in(state.work) == all_forwards(jobs_of(state, events)) + messages_in(
            after_events(state, events).work,
        ),
        batches_in(state.work) == all_generates(jobs_of(state, events)) + batches_in(
            after_events(state, events).work,
        ),
    decreases events.len(),
{
    if events.len() == 0 {
        assert(Seq::<DeviceToCoordinatorMessage>::empty() + messages_in(state.work)
            =~= messages_in(state.work));
        assert(Seq::<u64>::empty() + batches_in(state.work) =~= batches_in(state.work));
    } else {
        let before = events.drop_last();
        let middle = after_events(state, before);
        a_run_so_far(state, before);
        a_step_loses_nothing(middle, events.last());
        let jobs = jobs_of(state, events);
        assert(jobs.drop_last() =~= jobs_of(state, before));
        let (next, job) = middle.step(events.last());
        assert(all_forwards(jobs) + messages_in(next.work) =~= all_forwards(jobs_of(state, before))
            + (job.forwards() + messages_in(next.work)));
        assert(all_generates(jobs) + batches_in(next.work) =~= all_generates(
            jobs_of(state, before),
        ) + (job.generates() + batches_in(next.work)));
    }
}

/// The frames that some events bring, in order.
pub open spec fn frames_in(events: Seq<RunEvent>) -> Seq<Result<Vec<u8>, CommsError>>
    decreases events.len(),
{
    if events.len() == 0 {
        Seq::empty()
    } else {
        frames_in(events.drop_last()) + frames_of_event(events.last())
    }
}

/// While a run waits for more, the outbox is as it was when the run began, and
/// every frame that was encoded is kept for it.
proof fn a_run_that_goes_on_keeps_its_frames(state: RunState, events: Seq<RunEvent>)
    requires
        in_turn(state, events),
        !(after_events(state, events).waits is Over),
    ensures
        after_events(state, events).sent == state.sent,
        after_events(state, events).count == state.count,
        after_events(state, events).staged == state.staged + frames_in(events),
    decreases events.len(),
{
    if events.len() == 0 {
        assert(state.staged + frames_in(events) =~= state.staged);
    } else {
        let before = events.drop_last();
        a_run_that_goes_on_keeps_its_frames(state, before);
        only_a_finished_run_reaches_the_outbox(after_events(state, before), events.last());
        assert(after_events(state, events).staged =~= state.staged + frames_in(events));
    }
}

/// A run that is not done leaves the outbox, bytes and count, as it was when the run
/// began. So a share or a name that could not be kept is never acknowledged, and a
/// reply that could not be framed leaves nothing behind.
pub proof fn a_run_that_fails_leaves_the_outbox_as_it_was(state: RunState, events: Seq<RunEvent>)
    requires
        events.len() > 0,
        in_turn(state, events),
        !(jobs_of(state, events).last() is Done),
    ensures
        after_events(state, events).sent == state.sent,
        after_events(state, events).count == state.count,
{
    let before = events.drop_last();
    a_run_that_goes_on_keeps_its_frames(state, before);
    only_a_finished_run_reaches_the_outbox(after_events(state, before), events.last());
}

/// A run that is done leaves, behind what was in the outbox before, exactly the
/// frames that were encoded for it, in that order.
pub proof fn a_finished_run_sends_what_was_encoded(state: RunState, events: Seq<RunEvent>)
    requires
        state.staged.len() == 0,
        events.len() > 0,
        in_turn(state, events),
        jobs_of(state, events).last() is Done,
    ensures
        first_refusal(frames_in(events)) is None,
        after_events(state, events).sent == state.sent + joined(frames_in(events)),
        after_events(state, events).count == counted(state.count, frames_in(events).len() as int),
{
    let before = events.drop_last();
    a_run_that_goes_on_keeps_its_frames(state, before);
    only_a_finished_run_reaches_the_outbox(after_events(state, before), events.last());
    assert(state.staged + frames_in(before) + frames_of_event(events.last()) =~= frames_in(events));
}

} // verus!
