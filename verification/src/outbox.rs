//! Frames waiting to go out to a coordinator, and how a message becomes frames.
//!
//! A message that would not fit one frame is either split or cut by a rule of its
//! own, or refused whole: the wire has no way to take back half a frame.

use vstd::prelude::*;
use vstd::utf8::encode_utf8;
use crate::messages::{
    DeviceId, DeviceSendBody, DeviceSigning, DeviceToCoordinatorMessage, NonceSegment,
};
use crate::text::{cut_at, longest_cut, truncate};

verus! {

/// The longest frame that the wire takes, in bytes.
pub const FRAME_LIMIT: usize = 4096;

/// The longest text of a [`DeviceSendBody::Debug`], in bytes.
pub const DEBUG_MESSAGE_LIMIT: usize = 256;

/// Why a message could not be framed.
#[derive(Clone, Copy, Debug, PartialEq, Eq, Structural)]
pub enum CommsError {
    /// The frame is longer than [`FRAME_LIMIT`].
    FrameTooLong,
    /// The message has no encoding.
    Unencodable,
}

/// A text as it goes out: whole where it is short enough, else its longest
/// beginning that is and that splits no character.
pub open spec fn debug_cut(text: Seq<char>, cut: Seq<char>) -> bool {
    if encode_utf8(text).len() <= DEBUG_MESSAGE_LIMIT {
        cut == text
    } else {
        exists|len: int| #[trigger]
            longest_cut(text, DEBUG_MESSAGE_LIMIT as int, len) && cut == cut_at(text, len)
    }
}

/// Cuts a text for the log to what may go out.
pub fn truncate_debug(message: String) -> (cut: String)
    ensures
        debug_cut(message@, cut@),
        encode_utf8(cut@).len() <= DEBUG_MESSAGE_LIMIT,
        cut@.is_prefix_of(message@),
        encode_utf8(message@).len() <= 256 ==> cut@ == message@,
        encode_utf8(cut@).len() <= 256,
        cut@.len() < message@.len() ==> encode_utf8(message@.take(cut@.len() as int + 1)).len()
            > 256,
{
    truncate(message, DEBUG_MESSAGE_LIMIT)
}

/// The segments of a message that is split into one frame per segment.
pub open spec fn split_segments(body: DeviceSendBody) -> Option<Seq<NonceSegment>> {
    match body {
        DeviceSendBody::Core(
            DeviceToCoordinatorMessage::Signing(DeviceSigning::NonceResponse { segments }),
        ) => if segments@.len() > 1 {
            Some(segments@)
        } else {
            None
        },
        _ => None,
    }
}

/// Whether `frame` carries just this one segment.
pub open spec fn carries_segment(frame: DeviceSendBody, segment: NonceSegment) -> bool {
    frame matches DeviceSendBody::Core(
        DeviceToCoordinatorMessage::Signing(DeviceSigning::NonceResponse { segments }),
    ) && segments@ == seq![segment]
}

/// Whether `frames` are what goes out for `body`: one frame per segment of a
/// reply with several, a cut text for the log, and everything else as it is.
pub open spec fn frames_of(body: DeviceSendBody, frames: Seq<DeviceSendBody>) -> bool {
    match split_segments(body) {
        Some(segments) => {
            &&& frames.len() == segments.len()
            &&& forall|i: int|
                0 <= i < frames.len() ==> carries_segment(#[trigger] frames[i], segments[i])
        },
        None => {
            &&& frames.len() == 1
            &&& match body {
                DeviceSendBody::Debug { message } => frames[0] matches DeviceSendBody::Debug {
                    message: cut,
                } && debug_cut(message@, cut@),
                _ => frames[0] == body,
            }
        },
    }
}

/// Nothing of a message is changed or lost on its way into frames: every segment of a
/// reply goes out once and in its order, a text for the log that is short enough goes out
/// whole, and everything else is its own one frame.
pub proof fn frames_say_what_the_message_says(body: DeviceSendBody, frames: Seq<DeviceSendBody>)
    requires
        frames_of(body, frames),
    ensures
        match body {
            DeviceSendBody::Core(
                DeviceToCoordinatorMessage::Signing(DeviceSigning::NonceResponse { segments }),
            ) => if segments@.len() > 1 {
                &&& frames.len() == segments@.len()
                &&& forall|i: int|
                    0 <= i < frames.len() ==> (#[trigger] frames[i] matches DeviceSendBody::Core(
                        DeviceToCoordinatorMessage::Signing(
                            DeviceSigning::NonceResponse { segments: one },
                        ),
                    ) && one@ == seq![segments@[i]])
            } else {
                frames == seq![body]
            },
            DeviceSendBody::Debug { message } => frames.len() == 1 && (
            frames[0] matches DeviceSendBody::Debug { message: cut } && (encode_utf8(message@).len()
                <= 256 ==> cut@ == message@)),
            _ => frames == seq![body],
        },
        frames.len() == frame_count(body),
{
    if split_segments(body) is None && !(body is Debug) {
        assert(frames =~= seq![body]);
    } else if let Some(segments) = split_segments(body) {
        assert forall|i: int| 0 <= i < frames.len() implies carries_segment(
            #[trigger] frames[i],
            segments[i],
        ) by {}
    }
}

/// How many frames go out for a message.
pub open spec fn frame_count(body: DeviceSendBody) -> int {
    match split_segments(body) {
        Some(segments) => segments.len() as int,
        None => 1,
    }
}

/// The frames that go out for a message, in their order.
pub fn split(body: DeviceSendBody) -> (frames: Vec<DeviceSendBody>)
    ensures
        frames_of(body, frames@),
        frames@.len() == frame_count(body),
        match body {
            DeviceSendBody::Core(
                DeviceToCoordinatorMessage::Signing(DeviceSigning::NonceResponse { segments }),
            ) => if segments@.len() > 1 {
                &&& frames@.len() == segments@.len()
                &&& forall|i: int|
                    0 <= i < frames@.len() ==> (#[trigger] frames@[i] matches DeviceSendBody::Core(
                        DeviceToCoordinatorMessage::Signing(
                            DeviceSigning::NonceResponse { segments: one },
                        ),
                    ) && one@ == seq![segments@[i]])
            } else {
                frames@ == seq![body]
            },
            DeviceSendBody::Debug { message } => frames@.len() == 1 && (
            frames@[0] matches DeviceSendBody::Debug { message: cut } && cut@.is_prefix_of(message@)
                && encode_utf8(cut@).len() <= 256 && (cut@.len() < message@.len() ==> encode_utf8(
                message@.take(cut@.len() as int + 1),
            ).len() > 256)),
            _ => frames@ == seq![body],
        },
{
    let mut frames: Vec<DeviceSendBody> = Vec::new();
    match body {
        DeviceSendBody::Core(
            DeviceToCoordinatorMessage::Signing(DeviceSigning::NonceResponse { segments }),
        ) => {
            if segments.len() <= 1 {
                frames.push(
                    DeviceSendBody::Core(
                        DeviceToCoordinatorMessage::Signing(
                            DeviceSigning::NonceResponse { segments },
                        ),
                    ),
                );
            } else {
                let mut i: usize = 0;
                while i < segments.len()
                    invariant
                        i <= segments@.len(),
                        frames@.len() == i,
                        forall|j: int|
                            0 <= j < i ==> carries_segment(#[trigger] frames@[j], segments@[j]),
                    decreases segments@.len() - i,
                {
                    let mut one: Vec<NonceSegment> = Vec::new();
                    one.push(segments[i]);
                    proof {
                        assert(one@ =~= seq![segments@[i as int]]);
                    }
                    frames.push(
                        DeviceSendBody::Core(
                            DeviceToCoordinatorMessage::Signing(
                                DeviceSigning::NonceResponse { segments: one },
                            ),
                        ),
                    );
                    i += 1;
                }
            }
        },
        DeviceSendBody::Debug { message } => {
            frames.push(DeviceSendBody::Debug { message: truncate_debug(message) });
        },
        other => {
            frames.push(other);
        },
    }
    frames
}

/// Whether one encoded frame can go out.
pub open spec fn fits(frame: Result<Vec<u8>, CommsError>) -> bool {
    frame matches Ok(bytes) && bytes@.len() <= FRAME_LIMIT
}

/// Why an encoded frame cannot go out.
pub open spec fn why_not(frame: Result<Vec<u8>, CommsError>) -> CommsError {
    match frame {
        Ok(_) => CommsError::FrameTooLong,
        Err(e) => e,
    }
}

/// The bytes of some frames that all go out, one behind the other.
pub open spec fn joined(encoded: Seq<Result<Vec<u8>, CommsError>>) -> Seq<u8>
    decreases encoded.len(),
{
    if encoded.len() == 0 {
        Seq::empty()
    } else {
        encoded[0].unwrap()@ + joined(encoded.skip(1))
    }
}

/// What is said of some encoded frames: the first refusal, if there is one.
pub open spec fn first_refusal(encoded: Seq<Result<Vec<u8>, CommsError>>) -> Option<CommsError>
    decreases encoded.len(),
{
    if encoded.len() == 0 {
        None
    } else if !fits(encoded[0]) {
        Some(why_not(encoded[0]))
    } else {
        first_refusal(encoded.skip(1))
    }
}

/// A count that stops at the largest number there is.
pub open spec fn counted(frames: int, more: int) -> int {
    if frames + more > usize::MAX {
        usize::MAX as int
    } else {
        frames + more
    }
}

/// The bytes that wait and their count of frames after a message was pushed: all
/// of its frames behind what waited before, or nothing of it if one cannot go out.
pub open spec fn after_push(
    waiting: Seq<u8>,
    count: int,
    encoded: Seq<Result<Vec<u8>, CommsError>>,
) -> (Seq<u8>, int) {
    if first_refusal(encoded) is None {
        (waiting + joined(encoded), counted(count, encoded.len() as int))
    } else {
        (waiting, count)
    }
}

/// What is said of some encoded frames: why the first that cannot go out cannot, or
/// nothing where all can.
pub fn refusal(encoded: &Vec<Result<Vec<u8>, CommsError>>) -> (why: Option<CommsError>)
    ensures
        why == first_refusal(encoded@),
        why is None <==> forall|i: int|
            0 <= i < encoded@.len() ==> (#[trigger] encoded@[i] matches Ok(bytes) && bytes@.len()
                <= FRAME_LIMIT),
        why matches Some(e) ==> exists|i: int|
            0 <= i < encoded@.len() && (match #[trigger] encoded@[i] {
                Err(said) => e == said,
                Ok(bytes) => bytes@.len() > FRAME_LIMIT && e == CommsError::FrameTooLong,
            }) && (forall|j: int|
                0 <= j < i ==> (#[trigger] encoded@[j] matches Ok(bytes) && bytes@.len()
                    <= FRAME_LIMIT)),
{
    let mut i: usize = 0;
    proof {
        assert(encoded@.skip(0) =~= encoded@);
    }
    while i < encoded.len()
        invariant
            i <= encoded@.len(),
            first_refusal(encoded@.skip(i as int)) == first_refusal(encoded@),
            forall|j: int|
                0 <= j < i ==> (#[trigger] encoded@[j] matches Ok(bytes) && bytes@.len()
                    <= FRAME_LIMIT),
        decreases encoded@.len() - i,
    {
        proof {
            assert(encoded@.skip(i as int)[0] == encoded@[i as int]);
            assert(encoded@.skip(i as int).skip(1) =~= encoded@.skip(i + 1));
        }
        match &encoded[i] {
            Err(e) => return Some(*e),
            Ok(bytes) => if bytes.len() > FRAME_LIMIT {
                return Some(CommsError::FrameTooLong);
            },
        }
        i += 1;
    }
    None
}

/// Encoded frames that wait to be written, in the order in which they came.
pub struct Outbox {
    from: DeviceId,
    bytes: Vec<u8>,
    frames: usize,
}

impl Outbox {
    /// The device that the frames come from.
    pub closed spec fn sender(self) -> DeviceId {
        self.from
    }

    /// The bytes that wait.
    pub closed spec fn waiting(self) -> Seq<u8> {
        self.bytes@
    }

    /// How many frames wait.
    pub closed spec fn count(self) -> int {
        self.frames as int
    }

    /// An outbox with nothing in it.
    pub fn new(from: DeviceId) -> (outbox: Outbox)
        ensures
            outbox.sender() == from,
            outbox.waiting() == Seq::<u8>::empty(),
            outbox.count() == 0,
    {
        let outbox = Outbox { from, bytes: Vec::new(), frames: 0 };
        proof {
            assert(outbox.waiting() =~= Seq::<u8>::empty());
        }
        outbox
    }

    /// The device that the frames come from.
    pub fn from(&self) -> (from: DeviceId)
        ensures
            from == self.sender(),
    {
        self.from
    }

    /// How many frames wait.
    pub fn frames(&self) -> (frames: usize)
        ensures
            frames == self.count(),
    {
        self.frames
    }

    /// The bytes that wait.
    pub fn bytes(&self) -> (bytes: &[u8])
        ensures
            bytes@ == self.waiting(),
    {
        self.bytes.as_slice()
    }

    /// Hands over the bytes that wait, and leaves nothing waiting.
    pub fn take(&mut self) -> (bytes: Vec<u8>)
        ensures
            bytes@ == old(self).waiting(),
            final(self).waiting() == Seq::<u8>::empty(),
            final(self).count() == 0,
            final(self).sender() == old(self).sender(),
    {
        let mut bytes: Vec<u8> = Vec::new();
        bytes.append(&mut self.bytes);
        self.frames = 0;
        proof {
            assert(bytes@ =~= old(self).waiting());
            assert(self.waiting() =~= Seq::<u8>::empty());
        }
        bytes
    }

    /// Lets one encoded frame wait that can go out.
    fn encode(&mut self, encoded: &Result<Vec<u8>, CommsError>)
        requires
            fits(*encoded),
        ensures
            final(self).waiting() == old(self).waiting() + encoded->Ok_0@,
            final(self).count() == counted(old(self).count(), 1),
            final(self).sender() == old(self).sender(),
    {
        match encoded {
            Err(_) => {},
            Ok(bytes) => {
                self.bytes.extend_from_slice(bytes.as_slice());
                self.frames = self.frames.saturating_add(1);
                proof {
                    assert(self.waiting() =~= old(self).waiting() + bytes@);
                }
            },
        }
    }

    /// Lets the encoded frames of one message wait, in order. A message of which
    /// one frame cannot go out is refused whole and leaves nothing behind.
    ///
    /// `encoded` is what encoding said of each of the frames that [`split`] makes
    /// of the message.
    pub fn push(&mut self, encoded: &Vec<Result<Vec<u8>, CommsError>>) -> (done: Result<
        (),
        CommsError,
    >)
        ensures
            match first_refusal(encoded@) {
                None => done is Ok,
                Some(e) => done == Err::<(), CommsError>(e),
            },
            (final(self).waiting(), final(self).count()) == after_push(
                old(self).waiting(),
                old(self).count(),
                encoded@,
            ),
            done is Ok <==> forall|i: int|
                0 <= i < encoded@.len() ==> (#[trigger] encoded@[i] matches Ok(bytes)
                    && bytes@.len() <= FRAME_LIMIT),
            done is Ok ==> final(self).waiting() == old(self).waiting() + joined(encoded@)
                && final(self).count() == (if old(self).count() + encoded@.len() <= usize::MAX {
                old(self).count() + encoded@.len()
            } else {
                usize::MAX as int
            }),
            done is Err ==> final(self).waiting() == old(self).waiting() && final(self).count()
                == old(self).count(),
            final(self).sender() == old(self).sender(),
    {
        match refusal(encoded) {
            Some(e) => return Err(e),
            None => {},
        }
        let mut i: usize = 0;
        proof {
            all_fit(encoded@);
            assert(encoded@.skip(0) =~= encoded@);
        }
        while i < encoded.len()
            invariant
                i <= encoded@.len(),
                forall|j: int| 0 <= j < encoded@.len() ==> fits(#[trigger] encoded@[j]),
                self.sender() == old(self).sender(),
                0 <= old(self).count() <= usize::MAX,
                self.count() == counted(old(self).count(), i as int),
                self.waiting() + joined(encoded@.skip(i as int)) == old(self).waiting() + joined(
                    encoded@,
                ),
            decreases encoded@.len() - i,
        {
            let ghost before = self.waiting();
            let ghost rest = encoded@.skip(i as int);
            self.encode(&encoded[i]);
            proof {
                assert(rest[0] == encoded@[i as int]);
                assert(rest.skip(1) =~= encoded@.skip(i + 1));
                assert(before + (rest[0].unwrap()@ + joined(rest.skip(1))) =~= self.waiting()
                    + joined(rest.skip(1)));
            }
            i += 1;
        }
        proof {
            assert(encoded@.skip(i as int) =~= Seq::empty());
            assert(self.waiting() + Seq::<u8>::empty() =~= self.waiting());
        }
        Ok(())
    }
}

/// Nothing is refused exactly where every frame can go out.
pub proof fn all_fit(encoded: Seq<Result<Vec<u8>, CommsError>>)
    ensures
        first_refusal(encoded) is None <==> forall|i: int|
            0 <= i < encoded.len() ==> fits(#[trigger] encoded[i]),
    decreases encoded.len(),
{
    if encoded.len() > 0 {
        let rest = encoded.skip(1);
        all_fit(rest);
        assert forall|i: int| 0 <= i < rest.len() implies rest[i] == encoded[i + 1] by {}
        if first_refusal(encoded) is None {
            assert forall|i: int| 0 <= i < encoded.len() implies fits(#[trigger] encoded[i]) by {
                if i > 0 {
                    assert(fits(rest[i - 1]));
                }
            }
        }
        if forall|i: int| 0 <= i < encoded.len() ==> fits(#[trigger] encoded[i]) {
            assert(fits(encoded[0]));
            assert forall|i: int| 0 <= i < rest.len() implies fits(#[trigger] rest[i]) by {
                assert(fits(encoded[i + 1]));
            }
        }
    }
}

/// What frames say together is what they say one part after the other.
pub proof fn frames_join(
    a: Seq<Result<Vec<u8>, CommsError>>,
    b: Seq<Result<Vec<u8>, CommsError>>,
)
    ensures
        joined(a + b) == joined(a) + joined(b),
        first_refusal(a + b) == (if first_refusal(a) is Some {
            first_refusal(a)
        } else {
            first_refusal(b)
        }),
    decreases a.len(),
{
    if a.len() == 0 {
        assert(a + b =~= b);
        assert(joined(a) + joined(b) =~= joined(b));
    } else {
        frames_join(a.skip(1), b);
        assert((a + b).skip(1) =~= a.skip(1) + b);
        assert(joined(a + b) =~= joined(a) + joined(b));
    }
}

/// A frame goes out as the bytes that it was encoded as, whole and alone, and it keeps
/// its place among others: it stands behind what goes out of the frames before it.
pub proof fn each_frame_keeps_its_place(encoded: Seq<Result<Vec<u8>, CommsError>>, at: int)
    requires
        0 <= at < encoded.len(),
        encoded[at] is Ok,
    ensures
        joined(Seq::empty()) == Seq::<u8>::empty(),
        joined(seq![encoded[at]]) == encoded[at]->Ok_0@,
        joined(encoded) == joined(encoded.take(at)) + encoded[at]->Ok_0@ + joined(
            encoded.skip(at + 1),
        ),
{
    let one = seq![encoded[at]];
    assert(joined(one.skip(1)) =~= Seq::empty());
    assert(joined(one) =~= encoded[at]->Ok_0@);
    frames_join(encoded.take(at), one);
    frames_join(encoded.take(at) + one, encoded.skip(at + 1));
    assert(encoded.take(at) + one + encoded.skip(at + 1) =~= encoded);
}

/// A refused message leaves nothing behind, however many frames it has, and a
/// message that is not refused goes out with all of them.
pub proof fn a_refused_message_leaves_nothing(
    waiting: Seq<u8>,
    count: int,
    encoded: Seq<Result<Vec<u8>, CommsError>>,
)
    ensures
        first_refusal(encoded) is Some ==> after_push(waiting, count, encoded) == (waiting, count),
        first_refusal(encoded) is None ==> after_push(waiting, count, encoded) == (
            waiting + joined(encoded),
            counted(count, encoded.len() as int),
        ),
{
}

/// What waits after each of some frames was pushed as a message of its own.
pub open spec fn after_pushes(
    waiting: Seq<u8>,
    count: int,
    encoded: Seq<Result<Vec<u8>, CommsError>>,
) -> (Seq<u8>, int)
    decreases encoded.len(),
{
    if encoded.len() == 0 {
        (waiting, count)
    } else {
        let (bytes, frames) = after_pushes(waiting, count, encoded.drop_last());
        after_push(bytes, frames, seq![encoded.last()])
    }
}

/// A message of several frames that goes out leaves what pushing each of its frames
/// by itself leaves, in that order: none is dropped and none changes places.
pub proof fn frames_go_out_one_by_one(
    waiting: Seq<u8>,
    count: int,
    encoded: Seq<Result<Vec<u8>, CommsError>>,
)
    requires
        0 <= count <= usize::MAX,
        first_refusal(encoded) is None,
    ensures
        after_push(waiting, count, encoded) == after_pushes(waiting, count, encoded),
        count + encoded.len() <= usize::MAX ==> after_push(waiting, count, encoded).1 == count
            + encoded.len(),
    decreases encoded.len(),
{
    if encoded.len() == 0 {
        assert(waiting + joined(encoded) =~= waiting);
    } else {
        let front = encoded.drop_last();
        let last = seq![encoded.last()];
        assert(front + last =~= encoded);
        frames_join(front, last);
        frames_go_out_one_by_one(waiting, count, front);
        assert(waiting + joined(front) + joined(last) =~= waiting + joined(encoded));
    }
}

/// No frame is longer than the wire takes, so what goes out of a message is no
/// longer than that for each of its frames.
pub proof fn no_frame_is_longer_than_the_wire_takes(encoded: Seq<Result<Vec<u8>, CommsError>>)
    requires
        first_refusal(encoded) is None,
    ensures
        joined(encoded).len() <= FRAME_LIMIT * encoded.len(),
    decreases encoded.len(),
{
    if encoded.len() > 0 {
        no_frame_is_longer_than_the_wire_takes(encoded.skip(1));
    }
}

} // verus!
