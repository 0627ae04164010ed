//! The small decisions on the way up and once per turn of the loop.

use vstd::prelude::*;
use crate::messages::Sha256Digest;

verus! {

/// Why the identity secret could not be had from the flash.
#[derive(Clone, Copy, Debug, PartialEq, Eq, Structural)]
pub enum IdentityFault {
    /// Its record is damaged.
    Damaged,
    /// The flash refused an operation.
    Flash,
    /// What was written did not read back.
    VerifyFailed,
    /// No draw gave a usable key.
    NoScalar,
}

/// What the device says while it holds for want of an identity.
pub fn hold_reason(fault: IdentityFault) -> (reason: &'static str)
    ensures
        reason@ == (match fault {
            IdentityFault::Damaged => "damaged record"@,
            IdentityFault::Flash => "flash refused"@,
            IdentityFault::VerifyFailed => "write unverified"@,
            IdentityFault::NoScalar => "no valid scalar"@,
        }),
{
    match fault {
        IdentityFault::Damaged => "damaged record",
        IdentityFault::Flash => "flash refused",
        IdentityFault::VerifyFailed => "write unverified",
        IdentityFault::NoScalar => "no valid scalar",
    }
}

/// The digest to announce: that of the image, and zeros where it has none.
pub fn announced_digest(digest: Option<Sha256Digest>) -> (announced: Sha256Digest)
    ensures
        digest matches Some(d) ==> announced == d,
        digest is None ==> announced.0@ == Seq::new(32, |i: int| 0u8),
{
    match digest {
        Some(digest) => digest,
        None => {
            let zeros: [u8; 32] = [0u8; 32];
            proof {
                assert(zeros@ =~= Seq::new(32, |i: int| 0u8));
            }
            Sha256Digest(zeros)
        },
    }
}

/// What a coordinator that was heard from is owed in this turn.
#[derive(Clone, Copy, Debug, PartialEq, Eq, Structural)]
pub struct Greeting {
    /// Answer its magic bytes.
    pub reply: bool,
    /// Announce this device.
    pub announce: bool,
}

/// What is carried from one turn of the loop to the next.
pub struct Turns {
    reply_owed: bool,
    cleared: bool,
}

impl Turns {
    /// Whether magic bytes were heard and not answered.
    pub closed spec fn owes_reply(self) -> bool {
        self.reply_owed
    }

    /// Whether the count of resets was cleared since the device came up.
    pub closed spec fn has_cleared(self) -> bool {
        self.cleared
    }

    /// Before the first turn.
    pub fn new() -> (turns: Turns)
        ensures
            !turns.owes_reply(),
            !turns.has_cleared(),
    {
        Turns { reply_owed: false, cleared: false }
    }

    /// What to do once the wire was polled. `magic` says that magic bytes came in,
    /// `polled` that the poll went well, and `was_linked` and `linked` whether a
    /// coordinator was connected before and after it.
    ///
    /// A poll that failed ends the turn, and what it owed is owed to the next. A
    /// device announces itself when a coordinator has just connected, and only
    /// then.
    pub fn polled(&mut self, magic: bool, polled: bool, was_linked: bool, linked: bool) -> (greeting:
        Option<Greeting>)
        ensures
            greeting == (if polled {
                Some(
                    Greeting {
                        reply: old(self).owes_reply() || magic,
                        announce: !was_linked && linked,
                    },
                )
            } else {
                None
            }),
            final(self).owes_reply() == (!polled && (old(self).owes_reply() || magic)),
            final(self).has_cleared() == old(self).has_cleared(),
    {
        let reply: bool = self.reply_owed || magic;
        if !polled {
            self.reply_owed = reply;
            return None;
        }
        self.reply_owed = false;
        Some(Greeting { reply, announce: !was_linked && linked })
    }

    /// Whether to clear the count of resets at the end of a turn: once a message
    /// was decoded, only once, and never on a device that has reset too often.
    pub fn finished(&mut self, handled_frame: bool, in_reset_loop: bool) -> (clear: bool)
        ensures
            clear == (handled_frame && !old(self).has_cleared() && !in_reset_loop),
            final(self).has_cleared() == (old(self).has_cleared() || clear),
            final(self).owes_reply() == old(self).owes_reply(),
    {
        let clear: bool = handled_frame && !self.cleared && !in_reset_loop;
        if clear {
            self.cleared = true;
        }
        clear
    }
}

} // verus!
