//! The numeric pad: which keys it has, what each is for, and what one scan of it
//! can report.

use vstd::prelude::*;

verus! {

/// The key that gives up or refuses: `x`.
pub const KEY_CANCEL: u8 = 0x78;

/// The key the pad prints as a tick: `y`.
pub const KEY_OK: u8 = 0x79;

/// The key that advances a page: `9`.
pub const NEXT_KEY: u8 = 0x39;

/// The key that goes back a page: `7`.
pub const BACK_KEY: u8 = 0x37;

/// The digits a consent screen may print: `1`, `2`, `3`, `4` and `6`.
pub const CONFIRM_CHARSET: [u8; 5] = [0x31, 0x32, 0x33, 0x34, 0x36];

/// The keys that answer a quiz question, in the order of the three options.
pub const QUIZ_KEYS: [u8; 3] = [0x31, 0x32, 0x33];

/// What one scan of the pad saw.
#[derive(Clone, Copy, Debug, PartialEq, Eq, Structural)]
pub enum Event {
    /// Exactly one key went down, and this is the byte printed on it.
    Down(u8),
    /// No key is down.
    AllUp,
    /// The contacts had not settled when the scan ended.
    Unsettled,
    /// More than one contact was closed, so no single key can be named.
    MultiKey,
}

/// Why the pad could not be scanned at all.
#[derive(Clone, Copy, Debug, PartialEq, Eq, Structural)]
pub enum KeypadError {
    /// This build has no pad.
    NotOnThisTarget,
    /// The column lines never rose, so nothing read from them means anything.
    ColumnsStuckLow {
        /// The input register as it was read.
        idr: u32,
    },
}

} // verus!
