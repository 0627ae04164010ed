//! What can go wrong, and what this device will not do.

use vstd::prelude::*;
use crate::names::StoreFault;
use crate::outbox::CommsError;

verus! {

/// Something went wrong.
#[derive(Clone, Debug)]
pub enum Fault {
    /// The identity secret is no usable key.
    IdentityScalar,
    /// A message could not be framed. The outbox is as it was.
    Comms(CommsError),
    /// The signer rejected a message, and said this.
    Signer(String),
    /// The signer rejected an answer, and said this.
    Action(String),
    /// The device refuses.
    Refused(Refusal),
    /// The prompt, or this page of it, cannot be answered with a yes.
    NotConfirmable,
    /// Something could not be kept. Nothing was acknowledged.
    Store(StoreFault),
}

/// Why this device refuses. Each is something it cannot do at all.
#[derive(Clone, Copy, Debug, PartialEq, Eq, Structural)]
pub enum Refusal {
    /// The firmware cannot be replaced over the wire.
    FirmwareUpgrade,
    /// Nothing is erased on a coordinator's word.
    DataErase,
    /// There is no factory certificate to prove.
    GenuineChallenge,
    /// This backup cannot be shown in full, or nobody consented to it.
    DisplayBackup,
    /// There is no way to type a share in.
    PhysicalBackup,
    /// There is no screen for an address.
    AddressVerify,
    /// The group is larger than this device has memory for, or its threshold
    /// lies outside the group.
    GroupTooLarge,
    /// What is to be signed cannot be shown in full.
    Undisplayable,
}

impl From<CommsError> for Fault {
    fn from(e: CommsError) -> (fault: Fault) {
        Fault::Comms(e)
    }
}

impl vstd::std_specs::convert::FromSpecImpl<CommsError> for Fault {
    open spec fn obeys_from_spec() -> bool {
        true
    }

    open spec fn from_spec(e: CommsError) -> Fault {
        Fault::Comms(e)
    }
}

} // verus!
