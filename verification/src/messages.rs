//! The messages that pass between the coordinator, the signer and the person at
//! the device, holding what this library reads of each.
//!
//! The signer's own values stay with the signer. Where one of them has to be
//! found again, the message carries a `ticket`, a number that the program which
//! owns the signer hands out and takes back.

use vstd::prelude::*;

verus! {

/// A device's identity on the wire: the 33 bytes of its compressed public key.
#[derive(Clone, Copy, Debug, PartialEq, Eq)]
pub struct DeviceId(pub [u8; 33]);

/// A 32-byte SHA-256 digest.
#[derive(Clone, Copy, Debug, PartialEq, Eq)]
pub struct Sha256Digest(pub [u8; 32]);

/// A finished key generation that waits for a person to compare its session hash.
#[derive(Clone, Debug)]
pub struct KeyGenPhase3 {
    /// How many devices must sign.
    pub threshold: u16,
    /// How many devices hold a share.
    pub parties: u16,
    /// The hash that every device of the ceremony must show alike.
    pub session_hash: [u8; 32],
    /// The name of the key.
    pub key_name: String,
    /// Where the signer's own phase is kept.
    pub ticket: u64,
}

/// One output of a transaction that pays somebody else.
#[derive(Clone, Debug)]
pub struct Recipient {
    /// The address, as text.
    pub address: String,
    /// The amount in satoshi.
    pub sats: u64,
}

/// What a person has to be told of a transaction: who is paid, and the fee.
#[derive(Clone, Debug)]
pub struct TransactionPrompt {
    /// Every output that is not the wallet's own, in the transaction's order.
    pub foreign_recipients: Vec<Recipient>,
    /// The fee in satoshi.
    pub fee_sats: u64,
}

/// What the signer is asked to sign.
#[derive(Clone, Debug)]
pub enum SignTask {
    /// A plain text message.
    Test {
        /// The text.
        message: String,
    },
    /// A Nostr event, for which there is no screen.
    Nostr,
    /// A transaction. There is no prompt where an output has no address form or
    /// the fee does not compute.
    BitcoinTransaction {
        /// What can be shown of the transaction.
        prompt: Option<TransactionPrompt>,
    },
}

/// A signing request that waits for a person.
#[derive(Clone, Debug)]
pub struct SignPhase1 {
    /// What is to be signed.
    pub task: SignTask,
    /// Where the signer's own phase is kept.
    pub ticket: u64,
}

/// A share whose words somebody asked to see.
#[derive(Clone, Copy, Debug, PartialEq, Eq, Structural)]
pub struct BackupDisplayPhase {
    /// The share's index, if it fits the 32 bits that can be printed.
    pub share_index: Option<u32>,
    /// Where the signer's own phase is kept.
    pub ticket: u64,
}

/// The part of a backup or a restoration that a person sees.
#[derive(Clone, Debug)]
pub enum ToUserRestoration {
    /// The coordinator asks to have a share's words shown.
    DisplayBackup {
        /// The name of the key that the share belongs to.
        key_name: String,
        /// The share.
        phase: BackupDisplayPhase,
    },
    /// The coordinator asks to have a share typed in.
    EnterBackup {
        /// Where the signer's own phase is kept.
        ticket: u64,
    },
    /// The coordinator asks to have a written backup checked.
    CheckBackup {
        /// The share.
        phase: BackupDisplayPhase,
    },
    /// A typed share was kept.
    BackupSaved,
    /// A typed share joins the key that it belongs to.
    ConsolidateBackup {
        /// Where the signer's own phase is kept.
        ticket: u64,
    },
}

/// What the signer has to say to the person at the device.
#[derive(Clone, Debug)]
pub enum DeviceToUserMessage {
    /// Does every device show this session hash?
    CheckKeyGen {
        /// The ceremony.
        phase: KeyGenPhase3,
    },
    /// May this be signed?
    SignatureRequest {
        /// The request.
        phase: SignPhase1,
    },
    /// A key was generated and its share is held.
    FinalizeKeyGen {
        /// The name of the key.
        key_name: String,
    },
    /// Nonces to generate: work for the device, no question to a person.
    NonceJobs {
        /// Where the signer's own batch is kept.
        ticket: u64,
    },
    /// An address to compare.
    VerifyAddress {
        /// Where the signer's own request is kept.
        ticket: u64,
    },
    /// A backup or a restoration.
    Restoration(ToUserRestoration),
}

/// One run of nonces of one stream.
#[derive(Clone, Copy, Debug, PartialEq, Eq, Structural)]
pub struct NonceSegment {
    /// Where the signer's own segment is kept.
    pub ticket: u64,
}

/// What the signer answers a coordinator in a signing session.
#[derive(Clone, Debug)]
pub enum DeviceSigning {
    /// Nonces, for as many streams as there are segments.
    NonceResponse {
        /// The segments, in the order of the streams.
        segments: Vec<NonceSegment>,
    },
    /// A share of a signature.
    SignatureShare {
        /// Where the signer's own share is kept.
        ticket: u64,
    },
}

/// What the signer says to a coordinator.
#[derive(Clone, Debug)]
pub enum DeviceToCoordinatorMessage {
    /// A step of a key generation.
    KeyGen {
        /// Where the signer's own message is kept.
        ticket: u64,
    },
    /// A step of a signing session.
    Signing(DeviceSigning),
    /// A reply about shares that are held.
    Restoration {
        /// Where the signer's own message is kept.
        ticket: u64,
    },
}

/// What a device tells a coordinator about its person.
#[derive(Clone, Copy, Debug, PartialEq, Eq, Structural)]
pub enum CommsMisc {
    /// The words of a share were written down.
    BackupRecorded,
    /// A written backup was checked.
    BackupChecked,
}

/// The body of a message to a coordinator.
#[derive(Clone, Debug)]
pub enum DeviceSendBody {
    /// A message of the signer.
    Core(DeviceToCoordinatorMessage),
    /// Free text for a log.
    Debug {
        /// The text.
        message: String,
    },
    /// This device is here, running this firmware.
    Announce {
        /// The digest of the firmware.
        firmware_digest: Sha256Digest,
    },
    /// This device has this name.
    SetName {
        /// The name.
        name: String,
    },
    /// This device has no name.
    NeedName,
    /// Something the person did.
    Misc(CommsMisc),
}

/// What a signer hands back to be done.
#[derive(Clone, Debug)]
pub enum DeviceSend {
    /// Send this to the coordinator.
    ToCoordinator(DeviceToCoordinatorMessage),
    /// Say this to the person, or do it.
    ToUser(DeviceToUserMessage),
}

/// A step of a key generation.
#[derive(Clone, Debug)]
pub enum Keygen {
    /// Begin one.
    Begin {
        /// The devices that take part.
        devices: Vec<DeviceId>,
        /// How many of them must sign.
        threshold: u16,
    },
    /// Certify the keys.
    CertifyPlease,
    /// Compare the session hash.
    Check,
    /// Keep the share.
    Finalize,
}

/// What a coordinator asks of a signer.
#[derive(Clone, Copy, Debug, PartialEq, Eq, Structural)]
pub enum CoordinatorSigning {
    /// Make nonces.
    OpenNonceStreams,
    /// Sign.
    RequestSign,
}

/// What a coordinator asks about shares.
#[derive(Clone, Copy, Debug, PartialEq, Eq, Structural)]
pub enum CoordinatorRestoration {
    /// Which shares are held?
    RequestHeldShares,
    /// Show the words of a share.
    DisplayBackup,
    /// Have a share typed in.
    EnterPhysicalBackup,
    /// Keep a typed share.
    SavePhysicalBackup,
    /// Keep a typed share that is not yet known to belong to a key.
    SavePhysicalBackup2,
    /// Let a typed share join its key.
    Consolidate,
    /// Check a written backup.
    CheckBackup,
}

/// What a coordinator asks of the device's core.
#[derive(Clone, Debug)]
pub enum CoordinatorToDeviceMessage {
    /// A step of a key generation.
    KeyGen(Keygen),
    /// A step of a signing session.
    Signing(CoordinatorSigning),
    /// Something about shares.
    Restoration(CoordinatorRestoration),
    /// Show an address.
    ScreenVerify,
}

/// What a coordinator says about the device's name.
#[derive(Clone, Debug)]
pub enum NameCommand {
    /// This is what the person has typed so far.
    Preview(String),
    /// Nothing sends this any more.
    Retired,
}

/// What a coordinator asks about the firmware.
#[derive(Clone, Copy, Debug, PartialEq, Eq, Structural)]
pub enum CoordinatorUpgradeMessage {
    /// Get ready for an image.
    PrepareUpgrade,
    /// Get ready for an image, with its digest.
    PrepareUpgrade2,
    /// Take the image.
    EnterUpgradeMode,
}

/// The body of a message from a coordinator.
#[derive(Clone, Debug)]
pub enum CoordinatorSendBody {
    /// For the device's core.
    Core(CoordinatorToDeviceMessage),
    /// About the device's name.
    Naming(NameCommand),
    /// The announce arrived.
    AnnounceAck,
    /// Whatever was begun is abandoned.
    Cancel,
    /// About the firmware.
    Upgrade(CoordinatorUpgradeMessage),
    /// Erase everything.
    DataErase,
    /// Prove that the device is genuine.
    Challenge,
}

} // verus!
