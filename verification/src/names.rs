//! The device's name as it is kept on flash: one record of fixed shape with a
//! checksum at its end, so a write that was cut short reads as no name.

use vstd::prelude::*;
use vstd::slice::slice_subrange;
use vstd::utf8::{decode_utf8, encode_utf8, valid_utf8};
use crate::digest::{contents, tagged, tagged_digest, NAME_DOMAIN};

verus! {

/// How many characters a device name has at most.
pub const DEVICE_NAME_MAX_LENGTH: usize = 14;

/// How many bytes of UTF-8 a device name has at most.
pub const DEVICE_NAME_MAX_BYTES: usize = 4 * DEVICE_NAME_MAX_LENGTH;

/// Where the name begins in a record. The byte before is its length.
pub const NAME_OFF: usize = 1;

/// Where the checksum begins in a record.
pub const NAME_TAG_OFF: usize = 64;

/// How long the checksum is.
pub const NAME_TAG_LEN: usize = 8;

/// How long a record is.
pub const NAME_RECORD_LEN: usize = NAME_TAG_OFF + NAME_TAG_LEN;

/// Why the flash refused an operation.
#[derive(Clone, Copy, Debug, PartialEq, Eq, Structural)]
pub enum FlashError {
    /// The operation was not aligned to what the flash can do.
    NotAligned,
    /// The operation reached past the end of the flash.
    OutOfBounds,
    /// Anything else.
    Other,
}

/// Why something could not be kept.
#[derive(Clone, Copy, Debug, PartialEq, Eq, Structural)]
pub enum StoreFault {
    /// It does not fit its record.
    TooBig,
    /// What is to be kept is not one whole key generation.
    NotOneKeygen,
    /// The flash refused the write.
    Flash(FlashError),
}

/// What came of writing a record to its two copies.
#[derive(Clone, Copy, Debug, PartialEq, Eq, Structural)]
pub enum AbWriteOutcome {
    /// Both copies hold the record.
    Committed,
    /// One copy holds the record, and it is the one that is read.
    CommittedSingleCopy(FlashError),
    /// Neither copy changed what is read.
    NotCommitted(FlashError),
}

/// The part of a record that the checksum covers: the length, the name, zeros.
pub open spec fn name_body(name: Seq<u8>) -> Seq<u8> {
    Seq::new(
        NAME_TAG_OFF as nat,
        |i: int|
            if i == 0 {
                name.len() as u8
            } else if i < NAME_OFF + name.len() {
                name[i - NAME_OFF]
            } else {
                0u8
            },
    )
}

/// The checksum of the body of a record.
pub open spec fn name_tag_of(body: Seq<u8>) -> Seq<u8> {
    tagged_digest(NAME_DOMAIN@, seq![body]).take(NAME_TAG_LEN as int)
}

/// The record of a name.
pub open spec fn name_record(name: Seq<u8>) -> Seq<u8> {
    name_body(name) + name_tag_of(name_body(name))
}

/// The name in a record whose body has the checksum `tag`, if the record holds a
/// name: the checksum at its end is that one, its length fits, and its bytes are
/// text.
pub open spec fn name_in(record: Seq<u8>, tag: Seq<u8>) -> Option<Seq<char>> {
    let len = record[0] as int;
    let name = record.subrange(NAME_OFF as int, NAME_OFF + len);
    if record.skip(NAME_TAG_OFF as int) != tag || len > DEVICE_NAME_MAX_BYTES || !valid_utf8(name) {
        None
    } else {
        Some(decode_utf8(name))
    }
}

/// The name that a slot holds, where nothing readable in it is no name.
pub open spec fn stored_name_in(slot: Option<Seq<u8>>) -> Option<Seq<char>> {
    match slot {
        None => None,
        Some(record) => name_in(record, name_tag_of(record.take(NAME_TAG_OFF as int))),
    }
}

/// A name that fits its record is read back from it unchanged.
pub proof fn a_saved_name_is_loaded_back(name: Seq<char>)
    requires
        encode_utf8(name).len() <= DEVICE_NAME_MAX_BYTES,
    ensures
        stored_name_in(Some(name_record(encode_utf8(name)))) == Some(name),
{
    let bytes = encode_utf8(name);
    let record = name_record(bytes);
    assert(record.take(NAME_TAG_OFF as int) =~= name_body(bytes));
    assert(record.skip(NAME_TAG_OFF as int) =~= name_tag_of(name_body(bytes)));
    assert(record.subrange(NAME_OFF as int, NAME_OFF + bytes.len()) =~= bytes);
    vstd::utf8::encode_utf8_valid_utf8(name);
    vstd::utf8::encode_utf8_decode_utf8(name);
}

/// Reads text from bytes with `core::str::from_utf8`, which accepts exactly the
/// bytes that are valid UTF-8 and gives the text that they encode.
#[verifier::external_body]
fn utf8_text(bytes: &[u8]) -> (text: Option<String>)
    ensures
        text is Some <==> valid_utf8(bytes@),
        text matches Some(t) ==> t@ == decode_utf8(bytes@),
{
    core::str::from_utf8(bytes).ok().map(String::from)
}

/// Builds the body of the record of a name that fits.
fn body_of(name: &[u8]) -> (body: [u8; NAME_TAG_OFF])
    requires
        name@.len() <= DEVICE_NAME_MAX_BYTES,
    ensures
        body@ == name_body(name@),
        body@[0] == name@.len(),
        forall|j: int| 0 <= j < name@.len() ==> body@[1 + j] == #[trigger] name@[j],
        forall|j: int| 1 + name@.len() <= j < 64 ==> #[trigger] body@[j] == 0,
{
    let mut body: [u8; NAME_TAG_OFF] = [0u8; NAME_TAG_OFF];
    body[0] = name.len() as u8;
    let mut i: usize = 0;
    while i < name.len()
        invariant
            i <= name@.len() <= DEVICE_NAME_MAX_BYTES,
            body@[0] == name@.len() as u8,
            forall|j: int| 0 <= j < i ==> body@[NAME_OFF + j] == name@[j],
            forall|j: int| NAME_OFF + i <= j < NAME_TAG_OFF ==> body@[j] == 0,
        decreases name@.len() - i,
    {
        body[NAME_OFF + i] = name[i];
        i += 1;
    }
    proof {
        assert(body@ =~= name_body(name@)) by {
            assert forall|j: int| 0 <= j < NAME_TAG_OFF implies body@[j] == name_body(name@)[j] by {
                if 1 <= j < NAME_OFF + name@.len() {
                    assert(body@[NAME_OFF + (j - NAME_OFF)] == name@[j - NAME_OFF]);
                }
            }
        }
    }
    body
}

/// The checksum of the body of a record: the first bytes of its digest.
fn name_tag(body: &[u8]) -> (tag: [u8; NAME_TAG_LEN])
    ensures
        tag@ == name_tag_of(body@),
        tag@ == tagged_digest(NAME_DOMAIN@, seq![body@]).take(8),
{
    let parts: [&[u8]; 1] = [body];
    let digest: [u8; 32] = tagged(NAME_DOMAIN, parts.as_slice());
    let tag: [u8; NAME_TAG_LEN] = [
        digest[0],
        digest[1],
        digest[2],
        digest[3],
        digest[4],
        digest[5],
        digest[6],
        digest[7],
    ];
    proof {
        assert(contents(parts@) =~= seq![body@]);
        assert(tag@ =~= digest@.take(NAME_TAG_LEN as int));
    }
    tag
}

/// Puts a body and its checksum together to a record.
pub fn sealed(body: &[u8; NAME_TAG_OFF], tag: &[u8; NAME_TAG_LEN]) -> (record: [u8; NAME_RECORD_LEN])
    ensures
        record@ == body@ + tag@,
{
    let mut record: [u8; NAME_RECORD_LEN] = [0u8; NAME_RECORD_LEN];
    let mut i: usize = 0;
    while i < NAME_RECORD_LEN
        invariant
            i <= NAME_RECORD_LEN,
            forall|j: int| 0 <= j < i ==> record@[j] == (body@ + tag@)[j],
        decreases NAME_RECORD_LEN - i,
    {
        record[i] = if i < NAME_TAG_OFF { body[i] } else { tag[i - NAME_TAG_OFF] };
        i += 1;
    }
    proof {
        assert(record@ =~= body@ + tag@);
    }
    record
}

/// Reads the name from a record whose body has the checksum `tag`.
pub fn opened(record: &[u8; NAME_RECORD_LEN], tag: &[u8; NAME_TAG_LEN]) -> (name: Option<String>)
    ensures
        name is Some <==> name_in(record@, tag@) is Some,
        name matches Some(n) ==> Some(n@) == name_in(record@, tag@),
        name is Some <==> {
            &&& forall|j: int| 0 <= j < 8 ==> record@[64 + j] == #[trigger] tag@[j]
            &&& record@[0] <= 56
            &&& valid_utf8(record@.subrange(1, 1 + record@[0]))
        },
        name matches Some(n) ==> encode_utf8(n@) == record@.subrange(1, 1 + record@[0]),
{
    let mut i: usize = 0;
    while i < NAME_TAG_LEN
        invariant
            i <= NAME_TAG_LEN,
            forall|j: int| 0 <= j < i ==> record@[NAME_TAG_OFF + j] == tag@[j],
        decreases NAME_TAG_LEN - i,
    {
        if record[NAME_TAG_OFF + i] != tag[i] {
            proof {
                assert(record@.skip(NAME_TAG_OFF as int)[i as int] != tag@[i as int]);
            }
            return None;
        }
        i += 1;
    }
    proof {
        assert(record@.skip(NAME_TAG_OFF as int) =~= tag@) by {
            assert forall|j: int| 0 <= j < NAME_TAG_LEN implies record@.skip(NAME_TAG_OFF as int)[j]
                == tag@[j] by {
                assert(record@[NAME_TAG_OFF + j] == tag@[j]);
            }
        }
    }
    let len: usize = record[0] as usize;
    if len > DEVICE_NAME_MAX_BYTES {
        return None;
    }
    let name: &[u8] = slice_subrange(record.as_slice(), NAME_OFF, NAME_OFF + len);
    proof {
        if valid_utf8(name@) {
            vstd::utf8::decode_utf8_encode_utf8(name@);
        }
    }
    utf8_text(name)
}

/// The region of the flash that holds the device's name, as it was last read or
/// written: the record in it, or nothing that reads as one.
pub struct NameStore {
    slot: Option<[u8; NAME_RECORD_LEN]>,
}

impl NameStore {
    /// The record in the region.
    pub closed spec fn slot(self) -> Option<Seq<u8>> {
        match self.slot {
            None => None,
            Some(record) => Some(record@),
        }
    }

    /// The name in the region.
    pub open spec fn name(self) -> Option<Seq<char>> {
        stored_name_in(self.slot())
    }

    /// The region as it was just read.
    pub fn open(slot: Option<[u8; NAME_RECORD_LEN]>) -> (store: NameStore)
        ensures
            slot is None ==> store.slot() is None,
            slot matches Some(record) ==> store.slot() == Some(record@),
    {
        NameStore { slot }
    }

    /// The record to write so that `name` is kept. A name that is too long gives
    /// none, and is not cut.
    pub fn save(&self, name: &str) -> (record: Result<[u8; NAME_RECORD_LEN], StoreFault>)
        ensures
            record is Ok <==> encode_utf8(name@).len() <= DEVICE_NAME_MAX_BYTES,
            record matches Ok(r) ==> r@ == name_record(encode_utf8(name@)),
            record matches Ok(r) ==> {
                &&& r@[0] == encode_utf8(name@).len()
                &&& r@.subrange(1, 1 + r@[0]) == encode_utf8(name@)
                &&& forall|j: int| 1 + r@[0] <= j < 64 ==> #[trigger] r@[j] == 0
                &&& r@.skip(64) == tagged_digest(NAME_DOMAIN@, seq![r@.take(64)]).take(8)
            },
            record matches Err(fault) ==> fault == StoreFault::TooBig,
    {
        let bytes: &[u8] = name.as_bytes();
        if bytes.len() > DEVICE_NAME_MAX_BYTES {
            return Err(StoreFault::TooBig);
        }
        let body: [u8; NAME_TAG_OFF] = body_of(bytes);
        let tag: [u8; NAME_TAG_LEN] = name_tag(body.as_slice());
        let record: [u8; NAME_RECORD_LEN] = sealed(&body, &tag);
        proof {
            assert(record@.subrange(1, 1 + record@[0]) =~= bytes@) by {
                assert forall|j: int| 0 <= j < bytes@.len() implies record@.subrange(
                    1,
                    1 + record@[0],
                )[j] == bytes@[j] by {
                    assert(body@[1 + j] == bytes@[j]);
                }
            }
            assert forall|j: int| 1 + record@[0] <= j < 64 implies #[trigger] record@[j] == 0 by {
                assert(body@[j] == 0);
            }
            assert(record@.take(64) =~= body@);
            assert(record@.skip(64) =~= tag@);
        }
        Ok(record)
    }

    /// Takes note of what came of writing a record: one copy is enough, and a
    /// write that was refused leaves the name that was there.
    pub fn written(&mut self, record: [u8; NAME_RECORD_LEN], outcome: AbWriteOutcome) -> (kept: Result<
        (),
        StoreFault,
    >)
        ensures
            outcome is Committed || outcome is CommittedSingleCopy ==> kept is Ok
                && final(self).slot() == Some(record@),
            outcome matches AbWriteOutcome::NotCommitted(e) ==> kept == Err::<(), StoreFault>(
                StoreFault::Flash(e),
            ) && *final(self) == *old(self),
    {
        match outcome {
            AbWriteOutcome::Committed | AbWriteOutcome::CommittedSingleCopy(_) => {
                self.slot = Some(record);
                Ok(())
            },
            AbWriteOutcome::NotCommitted(e) => Err(StoreFault::Flash(e)),
        }
    }

    /// The name in the region. A region that is blank, damaged or holds no text
    /// has none.
    pub fn load(&self) -> (name: Option<String>)
        ensures
            name is Some <==> self.name() is Some,
            name matches Some(n) ==> Some(n@) == self.name(),
            self.slot() is None ==> name is None,
            self.slot() matches Some(record) ==> {
                &&& name is Some <==> {
                    &&& record.skip(64) == tagged_digest(NAME_DOMAIN@, seq![record.take(64)]).take(
                        8,
                    )
                    &&& record[0] <= 56
                    &&& valid_utf8(record.subrange(1, 1 + record[0]))
                }
                &&& name matches Some(n) ==> encode_utf8(n@) == record.subrange(1, 1 + record[0])
            },
    {
        match &self.slot {
            None => None,
            Some(record) => {
                let tag: [u8; NAME_TAG_LEN] = name_tag(
                    slice_subrange(record.as_slice(), 0, NAME_TAG_OFF),
                );
                proof {
                    assert(record@.subrange(0, NAME_TAG_OFF as int) =~= record@.take(
                        NAME_TAG_OFF as int,
                    ));
                }
                opened(record, &tag)
            },
        }
    }
}

} // verus!
