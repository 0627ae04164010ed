//! What this device hashes: the values it derives from its identity secret, and
//! the firmware image it runs.

use sha2::{Digest, Sha256};
use vstd::prelude::*;
use vstd::slice::slice_subrange;
use vstd::utf8::encode_utf8;
use crate::messages::Sha256Digest;

verus! {

/// The SHA-256 digest of a message.
pub uninterp spec fn sha256_of(message: Seq<u8>) -> Seq<u8>;

/// Hashes two runs of bytes as one message, with `sha2`'s `Sha256`: `new`, one
/// `update` for each run, and `finalize`.
///
/// Nothing is claimed of the digest but that it is the one of the two runs put
/// together, so equal messages have equal digests.
#[verifier::external_body]
fn sha256(head: &[u8], tail: &[u8]) -> (digest: [u8; 32])
    ensures
        digest@ == sha256_of(head@ + tail@),
{
    let mut hasher = Sha256::new();
    hasher.update(head);
    hasher.update(tail);
    hasher.finalize().into()
}

/// The four bytes of a number, the lowest first.
pub open spec fn le_bytes(n: int) -> Seq<u8> {
    seq![
        (n % 256) as u8,
        (n / 256 % 256) as u8,
        (n / 65536 % 256) as u8,
        (n / 16777216 % 256) as u8,
    ]
}

/// The number that four bytes stand for, the lowest first.
pub open spec fn le_number(bytes: Seq<u8>) -> int {
    bytes[0] + 256 * bytes[1] + 65536 * bytes[2] + 16777216 * bytes[3]
}

/// The four bytes of a number, the highest first.
pub open spec fn be_bytes(n: int) -> Seq<u8> {
    seq![
        (n / 16777216 % 256) as u8,
        (n / 65536 % 256) as u8,
        (n / 256 % 256) as u8,
        (n % 256) as u8,
    ]
}

/// A 32-bit number comes back from its bytes, each of them weighed by its place.
pub proof fn a_number_comes_back_from_its_bytes(n: u32)
    ensures
        le_number(le_bytes(n as int)) == n,
        le_bytes(n as int).len() == 4,
        be_bytes(n as int).len() == 4,
        ({
            let low = le_bytes(n as int);
            low[0] + 0x100 * low[1] + 0x1_0000 * low[2] + 0x100_0000 * low[3] == n
        }),
        ({
            let high = be_bytes(n as int);
            high[3] + 0x100 * high[2] + 0x1_0000 * high[1] + 0x100_0000 * high[0] == n
        }),
{
}

/// The byte of a number in units of `unit` is not changed by a multiple of 256 units.
proof fn a_byte_is_untouched_by_higher_ones(q: int, m: int, unit: int)
    requires
        unit > 0,
    ensures
        (256 * q * unit + m) / unit % 256 == m / unit % 256,
{
    vstd::arithmetic::div_mod::lemma_hoist_over_denominator(m, 256 * q, unit as nat);
    vstd::arithmetic::div_mod::lemma_mod_multiples_vanish(q, m / unit, 256);
}

/// Four bytes hold a number up to multiples of 2^32.
proof fn four_bytes_hold_the_low_part(n: nat)
    ensures
        le_bytes((n % 0x1_0000_0000) as int) == le_bytes(n as int),
{
    let m = (n % 0x1_0000_0000) as int;
    let q = (n / 0x1_0000_0000) as int;
    assert(n == q * 0x1_0000_0000 + m);
    let whole = n as int;
    vstd::arithmetic::div_mod::lemma_mod_multiples_vanish(q * 0x100_0000, m, 256);
    a_byte_is_untouched_by_higher_ones(q * 0x1_0000, m, 256);
    a_byte_is_untouched_by_higher_ones(q * 0x100, m, 65536);
    a_byte_is_untouched_by_higher_ones(q, m, 16777216);
    assert(le_bytes(m) =~= le_bytes(whole));
}

/// The parts one after the other, each behind its length in four bytes.
pub open spec fn framed(parts: Seq<Seq<u8>>) -> Seq<u8>
    decreases parts.len(),
{
    if parts.len() == 0 {
        Seq::empty()
    } else {
        le_bytes(parts[0].len() as int) + parts[0] + framed(parts.skip(1))
    }
}

/// What is hashed of some parts under a domain: the domain's name and then the
/// framed parts.
pub open spec fn tagged_message(domain: Seq<char>, parts: Seq<Seq<u8>>) -> Seq<u8> {
    encode_utf8(domain) + framed(parts)
}

/// The digest of some parts under a domain.
pub open spec fn tagged_digest(domain: Seq<char>, parts: Seq<Seq<u8>>) -> Seq<u8> {
    sha256_of(tagged_message(domain, parts))
}

/// The contents of some byte slices.
pub open spec fn contents(parts: Seq<&[u8]>) -> Seq<Seq<u8>> {
    Seq::new(parts.len(), |i: int| parts[i]@)
}

/// Parts that are short enough for their lengths to be told apart.
pub open spec fn short_parts(parts: Seq<Seq<u8>>) -> bool {
    forall|i: int| 0 <= i < parts.len() ==> (#[trigger] parts[i]).len() <= u32::MAX
}

/// Framing keeps the parts in order and adds four bytes to each: a part stands behind
/// its length, the lowest byte first, between what is framed of the parts before it and
/// of those after it. No part at all is framed as no byte at all.
pub proof fn each_part_stands_behind_its_length(parts: Seq<Seq<u8>>, at: int)
    requires
        0 <= at < parts.len(),
    ensures
        framed(Seq::empty()) == Seq::<u8>::empty(),
        ({
            let start = framed(parts.take(at)).len() as int;
            let len = parts[at].len() as int;
            let all = framed(parts);
            &&& all.len() == start + 4 + len + framed(parts.skip(at + 1)).len()
            &&& all.take(start) == framed(parts.take(at))
            &&& all[start] + 0x100 * all[start + 1] + 0x1_0000 * all[start + 2] + 0x100_0000
                * all[start + 3] == len % 0x1_0000_0000
            &&& all.subrange(start + 4, start + 4 + len) == parts[at]
            &&& all.skip(start + 4 + len) == framed(parts.skip(at + 1))
        }),
    decreases at,
{
    let all = framed(parts);
    let head = le_bytes(parts[0].len() as int) + parts[0];
    if at == 0 {
        assert(framed(parts.take(0)) =~= Seq::empty());
        four_bytes_hold_the_low_part(parts[0].len());
        a_number_comes_back_from_its_bytes((parts[0].len() % 0x1_0000_0000) as u32);
        let low = le_bytes(parts[0].len() as int);
        assert(all[0] == low[0] && all[1] == low[1] && all[2] == low[2] && all[3] == low[3]);
        assert(all.take(0) =~= Seq::empty());
        assert(all.subrange(4, 4 + parts[0].len() as int) =~= parts[0]);
        assert(all.skip(4 + parts[0].len() as int) =~= framed(parts.skip(1)));
    } else {
        let rest = parts.skip(1);
        each_part_stands_behind_its_length(rest, at - 1);
        assert(parts.take(at).skip(1) =~= rest.take(at - 1));
        assert(rest.skip(at) =~= parts.skip(at + 1));
        assert(framed(parts.take(at)) =~= head + framed(rest.take(at - 1)));
        let start = framed(rest.take(at - 1)).len() as int;
        let len = parts[at].len() as int;
        let n = head.len() as int;
        let tail = framed(rest);
        assert(all =~= head + tail);
        assert(all.take(n + start) =~= head + tail.take(start));
        assert(all.subrange(n + start + 4, n + start + 4 + len) =~= tail.subrange(
            start + 4,
            start + 4 + len,
        ));
        assert(all.skip(n + start + 4 + len) =~= tail.skip(start + 4 + len));
    }
}

/// Framing puts each part behind its own length, so no two lists of parts give
/// the same bytes.
pub proof fn framing_keeps_parts_apart(a: Seq<Seq<u8>>, b: Seq<Seq<u8>>)
    requires
        short_parts(a),
        short_parts(b),
        framed(a) == framed(b),
    ensures
        a == b,
    decreases a.len(),
{
    if a.len() == 0 {
        if b.len() > 0 {
            assert(framed(b).len() >= 4);
        }
        assert(a =~= b);
    } else if b.len() == 0 {
        assert(framed(a).len() >= 4);
    } else {
        let fa = framed(a);
        let fb = framed(b);
        let na = a[0].len();
        let nb = b[0].len();
        assert(fa.subrange(0, 4) =~= le_bytes(na as int));
        assert(fb.subrange(0, 4) =~= le_bytes(nb as int));
        a_number_comes_back_from_its_bytes(na as u32);
        a_number_comes_back_from_its_bytes(nb as u32);
        assert(na == nb);
        assert(fa.subrange(4, 4 + na as int) =~= a[0]);
        assert(fb.subrange(4, 4 + nb as int) =~= b[0]);
        assert(fa.skip(4 + na as int) =~= framed(a.skip(1)));
        assert(fb.skip(4 + nb as int) =~= framed(b.skip(1)));
        framing_keeps_parts_apart(a.skip(1), b.skip(1));
        assert(a =~= seq![a[0]] + a.skip(1));
        assert(b =~= seq![b[0]] + b.skip(1));
    }
}

/// Under one domain, different parts are hashed as different messages.
pub proof fn tagging_keeps_parts_apart(domain: Seq<char>, a: Seq<Seq<u8>>, b: Seq<Seq<u8>>)
    requires
        short_parts(a),
        short_parts(b),
        tagged_message(domain, a) == tagged_message(domain, b),
    ensures
        a == b,
{
    let n = encode_utf8(domain).len() as int;
    assert(tagged_message(domain, a).skip(n) =~= framed(a));
    assert(tagged_message(domain, b).skip(n) =~= framed(b));
    framing_keeps_parts_apart(a, b);
}

/// The four bytes of a number, the lowest first.
fn to_le_bytes(n: u32) -> (bytes: [u8; 4])
    ensures
        bytes@ == le_bytes(n as int),
        bytes@[0] + 0x100 * bytes@[1] + 0x1_0000 * bytes@[2] + 0x100_0000 * bytes@[3] == n,
{
    let bytes: [u8; 4] = [
        (n % 256) as u8,
        (n / 256 % 256) as u8,
        (n / 65536 % 256) as u8,
        (n / 16777216 % 256) as u8,
    ];
    proof {
        assert(bytes@ =~= le_bytes(n as int));
    }
    bytes
}

/// The four bytes of a number, the highest first.
fn to_be_bytes(n: u32) -> (bytes: [u8; 4])
    ensures
        bytes@ == be_bytes(n as int),
        bytes@[3] + 0x100 * bytes@[2] + 0x1_0000 * bytes@[1] + 0x100_0000 * bytes@[0] == n,
{
    let bytes: [u8; 4] = [
        (n / 16777216 % 256) as u8,
        (n / 65536 % 256) as u8,
        (n / 256 % 256) as u8,
        (n % 256) as u8,
    ];
    proof {
        assert(bytes@ =~= be_bytes(n as int));
    }
    bytes
}

/// Puts the parts one after the other, each behind its length in four bytes.
pub fn frame(parts: &[&[u8]]) -> (bytes: Vec<u8>)
    ensures
        bytes@ == framed(contents(parts@)),
        contents(parts@).len() == parts@.len(),
        forall|i: int| 0 <= i < parts@.len() ==> #[trigger] contents(parts@)[i] == parts@[i]@,
{
    let ghost all = contents(parts@);
    let mut bytes: Vec<u8> = Vec::new();
    let mut i: usize = 0;
    proof {
        assert(all.skip(0) =~= all);
        assert(bytes@ + framed(all) =~= framed(all));
    }
    while i < parts.len()
        invariant
            all == contents(parts@),
            i <= parts@.len(),
            bytes@ + framed(all.skip(i as int)) == framed(all),
        decreases parts@.len() - i,
    {
        let part: &[u8] = parts[i];
        let ghost before = bytes@;
        let low: u32 = (part.len() as u64 % 0x1_0000_0000) as u32;
        let len: [u8; 4] = to_le_bytes(low);
        proof {
            let rest = all.skip(i as int);
            assert(rest[0] == part@);
            assert(rest.skip(1) =~= all.skip(i + 1));
            four_bytes_hold_the_low_part(part@.len());
        }
        bytes.extend_from_slice(len.as_slice());
        bytes.extend_from_slice(part);
        proof {
            assert(bytes@ =~= before + le_bytes(part@.len() as int) + part@);
            assert(bytes@ + framed(all.skip(i + 1)) =~= before + framed(all.skip(i as int)));
        }
        i += 1;
    }
    proof {
        assert(all.skip(i as int) =~= Seq::empty());
        assert(bytes@ + Seq::<u8>::empty() =~= bytes@);
    }
    bytes
}

/// Hashes some parts under a domain.
pub fn tagged(domain: &str, parts: &[&[u8]]) -> (digest: [u8; 32])
    ensures
        digest@ == tagged_digest(domain@, contents(parts@)),
        digest@ == sha256_of(encode_utf8(domain@) + framed(contents(parts@))),
{
    sha256(domain.as_bytes(), frame(parts).as_slice())
}

/// The domain of the keys that shares are encrypted under.
pub const SHARE_DOMAIN: &'static str = "coldsnap/share-encryption/v1";

/// The domain of the seeds of nonce streams.
pub const NONCE_DOMAIN: &'static str = "coldsnap/nonce-seed/v1";

/// The domain of the checksum of a stored device name.
pub const NAME_DOMAIN: &'static str = "coldsnap/device-name/v1";

/// Two different domains of this device, each followed by anything, never make
/// the same message.
pub proof fn domains_keep_messages_apart(one: &str, other: &str, a: Seq<Seq<u8>>, b: Seq<Seq<u8>>)
    requires
        one == SHARE_DOMAIN || one == NONCE_DOMAIN || one == NAME_DOMAIN,
        other == SHARE_DOMAIN || other == NONCE_DOMAIN || other == NAME_DOMAIN,
        one != other,
    ensures
        tagged_message(one@, a) != tagged_message(other@, b),
{
    reveal_strlit("coldsnap/share-encryption/v1");
    reveal_strlit("coldsnap/nonce-seed/v1");
    reveal_strlit("coldsnap/device-name/v1");
    vstd::utf8::is_ascii_chars_encode_utf8(one@);
    vstd::utf8::is_ascii_chars_encode_utf8(other@);
    let x = tagged_message(one@, a);
    let y = tagged_message(other@, b);
    assert(x[9] == one@[9] as u8);
    assert(y[9] == other@[9] as u8);
    assert(x[10] == one@[10] as u8);
    assert(y[10] == other@[10] as u8);
}

/// What this device derives from its identity secret. The derivations depend on
/// nothing else, so they come out alike after every reset.
pub struct Secrets {
    seed: [u8; 32],
}

impl Secrets {
    /// The identity secret.
    pub closed spec fn seed(self) -> Seq<u8> {
        self.seed@
    }

    /// The derivations of one identity secret.
    pub fn new(secret: &[u8; 32]) -> (secrets: Secrets)
        ensures
            secrets.seed() == secret@,
    {
        Secrets { seed: *secret }
    }

    /// The key that the share of one party is encrypted under.
    pub fn get_share_encryption_key(
        &self,
        key_id: &[u8],
        access_structure_id: &[u8],
        party_index: &[u8],
        coord_key: &[u8],
    ) -> (key: [u8; 32])
        ensures
            key@ == tagged_digest(
                SHARE_DOMAIN@,
                seq![self.seed(), key_id@, access_structure_id@, party_index@, coord_key@],
            ),
    {
        let parts: [&[u8]; 5] = [
            self.seed.as_slice(),
            key_id,
            access_structure_id,
            party_index,
            coord_key,
        ];
        proof {
            assert(contents(parts@) =~= seq![
                self.seed(),
                key_id@,
                access_structure_id@,
                party_index@,
                coord_key@,
            ]);
        }
        tagged(SHARE_DOMAIN, parts.as_slice())
    }

    /// The seed of the nonces of one stream at one index.
    pub fn derive_nonce_seed(
        &self,
        nonce_stream_id: &[u8],
        index: u32,
        seed_material: &[u8; 32],
    ) -> (seed: [u8; 32])
        ensures
            seed@ == tagged_digest(
                NONCE_DOMAIN@,
                seq![self.seed(), nonce_stream_id@, be_bytes(index as int), seed_material@],
            ),
    {
        let index_bytes: [u8; 4] = to_be_bytes(index);
        let parts: [&[u8]; 4] = [
            self.seed.as_slice(),
            nonce_stream_id,
            index_bytes.as_slice(),
            seed_material.as_slice(),
        ];
        proof {
            assert(contents(parts@) =~= seq![
                self.seed(),
                nonce_stream_id@,
                be_bytes(index as int),
                seed_material@,
            ]);
        }
        tagged(NONCE_DOMAIN, parts.as_slice())
    }
}

/// Different nonce requests of one device are hashed as different messages, so
/// no index of a stream shares its seed's message with another.
pub proof fn nonce_seeds_have_messages_of_their_own(
    seed: Seq<u8>,
    stream: Seq<u8>,
    index: u32,
    material: Seq<u8>,
    other_stream: Seq<u8>,
    other_index: u32,
    other_material: Seq<u8>,
)
    requires
        seed.len() <= u32::MAX,
        stream.len() <= u32::MAX,
        material.len() <= u32::MAX,
        other_stream.len() <= u32::MAX,
        other_material.len() <= u32::MAX,
        tagged_message(NONCE_DOMAIN@, seq![seed, stream, be_bytes(index as int), material])
            == tagged_message(
            NONCE_DOMAIN@,
            seq![seed, other_stream, be_bytes(other_index as int), other_material],
        ),
    ensures
        stream == other_stream,
        index == other_index,
        material == other_material,
{
    let a = seq![seed, stream, be_bytes(index as int), material];
    let b = seq![seed, other_stream, be_bytes(other_index as int), other_material];
    assert(short_parts(a));
    assert(short_parts(b));
    tagging_keeps_parts_apart(NONCE_DOMAIN@, a, b);
    assert(a[1] == b[1] && a[2] == b[2] && a[3] == b[3]);
    let x = be_bytes(index as int);
    let y = be_bytes(other_index as int);
    assert(x[0] == y[0] && x[1] == y[1] && x[2] == y[2] && x[3] == y[3]);
    assert(le_number(seq![x[3], x[2], x[1], x[0]]) == index);
    assert(le_number(seq![y[3], y[2], y[1], y[0]]) == other_index);
}

/// Different shares are encrypted under keys of different messages, whichever of the
/// four names tells them apart.
pub proof fn share_keys_have_messages_of_their_own(
    seed: Seq<u8>,
    names: Seq<Seq<u8>>,
    others: Seq<Seq<u8>>,
)
    requires
        seed.len() <= u32::MAX,
        names.len() == 4,
        others.len() == 4,
        forall|i: int| 0 <= i < 4 ==> (#[trigger] names[i]).len() <= u32::MAX,
        forall|i: int| 0 <= i < 4 ==> (#[trigger] others[i]).len() <= u32::MAX,
        tagged_message(SHARE_DOMAIN@, seq![seed, names[0], names[1], names[2], names[3]])
            == tagged_message(
            SHARE_DOMAIN@,
            seq![seed, others[0], others[1], others[2], others[3]],
        ),
    ensures
        names == others,
{
    let a = seq![seed, names[0], names[1], names[2], names[3]];
    let b = seq![seed, others[0], others[1], others[2], others[3]];
    assert(short_parts(a));
    assert(short_parts(b));
    tagging_keeps_parts_apart(SHARE_DOMAIN@, a, b);
    assert(a[1] == b[1] && a[2] == b[2] && a[3] == b[3] && a[4] == b[4]);
    assert(names =~= others);
}

/// Where the header of a firmware image begins.
pub const FW_HEADER_OFFSET: usize = 0x3f80;

/// How long the header is.
pub const FW_HEADER_SIZE: usize = 128;

/// How long the signature at the end of the header is.
pub const FW_SIGNATURE_SIZE: usize = 64;

/// Where in the header the length of the image stands.
pub const FW_LENGTH_OFFSET: usize = 24;

/// The shortest image that is accepted.
pub const FW_MIN_BODY_LEN: u32 = 0x4_0000;

/// What the length of an image is a multiple of.
pub const FW_BODY_ALIGN: u32 = 512;

/// One past the header.
pub open spec fn header_end() -> int {
    FW_HEADER_OFFSET + FW_HEADER_SIZE
}

/// The length that the header of an image claims.
pub open spec fn claimed_length(image: Seq<u8>) -> int {
    let at = FW_HEADER_OFFSET + FW_LENGTH_OFFSET;
    le_number(image.subrange(at, at + 4))
}

/// Whether an image holds a header and as many bytes as the header claims, in a
/// length that a firmware can have.
pub open spec fn well_formed_image(image: Seq<u8>) -> bool {
    &&& image.len() >= header_end()
    &&& FW_MIN_BODY_LEN <= claimed_length(image) <= image.len()
    &&& claimed_length(image) % FW_BODY_ALIGN as int == 0
}

/// What is signed of an image: everything up to the claimed length but the
/// signature itself.
pub open spec fn signed_bytes(image: Seq<u8>) -> Seq<u8> {
    image.subrange(0, header_end() - FW_SIGNATURE_SIZE) + image.subrange(
        header_end(),
        claimed_length(image),
    )
}

/// The length that the header of an image claims, if the image is well formed.
pub fn image_length(image: &[u8]) -> (length: Option<usize>)
    ensures
        length is Some <==> well_formed_image(image@),
        length matches Some(n) ==> n == claimed_length(image@),
        image@.len() < 0x4000 ==> length is None,
        image@.len() >= 0x4000 ==> ({
            let claimed = image@[0x3f98] + 0x100 * image@[0x3f99] + 0x1_0000 * image@[0x3f9a]
                + 0x100_0000 * image@[0x3f9b];
            if 0x4_0000 <= claimed <= image@.len() && claimed % 512 == 0 {
                length == Some(claimed as usize)
            } else {
                length is None
            }
        }),
{
    let end: usize = FW_HEADER_OFFSET + FW_HEADER_SIZE;
    if image.len() < end {
        return None;
    }
    let at: usize = FW_HEADER_OFFSET + FW_LENGTH_OFFSET;
    let length: u32 = image[at] as u32 + 256 * image[at + 1] as u32 + 65536 * image[at + 2] as u32
        + 16777216 * image[at + 3] as u32;
    if length < FW_MIN_BODY_LEN || length % FW_BODY_ALIGN != 0 || length as u64
        > image.len() as u64 {
        return None;
    }
    Some(length as usize)
}

/// The digest of the part of an image that its signature covers, or none for an
/// image that is not well formed. `image` is the flash from the vector table on.
pub fn firmware_digest(image: &[u8]) -> (digest: Option<Sha256Digest>)
    ensures
        digest is Some <==> well_formed_image(image@),
        digest matches Some(d) ==> d.0@ == sha256_of(signed_bytes(image@)),
        digest matches Some(d) ==> d.0@ == sha256_of(
            image@.take(0x3fc0) + image@.subrange(0x4000, claimed_length(image@)),
        ),
{
    match image_length(image) {
        None => None,
        Some(length) => {
            let end: usize = FW_HEADER_OFFSET + FW_HEADER_SIZE;
            let head: &[u8] = slice_subrange(image, 0, end - FW_SIGNATURE_SIZE);
            let tail: &[u8] = slice_subrange(image, end, length);
            Some(Sha256Digest(sha256(head, tail)))
        },
    }
}

/// The signature is no part of what is hashed, nor is anything behind the image:
/// two images that differ only there have the same signed bytes.
pub proof fn the_signature_is_not_hashed(one: Seq<u8>, other: Seq<u8>)
    requires
        well_formed_image(one),
        other.len() >= header_end(),
        other.len() >= claimed_length(one),
        forall|i: int|
            0 <= i < claimed_length(one) && !(header_end() - FW_SIGNATURE_SIZE <= i < header_end())
                ==> #[trigger] one[i] == other[i],
    ensures
        well_formed_image(other),
        signed_bytes(one) == signed_bytes(other),
{
    let at = FW_HEADER_OFFSET + FW_LENGTH_OFFSET;
    assert(one.subrange(at, at + 4) =~= other.subrange(at, at + 4));
    assert(signed_bytes(one) =~= signed_bytes(other));
}

/// Every other byte is hashed: two images with the same signed bytes claim the same
/// length and agree in every byte up to it, but for the signature.
pub proof fn every_byte_but_the_signature_is_hashed(one: Seq<u8>, other: Seq<u8>)
    requires
        well_formed_image(one),
        well_formed_image(other),
        signed_bytes(one) == signed_bytes(other),
    ensures
        claimed_length(one) == claimed_length(other),
        forall|i: int|
            0 <= i < claimed_length(one) && !(0x3fc0 <= i < 0x4000) ==> #[trigger] one[i]
                == other[i],
{
    let a = signed_bytes(one);
    let b = signed_bytes(other);
    assert(a.len() == claimed_length(one) - 64);
    assert(b.len() == claimed_length(other) - 64);
    assert forall|i: int|
        0 <= i < claimed_length(one) && !(0x3fc0 <= i < 0x4000) implies #[trigger] one[i]
        == other[i] by {
        let at = if i < 0x3fc0 { i } else { i - 64 };
        assert(a[at] == one[i]);
        assert(b[at] == other[i]);
    }
}

/// As many bytes are hashed as the header claims, less the signature.
pub proof fn the_signed_part_is_the_image_less_the_signature(image: Seq<u8>)
    requires
        well_formed_image(image),
    ensures
        signed_bytes(image).len() == claimed_length(image) - FW_SIGNATURE_SIZE,
{
}

} // verus!
