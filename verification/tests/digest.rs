use coldsnap::boot::announced_digest;
use coldsnap::digest::{
    firmware_digest, frame, image_length, tagged, Secrets, FW_BODY_ALIGN, FW_HEADER_OFFSET,
    FW_HEADER_SIZE, FW_MIN_BODY_LEN, NAME_DOMAIN, NONCE_DOMAIN, SHARE_DOMAIN,
};
use sha2::{Digest, Sha256};

/// As long as the flash from the vector table to the end of the code.
const IMAGE_LEN: usize = 2_031_616;

fn sha(parts: &[&[u8]]) -> [u8; 32] {
    let mut h = Sha256::new();
    for part in parts {
        h.update(part);
    }
    h.finalize().into()
}

#[test]
fn firmware_digest_hashes_the_signed_range_and_bounds_the_length() {
    let header_end = FW_HEADER_OFFSET + FW_HEADER_SIZE;
    let length = FW_MIN_BODY_LEN;
    let mut image = vec![0xa5u8; length as usize];
    image[FW_HEADER_OFFSET + 24..FW_HEADER_OFFSET + 28].copy_from_slice(&length.to_le_bytes());

    let mut h = Sha256::new();
    h.update(&image[..header_end - 64]);
    h.update(&image[header_end..length as usize]);
    let want: [u8; 32] = h.finalize().into();
    assert_eq!(firmware_digest(&image).expect("well-formed image").0, want);

    // The signature is left out, so changing it changes nothing.
    let mut resigned = image.clone();
    resigned[header_end - 64..header_end].copy_from_slice(&[0x5au8; 64]);
    assert_eq!(firmware_digest(&resigned).unwrap().0, want);

    // Every bound refuses rather than reading out of range.
    let bad_len = |v: u32| {
        let mut i = image.clone();
        i[FW_HEADER_OFFSET + 24..FW_HEADER_OFFSET + 28].copy_from_slice(&v.to_le_bytes());
        firmware_digest(&i)
    };
    assert!(bad_len(0).is_none(), "under FW_MIN_BODY_LEN");
    assert!(bad_len(length + 1).is_none(), "misaligned");
    assert!(bad_len(length * 4).is_none(), "past the end of the image");
    assert!(firmware_digest(&image[..header_end]).is_none(), "truncated");
    assert!(firmware_digest(&[]).is_none(), "empty");
}

fn signit_header(firmware_length: u32) -> [u8; 128] {
    let mut h = [0u8; 128];
    h[0..4].copy_from_slice(&0xCC00_1234u32.to_le_bytes());
    h[4..12].copy_from_slice(&[0x26, 0x08, 0x25, 0x15, 0x46, 0x33, 0, 0]);
    h[12..19].copy_from_slice(b"6.0.0cs");
    h[20..24].copy_from_slice(&0u32.to_le_bytes());
    h[24..28].copy_from_slice(&firmware_length.to_le_bytes());
    h[32..36].copy_from_slice(&0x28u32.to_le_bytes());
    h[64..128].copy_from_slice(&[0x5au8; 64]);
    h
}

#[test]
fn firmware_digest_accepts_a_signit_shaped_header() {
    const FIRMWARE_LENGTH: u32 = 299_008;
    let header_off = FW_HEADER_OFFSET;
    let header_end = header_off + FW_HEADER_SIZE;

    let mut image = vec![0xffu8; IMAGE_LEN];
    image[header_off..header_end].copy_from_slice(&signit_header(FIRMWARE_LENGTH));

    let got = firmware_digest(&image).expect("a signit-shaped header must hash");

    let mut h = Sha256::new();
    h.update(&image[..header_end - 64]);
    h.update(&image[header_end..FIRMWARE_LENGTH as usize]);
    assert_eq!(got.0, <[u8; 32]>::from(h.finalize()));
    assert_eq!(
        (header_end - 64) + (FIRMWARE_LENGTH as usize - header_end),
        FIRMWARE_LENGTH as usize - 64,
        "hashed span must be firmware_length - 64"
    );
    assert_eq!(image_length(&image), Some(FIRMWARE_LENGTH as usize));

    let mut body_len = image.clone();
    body_len[header_off..header_end].copy_from_slice(&signit_header(282_624));
    assert_ne!(
        firmware_digest(&body_len).expect("also well-formed").0,
        got.0,
        "the length field is the total, not the body"
    );
}

#[test]
fn firmware_digest_alignment_bound_is_looser_than_mk4_requires() {
    let header_off = FW_HEADER_OFFSET;
    let mut image = vec![0xffu8; IMAGE_LEN];
    let misaligned = 299_008 + 512;
    assert_eq!(misaligned % 512, 0);
    assert_ne!(misaligned % 4096, 0);
    image[header_off..header_off + FW_HEADER_SIZE].copy_from_slice(&signit_header(misaligned));
    assert!(firmware_digest(&image).is_some(), "512 is the alignment");
    assert_eq!(FW_BODY_ALIGN, 512);
}

#[test]
fn an_image_without_a_digest_is_announced_as_zeros() {
    assert_eq!(announced_digest(None).0, [0u8; 32]);
    let mut image = vec![0u8; FW_MIN_BODY_LEN as usize];
    image[FW_HEADER_OFFSET + 24..FW_HEADER_OFFSET + 28]
        .copy_from_slice(&FW_MIN_BODY_LEN.to_le_bytes());
    let digest = firmware_digest(&image).unwrap();
    assert_eq!(announced_digest(Some(digest)), digest);
    assert_ne!(digest.0, [0u8; 32]);
}

#[test]
fn bytes_behind_the_image_are_not_hashed() {
    let mut image = vec![7u8; FW_MIN_BODY_LEN as usize + 512];
    image[FW_HEADER_OFFSET + 24..FW_HEADER_OFFSET + 28]
        .copy_from_slice(&FW_MIN_BODY_LEN.to_le_bytes());
    let want = firmware_digest(&image).unwrap();
    for byte in image[FW_MIN_BODY_LEN as usize..].iter_mut() {
        *byte = 0xee;
    }
    assert_eq!(firmware_digest(&image).unwrap(), want);
    image[0] ^= 1;
    assert_ne!(firmware_digest(&image).unwrap(), want);
}

#[test]
fn parts_are_framed_behind_their_lengths() {
    assert_eq!(frame(&[]), Vec::<u8>::new());
    assert_eq!(
        frame(&[&b"ab"[..], &[][..], &b"c"[..]]),
        vec![2, 0, 0, 0, b'a', b'b', 0, 0, 0, 0, 1, 0, 0, 0, b'c']
    );
    let long = vec![9u8; 0x0102];
    let framed = frame(&[&long[..]]);
    assert_eq!(&framed[..4], &[0x02, 0x01, 0, 0]);
    assert_eq!(framed.len(), 4 + 0x0102);
}

#[test]
fn no_two_lists_of_parts_frame_alike() {
    assert_ne!(frame(&[&b"ab"[..], &b"c"[..]]), frame(&[&b"a"[..], &b"bc"[..]]));
    assert_ne!(frame(&[&b""[..]]), frame(&[]));
    assert_ne!(
        tagged(NAME_DOMAIN, &[&b"ab"[..], &b"c"[..]]),
        tagged(NAME_DOMAIN, &[&b"a"[..], &b"bc"[..]])
    );
}

#[test]
fn a_tag_is_the_hash_of_the_domain_and_the_framed_parts() {
    let got = tagged("some/domain", &[&b"xy"[..]]);
    assert_eq!(got, sha(&[b"some/domain", &[2, 0, 0, 0], b"xy"]));
    assert_eq!(
        tagged("abc", &[]),
        [
            0xba, 0x78, 0x16, 0xbf, 0x8f, 0x01, 0xcf, 0xea, 0x41, 0x41, 0x40, 0xde, 0x5d, 0xae,
            0x22, 0x23, 0xb0, 0x03, 0x61, 0xa3, 0x96, 0x17, 0x7a, 0x9c, 0xb4, 0x10, 0xff, 0x61,
            0xf2, 0x00, 0x15, 0xad
        ]
    );
}

#[test]
fn derivations_depend_on_every_input() {
    let secrets = Secrets::new(&[3u8; 32]);
    let key = secrets.get_share_encryption_key(&[1; 32], &[2; 32], &[4; 32], &[5; 33]);
    assert_eq!(
        key,
        sha(&[
            SHARE_DOMAIN.as_bytes(),
            &[32, 0, 0, 0],
            &[3; 32],
            &[32, 0, 0, 0],
            &[1; 32],
            &[32, 0, 0, 0],
            &[2; 32],
            &[32, 0, 0, 0],
            &[4; 32],
            &[33, 0, 0, 0],
            &[5; 33],
        ])
    );
    let other = Secrets::new(&[6u8; 32]);
    assert_ne!(
        key,
        other.get_share_encryption_key(&[1; 32], &[2; 32], &[4; 32], &[5; 33])
    );
    let seed = secrets.derive_nonce_seed(&[7; 16], 0x0102_0304, &[8; 32]);
    assert_eq!(
        seed,
        sha(&[
            NONCE_DOMAIN.as_bytes(),
            &[32, 0, 0, 0],
            &[3; 32],
            &[16, 0, 0, 0],
            &[7; 16],
            &[4, 0, 0, 0],
            &[1, 2, 3, 4],
            &[32, 0, 0, 0],
            &[8; 32],
        ])
    );
    assert_ne!(seed, secrets.derive_nonce_seed(&[7; 16], 0x0102_0305, &[8; 32]));
}
