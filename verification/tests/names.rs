use coldsnap::digest::{tagged, NAME_DOMAIN};
use coldsnap::names::{
    opened, sealed, AbWriteOutcome, FlashError, NameStore, StoreFault, DEVICE_NAME_MAX_BYTES,
    DEVICE_NAME_MAX_LENGTH, NAME_OFF, NAME_RECORD_LEN, NAME_TAG_OFF,
};

fn name_tag(body: &[u8]) -> [u8; 8] {
    let mut tag = [0u8; 8];
    tag.copy_from_slice(&tagged(NAME_DOMAIN, &[body])[..8]);
    tag
}

fn save(store: &mut NameStore, name: &str) -> Result<(), StoreFault> {
    let record = store.save(name)?;
    store.written(record, AbWriteOutcome::Committed)
}

#[test]
fn an_over_long_device_name_is_refused_and_nothing_is_written() {
    let mut store = NameStore::open(None);

    let long = "e".repeat(DEVICE_NAME_MAX_BYTES + 1);
    assert_eq!(store.save(&long), Err(StoreFault::TooBig));
    assert_eq!(store.load(), None);

    let widest = "\u{1d11e}".repeat(DEVICE_NAME_MAX_LENGTH);
    assert_eq!(widest.len(), DEVICE_NAME_MAX_BYTES);
    save(&mut store, &widest).expect("the widest legal name must fit");
    assert_eq!(store.load().as_deref(), Some(widest.as_str()));
}

#[test]
fn a_torn_name_record_reads_as_no_name() {
    for torn in [8usize, 24, NAME_RECORD_LEN] {
        let mut store = NameStore::open(None);
        let mut record = store.save("cold-1").unwrap();
        store.written(record, AbWriteOutcome::Committed).unwrap();
        assert_eq!(store.load().as_deref(), Some("cold-1"));

        for byte in record[NAME_RECORD_LEN - torn..].iter_mut() {
            *byte = 0xff;
        }
        assert_eq!(
            NameStore::open(Some(record)).load(),
            None,
            "a {torn}-byte tear read back as a name"
        );
    }

    for fill in [0xffu8, 0x00, 0xef] {
        assert_eq!(
            NameStore::open(Some([fill; NAME_RECORD_LEN])).load(),
            None,
            "a region filled with {fill:#04x} read as a name"
        );
    }
    assert_eq!(NameStore::open(None).load(), None, "a blank region");
}

#[test]
fn a_forged_name_length_is_refused_before_it_slices() {
    for len in [DEVICE_NAME_MAX_BYTES + 1, 0xff] {
        let mut body = [0u8; NAME_TAG_OFF];
        body[0] = len as u8;
        body[NAME_OFF..NAME_OFF + 6].copy_from_slice(b"cold-1");
        let tag = name_tag(&body);
        let mut record = [0u8; NAME_RECORD_LEN];
        record[..NAME_TAG_OFF].copy_from_slice(&body);
        record[NAME_TAG_OFF..].copy_from_slice(&tag);
        assert_eq!(
            NameStore::open(Some(record)).load(),
            None,
            "length {len} was accepted"
        );
    }
}

#[test]
fn a_record_has_its_length_its_name_zeros_and_its_checksum() {
    let store = NameStore::open(None);
    let record = store.save("cold-1").unwrap();
    let mut body = [0u8; NAME_TAG_OFF];
    body[0] = 6;
    body[1..7].copy_from_slice(b"cold-1");
    assert_eq!(&record[..NAME_TAG_OFF], &body[..]);
    assert_eq!(&record[NAME_TAG_OFF..], &name_tag(&body)[..]);
    assert_eq!(NAME_RECORD_LEN, 72);
    assert_eq!(
        &name_tag(&body)[..],
        &tagged("coldsnap/device-name/v1", &[&body[..]])[..8]
    );
}

#[test]
fn an_empty_name_is_a_name() {
    let mut store = NameStore::open(None);
    save(&mut store, "").unwrap();
    assert_eq!(store.load().as_deref(), Some(""));
}

#[test]
fn a_name_that_is_no_text_is_no_name() {
    let mut body = [0u8; NAME_TAG_OFF];
    body[0] = 2;
    body[1] = 0xc3;
    body[2] = 0x28;
    let record = sealed(&body, &name_tag(&body));
    assert_eq!(NameStore::open(Some(record)).load(), None);
    body[2] = 0xa9;
    let record = sealed(&body, &name_tag(&body));
    assert_eq!(NameStore::open(Some(record)).load().as_deref(), Some("\u{e9}"));
}

#[test]
fn a_record_opens_only_under_its_own_checksum() {
    let mut body = [0u8; NAME_TAG_OFF];
    body[0] = 1;
    body[1] = b'k';
    let tag = [1u8, 2, 3, 4, 5, 6, 7, 8];
    let record = sealed(&body, &tag);
    assert_eq!(opened(&record, &tag).as_deref(), Some("k"));
    for i in 0..8 {
        let mut other = tag;
        other[i] ^= 0x80;
        assert_eq!(opened(&record, &other), None, "byte {i} of the checksum");
    }
}

#[test]
fn a_refused_write_keeps_the_name_that_was_there() {
    let mut store = NameStore::open(None);
    save(&mut store, "first").unwrap();
    let record = store.save("second").unwrap();
    for error in [FlashError::NotAligned, FlashError::OutOfBounds, FlashError::Other] {
        assert_eq!(
            store.written(record, AbWriteOutcome::NotCommitted(error)),
            Err(StoreFault::Flash(error))
        );
        assert_eq!(store.load().as_deref(), Some("first"));
    }
    assert_eq!(
        store.written(record, AbWriteOutcome::CommittedSingleCopy(FlashError::Other)),
        Ok(())
    );
    assert_eq!(store.load().as_deref(), Some("second"));
}
