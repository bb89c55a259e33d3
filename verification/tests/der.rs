use rust_kinit::der::{check_asn1_reader_safe, time_panics};

#[test]
fn time_values() {
    assert!(!time_panics(b"20231231235959Z"));
    assert!(time_panics(b"20231301000000Z"));
    assert!(time_panics(b"20230229000000Z"));
    assert!(!time_panics(b"20240229000000Z"));
    assert!(time_panics(b"19000229000000Z"));
    assert!(!time_panics(b"20000229000000Z"));
    assert!(time_panics(b"20231231240000Z"));
    assert!(time_panics(b"20231231236000Z"));
    assert!(time_panics(b"20231200000000Z"));
    assert!(!time_panics(b"+0231231000000Z"));
    assert!(time_panics(b"-0010230000000Z"));
    assert!(!time_panics(b"2023123100000Z"));
    assert!(!time_panics(b"20231301000000X"));
    assert!(!time_panics(b"2023130100000aZ"));
    assert!(time_panics(b"20231301000000.5Z"));
    assert!(!time_panics(b"20231301000000.xZ"));
}

#[test]
fn tlv_walk() {
    let good: Vec<u8> = [&[0x18u8, 0x0f][..], b"20231231235959Z"].concat();
    assert!(check_asn1_reader_safe(&good));
    let bad: Vec<u8> = [&[0x18u8, 0x0f][..], b"20231301000000Z"].concat();
    assert!(!check_asn1_reader_safe(&bad));
    let nested: Vec<u8> = [&[0x30u8, 0x13, 0xa2, 0x11, 0x18, 0x0f][..], b"20231301000000Z"].concat();
    assert!(!check_asn1_reader_safe(&nested));
    assert!(!check_asn1_reader_safe(&[0x1f, 0x81, 0x81, 0x01, 0x00]));
    assert!(check_asn1_reader_safe(&[0x1f, 0x81, 0x01, 0x00]));
    assert!(check_asn1_reader_safe(&[0x1f, 0x81, 0x81]));
    assert!(check_asn1_reader_safe(&[0x04, 0x85, 0, 0, 0, 0, 1, 0]));
    // A long length keeps its low octets: 2^64 + 1 is read as 1.
    assert!(check_asn1_reader_safe(&[0x04, 0x89, 1, 0, 0, 0, 0, 0, 0, 0, 1, 0]));
    assert!(!check_asn1_reader_safe(&[0x03, 0x02, 0x08, 0xff]));
    assert!(check_asn1_reader_safe(&[0x03, 0x01, 0x08]));
    assert!(check_asn1_reader_safe(&[0x03, 0x02, 0x07, 0xff]));
    assert!(!check_asn1_reader_safe(&[0x30, 0x06, 0xa4, 0x04, 0x03, 0x02, 0x09, 0x80]));
    assert!(check_asn1_reader_safe(&[0x04, 0x84, 0, 0, 0, 1, 0]));
    assert!(!check_asn1_reader_safe(&[0x30, 0x04, 0xa3, 0x03, 0x02, 0x01]));
    assert!(check_asn1_reader_safe(&[0x30, 0x04, 0xa3, 0x05, 0x02, 0x01]));
    assert!(check_asn1_reader_safe(&[0x01, 0x02, 0x03]));
    assert!(check_asn1_reader_safe(&[]));
}
