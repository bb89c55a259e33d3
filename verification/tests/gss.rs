use rust_kinit::gss::{GssError, KerberosGssEngine};

#[test]
fn test_wrap_unwrap_roundtrip() {
    let key = vec![0x25u8; 32];
    let mut eng = KerberosGssEngine::new_with_seq(key.clone(), 18, 100);
    let data = b"hello world";
    let wrapped = eng.wrap(data).unwrap();
    let mut eng2 = KerberosGssEngine::new_with_seq(key.clone(), 18, 100);
    let unwrapped = eng2.unwrap(&wrapped).unwrap();
    assert_eq!(&unwrapped, data);
}

#[test]
fn test_wrap_initiator() {
    let key = vec![0x25u8; 32];
    let mut eng = KerberosGssEngine::new_with_seq(key.clone(), 18, 42);
    let data = b"test init";
    let wrapped = eng.wrap_with_ku_java(data, 24).unwrap();
    let mut eng2 = KerberosGssEngine::new_with_seq(key.clone(), 18, 42);
    let unwrapped = eng2.unwrap(&wrapped).unwrap();
    assert_eq!(&unwrapped, data);
}

#[test]
fn wrap_token_layout_and_sequence() {
    let mut eng = KerberosGssEngine::new_with_seq(vec![1u8; 16], 17, 0x01020304);
    let t = eng.wrap(b"abc").unwrap();
    assert_eq!(t.len(), 16 + 3 + 12);
    assert_eq!(&t[..16], &[0x05, 0x04, 0x01, 0xff, 0x00, 0x0c, 0, 0, 0, 0, 0, 0, 1, 2, 3, 4]);
    assert_eq!(&t[16..19], b"abc");
    assert_eq!(eng.seq_num(), 0x01020305);
    let t2 = eng.wrap_with_ku_java(b"", 25).unwrap();
    assert_eq!(t2[2], 0x00);
    eng.reset_seq_num(u32::MAX);
    let _ = eng.wrap(b"x").unwrap();
    assert_eq!(eng.seq_num(), 0);
}

#[test]
fn unwrap_errors() {
    let mut eng = KerberosGssEngine::new(vec![3u8; 32], 18);
    assert_eq!(eng.unwrap(&[0u8; 27]), Err(GssError::TokenTooShort(27)));
    let mut t = eng.wrap(b"payload").unwrap();
    let last = t.len() - 1;
    t[last] ^= 1;
    assert_eq!(eng.unwrap(&t), Err(GssError::ChecksumMismatch));
    let mut other = KerberosGssEngine::new(vec![4u8; 32], 18);
    let t = eng.wrap(b"payload").unwrap();
    assert_eq!(other.unwrap(&t), Err(GssError::ChecksumMismatch));
}

#[test]
fn checksum_depends_on_key_usage_and_data() {
    let mut a = KerberosGssEngine::new_with_seq(vec![7u8; 32], 18, 5);
    let mut b = KerberosGssEngine::new_with_seq(vec![7u8; 32], 18, 5);
    let t1 = a.wrap_with_ku_java(b"data", 23).unwrap();
    let t2 = b.wrap_with_ku_java(b"data", 22).unwrap();
    assert_ne!(&t1[t1.len() - 12..], &t2[t2.len() - 12..]);
}
