use trouble_host::codec::CodecError;
use trouble_host::uuid::Uuid;

#[test]
fn short_uuid_is_little_endian() {
    let u = Uuid::new_short(0x1800);
    assert_eq!(u.as_raw(), &[0x00u8, 0x18][..]);
    assert_eq!(u.get_type(), 1);
    assert_eq!(u.len(), 6);
    assert_eq!(u.size(), 2);
}

#[test]
fn long_uuid_keeps_its_bytes() {
    let bytes: [u8; 16] = [1, 2, 3, 4, 5, 6, 7, 8, 9, 10, 11, 12, 13, 14, 15, 16];
    let u = Uuid::new_long(bytes);
    assert_eq!(u.as_raw(), &bytes[..]);
    assert_eq!(u.get_type(), 2);
    assert_eq!(u.len(), 20);
    let mut out = [0u8; 16];
    u.bytes(&mut out);
    assert_eq!(out, bytes);
}

#[test]
fn uuid_decode_short_and_long() {
    assert_eq!(Uuid::decode(&[0x0a, 0x18, 0xff]), Ok(Uuid::Uuid16([0x0a, 0x18])));
    let mut long = [0u8; 16];
    long[5] = 9;
    assert_eq!(Uuid::decode(&long), Ok(Uuid::Uuid128(long)));
    assert_eq!(Uuid::decode(&[0x01]), Err(CodecError::InvalidValue));
    assert_eq!(Uuid::decode(&[0x00, 0x00, 0x01]), Err(CodecError::InvalidValue));
}

#[test]
fn uuid_encode_and_from_slice() {
    let u = Uuid::from_slice(&[0x34, 0x12]);
    assert_eq!(u, Uuid::new_short(0x1234));
    let mut dest = [0xffu8; 4];
    assert_eq!(u.encode(&mut dest), Ok(()));
    assert_eq!(dest, [0x34, 0x12, 0xff, 0xff]);
    let mut small = [0u8; 1];
    assert_eq!(u.encode(&mut small), Err(CodecError::InsufficientSpace));
    assert_eq!(small, [0]);
}

#[test]
fn uuid_from_u16() {
    let u = Uuid::from(0x2a00u16);
    assert_eq!(u, Uuid::new_short(0x2a00));
    assert_eq!(u.as_raw(), &[0x00u8, 0x2a][..]);
}
