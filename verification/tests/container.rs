use mindwiki::container::{
    decode, encode, header, validate, ContainerData, ContainerError, HEADER_LEN, VERSION,
};

#[test]
fn header_roundtrip() {
    let salt = [7u8; 16];
    let h = header(&salt);
    let (v, s) = validate(&h).unwrap();
    assert_eq!(v, VERSION);
    assert_eq!(s, &salt[..]);
}

#[test]
fn rejects_garbage() {
    assert!(validate(b"garbage").is_err());
}

#[test]
fn header_has_magic_version_and_salt() {
    let h = header(&[1, 2, 3, 4, 5, 6, 7, 8, 9, 10, 11, 12, 13, 14, 15, 16, 17, 18]);
    assert_eq!(h.len(), HEADER_LEN);
    assert_eq!(&h[..8], b"MWVAULT1");
    assert_eq!(h[8], 1);
    assert_eq!(&h[9..], &[1, 2, 3, 4, 5, 6, 7, 8, 9, 10, 11, 12, 13, 14, 15, 16]);
}

#[test]
fn short_salts_make_short_headers() {
    let h = header(&[9, 9]);
    assert_eq!(h.len(), 11);
    assert_eq!(validate(&h), Err(ContainerError::NotAContainer));
}

#[test]
fn header_needs_the_right_magic_and_length() {
    let mut h = header(&[0u8; 16]);
    assert!(validate(&h[..24]).is_err());
    h[0] = b'X';
    assert_eq!(validate(&h).unwrap_err().message(), "not a mindwiki vault container");
}

fn sample() -> ContainerData {
    ContainerData {
        salt: vec![3; 16],
        verify_token: vec![1, 2, 3],
        payload: (0..300u32).map(|i| i as u8).collect(),
    }
}

#[test]
fn container_roundtrip() {
    let c = sample();
    let bytes = encode(&c);
    assert_eq!(bytes.len(), 25 + 8 + 3 + 8 + 300);
    assert_eq!(&bytes[25..33], &[3, 0, 0, 0, 0, 0, 0, 0]);
    assert_eq!(&bytes[36..44], &[44, 1, 0, 0, 0, 0, 0, 0]);
    let d = decode(&bytes).unwrap();
    assert_eq!(d.salt, c.salt);
    assert_eq!(d.verify_token, c.verify_token);
    assert_eq!(d.payload, c.payload);
}

#[test]
fn cut_and_padded_containers_are_refused() {
    let bytes = encode(&sample());
    for n in [25, 30, 40, bytes.len() - 1] {
        assert_eq!(decode(&bytes[..n]).unwrap_err(), ContainerError::Truncated);
    }
    let mut longer = bytes.clone();
    longer.push(0);
    assert_eq!(decode(&longer).unwrap_err().message(), "vault container is truncated");
    assert_eq!(decode(b"nothing").unwrap_err(), ContainerError::NotAContainer);
    let mut huge = bytes;
    huge[32] = 0xff;
    assert_eq!(decode(&huge).unwrap_err(), ContainerError::Truncated);
}
