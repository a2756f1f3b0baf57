use zipcodec::{DataDescriptor, Error};

fn le32(v: u32) -> [u8; 4] {
    v.to_le_bytes()
}

#[test]
fn sixteen_bytes_with_signature_resolve_to_signed_layout() {
    let mut buf: Vec<u8> = vec![0x50, 0x4B, 0x07, 0x08];
    buf.extend_from_slice(&le32(0x11223344));
    buf.extend_from_slice(&le32(9));
    buf.extend_from_slice(&le32(11));
    assert_eq!(buf.len(), 16);

    let mut pos = 0usize;
    let d = DataDescriptor::read(&buf, &mut pos).unwrap();
    assert_eq!(pos, 16);
    assert_eq!(d.signature, Some(0x08074B50));
    assert_eq!(d.crc32_of_uncompressed_data, 0x11223344);
    assert_eq!(d.compressed_size, 9);
    assert_eq!(d.uncompressed_size, 11);

    let from_end = DataDescriptor::read_from_end(&buf).unwrap();
    assert_eq!(from_end, d);
}

#[test]
fn twelve_bytes_without_signature_resolve_to_unsigned_layout() {
    let mut buf: Vec<u8> = Vec::new();
    buf.extend_from_slice(&le32(0x11223344));
    buf.extend_from_slice(&le32(9));
    buf.extend_from_slice(&le32(11));
    assert_eq!(buf.len(), 12);
    assert_ne!(&buf[0..4], &[0x50, 0x4B, 0x07, 0x08]);

    let mut pos = 0usize;
    let d = DataDescriptor::read(&buf, &mut pos).unwrap();
    assert_eq!(pos, 12);
    assert_eq!(d.signature, None);
    assert_eq!(d.crc32_of_uncompressed_data, 0x11223344);
    assert_eq!(d.compressed_size, 9);
    assert_eq!(d.uncompressed_size, 11);

    let from_end = DataDescriptor::read_from_end(&buf).unwrap();
    assert_eq!(from_end, d);
}

#[test]
fn signed_descriptor_round_trip() {
    let d = DataDescriptor {
        signature: Some(0x08074B50),
        crc32_of_uncompressed_data: 0xCAFEBABE,
        compressed_size: 100,
        uncompressed_size: 200,
    };
    let mut buf: Vec<u8> = Vec::new();
    d.write(&mut buf).unwrap();
    assert_eq!(buf.len() as u32, d.expected_size());
    assert_eq!(d.expected_size(), 16);
    let mut pos = 0usize;
    let r = DataDescriptor::read(&buf, &mut pos).unwrap();
    assert_eq!(r, d);
    assert_eq!(pos, 16);
}

#[test]
fn unsigned_descriptor_round_trip() {
    let d = DataDescriptor {
        signature: None,
        crc32_of_uncompressed_data: 0xCAFEBABE,
        compressed_size: 100,
        uncompressed_size: 200,
    };
    let mut buf: Vec<u8> = Vec::new();
    d.write(&mut buf).unwrap();
    assert_eq!(buf.len() as u32, d.expected_size());
    assert_eq!(d.expected_size(), 12);
    let mut pos = 0usize;
    let r = DataDescriptor::read(&buf, &mut pos).unwrap();
    assert_eq!(r, d);
    assert_eq!(pos, 12);
}

#[test]
fn end_probe_prefers_signed_layout() {
    // Payload byte, then a signed 16-byte descriptor: probing 16 bytes
    // before the end finds the signature.
    let mut buf: Vec<u8> = vec![0xAA];
    buf.extend_from_slice(&[0x50, 0x4B, 0x07, 0x08]);
    buf.extend_from_slice(&le32(1));
    buf.extend_from_slice(&le32(2));
    buf.extend_from_slice(&le32(3));
    let d = DataDescriptor::read_from_end(&buf).unwrap();
    assert_eq!(d.signature, Some(0x08074B50));
    assert_eq!(d.crc32_of_uncompressed_data, 1);
    assert_eq!(d.compressed_size, 2);
    assert_eq!(d.uncompressed_size, 3);
}

#[test]
fn end_probe_falls_back_to_unsigned_layout() {
    // 20 bytes, none of them the signature: the last 12 are the counters.
    let mut buf: Vec<u8> = vec![0; 8];
    buf.extend_from_slice(&le32(7));
    buf.extend_from_slice(&le32(8));
    buf.extend_from_slice(&le32(9));
    let d = DataDescriptor::read_from_end(&buf).unwrap();
    assert_eq!(d.signature, None);
    assert_eq!(d.crc32_of_uncompressed_data, 7);
    assert_eq!(d.compressed_size, 8);
    assert_eq!(d.uncompressed_size, 9);
}

#[test]
fn end_probe_rejects_too_short_input() {
    let buf: Vec<u8> = vec![0; 11];
    let r = DataDescriptor::read_from_end(&buf);
    assert_eq!(r.unwrap_err(), Error::UnexpectedEndOfData);
}

#[test]
fn read_rejects_truncated_signed_descriptor() {
    let mut buf: Vec<u8> = vec![0x50, 0x4B, 0x07, 0x08];
    buf.extend_from_slice(&le32(1));
    let mut pos = 0usize;
    let r = DataDescriptor::read(&buf, &mut pos);
    assert_eq!(r.unwrap_err(), Error::UnexpectedEndOfData);
    assert_eq!(pos, 0);
}
