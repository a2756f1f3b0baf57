use std::io::Write as IoWrite;

use zipcodec::{DataDescriptor, Entry, Error, LocalFileHeader};

fn stored_header(name: &[u8], payload: &[u8], crc: u32) -> LocalFileHeader {
    LocalFileHeader {
        signature: 0x04034B50,
        version_needed_to_extract: 20,
        general_purpose_flags: 0,
        compression_method: 0,
        file_last_modification_time: 0,
        file_last_modification_date: 0,
        crc32_of_uncompressed_data: crc,
        compressed_size: payload.len() as u32,
        uncompressed_size: payload.len() as u32,
        file_name_length: name.len() as u16,
        extra_field_length: 0,
        file_name: name.to_vec(),
        extra_field: Vec::new(),
    }
}

#[test]
fn stored_entry_round_trip() {
    let payload = b"hello";
    let crc = crc32fast::hash(payload);
    let entry = Entry {
        header: stored_header(b"a.txt", payload, crc),
        data: payload.to_vec(),
        data_descriptor: None,
    };
    let mut buf: Vec<u8> = Vec::new();
    entry.write(&mut buf).unwrap();
    assert_eq!(buf.len() as u64, entry.expected_size());

    let mut pos = 0usize;
    let r = Entry::read(&buf, &mut pos).unwrap();
    assert_eq!(pos as u64, entry.expected_size());
    assert_eq!(r, entry);
}

#[test]
fn deferred_entry_reads_payload_through_end_descriptor() {
    let payload = b"hello";
    let crc = crc32fast::hash(payload);
    let mut header = stored_header(b"a.txt", payload, 0);
    header.general_purpose_flags = 0x0008;
    header.compressed_size = 0;
    header.uncompressed_size = 0;

    let mut buf: Vec<u8> = Vec::new();
    header.write(&mut buf).unwrap();
    buf.extend_from_slice(payload);
    // Signature-absent 12-byte descriptor carrying the true values.
    buf.extend_from_slice(&crc.to_le_bytes());
    buf.extend_from_slice(&(payload.len() as u32).to_le_bytes());
    buf.extend_from_slice(&(payload.len() as u32).to_le_bytes());

    let mut pos = 0usize;
    let r = Entry::read(&buf, &mut pos).unwrap();
    assert_eq!(pos, buf.len());
    assert_eq!(r.data, payload);
    let d = r.data_descriptor.expect("descriptor resolved");
    assert_eq!(d.signature, None);
    assert_eq!(d.crc32_of_uncompressed_data, crc);
    assert_eq!(d.compressed_size, payload.len() as u32);
    assert_eq!(d.uncompressed_size, payload.len() as u32);

    // The resolved descriptor populates the header's deferred fields.
    let mut h = r.header.clone();
    h.update(d).unwrap();
    assert_eq!(h.crc32_of_uncompressed_data, crc);
    assert_eq!(h.compressed_size, payload.len() as u32);
    assert_eq!(h.uncompressed_size, payload.len() as u32);
}

#[test]
fn deferred_entry_with_signed_descriptor_round_trip() {
    let payload = b"abc";
    let crc = crc32fast::hash(payload);
    let mut header = stored_header(b"s", payload, 0);
    header.general_purpose_flags = 0x0008;
    header.compressed_size = 0;
    header.uncompressed_size = 0;
    let entry = Entry {
        header,
        data: payload.to_vec(),
        data_descriptor: Some(DataDescriptor {
            signature: Some(0x08074B50),
            crc32_of_uncompressed_data: crc,
            compressed_size: payload.len() as u32,
            uncompressed_size: payload.len() as u32,
        }),
    };
    let mut buf: Vec<u8> = Vec::new();
    entry.write(&mut buf).unwrap();
    assert_eq!(buf.len() as u64, entry.expected_size());

    let mut pos = 0usize;
    let r = Entry::read(&buf, &mut pos).unwrap();
    assert_eq!(pos, buf.len());
    assert_eq!(r, entry);
}

#[test]
fn entry_read_rejects_missing_payload() {
    let payload = b"hello";
    let crc = crc32fast::hash(payload);
    let entry = Entry {
        header: stored_header(b"a.txt", payload, crc),
        data: payload.to_vec(),
        data_descriptor: None,
    };
    let mut buf: Vec<u8> = Vec::new();
    entry.write(&mut buf).unwrap();
    buf.truncate(buf.len() - 2);
    let mut pos = 0usize;
    let r = Entry::read(&buf, &mut pos);
    assert_eq!(r.unwrap_err(), Error::UnexpectedEndOfData);
}

#[test]
fn stored_decompress_returns_payload_when_checksum_matches() {
    let payload = b"hello";
    let crc = crc32fast::hash(payload);
    let entry = Entry {
        header: stored_header(b"a.txt", payload, crc),
        data: payload.to_vec(),
        data_descriptor: None,
    };
    assert_eq!(entry.decompress().unwrap(), payload);
}

#[test]
fn stored_decompress_reports_checksum_mismatch_with_both_values() {
    let payload = b"hello";
    let crc = crc32fast::hash(payload);
    let entry = Entry {
        header: stored_header(b"a.txt", payload, crc ^ 1),
        data: payload.to_vec(),
        data_descriptor: None,
    };
    let e = entry.decompress().unwrap_err();
    assert_eq!(e, Error::ChecksumMismatch { expected: crc ^ 1, found: crc });
}

#[test]
fn deflate_decompress_inverts_compression() {
    let plain = b"hello world, hello world, hello world";
    let mut encoder =
        flate2::write::DeflateEncoder::new(Vec::new(), flate2::Compression::default());
    encoder.write_all(plain).unwrap();
    let compressed = encoder.finish().unwrap();
    assert_ne!(compressed, plain.to_vec());

    let mut header = stored_header(b"c.txt", &compressed, crc32fast::hash(plain));
    header.compression_method = 8;
    header.uncompressed_size = plain.len() as u32;
    let entry = Entry { header, data: compressed, data_descriptor: None };
    assert_eq!(entry.decompress().unwrap(), plain);
}

#[test]
fn deflate_decompress_with_wrong_declared_checksum_fails() {
    let plain = b"payload";
    let mut encoder =
        flate2::write::DeflateEncoder::new(Vec::new(), flate2::Compression::default());
    encoder.write_all(plain).unwrap();
    let compressed = encoder.finish().unwrap();
    let crc = crc32fast::hash(plain);

    let mut header = stored_header(b"c.txt", &compressed, crc ^ 0xFF);
    header.compression_method = 8;
    let entry = Entry { header, data: compressed, data_descriptor: None };
    let e = entry.decompress().unwrap_err();
    assert_eq!(e, Error::ChecksumMismatch { expected: crc ^ 0xFF, found: crc });
}

#[test]
fn malformed_deflate_stream_is_reported() {
    // 0x07 declares an invalid block type, so inflation must fail.
    let mut header = stored_header(b"bad", &[0x07], 0);
    header.compression_method = 8;
    let entry = Entry { header, data: vec![0x07], data_descriptor: None };
    assert_eq!(entry.decompress().unwrap_err(), Error::DecompressionFailed);
}

#[test]
fn validate_checksum_agrees_with_hash() {
    let payload = b"check me";
    let crc = crc32fast::hash(payload);
    let h = stored_header(b"v", payload, crc);
    assert!(h.validate_checksum(payload));
    assert!(!h.validate_checksum(b"check mf"));
    let wrong = stored_header(b"v", payload, crc ^ 2);
    assert!(!wrong.validate_checksum(payload));
}
