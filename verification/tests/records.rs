use zipcodec::{CentralDirectoryFileHeader, EndOfCentralDirectory, Error, LocalFileHeader};

fn sample_local_file_header() -> LocalFileHeader {
    LocalFileHeader {
        signature: 0x04034B50,
        version_needed_to_extract: 20,
        general_purpose_flags: 0,
        compression_method: 0,
        file_last_modification_time: 0x6B3A,
        file_last_modification_date: 0x5311,
        crc32_of_uncompressed_data: 0xDEADBEEF,
        compressed_size: 5,
        uncompressed_size: 5,
        file_name_length: 5,
        extra_field_length: 2,
        file_name: b"a.txt".to_vec(),
        extra_field: vec![1, 2],
    }
}

#[test]
fn local_file_header_round_trip() {
    let h = sample_local_file_header();
    let mut buf: Vec<u8> = Vec::new();
    h.write(&mut buf).unwrap();
    assert_eq!(buf.len() as u32, h.expected_size());
    let mut pos = 0usize;
    let r = LocalFileHeader::read(&buf, &mut pos).unwrap();
    assert_eq!(pos as u32, h.expected_size());
    assert_eq!(r, h);
}

#[test]
fn local_file_header_layout_is_little_endian() {
    let h = sample_local_file_header();
    let mut buf: Vec<u8> = Vec::new();
    h.write(&mut buf).unwrap();
    assert_eq!(&buf[0..4], &[0x50, 0x4B, 0x03, 0x04]);
    assert_eq!(&buf[4..6], &[20, 0]);
    assert_eq!(&buf[14..18], &[0xEF, 0xBE, 0xAD, 0xDE]);
    assert_eq!(&buf[26..28], &[5, 0]);
    assert_eq!(&buf[30..35], b"a.txt");
    assert_eq!(&buf[35..37], &[1, 2]);
}

#[test]
fn local_file_header_read_rejects_bad_signature() {
    let h = sample_local_file_header();
    let mut buf: Vec<u8> = Vec::new();
    h.write(&mut buf).unwrap();
    buf[0] = 0x51;
    let mut pos = 0usize;
    let r = LocalFileHeader::read(&buf, &mut pos);
    assert_eq!(r.unwrap_err(), Error::BadSignatureInLocalFileHeader);
    assert_eq!(pos, 0);
}

#[test]
fn local_file_header_write_rejects_bad_signature() {
    let mut h = sample_local_file_header();
    h.signature = 0;
    assert!(!h.has_valid_signature());
    let mut buf: Vec<u8> = Vec::new();
    let r = h.write(&mut buf);
    assert_eq!(r.unwrap_err(), Error::BadSignatureInLocalFileHeader);
    assert!(buf.is_empty());
}

#[test]
fn local_file_header_read_rejects_truncated_input() {
    let h = sample_local_file_header();
    let mut buf: Vec<u8> = Vec::new();
    h.write(&mut buf).unwrap();
    buf.truncate(32);
    let mut pos = 0usize;
    let r = LocalFileHeader::read(&buf, &mut pos);
    assert_eq!(r.unwrap_err(), Error::UnexpectedEndOfData);
}

fn sample_directory_record() -> CentralDirectoryFileHeader {
    CentralDirectoryFileHeader {
        signature: 0x02014B50,
        version_made_by: 20,
        version_needed_to_extract: 20,
        general_purpose_flags: 0,
        compression_method: 8,
        file_last_modification_time: 1,
        file_last_modification_date: 2,
        crc32_of_uncompressed_data: 0x01020304,
        compressed_size: 9,
        uncompressed_size: 11,
        file_name_length: 5,
        extra_field_length: 0,
        file_comment_length: 4,
        disk_number_where_file_starts: 0,
        internal_file_attributes: 0,
        external_file_attributes: 0,
        relative_offset_of_local_file_header: 0,
        file_name: b"b.bin".to_vec(),
        extra_field: Vec::new(),
        file_comment: b"note".to_vec(),
    }
}

#[test]
fn central_directory_file_header_round_trip() {
    let h = sample_directory_record();
    let mut buf: Vec<u8> = Vec::new();
    h.write(&mut buf).unwrap();
    assert_eq!(buf.len() as u32, h.expected_size());
    let mut pos = 0usize;
    let r = CentralDirectoryFileHeader::read(&buf, &mut pos).unwrap();
    assert_eq!(pos as u32, h.expected_size());
    assert_eq!(r, h);
}

#[test]
fn central_directory_file_header_read_rejects_bad_signature() {
    let h = sample_directory_record();
    let mut buf: Vec<u8> = Vec::new();
    h.write(&mut buf).unwrap();
    buf[3] = 0x05;
    let mut pos = 0usize;
    let r = CentralDirectoryFileHeader::read(&buf, &mut pos);
    assert_eq!(r.unwrap_err(), Error::BadSignatureInCentralDirectoryFileHeader);
}

#[test]
fn promotion_carries_fields_and_defaults_the_rest() {
    let h = sample_local_file_header();
    let r = CentralDirectoryFileHeader::from_local_file_header(h.clone());
    assert!(r.has_valid_signature());
    assert_eq!(r.version_made_by, h.version_needed_to_extract);
    assert_eq!(r.version_needed_to_extract, h.version_needed_to_extract);
    assert_eq!(r.general_purpose_flags, h.general_purpose_flags);
    assert_eq!(r.compression_method, h.compression_method);
    assert_eq!(r.crc32_of_uncompressed_data, h.crc32_of_uncompressed_data);
    assert_eq!(r.compressed_size, h.compressed_size);
    assert_eq!(r.uncompressed_size, h.uncompressed_size);
    assert_eq!(r.file_name, h.file_name);
    assert_eq!(r.extra_field, h.extra_field);
    assert_eq!(r.file_comment_length, 0);
    assert!(r.file_comment.is_empty());
    assert_eq!(r.disk_number_where_file_starts, 0);
    assert_eq!(r.internal_file_attributes, 0);
    assert_eq!(r.external_file_attributes, 0);
    assert_eq!(r.relative_offset_of_local_file_header, 0);
}

#[test]
fn end_of_central_directory_round_trip() {
    let h = EndOfCentralDirectory {
        signature: 0x06054B50,
        number_of_this_disk: 0,
        disk_where_central_directory_starts: 0,
        number_of_central_directory_records_on_this_disk: 3,
        total_number_of_central_directory_records: 3,
        size_of_central_directory: 150,
        offset_of_start_of_central_directory_relative_to_start_of_archive: 4096,
        comment_length: 2,
        comment: vec![0x41, 0x42],
    };
    let mut buf: Vec<u8> = Vec::new();
    h.write(&mut buf).unwrap();
    assert_eq!(buf.len() as u32, h.expected_size());
    let mut pos = 0usize;
    let r = EndOfCentralDirectory::read(&buf, &mut pos).unwrap();
    assert_eq!(pos as u32, h.expected_size());
    assert_eq!(r, h);
}

#[test]
fn end_of_central_directory_default_is_empty_summary() {
    let e = EndOfCentralDirectory::default();
    assert!(e.has_valid_signature());
    assert_eq!(e.number_of_central_directory_records_on_this_disk, 0);
    assert_eq!(e.total_number_of_central_directory_records, 0);
    assert_eq!(e.size_of_central_directory, 0);
    assert_eq!(e.offset_of_start_of_central_directory_relative_to_start_of_archive, 0);
    assert_eq!(e.comment_length, 0);
    assert!(e.comment.is_empty());
    assert_eq!(e.expected_size(), 22);
}

#[test]
fn end_of_central_directory_read_rejects_bad_signature() {
    let e = EndOfCentralDirectory::default();
    let mut buf: Vec<u8> = Vec::new();
    e.write(&mut buf).unwrap();
    buf[1] = 0;
    let mut pos = 0usize;
    let r = EndOfCentralDirectory::read(&buf, &mut pos);
    assert_eq!(r.unwrap_err(), Error::BadSignatureInEndOfCentralDirectoryHeader);
}
