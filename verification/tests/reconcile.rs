use zipcodec::{DataDescriptor, Error, LocalFileHeader};

fn header(crc: u32, compressed: u32, uncompressed: u32) -> LocalFileHeader {
    LocalFileHeader {
        signature: 0x04034B50,
        version_needed_to_extract: 20,
        general_purpose_flags: 0x0008,
        compression_method: 0,
        file_last_modification_time: 0,
        file_last_modification_date: 0,
        crc32_of_uncompressed_data: crc,
        compressed_size: compressed,
        uncompressed_size: uncompressed,
        file_name_length: 1,
        extra_field_length: 0,
        file_name: b"x".to_vec(),
        extra_field: Vec::new(),
    }
}

fn descriptor(crc: u32, compressed: u32, uncompressed: u32) -> DataDescriptor {
    DataDescriptor {
        signature: None,
        crc32_of_uncompressed_data: crc,
        compressed_size: compressed,
        uncompressed_size: uncompressed,
    }
}

#[test]
fn zero_placeholders_adopt_descriptor_values() {
    let mut h = header(0, 0, 0);
    h.update(descriptor(0x1111, 5, 9)).unwrap();
    assert_eq!(h.crc32_of_uncompressed_data, 0x1111);
    assert_eq!(h.compressed_size, 5);
    assert_eq!(h.uncompressed_size, 9);
}

#[test]
fn matching_nonzero_values_are_left_unchanged() {
    let mut h = header(0x2222, 5, 9);
    h.update(descriptor(0x2222, 5, 9)).unwrap();
    assert_eq!(h.crc32_of_uncompressed_data, 0x2222);
    assert_eq!(h.compressed_size, 5);
    assert_eq!(h.uncompressed_size, 9);
}

#[test]
fn mismatching_nonzero_crc_is_a_conflict() {
    let mut h = header(0x2222, 5, 9);
    let r = h.update(descriptor(0x3333, 5, 9));
    assert_eq!(r.unwrap_err(), Error::DataDescriptorConflictsWithLocalFileHeader);
    assert_eq!(h, header(0x2222, 5, 9));
}

#[test]
fn mismatching_nonzero_compressed_size_is_a_conflict() {
    let mut h = header(0x2222, 5, 9);
    let r = h.update(descriptor(0x2222, 6, 9));
    assert_eq!(r.unwrap_err(), Error::DataDescriptorConflictsWithLocalFileHeader);
    assert_eq!(h, header(0x2222, 5, 9));
}

#[test]
fn conflict_on_later_field_leaves_earlier_zero_field_unmodified() {
    // CRC-32 is a zero placeholder, but the uncompressed size conflicts:
    // the whole update fails and even the zero CRC-32 stays untouched.
    let mut h = header(0, 5, 9);
    let r = h.update(descriptor(0x1111, 5, 10));
    assert_eq!(r.unwrap_err(), Error::DataDescriptorConflictsWithLocalFileHeader);
    assert_eq!(h, header(0, 5, 9));
}

#[test]
fn mixed_zero_and_matching_fields_update_cleanly() {
    let mut h = header(0, 5, 0);
    h.update(descriptor(0x4444, 5, 9)).unwrap();
    assert_eq!(h.crc32_of_uncompressed_data, 0x4444);
    assert_eq!(h.compressed_size, 5);
    assert_eq!(h.uncompressed_size, 9);
}

#[test]
fn bit_three_signals_a_trailing_descriptor() {
    let h = header(0, 0, 0);
    assert!(h.indicates_data_descriptor_is_present());
    let mut plain = header(0, 0, 0);
    plain.general_purpose_flags = 0;
    assert!(!plain.indicates_data_descriptor_is_present());
    plain.general_purpose_flags = 0xFFF7;
    assert!(!plain.indicates_data_descriptor_is_present());
}
