use zipcodec::{CentralDirectory, DataDescriptor, Entry, Error, LocalFileHeader};

fn stored_entry(name: &[u8], payload: &[u8]) -> Entry {
    let crc = crc32fast::hash(payload);
    Entry {
        header: LocalFileHeader {
            signature: 0x04034B50,
            version_needed_to_extract: 20,
            general_purpose_flags: 0,
            compression_method: 0,
            file_last_modification_time: 0,
            file_last_modification_date: 0,
            crc32_of_uncompressed_data: crc,
            compressed_size: payload.len() as u32,
            uncompressed_size: payload.len() as u32,
            file_name_length: name.len() as u16,
            extra_field_length: 0,
            file_name: name.to_vec(),
            extra_field: Vec::new(),
        },
        data: payload.to_vec(),
        data_descriptor: None,
    }
}

#[test]
fn summary_counters_stay_consistent_over_repeated_add() {
    let entries =
        [stored_entry(b"a", b"x"), stored_entry(b"bb", b"yyy"), stored_entry(b"ccc", b"zzzzz")];
    let mut cd = CentralDirectory::new();
    let mut expected_offset = 0u64;
    let mut expected_dir_size = 0u32;
    for (i, e) in entries.iter().enumerate() {
        cd.add(e).unwrap();
        expected_offset += e.expected_size();
        expected_dir_size += cd.files[i].expected_size();
        let n = (i + 1) as u16;
        assert_eq!(cd.end.number_of_central_directory_records_on_this_disk, n);
        assert_eq!(cd.end.total_number_of_central_directory_records, n);
        assert_eq!(cd.files.len(), i + 1);
        assert_eq!(
            cd.end.size_of_central_directory,
            cd.files.iter().map(|f| f.expected_size()).sum::<u32>()
        );
        assert_eq!(cd.end.size_of_central_directory, expected_dir_size);
        assert_eq!(
            cd.end.offset_of_start_of_central_directory_relative_to_start_of_archive as u64,
            expected_offset
        );
    }
    // Offsets equal the cumulative sum of preceding entries' full sizes.
    assert_eq!(cd.files[0].relative_offset_of_local_file_header, 0);
    assert_eq!(
        cd.files[1].relative_offset_of_local_file_header as u64,
        entries[0].expected_size()
    );
    assert_eq!(
        cd.files[2].relative_offset_of_local_file_header as u64,
        entries[0].expected_size() + entries[1].expected_size()
    );
}

#[test]
fn add_reconciles_deferred_header_from_descriptor() {
    let payload = b"data!";
    let crc = crc32fast::hash(payload);
    let mut e = stored_entry(b"d", payload);
    e.header.general_purpose_flags = 0x0008;
    e.header.crc32_of_uncompressed_data = 0;
    e.header.compressed_size = 0;
    e.header.uncompressed_size = 0;
    e.data_descriptor = Some(DataDescriptor {
        signature: None,
        crc32_of_uncompressed_data: crc,
        compressed_size: payload.len() as u32,
        uncompressed_size: payload.len() as u32,
    });
    let mut cd = CentralDirectory::new();
    cd.add(&e).unwrap();
    let rec = &cd.files[0];
    assert_eq!(rec.crc32_of_uncompressed_data, crc);
    assert_eq!(rec.compressed_size, payload.len() as u32);
    assert_eq!(rec.uncompressed_size, payload.len() as u32);
}

#[test]
fn add_rejects_conflicting_descriptor_and_leaves_directory_unchanged() {
    let payload = b"data!";
    let crc = crc32fast::hash(payload);
    let mut e = stored_entry(b"d", payload);
    e.header.general_purpose_flags = 0x0008;
    e.data_descriptor = Some(DataDescriptor {
        signature: None,
        crc32_of_uncompressed_data: crc ^ 1,
        compressed_size: payload.len() as u32,
        uncompressed_size: payload.len() as u32,
    });
    let mut cd = CentralDirectory::new();
    let before = cd.clone();
    let r = cd.add(&e);
    assert_eq!(r.unwrap_err(), Error::DataDescriptorConflictsWithLocalFileHeader);
    assert_eq!(cd, before);
}

#[test]
fn add_rejects_record_count_beyond_the_sixteen_bit_field() {
    let e = stored_entry(b"", b"");
    let mut cd = CentralDirectory::new();
    for _ in 0..0xFFFF {
        cd.add(&e).unwrap();
    }
    assert_eq!(cd.end.total_number_of_central_directory_records, 0xFFFF);
    let r = cd.add(&e);
    assert_eq!(r.unwrap_err(), Error::SizeOverflow);
    assert_eq!(cd.files.len(), 0xFFFF);
}

#[test]
fn directory_write_emits_records_then_summary() {
    let entries = [stored_entry(b"a", b"x"), stored_entry(b"bb", b"yy")];
    let mut cd = CentralDirectory::new();
    for e in &entries {
        cd.add(e).unwrap();
    }
    let mut buf: Vec<u8> = Vec::new();
    cd.write(&mut buf).unwrap();
    assert_eq!(buf.len() as u64, cd.expected_size());
    assert_eq!(&buf[0..4], &[0x50, 0x4B, 0x01, 0x02]);
    let eocd_start = buf.len() - 22;
    assert_eq!(&buf[eocd_start..eocd_start + 4], &[0x50, 0x4B, 0x05, 0x06]);
}

#[test]
fn directory_write_rejects_corrupted_record_signature() {
    let mut cd = CentralDirectory::new();
    cd.add(&stored_entry(b"a", b"x")).unwrap();
    cd.files[0].signature = 0;
    let mut buf: Vec<u8> = Vec::new();
    let r = cd.write(&mut buf);
    assert_eq!(r.unwrap_err(), Error::BadSignatureInCentralDirectoryFileHeader);
}

#[test]
fn directory_write_rejects_corrupted_summary_signature() {
    let mut cd = CentralDirectory::new();
    cd.add(&stored_entry(b"a", b"x")).unwrap();
    cd.end.signature = 0;
    let mut buf: Vec<u8> = Vec::new();
    let r = cd.write(&mut buf);
    assert_eq!(r.unwrap_err(), Error::BadSignatureInEndOfCentralDirectoryHeader);
}

#[test]
fn one_entry_archive_round_trip() {
    // A stored entry, bit 3 clear, with the correct CRC-32 in the header.
    let payload = b"hello";
    let entry = stored_entry(b"a.txt", payload);

    let mut archive: Vec<u8> = Vec::new();
    entry.write(&mut archive).unwrap();
    let mut cd = CentralDirectory::new();
    cd.add(&entry).unwrap();
    cd.write(&mut archive).unwrap();

    // The archive's total length is the sum of every record's reported
    // size: the entry, one directory record, and the summary.
    assert_eq!(
        archive.len() as u64,
        entry.expected_size() + cd.files[0].expected_size() as u64 + cd.end.expected_size() as u64
    );

    // Read the directory back from the end of the archive.
    let parsed = CentralDirectory::read_from_end(&archive).unwrap();
    assert_eq!(parsed, cd);
    assert_eq!(parsed.files.len(), 1);
    let rec = &parsed.files[0];
    assert_eq!(rec.file_name, b"a.txt".to_vec());
    assert_eq!(rec.crc32_of_uncompressed_data, crc32fast::hash(payload));
    assert_eq!(rec.relative_offset_of_local_file_header, 0);

    // Walk the archive from the front: the entry comes back exactly.
    let mut pos = 0usize;
    let read_back = Entry::read(&archive, &mut pos).unwrap();
    assert_eq!(read_back, entry);
    assert_eq!(read_back.header.file_name, b"a.txt".to_vec());
    assert_eq!(read_back.data, payload.to_vec());
    assert_eq!(
        read_back.header.crc32_of_uncompressed_data,
        crc32fast::hash(payload)
    );
    assert_eq!(read_back.decompress().unwrap(), payload);
}

#[test]
fn directory_read_rejects_bad_summary_signature() {
    let mut archive: Vec<u8> = Vec::new();
    let entry = stored_entry(b"a", b"x");
    entry.write(&mut archive).unwrap();
    let mut cd = CentralDirectory::new();
    cd.add(&entry).unwrap();
    cd.write(&mut archive).unwrap();
    let n = archive.len();
    archive[n - 22] = 0;
    let r = CentralDirectory::read_from_end(&archive);
    assert_eq!(r.unwrap_err(), Error::BadSignatureInEndOfCentralDirectoryHeader);
}

#[test]
fn directory_read_rejects_bad_record_signature() {
    let entry = stored_entry(b"a", b"x");
    let mut archive: Vec<u8> = Vec::new();
    entry.write(&mut archive).unwrap();
    let record_start = archive.len();
    let mut cd = CentralDirectory::new();
    cd.add(&entry).unwrap();
    cd.write(&mut archive).unwrap();
    archive[record_start] = 0;
    let r = CentralDirectory::read_from_end(&archive);
    assert_eq!(r.unwrap_err(), Error::BadSignatureInCentralDirectoryFileHeader);
}

#[test]
fn directory_read_rejects_truncated_buffer() {
    let buf: Vec<u8> = vec![0; 10];
    let r = CentralDirectory::read_from_end(&buf);
    assert_eq!(r.unwrap_err(), Error::UnexpectedEndOfData);
}
