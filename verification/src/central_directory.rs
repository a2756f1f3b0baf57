//! The central directory: the ordered directory records plus the one
//! summary record, built incrementally from entries on the write path or
//! in bulk from an existing archive on the read path.
//!
//! The central invariant: after every `add`, the summary's four derived
//! fields agree with the records held — both counts equal the number of
//! records, the directory byte size equals the sum of the records'
//! serialized sizes, and the directory-start offset has grown by exactly
//! the added entry's full serialized size.

use vstd::prelude::*;

use crate::bytes::lemma_subrange_split;
use crate::central_directory_file_header::{
    cdfh_read_ok, cdfh_sig_at, cdfh_size_at, CentralDirectoryFileHeader,
    CENTRAL_DIRECTORY_FILE_HEADER_SIGNATURE,
};
use crate::data_descriptor::DataDescriptor;
use crate::end_of_central_directory::{eocd_read_ok, eocd_sig_at, EndOfCentralDirectory};
use crate::entry::Entry;
use crate::error::Error;
use crate::local_file_header::{conflict_free, reconciled, LocalFileHeader};

verus! {

/// The concatenated serialized bytes of a sequence of directory records.
pub open spec fn files_bytes(files: Seq<CentralDirectoryFileHeader>) -> Seq<u8>
    decreases files.len(),
{
    if files.len() == 0 {
        Seq::<u8>::empty()
    } else {
        files_bytes(files.drop_last()) + files.last().spec_bytes()
    }
}

/// The summed serialized sizes of a sequence of directory records.
pub open spec fn sum_sizes(files: Seq<CentralDirectoryFileHeader>) -> int
    decreases files.len(),
{
    if files.len() == 0 {
        0
    } else {
        sum_sizes(files.drop_last()) + files.last().spec_size()
    }
}

/// Whether `count` directory records parse back to back starting at `p`.
pub open spec fn cdfh_seq_ok(bytes: Seq<u8>, p: int, count: int) -> bool
    decreases count,
{
    if count <= 0 {
        true
    } else {
        &&& cdfh_read_ok(bytes, p)
        &&& cdfh_seq_ok(bytes, p + cdfh_size_at(bytes, p), count - 1)
    }
}

/// The error that stops a back-to-back parse of `count` directory
/// records starting at `p`: a signature mismatch at the first record
/// whose magic bytes are wrong, or truncation.  Meaningful only when
/// `cdfh_seq_ok` fails.
pub open spec fn cdfh_seq_first_error(bytes: Seq<u8>, p: int, count: int) -> Error
    decreases count,
{
    if count <= 0 {
        Error::UnexpectedEndOfData
    } else if !cdfh_read_ok(bytes, p) {
        if p + 4 <= bytes.len() && !cdfh_sig_at(bytes, p) {
            Error::BadSignatureInCentralDirectoryFileHeader
        } else {
            Error::UnexpectedEndOfData
        }
    } else {
        cdfh_seq_first_error(bytes, p + cdfh_size_at(bytes, p), count - 1)
    }
}

/// Whether a whole-directory read starting at the summary record at `p`
/// succeeds: the summary parses, and exactly as many directory records as
/// it declares parse back to back from the directory-start offset it
/// names.
pub open spec fn cd_read_ok(bytes: Seq<u8>, p: int) -> bool {
    &&& eocd_read_ok(bytes, p)
    &&& ({
        let off = crate::bytes::u32_from(
            bytes[p + 16],
            bytes[p + 17],
            bytes[p + 18],
            bytes[p + 19],
        ) as int;
        let count = crate::bytes::u16_from(bytes[p + 10], bytes[p + 11]) as int;
        &&& off <= bytes.len()
        &&& cdfh_seq_ok(bytes, off, count)
    })
}

/// The CRC-32 a directory record promotes: the header's own value, unless
/// the header defers its sizes and a resolved descriptor supplies it.
pub open spec fn promoted_crc32(h: LocalFileHeader, d: Option<DataDescriptor>) -> u32 {
    if h.sizes_deferred() && d is Some {
        reconciled(h.crc32_of_uncompressed_data, d.unwrap().crc32_of_uncompressed_data)
    } else {
        h.crc32_of_uncompressed_data
    }
}

/// The compressed size a directory record promotes.
pub open spec fn promoted_compressed_size(h: LocalFileHeader, d: Option<DataDescriptor>) -> u32 {
    if h.sizes_deferred() && d is Some {
        reconciled(h.compressed_size, d.unwrap().compressed_size)
    } else {
        h.compressed_size
    }
}

/// The uncompressed size a directory record promotes.
pub open spec fn promoted_uncompressed_size(h: LocalFileHeader, d: Option<DataDescriptor>) -> u32 {
    if h.sizes_deferred() && d is Some {
        reconciled(h.uncompressed_size, d.unwrap().uncompressed_size)
    } else {
        h.uncompressed_size
    }
}

/// Whether reconciling the entry's header against its resolved descriptor
/// fails: the header defers its sizes, a descriptor is present, and some
/// nonzero header field disagrees with it.
pub open spec fn add_conflict(h: LocalFileHeader, d: Option<DataDescriptor>) -> bool {
    &&& h.sizes_deferred()
    &&& d is Some
    &&& !({
        &&& conflict_free(h.crc32_of_uncompressed_data, d.unwrap().crc32_of_uncompressed_data)
        &&& conflict_free(h.compressed_size, d.unwrap().compressed_size)
        &&& conflict_free(h.uncompressed_size, d.unwrap().uncompressed_size)
    })
}

/// The ordered directory records and the one summary record.
#[derive(Debug, Clone, PartialEq, Eq)]
pub struct CentralDirectory {
    pub files: Vec<CentralDirectoryFileHeader>,
    pub end: EndOfCentralDirectory,
}

impl CentralDirectory {
    /// Every record's declared lengths match the fields it holds.
    pub open spec fn wf(self) -> bool {
        &&& self.end.wf()
        &&& forall|i: int|
            0 <= i < self.files@.len() ==> (#[trigger] self.files@[i]).wf()
    }

    /// The summary's derived fields agree with the records held: both
    /// counts equal the number of records and the directory byte size
    /// equals the sum of the records' serialized sizes.
    pub open spec fn summary_consistent(self) -> bool {
        &&& self.end.number_of_central_directory_records_on_this_disk == self.files@.len()
        &&& self.end.total_number_of_central_directory_records == self.files@.len()
        &&& self.end.size_of_central_directory == sum_sizes(self.files@)
    }

    /// Record offsets are strictly increasing in entry order and stay
    /// below the directory-start offset.
    pub open spec fn offsets_consistent(self) -> bool {
        &&& forall|i: int|
            0 <= i && i + 1 < self.files@.len() ==> (#[trigger] self.files@[
                i
            ]).relative_offset_of_local_file_header < self.files@[
                i + 1
            ].relative_offset_of_local_file_header
        &&& self.files@.len() > 0 ==> self.files@.last().relative_offset_of_local_file_header
            < self.end.offset_of_start_of_central_directory_relative_to_start_of_archive
    }

    /// The full invariant that construction establishes and `add`
    /// preserves.
    pub open spec fn inv(self) -> bool {
        &&& self.wf()
        &&& self.summary_consistent()
        &&& self.offsets_consistent()
        &&& forall|i: int|
            0 <= i < self.files@.len() ==> (#[trigger] self.files@[i]).sig_valid()
        &&& self.end.sig_valid()
    }

    /// An empty directory: no records and the empty summary.
    pub fn new() -> (r: CentralDirectory)
        ensures
            r.files@.len() == 0,
            r.end.sig_valid(),
            r.end.number_of_this_disk == 0,
            r.end.disk_where_central_directory_starts == 0,
            r.end.number_of_central_directory_records_on_this_disk == 0,
            r.end.total_number_of_central_directory_records == 0,
            r.end.size_of_central_directory == 0,
            r.end.offset_of_start_of_central_directory_relative_to_start_of_archive == 0,
            r.end.comment_length == 0,
            r.end.comment@ == Seq::<u8>::empty(),
            r.inv(),
    {
        CentralDirectory { files: Vec::new(), end: EndOfCentralDirectory::default() }
    }

    /// The serialized length of the whole directory block: every record
    /// followed by the summary.
    pub fn expected_size(&self) -> (r: u64)
        requires
            self.summary_consistent(),
        ensures
            r == sum_sizes(self.files@) + self.end.spec_size(),
    {
        self.end.size_of_central_directory as u64 + self.end.expected_size() as u64
    }

    /// Append one entry: promote its (reconciled) header to a directory
    /// record at the current directory-start offset, then update the
    /// summary's four derived fields in lockstep.  A reconciliation
    /// conflict or a count, size or offset that no longer fits the
    /// format's fields leaves the directory unchanged.
    pub fn add(&mut self, entry: &Entry) -> (r: Result<(), Error>)
        requires
            old(self).inv(),
            entry.header.wf(),
        ensures
            final(self).inv(),
            r is Ok <==> !add_conflict(entry.header, entry.data_descriptor) && old(self).can_fit(
                *entry,
            ),
            r == Err::<(), Error>(Error::DataDescriptorConflictsWithLocalFileHeader)
                <==> add_conflict(entry.header, entry.data_descriptor),
            r == Err::<(), Error>(Error::SizeOverflow) <==> !add_conflict(
                entry.header,
                entry.data_descriptor,
            ) && !old(self).can_fit(*entry),
            r is Err ==> *final(self) == *old(self),
            r is Ok ==> ({
                let files0 = old(self).files@;
                let rec = final(self).files@.last();
                &&& final(self).files@ == files0.push(rec)
                &&& rec.signature == CENTRAL_DIRECTORY_FILE_HEADER_SIGNATURE
                &&& rec.version_made_by == entry.header.version_needed_to_extract
                &&& rec.version_needed_to_extract == entry.header.version_needed_to_extract
                &&& rec.general_purpose_flags == entry.header.general_purpose_flags
                &&& rec.compression_method == entry.header.compression_method
                &&& rec.file_last_modification_time == entry.header.file_last_modification_time
                &&& rec.file_last_modification_date == entry.header.file_last_modification_date
                &&& rec.crc32_of_uncompressed_data == promoted_crc32(
                    entry.header,
                    entry.data_descriptor,
                )
                &&& rec.compressed_size == promoted_compressed_size(
                    entry.header,
                    entry.data_descriptor,
                )
                &&& rec.uncompressed_size == promoted_uncompressed_size(
                    entry.header,
                    entry.data_descriptor,
                )
                &&& rec.file_name_length == entry.header.file_name_length
                &&& rec.extra_field_length == entry.header.extra_field_length
                &&& rec.file_comment_length == 0
                &&& rec.disk_number_where_file_starts == 0
                &&& rec.internal_file_attributes == 0
                &&& rec.external_file_attributes == 0
                &&& rec.relative_offset_of_local_file_header == old(
                    self,
                ).end.offset_of_start_of_central_directory_relative_to_start_of_archive
                &&& rec.file_name@ == entry.header.file_name@
                &&& rec.extra_field@ == entry.header.extra_field@
                &&& rec.file_comment@ == Seq::<u8>::empty()
                &&& final(self).end.number_of_central_directory_records_on_this_disk == files0.len()
                    + 1
                &&& final(self).end.total_number_of_central_directory_records == files0.len() + 1
                &&& final(self).end.size_of_central_directory == old(
                    self,
                ).end.size_of_central_directory + rec.spec_size()
                &&& final(self).end.offset_of_start_of_central_directory_relative_to_start_of_archive
                    == old(self).end.offset_of_start_of_central_directory_relative_to_start_of_archive
                    + entry.spec_size()
                &&& final(self).end.signature == old(self).end.signature
                &&& final(self).end.number_of_this_disk == old(self).end.number_of_this_disk
                &&& final(self).end.disk_where_central_directory_starts == old(
                    self,
                ).end.disk_where_central_directory_starts
                &&& final(self).end.comment_length == old(self).end.comment_length
                &&& final(self).end.comment == old(self).end.comment
            }),
    {
        let h = &entry.header;
        let mut crc = h.crc32_of_uncompressed_data;
        let mut cs = h.compressed_size;
        let mut us = h.uncompressed_size;
        if h.indicates_data_descriptor_is_present() {
            match entry.data_descriptor {
                Some(d) => {
                    let crc_ok = crc == 0 || crc == d.crc32_of_uncompressed_data;
                    let cs_ok = cs == 0 || cs == d.compressed_size;
                    let us_ok = us == 0 || us == d.uncompressed_size;
                    if !(crc_ok && cs_ok && us_ok) {
                        return Err(Error::DataDescriptorConflictsWithLocalFileHeader);
                    }
                    if crc == 0 {
                        crc = d.crc32_of_uncompressed_data;
                    }
                    if cs == 0 {
                        cs = d.compressed_size;
                    }
                    if us == 0 {
                        us = d.uncompressed_size;
                    }
                },
                None => (),
            }
        }
        let count = self.files.len();
        if count >= 0xFFFF {
            return Err(Error::SizeOverflow);
        }
        let rec_size: u32 = 46 + h.file_name_length as u32 + h.extra_field_length as u32;
        if self.end.size_of_central_directory > u32::MAX - rec_size {
            return Err(Error::SizeOverflow);
        }
        let entry_size: u64 = entry.expected_size();
        let offset = self.end.offset_of_start_of_central_directory_relative_to_start_of_archive;
        if offset as u64 + entry_size > u32::MAX as u64 {
            return Err(Error::SizeOverflow);
        }
        let mut local = entry.header.duplicate();
        local.crc32_of_uncompressed_data = crc;
        local.compressed_size = cs;
        local.uncompressed_size = us;
        let mut rec = CentralDirectoryFileHeader::from_local_file_header(local);
        rec.relative_offset_of_local_file_header = offset;
        let ghost files0 = self.files@;
        let ghost grec = rec;
        self.files.push(rec);
        self.end.number_of_central_directory_records_on_this_disk = count as u16 + 1;
        self.end.total_number_of_central_directory_records = count as u16 + 1;
        self.end.size_of_central_directory = self.end.size_of_central_directory + rec_size;
        self.end.offset_of_start_of_central_directory_relative_to_start_of_archive = (offset as u64
            + entry_size) as u32;
        proof {
            assert(self.files@ == files0.push(grec));
            assert(self.files@.drop_last() =~= files0);
            assert(sum_sizes(self.files@) == sum_sizes(files0) + grec.spec_size());
            assert(entry.spec_size() >= 30);
            assert forall|i: int| 0 <= i && i + 1 < self.files@.len() implies (
            #[trigger] self.files@[i]).relative_offset_of_local_file_header < self.files@[
                i + 1
            ].relative_offset_of_local_file_header by {
                if i + 2 < self.files@.len() {
                    assert(self.files@[i] == files0[i] && self.files@[i + 1] == files0[i + 1]);
                } else {
                    assert(self.files@[i] == files0.last() && self.files@[i + 1] == grec);
                }
            }
        }
        Ok(())
    }

    /// Whether the directory can take one more entry within the format's
    /// 16/32-bit fields: another record fits the count, the directory
    /// byte size, and the directory-start offset.
    pub open spec fn can_fit(self, entry: Entry) -> bool {
        &&& self.files@.len() + 1 <= 0xFFFF
        &&& self.end.size_of_central_directory + 46 + entry.header.file_name_length
            + entry.header.extra_field_length <= 0xFFFFFFFF
        &&& self.end.offset_of_start_of_central_directory_relative_to_start_of_archive
            + entry.spec_size() <= 0xFFFFFFFF
    }

    /// Serialize the directory: every record in order, then the summary;
    /// a record whose signature field was corrupted stops the write there
    /// and reports it.
    #[verifier::rlimit(100)]
    pub fn write(&self, buf: &mut Vec<u8>) -> (r: Result<(), Error>)
        requires
            self.wf(),
        ensures
            r is Ok <==> (forall|i: int|
                0 <= i < self.files@.len() ==> (#[trigger] self.files@[i]).sig_valid())
                && self.end.sig_valid(),
            r is Ok ==> final(buf)@ == old(buf)@ + files_bytes(self.files@)
                + self.end.spec_bytes(),
            r == Err::<(), Error>(Error::BadSignatureInCentralDirectoryFileHeader) <==> (exists|
                i: int,
            |
                0 <= i < self.files@.len() && !(#[trigger] self.files@[i]).sig_valid()),
            r == Err::<(), Error>(Error::BadSignatureInEndOfCentralDirectoryHeader) <==> (forall|
                i: int,
            |
                0 <= i < self.files@.len() ==> (#[trigger] self.files@[i]).sig_valid())
                && !self.end.sig_valid(),
            r is Err ==> exists|k: int|
                #![trigger files_bytes(self.files@.take(k))]
                {
                    &&& 0 <= k <= self.files@.len()
                    &&& (forall|j: int| 0 <= j < k ==> self.files@[j].sig_valid())
                    &&& (k < self.files@.len() ==> !self.files@[k].sig_valid())
                    &&& (k == self.files@.len() ==> !self.end.sig_valid())
                    &&& final(buf)@ == old(buf)@ + files_bytes(self.files@.take(k))
                },
    {
        let n = self.files.len();
        let mut i: usize = 0;
        while i < n
            invariant
                i <= n,
                n == self.files@.len(),
                self.wf(),
                forall|j: int| 0 <= j < i ==> (#[trigger] self.files@[j]).sig_valid(),
                buf@ == old(buf)@ + files_bytes(self.files@.take(i as int)),
            decreases n - i,
        {
            let file = &self.files[i];
            match file.write(buf) {
                Ok(_) => (),
                Err(e) => {
                    assert(!self.files@[i as int].sig_valid());
                    assert(buf@ == old(buf)@ + files_bytes(self.files@.take(i as int)));
                    return Err(e);
                },
            }
            proof {
                let ii = i as int;
                assert(self.files@.take(ii + 1).drop_last() =~= self.files@.take(ii));
                assert(self.files@.take(ii + 1).last() == self.files@[ii]);
                assert(files_bytes(self.files@.take(ii + 1)) == files_bytes(self.files@.take(ii))
                    + self.files@[ii].spec_bytes());
            }
            i = i + 1;
        }
        assert(self.files@.take(n as int) =~= self.files@);
        match self.end.write(buf) {
            Ok(_) => Ok(()),
            Err(e) => {
                assert(buf@ == old(buf)@ + files_bytes(self.files@));
                Err(e)
            },
        }
    }

    /// Parse a whole directory: the summary record at `pos`, then exactly
    /// as many directory records as it declares, starting at the
    /// directory-start offset it names.
    #[verifier::rlimit(100)]
    pub fn read(buf: &Vec<u8>, pos: usize) -> (r: Result<CentralDirectory, Error>)
        requires
            pos <= buf@.len(),
        ensures
            r is Ok <==> cd_read_ok(buf@, pos as int),
            r matches Ok(cd) ==> ({
                let p = pos as int;
                let off =
                    cd.end.offset_of_start_of_central_directory_relative_to_start_of_archive as int;
                &&& cd.wf()
                &&& cd.end.sig_valid()
                &&& buf@.subrange(p, p + cd.end.spec_size()) == cd.end.spec_bytes()
                &&& cd.end.spec_size() == crate::end_of_central_directory::eocd_size_at(buf@, p)
                &&& cd.files@.len() == cd.end.total_number_of_central_directory_records
                &&& (forall|i: int|
                    0 <= i < cd.files@.len() ==> (#[trigger] cd.files@[i]).sig_valid())
                &&& off + sum_sizes(cd.files@) <= buf@.len()
                &&& buf@.subrange(off, off + sum_sizes(cd.files@)) == files_bytes(cd.files@)
            }),
            r matches Err(e) ==> (e == Error::BadSignatureInEndOfCentralDirectoryHeader || e
                == Error::BadSignatureInCentralDirectoryFileHeader || e
                == Error::UnexpectedEndOfData),
            r is Err ==> ({
                let p = pos as int;
                let off = crate::bytes::u32_from(
                    buf@[p + 16],
                    buf@[p + 17],
                    buf@[p + 18],
                    buf@[p + 19],
                ) as int;
                let count = crate::bytes::u16_from(buf@[p + 10], buf@[p + 11]) as int;
                if !eocd_read_ok(buf@, p) {
                    if p + 4 <= buf@.len() && !eocd_sig_at(buf@, p) {
                        r == Err::<CentralDirectory, Error>(
                            Error::BadSignatureInEndOfCentralDirectoryHeader,
                        )
                    } else {
                        r == Err::<CentralDirectory, Error>(Error::UnexpectedEndOfData)
                    }
                } else if off > buf@.len() {
                    r == Err::<CentralDirectory, Error>(Error::UnexpectedEndOfData)
                } else {
                    r == Err::<CentralDirectory, Error>(cdfh_seq_first_error(buf@, off, count))
                }
            }),
    {
        let mut cur = pos;
        let end = match EndOfCentralDirectory::read(buf, &mut cur) {
            Ok(e) => e,
            Err(e) => {
                return Err(e);
            },
        };
        let off = end.offset_of_start_of_central_directory_relative_to_start_of_archive as usize;
        let count = end.total_number_of_central_directory_records as usize;
        assert(off == crate::bytes::u32_from(
            buf@[pos + 16],
            buf@[pos + 17],
            buf@[pos + 18],
            buf@[pos + 19],
        ));
        assert(count == crate::bytes::u16_from(buf@[pos + 10], buf@[pos + 11]));
        if off > buf.len() {
            assert(!cd_read_ok(buf@, pos as int));
            return Err(Error::UnexpectedEndOfData);
        }
        let mut files: Vec<CentralDirectoryFileHeader> = Vec::new();
        let mut cur2 = off;
        let mut i: usize = 0;
        while i < count
            invariant
                i <= count,
                off <= cur2 <= buf@.len(),
                files@.len() == i,
                forall|j: int| 0 <= j < i ==> (#[trigger] files@[j]).wf(),
                forall|j: int| 0 <= j < i ==> (#[trigger] files@[j]).sig_valid(),
                pos + 4 <= buf@.len(),
                eocd_read_ok(buf@, pos as int),
                off == crate::bytes::u32_from(
                    buf@[pos + 16],
                    buf@[pos + 17],
                    buf@[pos + 18],
                    buf@[pos + 19],
                ),
                count == crate::bytes::u16_from(buf@[pos + 10], buf@[pos + 11]),
                sum_sizes(files@) == cur2 - off,
                buf@.subrange(off as int, cur2 as int) == files_bytes(files@),
                cdfh_seq_ok(buf@, off as int, count as int) <==> cdfh_seq_ok(
                    buf@,
                    cur2 as int,
                    count - i,
                ),
                i < count ==> cdfh_seq_first_error(buf@, off as int, count as int)
                    == cdfh_seq_first_error(buf@, cur2 as int, count - i),
            decreases count - i,
        {
            let ghost cur_before = cur2 as int;
            let f = match CentralDirectoryFileHeader::read(buf, &mut cur2) {
                Ok(f) => f,
                Err(e) => {
                    assert(count - i >= 1);
                    assert(!cdfh_read_ok(buf@, cur2 as int));
                    assert(!cdfh_seq_ok(buf@, cur2 as int, count - i));
                    assert(!cdfh_seq_ok(buf@, off as int, count as int));
                    assert(!cd_read_ok(buf@, pos as int));
                    assert(e == cdfh_seq_first_error(buf@, cur2 as int, count - i));
                    assert(e == cdfh_seq_first_error(buf@, off as int, count as int));
                    return Err(e);
                },
            };
            proof {
                assert(cdfh_seq_ok(buf@, cur_before, count - i) <==> cdfh_seq_ok(
                    buf@,
                    cur2 as int,
                    count - i - 1,
                ));
                let fs = files@;
                assert(fs.push(f).drop_last() =~= fs);
                assert(fs.push(f).last() == f);
                assert(files_bytes(fs.push(f)) == files_bytes(fs) + f.spec_bytes());
                assert(sum_sizes(fs.push(f)) == sum_sizes(fs) + f.spec_size());
                lemma_subrange_split(buf@, off as int, cur_before, cur2 as int);
            }
            files.push(f);
            i = i + 1;
        }
        let cd = CentralDirectory { files, end };
        assert(cd_read_ok(buf@, pos as int));
        Ok(cd)
    }

    /// Parse the directory of an archive whose summary record carries no
    /// comment and therefore ends exactly at the end of the buffer: the
    /// summary is found a fixed 22 bytes before that end.
    pub fn read_from_end(buf: &Vec<u8>) -> (r: Result<CentralDirectory, Error>)
        ensures
            r is Ok <==> buf@.len() >= 22 && cd_read_ok(buf@, buf@.len() - 22),
            r matches Ok(cd) ==> ({
                let p = buf@.len() - 22;
                let off =
                    cd.end.offset_of_start_of_central_directory_relative_to_start_of_archive as int;
                &&& cd.wf()
                &&& cd.end.sig_valid()
                &&& buf@.subrange(p, p + cd.end.spec_size()) == cd.end.spec_bytes()
                &&& cd.files@.len() == cd.end.total_number_of_central_directory_records
                &&& (forall|i: int|
                    0 <= i < cd.files@.len() ==> (#[trigger] cd.files@[i]).sig_valid())
                &&& off + sum_sizes(cd.files@) <= buf@.len()
                &&& buf@.subrange(off, off + sum_sizes(cd.files@)) == files_bytes(cd.files@)
            }),
            r matches Err(e) ==> (e == Error::BadSignatureInEndOfCentralDirectoryHeader || e
                == Error::BadSignatureInCentralDirectoryFileHeader || e
                == Error::UnexpectedEndOfData),
            buf@.len() < 22 ==> r == Err::<CentralDirectory, Error>(Error::UnexpectedEndOfData),
    {
        let n = buf.len();
        if n < 22 {
            return Err(Error::UnexpectedEndOfData);
        }
        CentralDirectory::read(buf, n - 22)
    }
}


/// The summed full serialized sizes of a sequence of entries.
pub open spec fn sum_entry_sizes(entries: Seq<Entry>) -> int
    decreases entries.len(),
{
    if entries.len() == 0 {
        0
    } else {
        sum_entry_sizes(entries.drop_last()) + entries.last().spec_size()
    }
}

/// Offset/size consistency over a whole build: `new` starts the
/// directory-start offset at zero, and every successful `add` grows it by
/// exactly the added entry's full serialized size, so after any sequence
/// of adds the offset equals the sum of all added entries' full
/// serialized sizes.  This lemma is the inductive step; `add`'s contract
/// supplies the growth and `new`'s the base.
pub proof fn lemma_offset_accumulates(offset_before: int, entries: Seq<Entry>, entry: Entry)
    requires
        offset_before == sum_entry_sizes(entries),
    ensures
        offset_before + entry.spec_size() == sum_entry_sizes(entries.push(entry)),
{
    assert(entries.push(entry).drop_last() =~= entries);
    assert(entries.push(entry).last() == entry);
}

} // verus!

