//! The central directory file header: the per-entry directory record, a
//! superset of the local file header's informational fields plus the
//! entry's byte offset within the archive, built from a local header by
//! explicit field promotion.

use vstd::prelude::*;

use crate::bytes::{
    append_bytes, copy_range, lemma_subrange_split, lemma_u16_from_le, lemma_u16_le_from,
    lemma_u32_from_le, lemma_u32_le_from, push_u16, push_u32, read_u16, read_u32, u16_from,
    u16_le, u32_from, u32_le,
};
use crate::checksum::{crc32, crc32_of};
use crate::error::Error;
use crate::local_file_header::LocalFileHeader;

verus! {

/// The record signature `50 4B 01 02`, little-endian.
pub const CENTRAL_DIRECTORY_FILE_HEADER_SIGNATURE: u32 = 0x02014B50;

/// One directory record per entry, holding the entry's metadata and its
/// offset within the archive.
#[derive(Debug, Clone, PartialEq, Eq)]
pub struct CentralDirectoryFileHeader {
    pub signature: u32,
    pub version_made_by: u16,
    pub version_needed_to_extract: u16,
    pub general_purpose_flags: u16,
    pub compression_method: u16,
    pub file_last_modification_time: u16,
    pub file_last_modification_date: u16,
    pub crc32_of_uncompressed_data: u32,
    pub compressed_size: u32,
    pub uncompressed_size: u32,
    pub file_name_length: u16,
    pub extra_field_length: u16,
    pub file_comment_length: u16,
    pub disk_number_where_file_starts: u16,
    pub internal_file_attributes: u16,
    pub external_file_attributes: u32,
    pub relative_offset_of_local_file_header: u32,
    pub file_name: Vec<u8>,
    pub extra_field: Vec<u8>,
    pub file_comment: Vec<u8>,
}

/// Whether the bytes at `p` hold the central directory file header
/// signature.
pub open spec fn cdfh_sig_at(bytes: Seq<u8>, p: int) -> bool {
    &&& p + 4 <= bytes.len()
    &&& u32_from(bytes[p], bytes[p + 1], bytes[p + 2], bytes[p + 3])
        == CENTRAL_DIRECTORY_FILE_HEADER_SIGNATURE
}

/// The serialized length that the fixed prefix at `p` declares: 46 bytes
/// plus the three variable-field lengths.
pub open spec fn cdfh_size_at(bytes: Seq<u8>, p: int) -> int {
    46 + u16_from(bytes[p + 28], bytes[p + 29]) + u16_from(bytes[p + 30], bytes[p + 31])
        + u16_from(bytes[p + 32], bytes[p + 33])
}

/// Whether a central directory file header read starting at `p` succeeds.
pub open spec fn cdfh_read_ok(bytes: Seq<u8>, p: int) -> bool {
    &&& cdfh_sig_at(bytes, p)
    &&& p + 46 <= bytes.len()
    &&& p + cdfh_size_at(bytes, p) <= bytes.len()
}

impl CentralDirectoryFileHeader {
    /// The declared variable-field lengths match the fields held.
    pub open spec fn wf(self) -> bool {
        &&& self.file_name_length == self.file_name@.len()
        &&& self.extra_field_length == self.extra_field@.len()
        &&& self.file_comment_length == self.file_comment@.len()
    }

    /// The signature field holds the record's fixed constant.
    pub open spec fn sig_valid(self) -> bool {
        self.signature == CENTRAL_DIRECTORY_FILE_HEADER_SIGNATURE
    }

    /// The serialized length: the 46-byte fixed prefix plus the declared
    /// variable-field lengths, independent of field contents.
    pub open spec fn spec_size(self) -> int {
        46 + self.file_name_length + self.extra_field_length + self.file_comment_length
    }

    /// The exact serialized bytes of the record.
    pub open spec fn spec_bytes(self) -> Seq<u8> {
        u32_le(self.signature) + u16_le(self.version_made_by) + u16_le(self.version_needed_to_extract) + u16_le(self.general_purpose_flags) + u16_le(self.compression_method) + u16_le(self.file_last_modification_time) + u16_le(self.file_last_modification_date) + u32_le(self.crc32_of_uncompressed_data) + u32_le(self.compressed_size) + u32_le(self.uncompressed_size) + u16_le(self.file_name_length) + u16_le(self.extra_field_length) + u16_le(self.file_comment_length) + u16_le(self.disk_number_where_file_starts) + u16_le(self.internal_file_attributes) + u32_le(self.external_file_attributes) + u32_le(self.relative_offset_of_local_file_header) + self.file_name@ + self.extra_field@ + self.file_comment@
    }

    /// The exact serialized length of the record.
    pub fn expected_size(&self) -> (r: u32)
        ensures
            r == self.spec_size(),
    {
        46 + self.file_name_length as u32 + self.extra_field_length as u32
            + self.file_comment_length as u32
    }

    /// Whether the signature field holds the record's fixed constant.
    pub fn has_valid_signature(&self) -> (r: bool)
        ensures
            r == self.sig_valid(),
    {
        self.signature == CENTRAL_DIRECTORY_FILE_HEADER_SIGNATURE
    }

    /// Whether the checksum of `uncompressed` equals the declared CRC-32.
    pub fn validate_checksum(&self, uncompressed: &[u8]) -> (r: bool)
        ensures
            r == (crc32_of(uncompressed@) == self.crc32_of_uncompressed_data),
    {
        crc32(uncompressed) == self.crc32_of_uncompressed_data
    }

    /// The explicit Local->Central field promotion: informational fields
    /// carry over, and the fields unknown at the local-header stage are
    /// defaulted (comment empty, disk number, attributes and offset zero).
    pub fn from_local_file_header(local: LocalFileHeader) -> (r: CentralDirectoryFileHeader)
        ensures
            r.signature == CENTRAL_DIRECTORY_FILE_HEADER_SIGNATURE,
            r.version_made_by == local.version_needed_to_extract,
            r.version_needed_to_extract == local.version_needed_to_extract,
            r.general_purpose_flags == local.general_purpose_flags,
            r.compression_method == local.compression_method,
            r.file_last_modification_time == local.file_last_modification_time,
            r.file_last_modification_date == local.file_last_modification_date,
            r.crc32_of_uncompressed_data == local.crc32_of_uncompressed_data,
            r.compressed_size == local.compressed_size,
            r.uncompressed_size == local.uncompressed_size,
            r.file_name_length == local.file_name_length,
            r.extra_field_length == local.extra_field_length,
            r.file_comment_length == 0,
            r.disk_number_where_file_starts == 0,
            r.internal_file_attributes == 0,
            r.external_file_attributes == 0,
            r.relative_offset_of_local_file_header == 0,
            r.file_name == local.file_name,
            r.extra_field == local.extra_field,
            r.file_comment@ == Seq::<u8>::empty(),
            local.wf() ==> r.wf(),
    {
        CentralDirectoryFileHeader {
            signature: CENTRAL_DIRECTORY_FILE_HEADER_SIGNATURE,
            version_made_by: local.version_needed_to_extract,
            version_needed_to_extract: local.version_needed_to_extract,
            general_purpose_flags: local.general_purpose_flags,
            compression_method: local.compression_method,
            file_last_modification_time: local.file_last_modification_time,
            file_last_modification_date: local.file_last_modification_date,
            crc32_of_uncompressed_data: local.crc32_of_uncompressed_data,
            compressed_size: local.compressed_size,
            uncompressed_size: local.uncompressed_size,
            file_name_length: local.file_name_length,
            extra_field_length: local.extra_field_length,
            file_comment_length: 0,
            disk_number_where_file_starts: 0,
            internal_file_attributes: 0,
            external_file_attributes: 0,
            relative_offset_of_local_file_header: 0,
            file_name: local.file_name,
            extra_field: local.extra_field,
            file_comment: Vec::new(),
        }
    }

    /// Parse a central directory file header at `*pos` and advance the
    /// cursor past it.
    #[verifier::rlimit(100)]
    pub fn read(buf: &Vec<u8>, pos: &mut usize) -> (r: Result<CentralDirectoryFileHeader, Error>)
        requires
            *old(pos) <= buf@.len(),
        ensures
            r is Ok <==> cdfh_read_ok(buf@, *old(pos) as int),
            r matches Ok(h) ==> ({
                let p = *old(pos) as int;
                &&& h.wf()
                &&& h.sig_valid()
                &&& h.version_made_by == u16_from(buf@[p + 4], buf@[p + 5])
                &&& h.version_needed_to_extract == u16_from(buf@[p + 6], buf@[p + 7])
                &&& h.general_purpose_flags == u16_from(buf@[p + 8], buf@[p + 9])
                &&& h.compression_method == u16_from(buf@[p + 10], buf@[p + 11])
                &&& h.file_last_modification_time == u16_from(buf@[p + 12], buf@[p + 13])
                &&& h.file_last_modification_date == u16_from(buf@[p + 14], buf@[p + 15])
                &&& h.crc32_of_uncompressed_data == u32_from(buf@[p + 16], buf@[p + 17], buf@[p + 18], buf@[p + 19])
                &&& h.compressed_size == u32_from(buf@[p + 20], buf@[p + 21], buf@[p + 22], buf@[p + 23])
                &&& h.uncompressed_size == u32_from(buf@[p + 24], buf@[p + 25], buf@[p + 26], buf@[p + 27])
                &&& h.file_name_length == u16_from(buf@[p + 28], buf@[p + 29])
                &&& h.extra_field_length == u16_from(buf@[p + 30], buf@[p + 31])
                &&& h.file_comment_length == u16_from(buf@[p + 32], buf@[p + 33])
                &&& h.disk_number_where_file_starts == u16_from(buf@[p + 34], buf@[p + 35])
                &&& h.internal_file_attributes == u16_from(buf@[p + 36], buf@[p + 37])
                &&& h.external_file_attributes == u32_from(buf@[p + 38], buf@[p + 39], buf@[p + 40], buf@[p + 41])
                &&& h.relative_offset_of_local_file_header == u32_from(buf@[p + 42], buf@[p + 43], buf@[p + 44], buf@[p + 45])
                &&& h.file_name@ == buf@.subrange(p + 46, p + 46 + h.file_name_length)
                &&& h.extra_field@ == buf@.subrange(
                    p + 46 + h.file_name_length,
                    p + 46 + h.file_name_length + h.extra_field_length,
                )
                &&& h.file_comment@ == buf@.subrange(
                    p + 46 + h.file_name_length + h.extra_field_length,
                    p + h.spec_size(),
                )
                &&& h.spec_size() == cdfh_size_at(buf@, p)
                &&& *final(pos) == p + h.spec_size()
                &&& buf@.subrange(p, p + h.spec_size()) == h.spec_bytes()
            }),
            r == Err::<CentralDirectoryFileHeader, Error>(
                Error::BadSignatureInCentralDirectoryFileHeader,
            ) <==> *old(pos) + 4 <= buf@.len() && !cdfh_sig_at(buf@, *old(pos) as int),
            r == Err::<CentralDirectoryFileHeader, Error>(Error::UnexpectedEndOfData) <==> *old(
                pos,
            ) + 4 > buf@.len() || (cdfh_sig_at(buf@, *old(pos) as int) && !cdfh_read_ok(
                buf@,
                *old(pos) as int,
            )),
            r is Err ==> *final(pos) == *old(pos),
    {
        let n = buf.len();
        let p = *pos;
        if n - p < 4 {
            return Err(Error::UnexpectedEndOfData);
        }
        let signature = read_u32(buf, p);
        if signature != CENTRAL_DIRECTORY_FILE_HEADER_SIGNATURE {
            return Err(Error::BadSignatureInCentralDirectoryFileHeader);
        }
        if n - p < 46 {
            return Err(Error::UnexpectedEndOfData);
        }
        let version_made_by = read_u16(buf, p + 4);
        let version_needed_to_extract = read_u16(buf, p + 6);
        let general_purpose_flags = read_u16(buf, p + 8);
        let compression_method = read_u16(buf, p + 10);
        let file_last_modification_time = read_u16(buf, p + 12);
        let file_last_modification_date = read_u16(buf, p + 14);
        let crc32_of_uncompressed_data = read_u32(buf, p + 16);
        let compressed_size = read_u32(buf, p + 20);
        let uncompressed_size = read_u32(buf, p + 24);
        let file_name_length = read_u16(buf, p + 28);
        let extra_field_length = read_u16(buf, p + 30);
        let file_comment_length = read_u16(buf, p + 32);
        let disk_number_where_file_starts = read_u16(buf, p + 34);
        let internal_file_attributes = read_u16(buf, p + 36);
        let external_file_attributes = read_u32(buf, p + 38);
        let relative_offset_of_local_file_header = read_u32(buf, p + 42);
        let var_len: usize = file_name_length as usize + extra_field_length as usize
            + file_comment_length as usize;
        if n - (p + 46) < var_len {
            return Err(Error::UnexpectedEndOfData);
        }
        let file_name = copy_range(buf, p + 46, file_name_length as usize);
        let extra_field = copy_range(
            buf,
            p + 46 + file_name_length as usize,
            extra_field_length as usize,
        );
        let file_comment = copy_range(
            buf,
            p + 46 + file_name_length as usize + extra_field_length as usize,
            file_comment_length as usize,
        );
        let h = CentralDirectoryFileHeader {
            signature,
            version_made_by,
            version_needed_to_extract,
            general_purpose_flags,
            compression_method,
            file_last_modification_time,
            file_last_modification_date,
            crc32_of_uncompressed_data,
            compressed_size,
            uncompressed_size,
            file_name_length,
            extra_field_length,
            file_comment_length,
            disk_number_where_file_starts,
            internal_file_attributes,
            external_file_attributes,
            relative_offset_of_local_file_header,
            file_name,
            extra_field,
            file_comment,
        };
        proof {
            lemma_central_directory_file_header_bytes_from_fields(h, buf@, p as int);
        }
        *pos = p + 46 + var_len;
        Ok(h)
    }

    /// Serialize the record, refusing a header whose signature field has
    /// been corrupted away from its fixed constant.
    pub fn write(&self, buf: &mut Vec<u8>) -> (r: Result<(), Error>)
        requires
            self.wf(),
        ensures
            self.sig_valid() ==> r is Ok && final(buf)@ == old(buf)@ + self.spec_bytes(),
            !self.sig_valid() ==> r == Err::<(), Error>(
                Error::BadSignatureInCentralDirectoryFileHeader,
            ) && final(buf)@ == old(buf)@,
    {
        if self.signature != CENTRAL_DIRECTORY_FILE_HEADER_SIGNATURE {
            return Err(Error::BadSignatureInCentralDirectoryFileHeader);
        }
        push_u32(buf, self.signature);
        push_u16(buf, self.version_made_by);
        push_u16(buf, self.version_needed_to_extract);
        push_u16(buf, self.general_purpose_flags);
        push_u16(buf, self.compression_method);
        push_u16(buf, self.file_last_modification_time);
        push_u16(buf, self.file_last_modification_date);
        push_u32(buf, self.crc32_of_uncompressed_data);
        push_u32(buf, self.compressed_size);
        push_u32(buf, self.uncompressed_size);
        push_u16(buf, self.file_name_length);
        push_u16(buf, self.extra_field_length);
        push_u16(buf, self.file_comment_length);
        push_u16(buf, self.disk_number_where_file_starts);
        push_u16(buf, self.internal_file_attributes);
        push_u32(buf, self.external_file_attributes);
        push_u32(buf, self.relative_offset_of_local_file_header);
        append_bytes(buf, &self.file_name);
        append_bytes(buf, &self.extra_field);
        append_bytes(buf, &self.file_comment);
        assert(buf@ =~= old(buf)@ + self.spec_bytes());
        Ok(())
    }
}

/// Assembling a parsed record: the bytes it was read from equal its
/// serialized form.
#[verifier::rlimit(100)]
proof fn lemma_central_directory_file_header_bytes_from_fields(
    h: CentralDirectoryFileHeader,
    bytes: Seq<u8>,
    p: int,
)
    requires
        h.wf(),
        0 <= p,
        p + h.spec_size() <= bytes.len(),
        u32_from(bytes[p], bytes[p + 1], bytes[p + 2], bytes[p + 3]) == h.signature,
        u16_from(bytes[p + 4], bytes[p + 5]) == h.version_made_by,
        u16_from(bytes[p + 6], bytes[p + 7]) == h.version_needed_to_extract,
        u16_from(bytes[p + 8], bytes[p + 9]) == h.general_purpose_flags,
        u16_from(bytes[p + 10], bytes[p + 11]) == h.compression_method,
        u16_from(bytes[p + 12], bytes[p + 13]) == h.file_last_modification_time,
        u16_from(bytes[p + 14], bytes[p + 15]) == h.file_last_modification_date,
        u32_from(bytes[p + 16], bytes[p + 17], bytes[p + 18], bytes[p + 19])
            == h.crc32_of_uncompressed_data,
        u32_from(bytes[p + 20], bytes[p + 21], bytes[p + 22], bytes[p + 23]) == h.compressed_size,
        u32_from(bytes[p + 24], bytes[p + 25], bytes[p + 26], bytes[p + 27])
            == h.uncompressed_size,
        u16_from(bytes[p + 28], bytes[p + 29]) == h.file_name_length,
        u16_from(bytes[p + 30], bytes[p + 31]) == h.extra_field_length,
        u16_from(bytes[p + 32], bytes[p + 33]) == h.file_comment_length,
        u16_from(bytes[p + 34], bytes[p + 35]) == h.disk_number_where_file_starts,
        u16_from(bytes[p + 36], bytes[p + 37]) == h.internal_file_attributes,
        u32_from(bytes[p + 38], bytes[p + 39], bytes[p + 40], bytes[p + 41])
            == h.external_file_attributes,
        u32_from(bytes[p + 42], bytes[p + 43], bytes[p + 44], bytes[p + 45])
            == h.relative_offset_of_local_file_header,
        bytes.subrange(p + 46, p + 46 + h.file_name_length) == h.file_name@,
        bytes.subrange(p + 46 + h.file_name_length, p + 46 + h.file_name_length + h.extra_field_length)
            == h.extra_field@,
        bytes.subrange(p + 46 + h.file_name_length + h.extra_field_length, p + h.spec_size())
            == h.file_comment@,
    ensures
        bytes.subrange(p, p + h.spec_size()) == h.spec_bytes(),
{
    let sz = h.spec_size();
    lemma_u32_from_le(bytes[p], bytes[p + 1], bytes[p + 2], bytes[p + 3]);
    lemma_u16_from_le(bytes[p + 4], bytes[p + 5]);
    lemma_u16_from_le(bytes[p + 6], bytes[p + 7]);
    lemma_u16_from_le(bytes[p + 8], bytes[p + 9]);
    lemma_u16_from_le(bytes[p + 10], bytes[p + 11]);
    lemma_u16_from_le(bytes[p + 12], bytes[p + 13]);
    lemma_u16_from_le(bytes[p + 14], bytes[p + 15]);
    lemma_u32_from_le(bytes[p + 16], bytes[p + 17], bytes[p + 18], bytes[p + 19]);
    lemma_u32_from_le(bytes[p + 20], bytes[p + 21], bytes[p + 22], bytes[p + 23]);
    lemma_u32_from_le(bytes[p + 24], bytes[p + 25], bytes[p + 26], bytes[p + 27]);
    lemma_u16_from_le(bytes[p + 28], bytes[p + 29]);
    lemma_u16_from_le(bytes[p + 30], bytes[p + 31]);
    lemma_u16_from_le(bytes[p + 32], bytes[p + 33]);
    lemma_u16_from_le(bytes[p + 34], bytes[p + 35]);
    lemma_u16_from_le(bytes[p + 36], bytes[p + 37]);
    lemma_u32_from_le(bytes[p + 38], bytes[p + 39], bytes[p + 40], bytes[p + 41]);
    lemma_u32_from_le(bytes[p + 42], bytes[p + 43], bytes[p + 44], bytes[p + 45]);
    assert(u32_le(h.signature) =~= bytes.subrange(p, p + 4));
    assert(u16_le(h.version_made_by) =~= bytes.subrange(p + 4, p + 6));
    assert(u16_le(h.version_needed_to_extract) =~= bytes.subrange(p + 6, p + 8));
    assert(u16_le(h.general_purpose_flags) =~= bytes.subrange(p + 8, p + 10));
    assert(u16_le(h.compression_method) =~= bytes.subrange(p + 10, p + 12));
    assert(u16_le(h.file_last_modification_time) =~= bytes.subrange(p + 12, p + 14));
    assert(u16_le(h.file_last_modification_date) =~= bytes.subrange(p + 14, p + 16));
    assert(u32_le(h.crc32_of_uncompressed_data) =~= bytes.subrange(p + 16, p + 20));
    assert(u32_le(h.compressed_size) =~= bytes.subrange(p + 20, p + 24));
    assert(u32_le(h.uncompressed_size) =~= bytes.subrange(p + 24, p + 28));
    assert(u16_le(h.file_name_length) =~= bytes.subrange(p + 28, p + 30));
    assert(u16_le(h.extra_field_length) =~= bytes.subrange(p + 30, p + 32));
    assert(u16_le(h.file_comment_length) =~= bytes.subrange(p + 32, p + 34));
    assert(u16_le(h.disk_number_where_file_starts) =~= bytes.subrange(p + 34, p + 36));
    assert(u16_le(h.internal_file_attributes) =~= bytes.subrange(p + 36, p + 38));
    assert(u32_le(h.external_file_attributes) =~= bytes.subrange(p + 38, p + 42));
    assert(u32_le(h.relative_offset_of_local_file_header) =~= bytes.subrange(p + 42, p + 46));
    lemma_subrange_split(bytes, p, p + 4, p + 6);
    lemma_subrange_split(bytes, p, p + 6, p + 8);
    lemma_subrange_split(bytes, p, p + 8, p + 10);
    lemma_subrange_split(bytes, p, p + 10, p + 12);
    lemma_subrange_split(bytes, p, p + 12, p + 14);
    lemma_subrange_split(bytes, p, p + 14, p + 16);
    lemma_subrange_split(bytes, p, p + 16, p + 20);
    lemma_subrange_split(bytes, p, p + 20, p + 24);
    lemma_subrange_split(bytes, p, p + 24, p + 28);
    lemma_subrange_split(bytes, p, p + 28, p + 30);
    lemma_subrange_split(bytes, p, p + 30, p + 32);
    lemma_subrange_split(bytes, p, p + 32, p + 34);
    lemma_subrange_split(bytes, p, p + 34, p + 36);
    lemma_subrange_split(bytes, p, p + 36, p + 38);
    lemma_subrange_split(bytes, p, p + 38, p + 42);
    lemma_subrange_split(bytes, p, p + 42, p + 46);
    lemma_subrange_split(bytes, p, p + 46, p + 46 + h.file_name_length);
    lemma_subrange_split(
        bytes,
        p,
        p + 46 + h.file_name_length,
        p + 46 + h.file_name_length + h.extra_field_length,
    );
    lemma_subrange_split(bytes, p, p + 46 + h.file_name_length + h.extra_field_length, p + sz);
    assert(bytes.subrange(p, p + sz) == h.spec_bytes());
}

/// Round trip: the serialized bytes of a well-formed central directory

/// file header determine the record.  Two well-formed records serialized
/// over the same range of a buffer agree on every field, so a record
/// written and read back is reproduced exactly.
pub proof fn lemma_central_directory_file_header_round_trip(
    h: CentralDirectoryFileHeader,
    r: CentralDirectoryFileHeader,
    bytes: Seq<u8>,
    p: int,
)
    requires
        h.wf(),
        r.wf(),
        0 <= p,
        p + h.spec_size() <= bytes.len(),
        p + r.spec_size() <= bytes.len(),
        bytes.subrange(p, p + h.spec_size()) == h.spec_bytes(),
        bytes.subrange(p, p + r.spec_size()) == r.spec_bytes(),
    ensures
        r.signature == h.signature,
        r.version_made_by == h.version_made_by,
        r.version_needed_to_extract == h.version_needed_to_extract,
        r.general_purpose_flags == h.general_purpose_flags,
        r.compression_method == h.compression_method,
        r.file_last_modification_time == h.file_last_modification_time,
        r.file_last_modification_date == h.file_last_modification_date,
        r.crc32_of_uncompressed_data == h.crc32_of_uncompressed_data,
        r.compressed_size == h.compressed_size,
        r.uncompressed_size == h.uncompressed_size,
        r.file_name_length == h.file_name_length,
        r.extra_field_length == h.extra_field_length,
        r.file_comment_length == h.file_comment_length,
        r.disk_number_where_file_starts == h.disk_number_where_file_starts,
        r.internal_file_attributes == h.internal_file_attributes,
        r.external_file_attributes == h.external_file_attributes,
        r.relative_offset_of_local_file_header == h.relative_offset_of_local_file_header,
        r.file_name@ == h.file_name@,
        r.extra_field@ == h.extra_field@,
        r.file_comment@ == h.file_comment@,
        r.spec_size() == h.spec_size(),
{
    lemma_central_directory_file_header_fields_from_bytes(h, bytes, p);
    lemma_central_directory_file_header_fields_from_bytes(r, bytes, p);
}

/// The fields of a well-formed central directory file header are
/// recovered from its serialized bytes at the record's fixed offsets.
#[verifier::rlimit(100)]
pub proof fn lemma_central_directory_file_header_fields_from_bytes(
    h: CentralDirectoryFileHeader,
    bytes: Seq<u8>,
    p: int,
)
    requires
        h.wf(),
        0 <= p,
        p + h.spec_size() <= bytes.len(),
        bytes.subrange(p, p + h.spec_size()) == h.spec_bytes(),
    ensures
        u32_from(bytes[p], bytes[p + 1], bytes[p + 2], bytes[p + 3]) == h.signature,
        u16_from(bytes[p + 4], bytes[p + 5]) == h.version_made_by,
        u16_from(bytes[p + 6], bytes[p + 7]) == h.version_needed_to_extract,
        u16_from(bytes[p + 8], bytes[p + 9]) == h.general_purpose_flags,
        u16_from(bytes[p + 10], bytes[p + 11]) == h.compression_method,
        u16_from(bytes[p + 12], bytes[p + 13]) == h.file_last_modification_time,
        u16_from(bytes[p + 14], bytes[p + 15]) == h.file_last_modification_date,
        u32_from(bytes[p + 16], bytes[p + 17], bytes[p + 18], bytes[p + 19]) == h.crc32_of_uncompressed_data,
        u32_from(bytes[p + 20], bytes[p + 21], bytes[p + 22], bytes[p + 23]) == h.compressed_size,
        u32_from(bytes[p + 24], bytes[p + 25], bytes[p + 26], bytes[p + 27]) == h.uncompressed_size,
        u16_from(bytes[p + 28], bytes[p + 29]) == h.file_name_length,
        u16_from(bytes[p + 30], bytes[p + 31]) == h.extra_field_length,
        u16_from(bytes[p + 32], bytes[p + 33]) == h.file_comment_length,
        u16_from(bytes[p + 34], bytes[p + 35]) == h.disk_number_where_file_starts,
        u16_from(bytes[p + 36], bytes[p + 37]) == h.internal_file_attributes,
        u32_from(bytes[p + 38], bytes[p + 39], bytes[p + 40], bytes[p + 41]) == h.external_file_attributes,
        u32_from(bytes[p + 42], bytes[p + 43], bytes[p + 44], bytes[p + 45]) == h.relative_offset_of_local_file_header,
        bytes.subrange(p + 46, p + 46 + h.file_name_length) == h.file_name@,
        bytes.subrange(
            p + 46 + h.file_name_length,
            p + 46 + h.file_name_length + h.extra_field_length,
        ) == h.extra_field@,
        bytes.subrange(p + 46 + h.file_name_length + h.extra_field_length, p + h.spec_size())
            == h.file_comment@,
{
    let sb = h.spec_bytes();
    let sz = h.spec_size();
    assert(sb.len() == sz);
    assert forall|i: int| 0 <= i < sz implies bytes[p + i] == #[trigger] sb[i] by {
        assert(bytes.subrange(p, p + sz)[i] == bytes[p + i]);
    }
    assert(sb[0] == u32_le(h.signature)[0]);
    assert(sb[1] == u32_le(h.signature)[1]);
    assert(sb[2] == u32_le(h.signature)[2]);
    assert(sb[3] == u32_le(h.signature)[3]);
    lemma_u32_le_from(h.signature);
    assert(sb[4] == u16_le(h.version_made_by)[0]);
    assert(sb[5] == u16_le(h.version_made_by)[1]);
    lemma_u16_le_from(h.version_made_by);
    assert(sb[6] == u16_le(h.version_needed_to_extract)[0]);
    assert(sb[7] == u16_le(h.version_needed_to_extract)[1]);
    lemma_u16_le_from(h.version_needed_to_extract);
    assert(sb[8] == u16_le(h.general_purpose_flags)[0]);
    assert(sb[9] == u16_le(h.general_purpose_flags)[1]);
    lemma_u16_le_from(h.general_purpose_flags);
    assert(sb[10] == u16_le(h.compression_method)[0]);
    assert(sb[11] == u16_le(h.compression_method)[1]);
    lemma_u16_le_from(h.compression_method);
    assert(sb[12] == u16_le(h.file_last_modification_time)[0]);
    assert(sb[13] == u16_le(h.file_last_modification_time)[1]);
    lemma_u16_le_from(h.file_last_modification_time);
    assert(sb[14] == u16_le(h.file_last_modification_date)[0]);
    assert(sb[15] == u16_le(h.file_last_modification_date)[1]);
    lemma_u16_le_from(h.file_last_modification_date);
    assert(sb[16] == u32_le(h.crc32_of_uncompressed_data)[0]);
    assert(sb[17] == u32_le(h.crc32_of_uncompressed_data)[1]);
    assert(sb[18] == u32_le(h.crc32_of_uncompressed_data)[2]);
    assert(sb[19] == u32_le(h.crc32_of_uncompressed_data)[3]);
    lemma_u32_le_from(h.crc32_of_uncompressed_data);
    assert(sb[20] == u32_le(h.compressed_size)[0]);
    assert(sb[21] == u32_le(h.compressed_size)[1]);
    assert(sb[22] == u32_le(h.compressed_size)[2]);
    assert(sb[23] == u32_le(h.compressed_size)[3]);
    lemma_u32_le_from(h.compressed_size);
    assert(sb[24] == u32_le(h.uncompressed_size)[0]);
    assert(sb[25] == u32_le(h.uncompressed_size)[1]);
    assert(sb[26] == u32_le(h.uncompressed_size)[2]);
    assert(sb[27] == u32_le(h.uncompressed_size)[3]);
    lemma_u32_le_from(h.uncompressed_size);
    assert(sb[28] == u16_le(h.file_name_length)[0]);
    assert(sb[29] == u16_le(h.file_name_length)[1]);
    lemma_u16_le_from(h.file_name_length);
    assert(sb[30] == u16_le(h.extra_field_length)[0]);
    assert(sb[31] == u16_le(h.extra_field_length)[1]);
    lemma_u16_le_from(h.extra_field_length);
    assert(sb[32] == u16_le(h.file_comment_length)[0]);
    assert(sb[33] == u16_le(h.file_comment_length)[1]);
    lemma_u16_le_from(h.file_comment_length);
    assert(sb[34] == u16_le(h.disk_number_where_file_starts)[0]);
    assert(sb[35] == u16_le(h.disk_number_where_file_starts)[1]);
    lemma_u16_le_from(h.disk_number_where_file_starts);
    assert(sb[36] == u16_le(h.internal_file_attributes)[0]);
    assert(sb[37] == u16_le(h.internal_file_attributes)[1]);
    lemma_u16_le_from(h.internal_file_attributes);
    assert(sb[38] == u32_le(h.external_file_attributes)[0]);
    assert(sb[39] == u32_le(h.external_file_attributes)[1]);
    assert(sb[40] == u32_le(h.external_file_attributes)[2]);
    assert(sb[41] == u32_le(h.external_file_attributes)[3]);
    lemma_u32_le_from(h.external_file_attributes);
    assert(sb[42] == u32_le(h.relative_offset_of_local_file_header)[0]);
    assert(sb[43] == u32_le(h.relative_offset_of_local_file_header)[1]);
    assert(sb[44] == u32_le(h.relative_offset_of_local_file_header)[2]);
    assert(sb[45] == u32_le(h.relative_offset_of_local_file_header)[3]);
    lemma_u32_le_from(h.relative_offset_of_local_file_header);
    assert(bytes[p] == u32_le(h.signature)[0]);
    assert(bytes[p + 1] == u32_le(h.signature)[1]);
    assert(bytes[p + 2] == u32_le(h.signature)[2]);
    assert(bytes[p + 3] == u32_le(h.signature)[3]);
    assert(bytes[p + 4] == u16_le(h.version_made_by)[0]);
    assert(bytes[p + 5] == u16_le(h.version_made_by)[1]);
    assert(bytes[p + 6] == u16_le(h.version_needed_to_extract)[0]);
    assert(bytes[p + 7] == u16_le(h.version_needed_to_extract)[1]);
    assert(bytes[p + 8] == u16_le(h.general_purpose_flags)[0]);
    assert(bytes[p + 9] == u16_le(h.general_purpose_flags)[1]);
    assert(bytes[p + 10] == u16_le(h.compression_method)[0]);
    assert(bytes[p + 11] == u16_le(h.compression_method)[1]);
    assert(bytes[p + 12] == u16_le(h.file_last_modification_time)[0]);
    assert(bytes[p + 13] == u16_le(h.file_last_modification_time)[1]);
    assert(bytes[p + 14] == u16_le(h.file_last_modification_date)[0]);
    assert(bytes[p + 15] == u16_le(h.file_last_modification_date)[1]);
    assert(bytes[p + 16] == u32_le(h.crc32_of_uncompressed_data)[0]);
    assert(bytes[p + 17] == u32_le(h.crc32_of_uncompressed_data)[1]);
    assert(bytes[p + 18] == u32_le(h.crc32_of_uncompressed_data)[2]);
    assert(bytes[p + 19] == u32_le(h.crc32_of_uncompressed_data)[3]);
    assert(bytes[p + 20] == u32_le(h.compressed_size)[0]);
    assert(bytes[p + 21] == u32_le(h.compressed_size)[1]);
    assert(bytes[p + 22] == u32_le(h.compressed_size)[2]);
    assert(bytes[p + 23] == u32_le(h.compressed_size)[3]);
    assert(bytes[p + 24] == u32_le(h.uncompressed_size)[0]);
    assert(bytes[p + 25] == u32_le(h.uncompressed_size)[1]);
    assert(bytes[p + 26] == u32_le(h.uncompressed_size)[2]);
    assert(bytes[p + 27] == u32_le(h.uncompressed_size)[3]);
    assert(bytes[p + 28] == u16_le(h.file_name_length)[0]);
    assert(bytes[p + 29] == u16_le(h.file_name_length)[1]);
    assert(bytes[p + 30] == u16_le(h.extra_field_length)[0]);
    assert(bytes[p + 31] == u16_le(h.extra_field_length)[1]);
    assert(bytes[p + 32] == u16_le(h.file_comment_length)[0]);
    assert(bytes[p + 33] == u16_le(h.file_comment_length)[1]);
    assert(bytes[p + 34] == u16_le(h.disk_number_where_file_starts)[0]);
    assert(bytes[p + 35] == u16_le(h.disk_number_where_file_starts)[1]);
    assert(bytes[p + 36] == u16_le(h.internal_file_attributes)[0]);
    assert(bytes[p + 37] == u16_le(h.internal_file_attributes)[1]);
    assert(bytes[p + 38] == u32_le(h.external_file_attributes)[0]);
    assert(bytes[p + 39] == u32_le(h.external_file_attributes)[1]);
    assert(bytes[p + 40] == u32_le(h.external_file_attributes)[2]);
    assert(bytes[p + 41] == u32_le(h.external_file_attributes)[3]);
    assert(bytes[p + 42] == u32_le(h.relative_offset_of_local_file_header)[0]);
    assert(bytes[p + 43] == u32_le(h.relative_offset_of_local_file_header)[1]);
    assert(bytes[p + 44] == u32_le(h.relative_offset_of_local_file_header)[2]);
    assert(bytes[p + 45] == u32_le(h.relative_offset_of_local_file_header)[3]);
    let nlen = h.file_name_length as int;
    let elen = h.extra_field_length as int;
    assert forall|j: int| 0 <= j < nlen implies bytes.subrange(p + 46, p + 46 + nlen)[j]
        == h.file_name@[j] by {
        assert(bytes[p + (46 + j)] == sb[46 + j]);
        assert(sb[46 + j] == h.file_name@[j]);
        assert(bytes.subrange(p + 46, p + 46 + nlen)[j] == bytes[p + 46 + j]);
    }
    assert(bytes.subrange(p + 46, p + 46 + nlen) =~= h.file_name@);
    assert forall|j: int| 0 <= j < elen implies bytes.subrange(p + 46 + nlen, p + 46 + nlen + elen)[j]
        == h.extra_field@[j] by {
        assert(bytes[p + (46 + nlen + j)] == sb[46 + nlen + j]);
        assert(sb[46 + nlen + j] == h.extra_field@[j]);
        assert(bytes.subrange(p + 46 + nlen, p + 46 + nlen + elen)[j] == bytes[p + 46 + nlen + j]);
    }
    assert(bytes.subrange(p + 46 + nlen, p + 46 + nlen + elen) =~= h.extra_field@);
    assert forall|j: int| 0 <= j < h.file_comment_length implies bytes.subrange(
        p + 46 + nlen + elen,
        p + sz,
    )[j] == h.file_comment@[j] by {
        assert(bytes[p + (46 + nlen + elen + j)] == sb[46 + nlen + elen + j]);
        assert(sb[46 + nlen + elen + j] == h.file_comment@[j]);
        assert(bytes.subrange(p + 46 + nlen + elen, p + sz)[j] == bytes[p + 46 + nlen + elen + j]);
    }
    assert(bytes.subrange(p + 46 + nlen + elen, p + sz) =~= h.file_comment@);
}

} // verus!
