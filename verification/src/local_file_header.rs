//! The local file header: the per-entry record that precedes an entry's
//! payload bytes, including the "sizes deferred to trailing descriptor"
//! flag and the reconciliation of deferred fields against a resolved
//! descriptor.

use vstd::prelude::*;

use crate::bytes::{
    copy_range, lemma_subrange_split, lemma_u16_from_le, lemma_u16_le_from, lemma_u32_from_le,
    lemma_u32_le_from, push_u16, push_u32, read_u16, read_u32, u16_from, u16_le, u32_from, u32_le,
};
use crate::checksum::{crc32, crc32_of};
use crate::data_descriptor::DataDescriptor;
use crate::error::Error;

verus! {

/// The record signature `50 4B 03 04`, little-endian.
pub const LOCAL_FILE_HEADER_SIGNATURE: u32 = 0x04034B50;

/// The per-entry header preceding the payload bytes.
#[derive(Debug, Clone, PartialEq, Eq)]
pub struct LocalFileHeader {
    pub signature: u32,
    pub version_needed_to_extract: u16,
    pub general_purpose_flags: u16,
    pub compression_method: u16,
    pub file_last_modification_time: u16,
    pub file_last_modification_date: u16,
    pub crc32_of_uncompressed_data: u32,
    pub compressed_size: u32,
    pub uncompressed_size: u32,
    pub file_name_length: u16,
    pub extra_field_length: u16,
    pub file_name: Vec<u8>,
    pub extra_field: Vec<u8>,
}

/// Whether the bytes at `p` hold the local file header signature.
pub open spec fn lfh_sig_at(bytes: Seq<u8>, p: int) -> bool {
    &&& p + 4 <= bytes.len()
    &&& u32_from(bytes[p], bytes[p + 1], bytes[p + 2], bytes[p + 3]) == LOCAL_FILE_HEADER_SIGNATURE
}

/// The serialized length that the fixed prefix at `p` declares: 30 bytes
/// plus the two variable-field lengths.
pub open spec fn lfh_size_at(bytes: Seq<u8>, p: int) -> int {
    30 + u16_from(bytes[p + 26], bytes[p + 27]) + u16_from(bytes[p + 28], bytes[p + 29])
}

/// Whether a local file header read starting at `p` succeeds: the
/// signature matches and the whole record lies within the buffer.
pub open spec fn lfh_read_ok(bytes: Seq<u8>, p: int) -> bool {
    &&& lfh_sig_at(bytes, p)
    &&& p + 30 <= bytes.len()
    &&& p + lfh_size_at(bytes, p) <= bytes.len()
}

/// When a field deferred to the descriptor is adopted: a zero placeholder
/// takes the resolved value, a matching value stays.
pub open spec fn reconciled(current: u32, resolved: u32) -> u32 {
    if current == 0 {
        resolved
    } else {
        current
    }
}

/// When a header field and the descriptor's resolved value agree: the
/// field is still the zero placeholder, or the two are equal.
pub open spec fn conflict_free(current: u32, resolved: u32) -> bool {
    current == 0 || current == resolved
}

impl LocalFileHeader {
    /// The declared variable-field lengths match the fields held.
    pub open spec fn wf(self) -> bool {
        &&& self.file_name_length == self.file_name@.len()
        &&& self.extra_field_length == self.extra_field@.len()
    }

    /// The signature field holds the record's fixed constant.
    pub open spec fn sig_valid(self) -> bool {
        self.signature == LOCAL_FILE_HEADER_SIGNATURE
    }

    /// Bit 3 of the general-purpose flags: CRC-32 and both sizes are
    /// deferred to a trailing data descriptor.
    pub open spec fn sizes_deferred(self) -> bool {
        self.general_purpose_flags & 0x0008 != 0
    }

    /// The serialized length: the 30-byte fixed prefix plus the declared
    /// variable-field lengths, independent of field contents.
    pub open spec fn spec_size(self) -> int {
        30 + self.file_name_length + self.extra_field_length
    }

    /// The exact serialized bytes of the record.
    pub open spec fn spec_bytes(self) -> Seq<u8> {
        u32_le(self.signature) + u16_le(self.version_needed_to_extract) + u16_le(
            self.general_purpose_flags,
        ) + u16_le(self.compression_method) + u16_le(self.file_last_modification_time) + u16_le(
            self.file_last_modification_date,
        ) + u32_le(self.crc32_of_uncompressed_data) + u32_le(self.compressed_size) + u32_le(
            self.uncompressed_size,
        ) + u16_le(self.file_name_length) + u16_le(self.extra_field_length) + self.file_name@
            + self.extra_field@
    }

    /// The exact serialized length of the record.
    pub fn expected_size(&self) -> (r: u32)
        ensures
            r == self.spec_size(),
    {
        30 + self.file_name_length as u32 + self.extra_field_length as u32
    }

    /// Whether the signature field holds the record's fixed constant.
    pub fn has_valid_signature(&self) -> (r: bool)
        ensures
            r == self.sig_valid(),
    {
        self.signature == LOCAL_FILE_HEADER_SIGNATURE
    }

    /// Whether the checksum of `uncompressed` equals the declared CRC-32.
    pub fn validate_checksum(&self, uncompressed: &[u8]) -> (r: bool)
        ensures
            r == (crc32_of(uncompressed@) == self.crc32_of_uncompressed_data),
    {
        crc32(uncompressed) == self.crc32_of_uncompressed_data
    }

    /// Whether bit 3 of the general-purpose flags announces a trailing
    /// data descriptor.
    pub fn indicates_data_descriptor_is_present(&self) -> (r: bool)
        ensures
            r == self.sizes_deferred(),
    {
        self.general_purpose_flags & 0x0008 != 0
    }

    /// Reconcile the header's possibly-deferred fields against a resolved
    /// descriptor: a zero placeholder adopts the descriptor's value, a
    /// matching value stays, a nonzero mismatch is a conflict and leaves
    /// the whole header unmodified.
    pub fn update(&mut self, descriptor: DataDescriptor) -> (r: Result<(), Error>)
        ensures
            r is Ok <==> {
                &&& conflict_free(
                    old(self).crc32_of_uncompressed_data,
                    descriptor.crc32_of_uncompressed_data,
                )
                &&& conflict_free(old(self).compressed_size, descriptor.compressed_size)
                &&& conflict_free(old(self).uncompressed_size, descriptor.uncompressed_size)
            },
            r is Ok ==> {
                &&& final(self).crc32_of_uncompressed_data == reconciled(
                    old(self).crc32_of_uncompressed_data,
                    descriptor.crc32_of_uncompressed_data,
                )
                &&& final(self).compressed_size == reconciled(
                    old(self).compressed_size,
                    descriptor.compressed_size,
                )
                &&& final(self).uncompressed_size == reconciled(
                    old(self).uncompressed_size,
                    descriptor.uncompressed_size,
                )
                &&& final(self).signature == old(self).signature
                &&& final(self).version_needed_to_extract == old(self).version_needed_to_extract
                &&& final(self).general_purpose_flags == old(self).general_purpose_flags
                &&& final(self).compression_method == old(self).compression_method
                &&& final(self).file_last_modification_time == old(
                    self,
                ).file_last_modification_time
                &&& final(self).file_last_modification_date == old(
                    self,
                ).file_last_modification_date
                &&& final(self).file_name_length == old(self).file_name_length
                &&& final(self).extra_field_length == old(self).extra_field_length
                &&& final(self).file_name == old(self).file_name
                &&& final(self).extra_field == old(self).extra_field
            },
            r is Err ==> r == Err::<(), Error>(Error::DataDescriptorConflictsWithLocalFileHeader)
                && *final(self) == *old(self),
    {
        let crc_ok = self.crc32_of_uncompressed_data == 0 || self.crc32_of_uncompressed_data
            == descriptor.crc32_of_uncompressed_data;
        let cs_ok = self.compressed_size == 0 || self.compressed_size
            == descriptor.compressed_size;
        let us_ok = self.uncompressed_size == 0 || self.uncompressed_size
            == descriptor.uncompressed_size;
        if !(crc_ok && cs_ok && us_ok) {
            return Err(Error::DataDescriptorConflictsWithLocalFileHeader);
        }
        if self.crc32_of_uncompressed_data == 0 {
            self.crc32_of_uncompressed_data = descriptor.crc32_of_uncompressed_data;
        }
        if self.compressed_size == 0 {
            self.compressed_size = descriptor.compressed_size;
        }
        if self.uncompressed_size == 0 {
            self.uncompressed_size = descriptor.uncompressed_size;
        }
        Ok(())
    }


    /// An exact copy of the header, with fresh vectors for the variable
    /// fields.
    pub fn duplicate(&self) -> (r: LocalFileHeader)
        ensures
            r.signature == self.signature,
            r.version_needed_to_extract == self.version_needed_to_extract,
            r.general_purpose_flags == self.general_purpose_flags,
            r.compression_method == self.compression_method,
            r.file_last_modification_time == self.file_last_modification_time,
            r.file_last_modification_date == self.file_last_modification_date,
            r.crc32_of_uncompressed_data == self.crc32_of_uncompressed_data,
            r.compressed_size == self.compressed_size,
            r.uncompressed_size == self.uncompressed_size,
            r.file_name_length == self.file_name_length,
            r.extra_field_length == self.extra_field_length,
            r.file_name@ == self.file_name@,
            r.extra_field@ == self.extra_field@,
            r.spec_bytes() == self.spec_bytes(),
            r.spec_size() == self.spec_size(),
            r.wf() == self.wf(),
            r.sig_valid() == self.sig_valid(),
            r.sizes_deferred() == self.sizes_deferred(),
    {
        let file_name = copy_range(&self.file_name, 0, self.file_name.len());
        let extra_field = copy_range(&self.extra_field, 0, self.extra_field.len());
        assert(file_name@ =~= self.file_name@);
        assert(extra_field@ =~= self.extra_field@);
        LocalFileHeader {
            signature: self.signature,
            version_needed_to_extract: self.version_needed_to_extract,
            general_purpose_flags: self.general_purpose_flags,
            compression_method: self.compression_method,
            file_last_modification_time: self.file_last_modification_time,
            file_last_modification_date: self.file_last_modification_date,
            crc32_of_uncompressed_data: self.crc32_of_uncompressed_data,
            compressed_size: self.compressed_size,
            uncompressed_size: self.uncompressed_size,
            file_name_length: self.file_name_length,
            extra_field_length: self.extra_field_length,
            file_name,
            extra_field,
        }
    }

    /// Parse a local file header at `*pos` and advance the cursor past it.
    #[verifier::rlimit(80)]
    pub fn read(buf: &Vec<u8>, pos: &mut usize) -> (r: Result<LocalFileHeader, Error>)
        requires
            *old(pos) <= buf@.len(),
        ensures
            r is Ok <==> lfh_read_ok(buf@, *old(pos) as int),
            r matches Ok(h) ==> ({
                let p = *old(pos) as int;
                &&& h.wf()
                &&& h.sig_valid()
                &&& h.version_needed_to_extract == u16_from(buf@[p + 4], buf@[p + 5])
                &&& h.general_purpose_flags == u16_from(buf@[p + 6], buf@[p + 7])
                &&& h.compression_method == u16_from(buf@[p + 8], buf@[p + 9])
                &&& h.file_last_modification_time == u16_from(buf@[p + 10], buf@[p + 11])
                &&& h.file_last_modification_date == u16_from(buf@[p + 12], buf@[p + 13])
                &&& h.crc32_of_uncompressed_data == u32_from(
                    buf@[p + 14],
                    buf@[p + 15],
                    buf@[p + 16],
                    buf@[p + 17],
                )
                &&& h.compressed_size == u32_from(
                    buf@[p + 18],
                    buf@[p + 19],
                    buf@[p + 20],
                    buf@[p + 21],
                )
                &&& h.uncompressed_size == u32_from(
                    buf@[p + 22],
                    buf@[p + 23],
                    buf@[p + 24],
                    buf@[p + 25],
                )
                &&& h.file_name_length == u16_from(buf@[p + 26], buf@[p + 27])
                &&& h.extra_field_length == u16_from(buf@[p + 28], buf@[p + 29])
                &&& h.file_name@ == buf@.subrange(p + 30, p + 30 + h.file_name_length)
                &&& h.extra_field@ == buf@.subrange(p + 30 + h.file_name_length, p + h.spec_size())
                &&& h.spec_size() == lfh_size_at(buf@, p)
                &&& *final(pos) == p + h.spec_size()
                &&& buf@.subrange(p, p + h.spec_size()) == h.spec_bytes()
            }),
            r == Err::<LocalFileHeader, Error>(Error::BadSignatureInLocalFileHeader) <==> *old(pos)
                + 4 <= buf@.len() && !lfh_sig_at(buf@, *old(pos) as int),
            r == Err::<LocalFileHeader, Error>(Error::UnexpectedEndOfData) <==> *old(pos) + 4
                > buf@.len() || (lfh_sig_at(buf@, *old(pos) as int) && !lfh_read_ok(
                buf@,
                *old(pos) as int,
            )),
            r is Err ==> *final(pos) == *old(pos),
    {
        let n = buf.len();
        let p = *pos;
        if n - p < 4 {
            return Err(Error::UnexpectedEndOfData);
        }
        let signature = read_u32(buf, p);
        if signature != LOCAL_FILE_HEADER_SIGNATURE {
            return Err(Error::BadSignatureInLocalFileHeader);
        }
        if n - p < 30 {
            return Err(Error::UnexpectedEndOfData);
        }
        let version_needed_to_extract = read_u16(buf, p + 4);
        let general_purpose_flags = read_u16(buf, p + 6);
        let compression_method = read_u16(buf, p + 8);
        let file_last_modification_time = read_u16(buf, p + 10);
        let file_last_modification_date = read_u16(buf, p + 12);
        let crc32_of_uncompressed_data = read_u32(buf, p + 14);
        let compressed_size = read_u32(buf, p + 18);
        let uncompressed_size = read_u32(buf, p + 22);
        let file_name_length = read_u16(buf, p + 26);
        let extra_field_length = read_u16(buf, p + 28);
        let var_len: usize = file_name_length as usize + extra_field_length as usize;
        if n - (p + 30) < var_len {
            return Err(Error::UnexpectedEndOfData);
        }
        let file_name = copy_range(buf, p + 30, file_name_length as usize);
        let extra_field = copy_range(
            buf,
            p + 30 + file_name_length as usize,
            extra_field_length as usize,
        );
        let h = LocalFileHeader {
            signature,
            version_needed_to_extract,
            general_purpose_flags,
            compression_method,
            file_last_modification_time,
            file_last_modification_date,
            crc32_of_uncompressed_data,
            compressed_size,
            uncompressed_size,
            file_name_length,
            extra_field_length,
            file_name,
            extra_field,
        };
        proof {
            let bs = buf@;
            let pi = p as int;
            let sz = h.spec_size();
            lemma_u32_from_le(bs[pi], bs[pi + 1], bs[pi + 2], bs[pi + 3]);
            lemma_u16_from_le(bs[pi + 4], bs[pi + 5]);
            lemma_u16_from_le(bs[pi + 6], bs[pi + 7]);
            lemma_u16_from_le(bs[pi + 8], bs[pi + 9]);
            lemma_u16_from_le(bs[pi + 10], bs[pi + 11]);
            lemma_u16_from_le(bs[pi + 12], bs[pi + 13]);
            lemma_u32_from_le(bs[pi + 14], bs[pi + 15], bs[pi + 16], bs[pi + 17]);
            lemma_u32_from_le(bs[pi + 18], bs[pi + 19], bs[pi + 20], bs[pi + 21]);
            lemma_u32_from_le(bs[pi + 22], bs[pi + 23], bs[pi + 24], bs[pi + 25]);
            lemma_u16_from_le(bs[pi + 26], bs[pi + 27]);
            lemma_u16_from_le(bs[pi + 28], bs[pi + 29]);
            assert(u32_le(h.signature) =~= bs.subrange(pi, pi + 4));
            assert(u16_le(h.version_needed_to_extract) =~= bs.subrange(pi + 4, pi + 6));
            assert(u16_le(h.general_purpose_flags) =~= bs.subrange(pi + 6, pi + 8));
            assert(u16_le(h.compression_method) =~= bs.subrange(pi + 8, pi + 10));
            assert(u16_le(h.file_last_modification_time) =~= bs.subrange(pi + 10, pi + 12));
            assert(u16_le(h.file_last_modification_date) =~= bs.subrange(pi + 12, pi + 14));
            assert(u32_le(h.crc32_of_uncompressed_data) =~= bs.subrange(pi + 14, pi + 18));
            assert(u32_le(h.compressed_size) =~= bs.subrange(pi + 18, pi + 22));
            assert(u32_le(h.uncompressed_size) =~= bs.subrange(pi + 22, pi + 26));
            assert(u16_le(h.file_name_length) =~= bs.subrange(pi + 26, pi + 28));
            assert(u16_le(h.extra_field_length) =~= bs.subrange(pi + 28, pi + 30));
            lemma_subrange_split(bs, pi, pi + 4, pi + 6);
            lemma_subrange_split(bs, pi, pi + 6, pi + 8);
            lemma_subrange_split(bs, pi, pi + 8, pi + 10);
            lemma_subrange_split(bs, pi, pi + 10, pi + 12);
            lemma_subrange_split(bs, pi, pi + 12, pi + 14);
            lemma_subrange_split(bs, pi, pi + 14, pi + 18);
            lemma_subrange_split(bs, pi, pi + 18, pi + 22);
            lemma_subrange_split(bs, pi, pi + 22, pi + 26);
            lemma_subrange_split(bs, pi, pi + 26, pi + 28);
            lemma_subrange_split(bs, pi, pi + 28, pi + 30);
            lemma_subrange_split(bs, pi, pi + 30, pi + 30 + h.file_name_length);
            lemma_subrange_split(bs, pi, pi + 30 + h.file_name_length, pi + sz);
            assert(bs.subrange(pi, pi + sz) == h.spec_bytes());
        }
        *pos = p + 30 + var_len;
        Ok(h)
    }

    /// Serialize the record, refusing a header whose signature field has
    /// been corrupted away from its fixed constant.
    pub fn write(&self, buf: &mut Vec<u8>) -> (r: Result<(), Error>)
        requires
            self.wf(),
        ensures
            self.sig_valid() ==> r is Ok && final(buf)@ == old(buf)@ + self.spec_bytes(),
            !self.sig_valid() ==> r == Err::<(), Error>(Error::BadSignatureInLocalFileHeader)
                && final(buf)@ == old(buf)@,
    {
        if self.signature != LOCAL_FILE_HEADER_SIGNATURE {
            return Err(Error::BadSignatureInLocalFileHeader);
        }
        push_u32(buf, self.signature);
        push_u16(buf, self.version_needed_to_extract);
        push_u16(buf, self.general_purpose_flags);
        push_u16(buf, self.compression_method);
        push_u16(buf, self.file_last_modification_time);
        push_u16(buf, self.file_last_modification_date);
        push_u32(buf, self.crc32_of_uncompressed_data);
        push_u32(buf, self.compressed_size);
        push_u32(buf, self.uncompressed_size);
        push_u16(buf, self.file_name_length);
        push_u16(buf, self.extra_field_length);
        crate::bytes::append_bytes(buf, &self.file_name);
        crate::bytes::append_bytes(buf, &self.extra_field);
        assert(buf@ =~= old(buf)@ + self.spec_bytes());
        Ok(())
    }
}

/// Round trip: the serialized bytes of a well-formed local file header
/// determine the header.  Two well-formed records serialized over the same
/// range of a buffer agree on every field, so a header written and read
/// back is reproduced exactly.
pub proof fn lemma_local_file_header_round_trip(
    h: LocalFileHeader,
    r: LocalFileHeader,
    bytes: Seq<u8>,
    p: int,
)
    requires
        h.wf(),
        r.wf(),
        0 <= p,
        p + h.spec_size() <= bytes.len(),
        p + r.spec_size() <= bytes.len(),
        bytes.subrange(p, p + h.spec_size()) == h.spec_bytes(),
        bytes.subrange(p, p + r.spec_size()) == r.spec_bytes(),
    ensures
        r.signature == h.signature,
        r.version_needed_to_extract == h.version_needed_to_extract,
        r.general_purpose_flags == h.general_purpose_flags,
        r.compression_method == h.compression_method,
        r.file_last_modification_time == h.file_last_modification_time,
        r.file_last_modification_date == h.file_last_modification_date,
        r.crc32_of_uncompressed_data == h.crc32_of_uncompressed_data,
        r.compressed_size == h.compressed_size,
        r.uncompressed_size == h.uncompressed_size,
        r.file_name_length == h.file_name_length,
        r.extra_field_length == h.extra_field_length,
        r.file_name@ == h.file_name@,
        r.extra_field@ == h.extra_field@,
        r.spec_size() == h.spec_size(),
{
    lemma_local_file_header_fields_from_bytes(h, bytes, p);
    lemma_local_file_header_fields_from_bytes(r, bytes, p);
}

/// The fields of a well-formed local file header are recovered from its
/// serialized bytes at the record's fixed offsets.
#[verifier::rlimit(80)]
pub proof fn lemma_local_file_header_fields_from_bytes(h: LocalFileHeader, bytes: Seq<u8>, p: int)
    requires
        h.wf(),
        0 <= p,
        p + h.spec_size() <= bytes.len(),
        bytes.subrange(p, p + h.spec_size()) == h.spec_bytes(),
    ensures
        u32_from(bytes[p], bytes[p + 1], bytes[p + 2], bytes[p + 3]) == h.signature,
        u16_from(bytes[p + 4], bytes[p + 5]) == h.version_needed_to_extract,
        u16_from(bytes[p + 6], bytes[p + 7]) == h.general_purpose_flags,
        u16_from(bytes[p + 8], bytes[p + 9]) == h.compression_method,
        u16_from(bytes[p + 10], bytes[p + 11]) == h.file_last_modification_time,
        u16_from(bytes[p + 12], bytes[p + 13]) == h.file_last_modification_date,
        u32_from(bytes[p + 14], bytes[p + 15], bytes[p + 16], bytes[p + 17])
            == h.crc32_of_uncompressed_data,
        u32_from(bytes[p + 18], bytes[p + 19], bytes[p + 20], bytes[p + 21]) == h.compressed_size,
        u32_from(bytes[p + 22], bytes[p + 23], bytes[p + 24], bytes[p + 25])
            == h.uncompressed_size,
        u16_from(bytes[p + 26], bytes[p + 27]) == h.file_name_length,
        u16_from(bytes[p + 28], bytes[p + 29]) == h.extra_field_length,
        bytes.subrange(p + 30, p + 30 + h.file_name_length) == h.file_name@,
        bytes.subrange(p + 30 + h.file_name_length, p + h.spec_size()) == h.extra_field@,
{
    let sb = h.spec_bytes();
    let sz = h.spec_size();
    assert(sb.len() == sz);
    assert forall|i: int| 0 <= i < sz implies bytes[p + i] == #[trigger] sb[i] by {
        assert(bytes.subrange(p, p + sz)[i] == bytes[p + i]);
    }
    assert(sb[0] == u32_le(h.signature)[0]);
    assert(sb[1] == u32_le(h.signature)[1]);
    assert(sb[2] == u32_le(h.signature)[2]);
    assert(sb[3] == u32_le(h.signature)[3]);
    lemma_u32_le_from(h.signature);
    assert(sb[4] == u16_le(h.version_needed_to_extract)[0]);
    assert(sb[5] == u16_le(h.version_needed_to_extract)[1]);
    lemma_u16_le_from(h.version_needed_to_extract);
    assert(sb[6] == u16_le(h.general_purpose_flags)[0]);
    assert(sb[7] == u16_le(h.general_purpose_flags)[1]);
    lemma_u16_le_from(h.general_purpose_flags);
    assert(sb[8] == u16_le(h.compression_method)[0]);
    assert(sb[9] == u16_le(h.compression_method)[1]);
    lemma_u16_le_from(h.compression_method);
    assert(sb[10] == u16_le(h.file_last_modification_time)[0]);
    assert(sb[11] == u16_le(h.file_last_modification_time)[1]);
    lemma_u16_le_from(h.file_last_modification_time);
    assert(sb[12] == u16_le(h.file_last_modification_date)[0]);
    assert(sb[13] == u16_le(h.file_last_modification_date)[1]);
    lemma_u16_le_from(h.file_last_modification_date);
    assert(sb[14] == u32_le(h.crc32_of_uncompressed_data)[0]);
    assert(sb[15] == u32_le(h.crc32_of_uncompressed_data)[1]);
    assert(sb[16] == u32_le(h.crc32_of_uncompressed_data)[2]);
    assert(sb[17] == u32_le(h.crc32_of_uncompressed_data)[3]);
    lemma_u32_le_from(h.crc32_of_uncompressed_data);
    assert(sb[18] == u32_le(h.compressed_size)[0]);
    assert(sb[19] == u32_le(h.compressed_size)[1]);
    assert(sb[20] == u32_le(h.compressed_size)[2]);
    assert(sb[21] == u32_le(h.compressed_size)[3]);
    lemma_u32_le_from(h.compressed_size);
    assert(sb[22] == u32_le(h.uncompressed_size)[0]);
    assert(sb[23] == u32_le(h.uncompressed_size)[1]);
    assert(sb[24] == u32_le(h.uncompressed_size)[2]);
    assert(sb[25] == u32_le(h.uncompressed_size)[3]);
    lemma_u32_le_from(h.uncompressed_size);
    assert(sb[26] == u16_le(h.file_name_length)[0]);
    assert(sb[27] == u16_le(h.file_name_length)[1]);
    lemma_u16_le_from(h.file_name_length);
    assert(sb[28] == u16_le(h.extra_field_length)[0]);
    assert(sb[29] == u16_le(h.extra_field_length)[1]);
    lemma_u16_le_from(h.extra_field_length);
    assert(bytes[p] == u32_le(h.signature)[0]);
    assert(bytes[p + 1] == u32_le(h.signature)[1]);
    assert(bytes[p + 2] == u32_le(h.signature)[2]);
    assert(bytes[p + 3] == u32_le(h.signature)[3]);
    assert(bytes[p + 4] == u16_le(h.version_needed_to_extract)[0]);
    assert(bytes[p + 5] == u16_le(h.version_needed_to_extract)[1]);
    assert(bytes[p + 6] == u16_le(h.general_purpose_flags)[0]);
    assert(bytes[p + 7] == u16_le(h.general_purpose_flags)[1]);
    assert(bytes[p + 8] == u16_le(h.compression_method)[0]);
    assert(bytes[p + 9] == u16_le(h.compression_method)[1]);
    assert(bytes[p + 10] == u16_le(h.file_last_modification_time)[0]);
    assert(bytes[p + 11] == u16_le(h.file_last_modification_time)[1]);
    assert(bytes[p + 12] == u16_le(h.file_last_modification_date)[0]);
    assert(bytes[p + 13] == u16_le(h.file_last_modification_date)[1]);
    assert(bytes[p + 14] == u32_le(h.crc32_of_uncompressed_data)[0]);
    assert(bytes[p + 15] == u32_le(h.crc32_of_uncompressed_data)[1]);
    assert(bytes[p + 16] == u32_le(h.crc32_of_uncompressed_data)[2]);
    assert(bytes[p + 17] == u32_le(h.crc32_of_uncompressed_data)[3]);
    assert(bytes[p + 18] == u32_le(h.compressed_size)[0]);
    assert(bytes[p + 19] == u32_le(h.compressed_size)[1]);
    assert(bytes[p + 20] == u32_le(h.compressed_size)[2]);
    assert(bytes[p + 21] == u32_le(h.compressed_size)[3]);
    assert(bytes[p + 22] == u32_le(h.uncompressed_size)[0]);
    assert(bytes[p + 23] == u32_le(h.uncompressed_size)[1]);
    assert(bytes[p + 24] == u32_le(h.uncompressed_size)[2]);
    assert(bytes[p + 25] == u32_le(h.uncompressed_size)[3]);
    assert(bytes[p + 26] == u16_le(h.file_name_length)[0]);
    assert(bytes[p + 27] == u16_le(h.file_name_length)[1]);
    assert(bytes[p + 28] == u16_le(h.extra_field_length)[0]);
    assert(bytes[p + 29] == u16_le(h.extra_field_length)[1]);
    let nlen = h.file_name_length as int;
    assert forall|j: int| 0 <= j < nlen implies bytes.subrange(p + 30, p + 30 + nlen)[j]
        == h.file_name@[j] by {
        assert(bytes[p + (30 + j)] == sb[30 + j]);
        assert(sb[30 + j] == h.file_name@[j]);
        assert(bytes.subrange(p + 30, p + 30 + nlen)[j] == bytes[p + 30 + j]);
    }
    assert(bytes.subrange(p + 30, p + 30 + nlen) =~= h.file_name@);
    let elen = h.extra_field_length as int;
    assert forall|j: int| 0 <= j < elen implies bytes.subrange(p + 30 + nlen, p + sz)[j]
        == h.extra_field@[j] by {
        assert(bytes[p + (30 + nlen + j)] == sb[30 + nlen + j]);
        assert(sb[30 + nlen + j] == h.extra_field@[j]);
        assert(bytes.subrange(p + 30 + nlen, p + sz)[j] == bytes[p + 30 + nlen + j]);
    }
    assert(bytes.subrange(p + 30 + nlen, p + sz) =~= h.extra_field@);
}


} // verus!
