//! The end-of-central-directory record: the whole-archive summary naming
//! the directory's location, size and entry counts, with its trailing
//! comment.

use vstd::prelude::*;

use crate::bytes::{
    append_bytes, copy_range, lemma_subrange_split, lemma_u16_from_le, lemma_u16_le_from,
    lemma_u32_from_le, lemma_u32_le_from, push_u16, push_u32, read_u16, read_u32, u16_from,
    u16_le, u32_from, u32_le,
};
use crate::error::Error;

verus! {

/// The record signature `50 4B 05 06`, little-endian.
pub const END_OF_CENTRAL_DIRECTORY_SIGNATURE: u32 = 0x06054B50;

/// The whole-archive summary record.
#[derive(Debug, Clone, PartialEq, Eq)]
pub struct EndOfCentralDirectory {
    pub signature: u32,
    pub number_of_this_disk: u16,
    pub disk_where_central_directory_starts: u16,
    pub number_of_central_directory_records_on_this_disk: u16,
    pub total_number_of_central_directory_records: u16,
    pub size_of_central_directory: u32,
    pub offset_of_start_of_central_directory_relative_to_start_of_archive: u32,
    pub comment_length: u16,
    pub comment: Vec<u8>,
}

/// Whether the bytes at `p` hold the end-of-central-directory signature.
pub open spec fn eocd_sig_at(bytes: Seq<u8>, p: int) -> bool {
    &&& p + 4 <= bytes.len()
    &&& u32_from(bytes[p], bytes[p + 1], bytes[p + 2], bytes[p + 3])
        == END_OF_CENTRAL_DIRECTORY_SIGNATURE
}

/// The serialized length that the fixed prefix at `p` declares: 22 bytes
/// plus the comment length.
pub open spec fn eocd_size_at(bytes: Seq<u8>, p: int) -> int {
    22 + u16_from(bytes[p + 20], bytes[p + 21])
}

/// Whether an end-of-central-directory read starting at `p` succeeds.
pub open spec fn eocd_read_ok(bytes: Seq<u8>, p: int) -> bool {
    &&& eocd_sig_at(bytes, p)
    &&& p + 22 <= bytes.len()
    &&& p + eocd_size_at(bytes, p) <= bytes.len()
}

impl EndOfCentralDirectory {
    /// The declared comment length matches the comment held.
    pub open spec fn wf(self) -> bool {
        self.comment_length == self.comment@.len()
    }

    /// The signature field holds the record's fixed constant.
    pub open spec fn sig_valid(self) -> bool {
        self.signature == END_OF_CENTRAL_DIRECTORY_SIGNATURE
    }

    /// The serialized length: the 22-byte fixed prefix plus the declared
    /// comment length, independent of field contents.
    pub open spec fn spec_size(self) -> int {
        22 + self.comment_length
    }

    /// The exact serialized bytes of the record.
    pub open spec fn spec_bytes(self) -> Seq<u8> {
        u32_le(self.signature) + u16_le(self.number_of_this_disk) + u16_le(self.disk_where_central_directory_starts) + u16_le(self.number_of_central_directory_records_on_this_disk) + u16_le(self.total_number_of_central_directory_records) + u32_le(self.size_of_central_directory) + u32_le(self.offset_of_start_of_central_directory_relative_to_start_of_archive) + u16_le(self.comment_length) + self.comment@
    }

    /// The exact serialized length of the record.
    pub fn expected_size(&self) -> (r: u32)
        ensures
            r == self.spec_size(),
    {
        22 + self.comment_length as u32
    }

    /// Whether the signature field holds the record's fixed constant.
    pub fn has_valid_signature(&self) -> (r: bool)
        ensures
            r == self.sig_valid(),
    {
        self.signature == END_OF_CENTRAL_DIRECTORY_SIGNATURE
    }

    /// Parse an end-of-central-directory record at `*pos` and advance the
    /// cursor past it.
    #[verifier::rlimit(80)]
    pub fn read(buf: &Vec<u8>, pos: &mut usize) -> (r: Result<EndOfCentralDirectory, Error>)
        requires
            *old(pos) <= buf@.len(),
        ensures
            r is Ok <==> eocd_read_ok(buf@, *old(pos) as int),
            r matches Ok(h) ==> ({
                let p = *old(pos) as int;
                &&& h.wf()
                &&& h.sig_valid()
                &&& h.number_of_this_disk == u16_from(buf@[p + 4], buf@[p + 5])
                &&& h.disk_where_central_directory_starts == u16_from(buf@[p + 6], buf@[p + 7])
                &&& h.number_of_central_directory_records_on_this_disk == u16_from(buf@[p + 8], buf@[p + 9])
                &&& h.total_number_of_central_directory_records == u16_from(buf@[p + 10], buf@[p + 11])
                &&& h.size_of_central_directory == u32_from(buf@[p + 12], buf@[p + 13], buf@[p + 14], buf@[p + 15])
                &&& h.offset_of_start_of_central_directory_relative_to_start_of_archive == u32_from(buf@[p + 16], buf@[p + 17], buf@[p + 18], buf@[p + 19])
                &&& h.comment_length == u16_from(buf@[p + 20], buf@[p + 21])
                &&& h.comment@ == buf@.subrange(p + 22, p + h.spec_size())
                &&& h.spec_size() == eocd_size_at(buf@, p)
                &&& *final(pos) == p + h.spec_size()
                &&& buf@.subrange(p, p + h.spec_size()) == h.spec_bytes()
            }),
            r == Err::<EndOfCentralDirectory, Error>(
                Error::BadSignatureInEndOfCentralDirectoryHeader,
            ) <==> *old(pos) + 4 <= buf@.len() && !eocd_sig_at(buf@, *old(pos) as int),
            r == Err::<EndOfCentralDirectory, Error>(Error::UnexpectedEndOfData) <==> *old(pos) + 4
                > buf@.len() || (eocd_sig_at(buf@, *old(pos) as int) && !eocd_read_ok(
                buf@,
                *old(pos) as int,
            )),
            r is Err ==> *final(pos) == *old(pos),
    {
        let n = buf.len();
        let p = *pos;
        if n - p < 4 {
            return Err(Error::UnexpectedEndOfData);
        }
        let signature = read_u32(buf, p);
        if signature != END_OF_CENTRAL_DIRECTORY_SIGNATURE {
            return Err(Error::BadSignatureInEndOfCentralDirectoryHeader);
        }
        if n - p < 22 {
            return Err(Error::UnexpectedEndOfData);
        }
        let number_of_this_disk = read_u16(buf, p + 4);
        let disk_where_central_directory_starts = read_u16(buf, p + 6);
        let number_of_central_directory_records_on_this_disk = read_u16(buf, p + 8);
        let total_number_of_central_directory_records = read_u16(buf, p + 10);
        let size_of_central_directory = read_u32(buf, p + 12);
        let offset_of_start_of_central_directory_relative_to_start_of_archive = read_u32(buf, p + 16);
        let comment_length = read_u16(buf, p + 20);
        if n - (p + 22) < comment_length as usize {
            return Err(Error::UnexpectedEndOfData);
        }
        let comment = copy_range(buf, p + 22, comment_length as usize);
        let h = EndOfCentralDirectory {
            signature,
            number_of_this_disk,
            disk_where_central_directory_starts,
            number_of_central_directory_records_on_this_disk,
            total_number_of_central_directory_records,
            size_of_central_directory,
            offset_of_start_of_central_directory_relative_to_start_of_archive,
            comment_length,
            comment,
        };
        proof {
            let bs = buf@;
            let pi = p as int;
            let sz = h.spec_size();
            lemma_u32_from_le(bs[pi], bs[pi + 1], bs[pi + 2], bs[pi + 3]);
            lemma_u16_from_le(bs[pi + 4], bs[pi + 5]);
            lemma_u16_from_le(bs[pi + 6], bs[pi + 7]);
            lemma_u16_from_le(bs[pi + 8], bs[pi + 9]);
            lemma_u16_from_le(bs[pi + 10], bs[pi + 11]);
            lemma_u32_from_le(bs[pi + 12], bs[pi + 13], bs[pi + 14], bs[pi + 15]);
            lemma_u32_from_le(bs[pi + 16], bs[pi + 17], bs[pi + 18], bs[pi + 19]);
            lemma_u16_from_le(bs[pi + 20], bs[pi + 21]);
            assert(u32_le(h.signature) =~= bs.subrange(pi, pi + 4));
            assert(u16_le(h.number_of_this_disk) =~= bs.subrange(pi + 4, pi + 6));
            assert(u16_le(h.disk_where_central_directory_starts) =~= bs.subrange(pi + 6, pi + 8));
            assert(u16_le(h.number_of_central_directory_records_on_this_disk) =~= bs.subrange(pi + 8, pi + 10));
            assert(u16_le(h.total_number_of_central_directory_records) =~= bs.subrange(pi + 10, pi + 12));
            assert(u32_le(h.size_of_central_directory) =~= bs.subrange(pi + 12, pi + 16));
            assert(u32_le(h.offset_of_start_of_central_directory_relative_to_start_of_archive) =~= bs.subrange(pi + 16, pi + 20));
            assert(u16_le(h.comment_length) =~= bs.subrange(pi + 20, pi + 22));
                    lemma_subrange_split(bs, pi, pi + 4, pi + 6);
            lemma_subrange_split(bs, pi, pi + 6, pi + 8);
            lemma_subrange_split(bs, pi, pi + 8, pi + 10);
            lemma_subrange_split(bs, pi, pi + 10, pi + 12);
            lemma_subrange_split(bs, pi, pi + 12, pi + 16);
            lemma_subrange_split(bs, pi, pi + 16, pi + 20);
            lemma_subrange_split(bs, pi, pi + 20, pi + 22);
            lemma_subrange_split(bs, pi, pi + 22, pi + sz);
            assert(bs.subrange(pi, pi + sz) == h.spec_bytes());
        }
        *pos = p + 22 + comment_length as usize;
        Ok(h)
    }

    /// Serialize the record, refusing one whose signature field has been
    /// corrupted away from its fixed constant.
    pub fn write(&self, buf: &mut Vec<u8>) -> (r: Result<(), Error>)
        requires
            self.wf(),
        ensures
            self.sig_valid() ==> r is Ok && final(buf)@ == old(buf)@ + self.spec_bytes(),
            !self.sig_valid() ==> r == Err::<(), Error>(
                Error::BadSignatureInEndOfCentralDirectoryHeader,
            ) && final(buf)@ == old(buf)@,
    {
        if self.signature != END_OF_CENTRAL_DIRECTORY_SIGNATURE {
            return Err(Error::BadSignatureInEndOfCentralDirectoryHeader);
        }
        push_u32(buf, self.signature);
        push_u16(buf, self.number_of_this_disk);
        push_u16(buf, self.disk_where_central_directory_starts);
        push_u16(buf, self.number_of_central_directory_records_on_this_disk);
        push_u16(buf, self.total_number_of_central_directory_records);
        push_u32(buf, self.size_of_central_directory);
        push_u32(buf, self.offset_of_start_of_central_directory_relative_to_start_of_archive);
        push_u16(buf, self.comment_length);
        append_bytes(buf, &self.comment);
        assert(buf@ =~= old(buf)@ + self.spec_bytes());
        Ok(())
    }
}

impl Default for EndOfCentralDirectory {
    /// The empty summary: a valid signature, every count, size and offset
    /// zero, and no comment.
    fn default() -> (r: EndOfCentralDirectory)
        ensures
            r.wf(),
            r.sig_valid(),
            r.number_of_this_disk == 0,
            r.disk_where_central_directory_starts == 0,
            r.number_of_central_directory_records_on_this_disk == 0,
            r.total_number_of_central_directory_records == 0,
            r.size_of_central_directory == 0,
            r.offset_of_start_of_central_directory_relative_to_start_of_archive == 0,
            r.comment_length == 0,
            r.comment@ == Seq::<u8>::empty(),
    {
        EndOfCentralDirectory {
            signature: END_OF_CENTRAL_DIRECTORY_SIGNATURE,
            number_of_this_disk: 0,
            disk_where_central_directory_starts: 0,
            number_of_central_directory_records_on_this_disk: 0,
            total_number_of_central_directory_records: 0,
            size_of_central_directory: 0,
            offset_of_start_of_central_directory_relative_to_start_of_archive: 0,
            comment_length: 0,
            comment: Vec::new(),
        }
    }
}

/// Round trip: the serialized bytes of a well-formed summary record
/// determine the record.  Two well-formed records serialized over the
/// same range of a buffer agree on every field, so a record written and
/// read back is reproduced exactly.
pub proof fn lemma_end_of_central_directory_round_trip(
    h: EndOfCentralDirectory,
    r: EndOfCentralDirectory,
    bytes: Seq<u8>,
    p: int,
)
    requires
        h.wf(),
        r.wf(),
        0 <= p,
        p + h.spec_size() <= bytes.len(),
        p + r.spec_size() <= bytes.len(),
        bytes.subrange(p, p + h.spec_size()) == h.spec_bytes(),
        bytes.subrange(p, p + r.spec_size()) == r.spec_bytes(),
    ensures
        r.signature == h.signature,
        r.number_of_this_disk == h.number_of_this_disk,
        r.disk_where_central_directory_starts == h.disk_where_central_directory_starts,
        r.number_of_central_directory_records_on_this_disk == h.number_of_central_directory_records_on_this_disk,
        r.total_number_of_central_directory_records == h.total_number_of_central_directory_records,
        r.size_of_central_directory == h.size_of_central_directory,
        r.offset_of_start_of_central_directory_relative_to_start_of_archive == h.offset_of_start_of_central_directory_relative_to_start_of_archive,
        r.comment_length == h.comment_length,
        r.comment@ == h.comment@,
        r.spec_size() == h.spec_size(),
{
    lemma_end_of_central_directory_fields_from_bytes(h, bytes, p);
    lemma_end_of_central_directory_fields_from_bytes(r, bytes, p);
}

/// The fields of a well-formed summary record are recovered from its
/// serialized bytes at the record's fixed offsets.
#[verifier::rlimit(80)]
pub proof fn lemma_end_of_central_directory_fields_from_bytes(
    h: EndOfCentralDirectory,
    bytes: Seq<u8>,
    p: int,
)
    requires
        h.wf(),
        0 <= p,
        p + h.spec_size() <= bytes.len(),
        bytes.subrange(p, p + h.spec_size()) == h.spec_bytes(),
    ensures
        u32_from(bytes[p], bytes[p + 1], bytes[p + 2], bytes[p + 3]) == h.signature,
        u16_from(bytes[p + 4], bytes[p + 5]) == h.number_of_this_disk,
        u16_from(bytes[p + 6], bytes[p + 7]) == h.disk_where_central_directory_starts,
        u16_from(bytes[p + 8], bytes[p + 9]) == h.number_of_central_directory_records_on_this_disk,
        u16_from(bytes[p + 10], bytes[p + 11]) == h.total_number_of_central_directory_records,
        u32_from(bytes[p + 12], bytes[p + 13], bytes[p + 14], bytes[p + 15]) == h.size_of_central_directory,
        u32_from(bytes[p + 16], bytes[p + 17], bytes[p + 18], bytes[p + 19]) == h.offset_of_start_of_central_directory_relative_to_start_of_archive,
        u16_from(bytes[p + 20], bytes[p + 21]) == h.comment_length,
        bytes.subrange(p + 22, p + h.spec_size()) == h.comment@,
{
    let sb = h.spec_bytes();
    let sz = h.spec_size();
    assert(sb.len() == sz);
    assert forall|i: int| 0 <= i < sz implies bytes[p + i] == #[trigger] sb[i] by {
        assert(bytes.subrange(p, p + sz)[i] == bytes[p + i]);
    }
    assert(sb[0] == u32_le(h.signature)[0]);
    assert(sb[1] == u32_le(h.signature)[1]);
    assert(sb[2] == u32_le(h.signature)[2]);
    assert(sb[3] == u32_le(h.signature)[3]);
    lemma_u32_le_from(h.signature);
    assert(sb[4] == u16_le(h.number_of_this_disk)[0]);
    assert(sb[5] == u16_le(h.number_of_this_disk)[1]);
    lemma_u16_le_from(h.number_of_this_disk);
    assert(sb[6] == u16_le(h.disk_where_central_directory_starts)[0]);
    assert(sb[7] == u16_le(h.disk_where_central_directory_starts)[1]);
    lemma_u16_le_from(h.disk_where_central_directory_starts);
    assert(sb[8] == u16_le(h.number_of_central_directory_records_on_this_disk)[0]);
    assert(sb[9] == u16_le(h.number_of_central_directory_records_on_this_disk)[1]);
    lemma_u16_le_from(h.number_of_central_directory_records_on_this_disk);
    assert(sb[10] == u16_le(h.total_number_of_central_directory_records)[0]);
    assert(sb[11] == u16_le(h.total_number_of_central_directory_records)[1]);
    lemma_u16_le_from(h.total_number_of_central_directory_records);
    assert(sb[12] == u32_le(h.size_of_central_directory)[0]);
    assert(sb[13] == u32_le(h.size_of_central_directory)[1]);
    assert(sb[14] == u32_le(h.size_of_central_directory)[2]);
    assert(sb[15] == u32_le(h.size_of_central_directory)[3]);
    lemma_u32_le_from(h.size_of_central_directory);
    assert(sb[16] == u32_le(h.offset_of_start_of_central_directory_relative_to_start_of_archive)[0]);
    assert(sb[17] == u32_le(h.offset_of_start_of_central_directory_relative_to_start_of_archive)[1]);
    assert(sb[18] == u32_le(h.offset_of_start_of_central_directory_relative_to_start_of_archive)[2]);
    assert(sb[19] == u32_le(h.offset_of_start_of_central_directory_relative_to_start_of_archive)[3]);
    lemma_u32_le_from(h.offset_of_start_of_central_directory_relative_to_start_of_archive);
    assert(sb[20] == u16_le(h.comment_length)[0]);
    assert(sb[21] == u16_le(h.comment_length)[1]);
    lemma_u16_le_from(h.comment_length);
    assert(bytes[p] == u32_le(h.signature)[0]);
    assert(bytes[p + 1] == u32_le(h.signature)[1]);
    assert(bytes[p + 2] == u32_le(h.signature)[2]);
    assert(bytes[p + 3] == u32_le(h.signature)[3]);
    assert(bytes[p + 4] == u16_le(h.number_of_this_disk)[0]);
    assert(bytes[p + 5] == u16_le(h.number_of_this_disk)[1]);
    assert(bytes[p + 6] == u16_le(h.disk_where_central_directory_starts)[0]);
    assert(bytes[p + 7] == u16_le(h.disk_where_central_directory_starts)[1]);
    assert(bytes[p + 8] == u16_le(h.number_of_central_directory_records_on_this_disk)[0]);
    assert(bytes[p + 9] == u16_le(h.number_of_central_directory_records_on_this_disk)[1]);
    assert(bytes[p + 10] == u16_le(h.total_number_of_central_directory_records)[0]);
    assert(bytes[p + 11] == u16_le(h.total_number_of_central_directory_records)[1]);
    assert(bytes[p + 12] == u32_le(h.size_of_central_directory)[0]);
    assert(bytes[p + 13] == u32_le(h.size_of_central_directory)[1]);
    assert(bytes[p + 14] == u32_le(h.size_of_central_directory)[2]);
    assert(bytes[p + 15] == u32_le(h.size_of_central_directory)[3]);
    assert(bytes[p + 16] == u32_le(h.offset_of_start_of_central_directory_relative_to_start_of_archive)[0]);
    assert(bytes[p + 17] == u32_le(h.offset_of_start_of_central_directory_relative_to_start_of_archive)[1]);
    assert(bytes[p + 18] == u32_le(h.offset_of_start_of_central_directory_relative_to_start_of_archive)[2]);
    assert(bytes[p + 19] == u32_le(h.offset_of_start_of_central_directory_relative_to_start_of_archive)[3]);
    assert(bytes[p + 20] == u16_le(h.comment_length)[0]);
    assert(bytes[p + 21] == u16_le(h.comment_length)[1]);
    let clen = h.comment_length as int;
    assert forall|j: int| 0 <= j < clen implies bytes.subrange(p + 22, p + sz)[j]
        == h.comment@[j] by {
        assert(bytes[p + (22 + j)] == sb[22 + j]);
        assert(sb[22 + j] == h.comment@[j]);
        assert(bytes.subrange(p + 22, p + sz)[j] == bytes[p + 22 + j]);
    }
    assert(bytes.subrange(p + 22, p + sz) =~= h.comment@);
}

} // verus!
