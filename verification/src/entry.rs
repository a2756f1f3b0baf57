//! An entry: a local file header, the raw (still-compressed) payload
//! bytes, and the optional resolved trailing data descriptor, with the
//! decompress-and-validate operation.

use vstd::prelude::*;

use crate::bytes::{append_bytes, copy_range, u16_from, u32_from};
use crate::checksum::{crc32, crc32_of};
use crate::data_descriptor::{dd_read_ok, dd_sig_at, DataDescriptor};
use crate::error::Error;
use crate::inflate::{inflate, inflate_of};
use crate::local_file_header::{lfh_read_ok, lfh_sig_at, lfh_size_at, LocalFileHeader};

verus! {

/// A transient composite of header, payload and optional descriptor; its
/// serialized form is exactly the concatenation of its three parts.
#[derive(Debug, Clone, PartialEq, Eq)]
pub struct Entry {
    pub header: LocalFileHeader,
    pub data: Vec<u8>,
    pub data_descriptor: Option<DataDescriptor>,
}

/// The compressed size named by the descriptor that ends at the end of
/// the buffer: whichever layout the descriptor uses, its three counters
/// occupy the last 12 bytes, with the compressed size second.
pub open spec fn dd_end_compressed_size(bytes: Seq<u8>) -> u32 {
    u32_from(
        bytes[bytes.len() - 8],
        bytes[bytes.len() - 7],
        bytes[bytes.len() - 6],
        bytes[bytes.len() - 5],
    )
}

/// Whether bit 3 of the general-purpose flags stored at header position
/// `p` announces a trailing data descriptor.
pub open spec fn deferred_at(bytes: Seq<u8>, p: int) -> bool {
    u16_from(bytes[p + 6], bytes[p + 7]) & 0x0008 != 0
}

/// Whether an entry read starting at `p` succeeds: the header parses;
/// then either the header's own compressed size names a payload that lies
/// within the buffer, or — with sizes deferred — the descriptor at the
/// buffer's end resolves, its compressed size names a payload after the
/// header, and a descriptor read follows that payload.
pub open spec fn entry_read_ok(bytes: Seq<u8>, p: int) -> bool {
    &&& lfh_read_ok(bytes, p)
    &&& ({
        let hend = p + lfh_size_at(bytes, p);
        if deferred_at(bytes, p) {
            &&& bytes.len() >= 12
            &&& hend + dd_end_compressed_size(bytes) <= bytes.len()
            &&& dd_read_ok(bytes, hend + dd_end_compressed_size(bytes))
        } else {
            hend + u32_from(bytes[p + 18], bytes[p + 19], bytes[p + 20], bytes[p + 21])
                <= bytes.len()
        }
    })
}

impl Entry {
    /// The parts are internally consistent in length.
    pub open spec fn wf(self) -> bool {
        &&& self.header.wf()
        &&& (self.data_descriptor matches Some(d) ==> d.wf())
    }

    /// The declared compressed size — the descriptor's when one is
    /// resolved, the header's otherwise — matches the payload held.
    pub open spec fn spec_payload_size(self) -> int {
        match self.data_descriptor {
            Some(d) => d.compressed_size as int,
            None => self.header.compressed_size as int,
        }
    }

    /// The serialized length of the whole entry: header, payload as
    /// declared, and the optional descriptor.
    pub open spec fn spec_size(self) -> int {
        self.header.spec_size() + self.spec_payload_size() + (match self.data_descriptor {
            Some(d) => d.spec_size(),
            None => 0,
        })
    }

    /// The exact serialized bytes: header, payload, optional descriptor.
    pub open spec fn spec_bytes(self) -> Seq<u8> {
        self.header.spec_bytes() + self.data@ + (match self.data_descriptor {
            Some(d) => d.spec_bytes(),
            None => Seq::<u8>::empty(),
        })
    }

    /// The exact serialized length of the entry as declared by its
    /// header and descriptor.
    pub fn expected_size(&self) -> (r: u64)
        ensures
            r == self.spec_size(),
    {
        let header_size = self.header.expected_size() as u64;
        match &self.data_descriptor {
            Some(d) => header_size + d.compressed_size as u64 + d.expected_size() as u64,
            None => header_size + self.header.compressed_size as u64,
        }
    }

    /// Parse one entry at `*pos`.  With bit 3 clear the header's
    /// compressed size is authoritative and no descriptor follows; with
    /// bit 3 set, the descriptor ending at the buffer's end names the true
    /// payload length, the payload is read, and the descriptor's own bytes
    /// are then consumed from the stream.
    pub fn read(buf: &Vec<u8>, pos: &mut usize) -> (r: Result<Entry, Error>)
        requires
            *old(pos) <= buf@.len(),
        ensures
            r is Ok <==> entry_read_ok(buf@, *old(pos) as int),
            r matches Ok(e) ==> ({
                let p = *old(pos) as int;
                let hend = p + e.header.spec_size();
                &&& e.wf()
                &&& e.header.sig_valid()
                &&& e.header.spec_size() == lfh_size_at(buf@, p)
                &&& buf@.subrange(p, hend) == e.header.spec_bytes()
                &&& (e.data_descriptor is Some <==> deferred_at(buf@, p))
                &&& (e.data_descriptor matches Some(d) ==> ({
                    let q = hend + dd_end_compressed_size(buf@);
                    &&& e.data@ == buf@.subrange(hend, q)
                    &&& buf@.subrange(q, q + d.spec_size()) == d.spec_bytes()
                    &&& (d.signature is Some <==> dd_sig_at(buf@, q))
                    &&& *final(pos) == q + d.spec_size()
                }))
                &&& (e.data_descriptor is None ==> e.data@ == buf@.subrange(
                    hend,
                    hend + e.header.compressed_size,
                ) && *final(pos) == hend + e.header.compressed_size)
            }),
            r == Err::<Entry, Error>(Error::BadSignatureInLocalFileHeader) <==> *old(pos) + 4
                <= buf@.len() && !lfh_sig_at(buf@, *old(pos) as int),
            r is Err ==> (r == Err::<Entry, Error>(Error::BadSignatureInLocalFileHeader) || r
                == Err::<Entry, Error>(Error::UnexpectedEndOfData)) && *final(pos) == *old(pos),
    {
        let ghost p = *pos as int;
        let mut cur = *pos;
        let header = match LocalFileHeader::read(buf, &mut cur) {
            Ok(h) => h,
            Err(e) => {
                assert(!entry_read_ok(buf@, p));
                return Err(e);
            },
        };
        assert(lfh_read_ok(buf@, p) && cur == p + lfh_size_at(buf@, p));
        assert(header.sizes_deferred() == deferred_at(buf@, p));
        let deferred = header.indicates_data_descriptor_is_present();
        let r = if deferred {
            Entry::read_deferred_tail(buf, &mut cur, header, Ghost(p))
        } else {
            Entry::read_plain_tail(buf, &mut cur, header, Ghost(p))
        };
        match r {
            Ok(e) => {
                *pos = cur;
                Ok(e)
            },
            Err(e) => Err(e),
        }
    }

    /// Read the payload of an entry whose header carries its own sizes:
    /// exactly the header's compressed size, with no descriptor.
    #[verifier::rlimit(100)]
    fn read_plain_tail(
        buf: &Vec<u8>,
        cur: &mut usize,
        header: LocalFileHeader,
        Ghost(p): Ghost<int>,
    ) -> (r: Result<Entry, Error>)
        requires
            0 <= p,
            *old(cur) <= buf@.len(),
            lfh_read_ok(buf@, p),
            *old(cur) == p + lfh_size_at(buf@, p),
            header.wf(),
            header.sig_valid(),
            !header.sizes_deferred(),
            !deferred_at(buf@, p),
            header.spec_size() == lfh_size_at(buf@, p),
            header.compressed_size == u32_from(buf@[p + 18], buf@[p + 19], buf@[p + 20], buf@[p + 21]),
        ensures
            r is Ok <==> entry_read_ok(buf@, p),
            r matches Ok(e) ==> ({
                let hend = p + e.header.spec_size();
                &&& e.header == header
                &&& e.wf()
                &&& e.data_descriptor is None
                &&& e.data@ == buf@.subrange(hend, hend + e.header.compressed_size)
                &&& *final(cur) == hend + e.header.compressed_size
            }),
            r is Err ==> r == Err::<Entry, Error>(Error::UnexpectedEndOfData) && *final(cur)
                == *old(cur),
    {
        let n = buf.len();
        let payload_len = header.compressed_size as usize;
        if n - *cur < payload_len {
            assert(!entry_read_ok(buf@, p));
            return Err(Error::UnexpectedEndOfData);
        }
        assert(entry_read_ok(buf@, p));
        let data = copy_range(buf, *cur, payload_len);
        *cur = *cur + payload_len;
        Ok(Entry { header, data, data_descriptor: None })
    }

    /// Read the payload and trailing descriptor of an entry whose header
    /// defers its sizes: resolve the descriptor ending at the buffer's
    /// end for the true payload length, read that many bytes, then
    /// consume the descriptor's own bytes.
    #[verifier::rlimit(100)]
    fn read_deferred_tail(
        buf: &Vec<u8>,
        cur: &mut usize,
        header: LocalFileHeader,
        Ghost(p): Ghost<int>,
    ) -> (r: Result<Entry, Error>)
        requires
            0 <= p,
            *old(cur) <= buf@.len(),
            lfh_read_ok(buf@, p),
            *old(cur) == p + lfh_size_at(buf@, p),
            header.wf(),
            header.sig_valid(),
            header.sizes_deferred(),
            deferred_at(buf@, p),
            header.spec_size() == lfh_size_at(buf@, p),
        ensures
            r is Ok <==> entry_read_ok(buf@, p),
            r matches Ok(e) ==> ({
                let hend = p + e.header.spec_size();
                let q = hend + dd_end_compressed_size(buf@);
                &&& e.header == header
                &&& e.wf()
                &&& e.data_descriptor is Some
                &&& e.data@ == buf@.subrange(hend, q)
                &&& (e.data_descriptor matches Some(d) ==> ({
                    &&& buf@.subrange(q, q + d.spec_size()) == d.spec_bytes()
                    &&& (d.signature is Some <==> dd_sig_at(buf@, q))
                    &&& *final(cur) == q + d.spec_size()
                }))
            }),
            r is Err ==> r == Err::<Entry, Error>(Error::UnexpectedEndOfData) && *final(cur)
                == *old(cur),
    {
        let n = buf.len();
        let start = *cur;
        let resolved = match DataDescriptor::read_from_end(buf) {
            Ok(d) => d,
            Err(e) => {
                assert(buf@.len() < 12);
                assert(!entry_read_ok(buf@, p));
                return Err(e);
            },
        };
        assert(resolved.compressed_size == dd_end_compressed_size(buf@));
        let payload_len = resolved.compressed_size as usize;
        if n - start < payload_len {
            assert(!entry_read_ok(buf@, p));
            return Err(Error::UnexpectedEndOfData);
        }
        let data = copy_range(buf, start, payload_len);
        let mut after: usize = start + payload_len;
        assert(after == p + lfh_size_at(buf@, p) + dd_end_compressed_size(buf@));
        let trailing = match DataDescriptor::read(buf, &mut after) {
            Ok(d) => d,
            Err(e) => {
                assert(!dd_read_ok(buf@, p + lfh_size_at(buf@, p) + dd_end_compressed_size(buf@)));
                assert(!entry_read_ok(buf@, p));
                return Err(e);
            },
        };
        assert(entry_read_ok(buf@, p));
        *cur = after;
        Ok(Entry { header, data, data_descriptor: Some(trailing) })
    }

    /// Serialize the entry: header, payload bytes, then the descriptor if
    /// one is present.
    pub fn write(&self, buf: &mut Vec<u8>) -> (r: Result<(), Error>)
        requires
            self.header.wf(),
        ensures
            self.header.sig_valid() ==> r is Ok && final(buf)@ == old(buf)@ + self.spec_bytes(),
            !self.header.sig_valid() ==> r == Err::<(), Error>(Error::BadSignatureInLocalFileHeader)
                && final(buf)@ == old(buf)@,
    {
        match self.header.write(buf) {
            Ok(_) => (),
            Err(e) => {
                return Err(e);
            },
        }
        append_bytes(buf, &self.data);
        match &self.data_descriptor {
            Some(d) => {
                match d.write(buf) {
                    Ok(_) => (),
                    Err(e) => {
                        return Err(e);
                    },
                }
            },
            None => (),
        }
        assert(buf@ =~= old(buf)@ + self.spec_bytes());
        Ok(())
    }

    /// Apply the inverse transform for the header's compression method
    /// (method 0 is pass-through; anything else is handed to the deflate
    /// family) and validate the result against the header's CRC-32.
    pub fn decompress(&self) -> (r: Result<Vec<u8>, Error>)
        ensures
            self.header.compression_method == 0 ==> {
                &&& (r is Ok <==> crc32_of(self.data@)
                    == self.header.crc32_of_uncompressed_data)
                &&& (r matches Ok(v) ==> v@ == self.data@)
                &&& (r is Err ==> r == Err::<Vec<u8>, Error>(
                    Error::ChecksumMismatch {
                        expected: self.header.crc32_of_uncompressed_data,
                        found: crc32_of(self.data@),
                    },
                ))
            },
            self.header.compression_method != 0 ==> {
                &&& (r matches Ok(v) ==> v@ == inflate_of(self.data@) && crc32_of(v@)
                    == self.header.crc32_of_uncompressed_data)
                &&& (r is Err ==> r == Err::<Vec<u8>, Error>(Error::DecompressionFailed) || r
                    == Err::<Vec<u8>, Error>(
                    Error::ChecksumMismatch {
                        expected: self.header.crc32_of_uncompressed_data,
                        found: crc32_of(inflate_of(self.data@)),
                    },
                ))
            },
    {
        if self.header.compression_method == 0 {
            let uncompressed = copy_range(&self.data, 0, self.data.len());
            assert(uncompressed@ =~= self.data@);
            validate_decompressed(self.header.crc32_of_uncompressed_data, uncompressed)
        } else {
            match inflate(self.data.as_slice()) {
                Some(uncompressed) => validate_decompressed(
                    self.header.crc32_of_uncompressed_data,
                    uncompressed,
                ),
                None => Err(Error::DecompressionFailed),
            }
        }
    }
}

/// Success carries the decompressed bytes and requires their checksum to
/// equal the declared CRC-32; a mismatch is a checksum-mismatch error
/// carrying both values.
pub fn validate_decompressed(expected: u32, uncompressed: Vec<u8>) -> (r: Result<Vec<u8>, Error>)
    ensures
        r is Ok <==> crc32_of(uncompressed@) == expected,
        r matches Ok(v) ==> v == uncompressed,
        r is Err ==> r == Err::<Vec<u8>, Error>(
            Error::ChecksumMismatch { expected, found: crc32_of(uncompressed@) },
        ),
{
    let found = crc32(uncompressed.as_slice());
    if found == expected {
        Ok(uncompressed)
    } else {
        Err(Error::ChecksumMismatch { expected, found })
    }
}

} // verus!
