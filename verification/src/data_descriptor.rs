//! The trailing data descriptor: a 12- or 16-byte record whose leading
//! 4-byte recognition signature is optional, with no length indicator to
//! tell a reader which layout was used.
//!
//! Resolution works backwards from a known end boundary: probe for the
//! signature 16 bytes before the boundary; if it is there, the descriptor is
//! the signed 16-byte layout, otherwise the last 12 bytes are the three
//! counters directly.

use vstd::prelude::*;

use crate::bytes::{
    lemma_subrange_split, lemma_u32_from_le, lemma_u32_le_from, push_u32, read_u32, u32_from,
    u32_le,
};
use crate::error::Error;

verus! {

/// The recognition signature `50 4B 07 08`, little-endian.
pub const DATA_DESCRIPTOR_SIGNATURE: u32 = 0x08074B50;

/// The trailing record carrying CRC-32, compressed size and uncompressed
/// size, with its optional recognition signature.
#[derive(Debug, Clone, Copy, PartialEq, Eq)]
pub struct DataDescriptor {
    pub signature: Option<u32>,
    pub crc32_of_uncompressed_data: u32,
    pub compressed_size: u32,
    pub uncompressed_size: u32,
}

/// Whether the bytes at `p` hold the descriptor's recognition signature.
pub open spec fn dd_sig_at(bytes: Seq<u8>, p: int) -> bool {
    &&& p + 4 <= bytes.len()
    &&& u32_from(bytes[p], bytes[p + 1], bytes[p + 2], bytes[p + 3]) == DATA_DESCRIPTOR_SIGNATURE
}

/// Whether a descriptor read starting at `p` succeeds: the signed layout
/// needs 16 bytes, the unsigned one 12.
pub open spec fn dd_read_ok(bytes: Seq<u8>, p: int) -> bool {
    if dd_sig_at(bytes, p) {
        p + 16 <= bytes.len()
    } else {
        p + 12 <= bytes.len()
    }
}

impl DataDescriptor {
    /// A present signature holds the fixed constant.
    pub open spec fn wf(self) -> bool {
        self.signature matches Some(s) ==> s == DATA_DESCRIPTOR_SIGNATURE
    }

    /// The serialized length: 16 bytes with the signature, 12 without.
    pub open spec fn spec_size(self) -> int {
        match self.signature {
            Some(_) => 16,
            None => 12,
        }
    }

    /// The exact serialized bytes of the record.
    pub open spec fn spec_bytes(self) -> Seq<u8> {
        (match self.signature {
            Some(s) => u32_le(s),
            None => Seq::<u8>::empty(),
        }) + u32_le(self.crc32_of_uncompressed_data) + u32_le(self.compressed_size) + u32_le(
            self.uncompressed_size,
        )
    }

    /// The exact serialized length of the record.
    pub fn expected_size(&self) -> (r: u32)
        ensures
            r == self.spec_size(),
    {
        match self.signature {
            Some(_) => 16,
            None => 12,
        }
    }

    /// Parse a descriptor at `*pos`, resolving the two layouts by probing
    /// for the recognition signature, and advance the cursor past it.
    pub fn read(buf: &Vec<u8>, pos: &mut usize) -> (r: Result<DataDescriptor, Error>)
        requires
            *old(pos) <= buf@.len(),
        ensures
            r is Ok <==> dd_read_ok(buf@, *old(pos) as int),
            r matches Ok(d) ==> ({
                let p = *old(pos) as int;
                let q = if dd_sig_at(buf@, p) {
                    p + 4
                } else {
                    p
                };
                &&& d.wf()
                &&& (d.signature is Some <==> dd_sig_at(buf@, p))
                &&& d.crc32_of_uncompressed_data == u32_from(
                    buf@[q],
                    buf@[q + 1],
                    buf@[q + 2],
                    buf@[q + 3],
                )
                &&& d.compressed_size == u32_from(buf@[q + 4], buf@[q + 5], buf@[q + 6], buf@[q + 7])
                &&& d.uncompressed_size == u32_from(
                    buf@[q + 8],
                    buf@[q + 9],
                    buf@[q + 10],
                    buf@[q + 11],
                )
                &&& *final(pos) == p + d.spec_size()
                &&& buf@.subrange(p, p + d.spec_size()) == d.spec_bytes()
            }),
            r is Err ==> r == Err::<DataDescriptor, Error>(Error::UnexpectedEndOfData)
                && *final(pos) == *old(pos),
    {
        let n = buf.len();
        let p = *pos;
        let has_sig = n - p >= 4 && read_u32(buf, p) == DATA_DESCRIPTOR_SIGNATURE;
        if has_sig {
            if n - p < 16 {
                return Err(Error::UnexpectedEndOfData);
            }
            let crc = read_u32(buf, p + 4);
            let cs = read_u32(buf, p + 8);
            let us = read_u32(buf, p + 12);
            let d = DataDescriptor {
                signature: Some(DATA_DESCRIPTOR_SIGNATURE),
                crc32_of_uncompressed_data: crc,
                compressed_size: cs,
                uncompressed_size: us,
            };
            proof {
                let bs = buf@;
                let pi = p as int;
                lemma_u32_from_le(bs[pi], bs[pi + 1], bs[pi + 2], bs[pi + 3]);
                lemma_u32_from_le(bs[pi + 4], bs[pi + 5], bs[pi + 6], bs[pi + 7]);
                lemma_u32_from_le(bs[pi + 8], bs[pi + 9], bs[pi + 10], bs[pi + 11]);
                lemma_u32_from_le(bs[pi + 12], bs[pi + 13], bs[pi + 14], bs[pi + 15]);
                assert(u32_le(DATA_DESCRIPTOR_SIGNATURE) =~= bs.subrange(pi, pi + 4));
                assert(u32_le(crc) =~= bs.subrange(pi + 4, pi + 8));
                assert(u32_le(cs) =~= bs.subrange(pi + 8, pi + 12));
                assert(u32_le(us) =~= bs.subrange(pi + 12, pi + 16));
                lemma_subrange_split(bs, pi, pi + 4, pi + 16);
                lemma_subrange_split(bs, pi + 4, pi + 8, pi + 16);
                lemma_subrange_split(bs, pi + 8, pi + 12, pi + 16);
                assert(bs.subrange(pi, pi + 16) =~= d.spec_bytes());
            }
            *pos = p + 16;
            Ok(d)
        } else {
            if n - p < 12 {
                return Err(Error::UnexpectedEndOfData);
            }
            let crc = read_u32(buf, p);
            let cs = read_u32(buf, p + 4);
            let us = read_u32(buf, p + 8);
            let d = DataDescriptor {
                signature: None,
                crc32_of_uncompressed_data: crc,
                compressed_size: cs,
                uncompressed_size: us,
            };
            proof {
                let bs = buf@;
                let pi = p as int;
                lemma_u32_from_le(bs[pi], bs[pi + 1], bs[pi + 2], bs[pi + 3]);
                lemma_u32_from_le(bs[pi + 4], bs[pi + 5], bs[pi + 6], bs[pi + 7]);
                lemma_u32_from_le(bs[pi + 8], bs[pi + 9], bs[pi + 10], bs[pi + 11]);
                assert(u32_le(crc) =~= bs.subrange(pi, pi + 4));
                assert(u32_le(cs) =~= bs.subrange(pi + 4, pi + 8));
                assert(u32_le(us) =~= bs.subrange(pi + 8, pi + 12));
                lemma_subrange_split(bs, pi, pi + 4, pi + 12);
                lemma_subrange_split(bs, pi + 4, pi + 8, pi + 12);
                assert(bs.subrange(pi, pi + 12) =~= d.spec_bytes());
            }
            *pos = p + 12;
            Ok(d)
        }
    }

    /// Serialize the record, appending 16 or 12 bytes according to whether
    /// the signature is present.
    pub fn write(&self, buf: &mut Vec<u8>) -> (r: Result<(), Error>)
        ensures
            r is Ok,
            final(buf)@ == old(buf)@ + self.spec_bytes(),
    {
        match self.signature {
            Some(s) => push_u32(buf, s),
            None => (),
        }
        push_u32(buf, self.crc32_of_uncompressed_data);
        push_u32(buf, self.compressed_size);
        push_u32(buf, self.uncompressed_size);
        assert(buf@ =~= old(buf)@ + self.spec_bytes());
        Ok(())
    }

    /// Interpret the last 16 bytes of the buffer as a descriptor via the
    /// probing read; the probe is pure and consumes nothing.
    pub fn read_from_end_with_signature(buf: &Vec<u8>) -> (r: Result<DataDescriptor, Error>)
        ensures
            r is Ok <==> buf@.len() >= 16,
            r matches Ok(d) ==> ({
                let n = buf@.len() as int;
                let q = if dd_sig_at(buf@, n - 16) {
                    n - 12
                } else {
                    n - 16
                };
                &&& d.wf()
                &&& (d.signature is Some <==> dd_sig_at(buf@, n - 16))
                &&& d.crc32_of_uncompressed_data == u32_from(
                    buf@[q],
                    buf@[q + 1],
                    buf@[q + 2],
                    buf@[q + 3],
                )
                &&& d.compressed_size == u32_from(buf@[q + 4], buf@[q + 5], buf@[q + 6], buf@[q + 7])
                &&& d.uncompressed_size == u32_from(
                    buf@[q + 8],
                    buf@[q + 9],
                    buf@[q + 10],
                    buf@[q + 11],
                )
            }),
            r is Err ==> r == Err::<DataDescriptor, Error>(Error::UnexpectedEndOfData),
    {
        let n = buf.len();
        if n < 16 {
            return Err(Error::UnexpectedEndOfData);
        }
        let mut probe: usize = n - 16;
        Self::read(buf, &mut probe)
    }

    /// Interpret the last 12 bytes of the buffer directly as the three
    /// counters, with no signature; the probe is pure and consumes nothing.
    pub fn read_from_end_without_signature(buf: &Vec<u8>) -> (r: Result<DataDescriptor, Error>)
        ensures
            r is Ok <==> buf@.len() >= 12,
            r matches Ok(d) ==> ({
                let q = buf@.len() as int - 12;
                &&& d.signature is None
                &&& d.crc32_of_uncompressed_data == u32_from(
                    buf@[q],
                    buf@[q + 1],
                    buf@[q + 2],
                    buf@[q + 3],
                )
                &&& d.compressed_size == u32_from(buf@[q + 4], buf@[q + 5], buf@[q + 6], buf@[q + 7])
                &&& d.uncompressed_size == u32_from(
                    buf@[q + 8],
                    buf@[q + 9],
                    buf@[q + 10],
                    buf@[q + 11],
                )
            }),
            r is Err ==> r == Err::<DataDescriptor, Error>(Error::UnexpectedEndOfData),
    {
        let n = buf.len();
        if n < 12 {
            return Err(Error::UnexpectedEndOfData);
        }
        let q = n - 12;
        let crc = read_u32(buf, q);
        let cs = read_u32(buf, q + 4);
        let us = read_u32(buf, q + 8);
        Ok(
            DataDescriptor {
                signature: None,
                crc32_of_uncompressed_data: crc,
                compressed_size: cs,
                uncompressed_size: us,
            },
        )
    }

    /// Resolve the descriptor that ends exactly at the end of the buffer:
    /// probe the signed 16-byte layout first, and fall back to the unsigned
    /// 12-byte one when the signature is not there.
    pub fn read_from_end(buf: &Vec<u8>) -> (r: Result<DataDescriptor, Error>)
        ensures
            r is Ok <==> buf@.len() >= 12,
            r matches Ok(d) ==> ({
                let n = buf@.len() as int;
                let q = n - 12;
                &&& d.wf()
                &&& (d.signature is Some <==> n >= 16 && dd_sig_at(buf@, n - 16))
                &&& d.crc32_of_uncompressed_data == u32_from(
                    buf@[q],
                    buf@[q + 1],
                    buf@[q + 2],
                    buf@[q + 3],
                )
                &&& d.compressed_size == u32_from(buf@[q + 4], buf@[q + 5], buf@[q + 6], buf@[q + 7])
                &&& d.uncompressed_size == u32_from(
                    buf@[q + 8],
                    buf@[q + 9],
                    buf@[q + 10],
                    buf@[q + 11],
                )
            }),
            r is Err ==> r == Err::<DataDescriptor, Error>(Error::UnexpectedEndOfData),
    {
        match Self::read_from_end_with_signature(buf) {
            Ok(d) => {
                if d.signature.is_some() {
                    Ok(d)
                } else {
                    Self::read_from_end_without_signature(buf)
                }
            },
            Err(_) => Self::read_from_end_without_signature(buf),
        }
    }
}


/// Round trip: the serialized bytes of a well-formed data descriptor
/// determine the descriptor, so one written and read back at the same
/// position is reproduced exactly.  The one input left out is inherent
/// to the format's ambiguity: a signature-less descriptor whose CRC-32
/// happens to equal the recognition signature would be re-read as the
/// signed layout, and no reader can tell the two apart.
pub proof fn lemma_data_descriptor_round_trip(
    d: DataDescriptor,
    r: DataDescriptor,
    bytes: Seq<u8>,
    p: int,
)
    requires
        d.wf(),
        r.wf(),
        d.signature is None ==> d.crc32_of_uncompressed_data != DATA_DESCRIPTOR_SIGNATURE,
        r.signature is None ==> r.crc32_of_uncompressed_data != DATA_DESCRIPTOR_SIGNATURE,
        0 <= p,
        p + d.spec_size() <= bytes.len(),
        p + r.spec_size() <= bytes.len(),
        bytes.subrange(p, p + d.spec_size()) == d.spec_bytes(),
        bytes.subrange(p, p + r.spec_size()) == r.spec_bytes(),
    ensures
        r == d,
{
    lemma_data_descriptor_fields_from_bytes(d, bytes, p);
    lemma_data_descriptor_fields_from_bytes(r, bytes, p);
}

/// The fields of a well-formed descriptor whose CRC-32 does not mimic
/// the recognition signature are recovered from its serialized bytes.
proof fn lemma_data_descriptor_fields_from_bytes(d: DataDescriptor, bytes: Seq<u8>, p: int)
    requires
        d.wf(),
        d.signature is None ==> d.crc32_of_uncompressed_data != DATA_DESCRIPTOR_SIGNATURE,
        0 <= p,
        p + d.spec_size() <= bytes.len(),
        bytes.subrange(p, p + d.spec_size()) == d.spec_bytes(),
    ensures
        (d.signature is Some <==> dd_sig_at(bytes, p)),
        ({
            let q = if dd_sig_at(bytes, p) {
                p + 4
            } else {
                p
            };
            &&& d.crc32_of_uncompressed_data == u32_from(
                bytes[q],
                bytes[q + 1],
                bytes[q + 2],
                bytes[q + 3],
            )
            &&& d.compressed_size == u32_from(bytes[q + 4], bytes[q + 5], bytes[q + 6], bytes[q + 7])
            &&& d.uncompressed_size == u32_from(
                bytes[q + 8],
                bytes[q + 9],
                bytes[q + 10],
                bytes[q + 11],
            )
        }),
{
    let sb = d.spec_bytes();
    let sz = d.spec_size();
    assert(sb.len() == sz);
    assert forall|i: int| 0 <= i < sz implies bytes[p + i] == #[trigger] sb[i] by {
        assert(bytes.subrange(p, p + sz)[i] == bytes[p + i]);
    }
    lemma_u32_le_from(d.crc32_of_uncompressed_data);
    lemma_u32_le_from(d.compressed_size);
    lemma_u32_le_from(d.uncompressed_size);
    match d.signature {
        Some(s) => {
            lemma_u32_le_from(s);
            assert(sb[0] == u32_le(s)[0] && sb[1] == u32_le(s)[1] && sb[2] == u32_le(s)[2] && sb[3]
                == u32_le(s)[3]);
            assert(dd_sig_at(bytes, p));
            assert(sb[4] == u32_le(d.crc32_of_uncompressed_data)[0] && sb[5] == u32_le(
                d.crc32_of_uncompressed_data,
            )[1] && sb[6] == u32_le(d.crc32_of_uncompressed_data)[2] && sb[7] == u32_le(
                d.crc32_of_uncompressed_data,
            )[3]);
            assert(sb[8] == u32_le(d.compressed_size)[0] && sb[9] == u32_le(d.compressed_size)[1]
                && sb[10] == u32_le(d.compressed_size)[2] && sb[11] == u32_le(
                d.compressed_size,
            )[3]);
            assert(sb[12] == u32_le(d.uncompressed_size)[0] && sb[13] == u32_le(
                d.uncompressed_size,
            )[1] && sb[14] == u32_le(d.uncompressed_size)[2] && sb[15] == u32_le(
                d.uncompressed_size,
            )[3]);
        },
        None => {
            assert(sb[0] == u32_le(d.crc32_of_uncompressed_data)[0] && sb[1] == u32_le(
                d.crc32_of_uncompressed_data,
            )[1] && sb[2] == u32_le(d.crc32_of_uncompressed_data)[2] && sb[3] == u32_le(
                d.crc32_of_uncompressed_data,
            )[3]);
            lemma_u32_from_le(bytes[p], bytes[p + 1], bytes[p + 2], bytes[p + 3]);
            assert(u32_from(bytes[p], bytes[p + 1], bytes[p + 2], bytes[p + 3])
                == d.crc32_of_uncompressed_data);
            assert(!dd_sig_at(bytes, p));
            assert(sb[4] == u32_le(d.compressed_size)[0] && sb[5] == u32_le(d.compressed_size)[1]
                && sb[6] == u32_le(d.compressed_size)[2] && sb[7] == u32_le(d.compressed_size)[3]);
            assert(sb[8] == u32_le(d.uncompressed_size)[0] && sb[9] == u32_le(
                d.uncompressed_size,
            )[1] && sb[10] == u32_le(d.uncompressed_size)[2] && sb[11] == u32_le(
                d.uncompressed_size,
            )[3]);
        },
    }
}

} // verus!

