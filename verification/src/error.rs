//! The error taxonomy of the codec.

use vstd::prelude::*;

verus! {

/// Everything that can go wrong while parsing, serializing or validating
/// the structural records of an archive.
#[derive(Debug, Clone, Copy, PartialEq, Eq)]
pub enum Error {
    /// The leading magic bytes of a central directory file header do not
    /// match its fixed constant.
    BadSignatureInCentralDirectoryFileHeader,
    /// The leading magic bytes of an end-of-central-directory record do not
    /// match its fixed constant.
    BadSignatureInEndOfCentralDirectoryHeader,
    /// The leading magic bytes of a local file header do not match its fixed
    /// constant.
    BadSignatureInLocalFileHeader,
    /// Decompressed payload bytes do not hash to the declared CRC-32; both
    /// values are carried for diagnosis.
    ChecksumMismatch { expected: u32, found: u32 },
    /// A local file header's pre-declared field disagrees with the trailing
    /// data descriptor's resolved value.
    DataDescriptorConflictsWithLocalFileHeader,
    /// The payload bytes are not a well-formed stream for the entry's
    /// compression method.
    DecompressionFailed,
    /// A count, size or offset does not fit the format's 16/32-bit fields;
    /// such archives are unsupported and reported, never truncated.
    SizeOverflow,
    /// The buffer ends before the record (or payload) that was being read.
    UnexpectedEndOfData,
}

} // verus!
