//! Codec for the structural records of the ZIP archive container format.
//!
//! The library parses and serializes the four record types that frame an
//! archive (local file header, trailing data descriptor, central directory
//! file header, end-of-central-directory record), resolves the ambiguous
//! dual-layout trailing descriptor, reconciles deferred header fields against
//! it, and builds the central directory with its summary counters kept
//! consistent after every addition.
//!
//! All operations work over in-memory byte buffers: a reader hands the
//! library the archive bytes (or the trailing window of them) and a cursor;
//! a writer receives the serialized bytes appended to a growable buffer.

mod bytes;
mod central_directory;
mod central_directory_file_header;
mod checksum;
mod data_descriptor;
mod end_of_central_directory;
mod entry;
mod error;
mod inflate;
mod local_file_header;

pub use central_directory::CentralDirectory;
pub use central_directory_file_header::CentralDirectoryFileHeader;
pub use data_descriptor::DataDescriptor;
pub use end_of_central_directory::EndOfCentralDirectory;
pub use entry::Entry;
pub use error::Error;
pub use local_file_header::LocalFileHeader;
