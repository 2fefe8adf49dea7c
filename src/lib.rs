//! Reader for "vtPack" archives: a header, a pool of NUL-terminated strings and a
//! table of entries that together describe a directory tree packed into one blob.
//!
//! `layout` decodes the raw records from bytes, `path` turns pool strings into safe
//! relative paths, and `archive` ties both together into the resolved entry list.

pub mod archive;
pub mod layout;
pub mod path;

pub use archive::{ResolvedView, VtPackFile, VtPackProcessedEntry};


pub use layout::{
    VtPackError, VtPackRawEntryHeader, VtPackRawFile, VtPackStringTable, VtPackVersion,
    INVALID_STRING_TABLE_OFFSET,
};
