pub mod buffer_manager;
pub mod bytes;
pub mod charset;
pub mod file_list;
pub mod integer;
pub mod page;
pub mod table;

use vstd::prelude::*;

use page::PageType;

verus! {

/// Everything that can go wrong while decoding a tablespace.
#[derive(Clone, Debug, PartialEq, Eq)]
pub enum InnoDBError {
    /// A buffer does not have the size its layout calls for.
    InvalidLength,
    /// A stored checksum does not match the page content.
    InvalidChecksum,
    /// The bytes do not form the structure that was asked for.
    InvalidPage,
    /// The requested page is absent from its tablespace.
    PageNotFound,
    /// A page of one type was handed to a decoder for another.
    InvalidPageType { expected: PageType, actual: PageType },
    /// A string field does not hold valid UTF-8.
    InvalidUtf8,
    /// An externally stored value ended before its declared length.
    ReadIncomplete,
    /// Every frame of a bounded buffer manager is pinned.
    TooManyPins,
    /// The buffer manager cannot provide pages at all.
    PinUnavailable,
    /// The page source failed to deliver the bytes of a page.
    Io,
    /// A field has a type whose values this decoder cannot read.
    UnsupportedFieldType,
    /// A table definition cannot be derived from the statement.
    InvalidTableDefinition,
}

} // verus!
