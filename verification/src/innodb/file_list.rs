//! File addresses and the nodes of the lists that are threaded through pages.
use vstd::prelude::*;

use crate::innodb::bytes::{be_u16, be_u32, read_u16, read_u32};
use crate::innodb::InnoDBError;

verus! {

/// The page number that marks the end of a list.
pub const FIL_NULL: u32 = 0xFFFF_FFFF;

/// Where something lies in a tablespace: a page, and an offset into it.
#[derive(Debug, Clone, Copy)]
pub struct FileAddress {
    pub page_number: u32,
    pub offset: u16,
}

impl FileAddress {
    /// The address that the six bytes at `s[at..]` encode.
    pub open spec fn decode(s: Seq<u8>, at: int) -> FileAddress {
        FileAddress { page_number: be_u32(s, at), offset: be_u16(s, at + 4) }
    }

    /// The address marks the end of a list.
    pub open spec fn spec_is_null(&self) -> bool {
        self.page_number == FIL_NULL
    }

    /// The address of an offset in a page.
    pub fn new(page_number: u32, offset: u16) -> (r: Self)
        ensures
            r.page_number == page_number,
            r.offset == offset,
    {
        FileAddress { page_number, offset }
    }

    /// Decodes the structure at the start of the buffer; a buffer that is too short is an
    /// error.
    pub fn try_from_bytes(buf: &[u8]) -> (r: Result<Self, InnoDBError>)
        ensures
            buf@.len() >= 6 ==> r == Ok::<Self, InnoDBError>(FileAddress::decode(buf@, 0)),
            buf@.len() < 6 ==> r == Err::<Self, InnoDBError>(InnoDBError::InvalidLength),
    {
        if buf.len() < 6 {
            return Err(InnoDBError::InvalidLength);
        }
        Ok(FileAddress::read_at(buf, 0))
    }

    pub(crate) fn read_at(buf: &[u8], at: usize) -> (r: Self)
        requires
            at + 6 <= buf.len(),
        ensures
            r == FileAddress::decode(buf@, at as int),
    {
        FileAddress { page_number: read_u32(buf, at), offset: read_u16(buf, at + 4) }
    }

    /// Whether the address marks the end of a list.
    #[verifier::when_used_as_spec(spec_is_null)]
    pub fn is_null(&self) -> (r: bool)
        ensures
            r == (self.page_number == FIL_NULL),
    {
        self.page_number == FIL_NULL
    }

    /// Number of bytes that the structure takes.
    pub fn size() -> (r: usize)
        ensures
            r == 6,
    {
        6
    }
}

/// The head of a list: its length and the addresses of its first and last node.
#[derive(Debug, Clone, Copy)]
pub struct FileListBaseNode {
    pub list_len: u32,
    pub first_node: FileAddress,
    pub last_node: FileAddress,
}

impl FileListBaseNode {
    /// The base node that the 16 bytes at `s[at..]` encode.
    pub open spec fn decode(s: Seq<u8>, at: int) -> FileListBaseNode {
        FileListBaseNode {
            list_len: be_u32(s, at),
            first_node: FileAddress::decode(s, at + 4),
            last_node: FileAddress::decode(s, at + 10),
        }
    }

    /// Decodes the structure at the start of the buffer; a buffer that is too short is an
    /// error.
    pub fn try_from_bytes(buf: &[u8]) -> (r: Result<Self, InnoDBError>)
        ensures
            buf@.len() >= 16 ==> r == Ok::<Self, InnoDBError>(FileListBaseNode::decode(buf@, 0)),
            buf@.len() < 16 ==> r == Err::<Self, InnoDBError>(InnoDBError::InvalidLength),
    {
        if buf.len() < 16 {
            return Err(InnoDBError::InvalidLength);
        }
        Ok(FileListBaseNode::read_at(buf, 0))
    }

    pub(crate) fn read_at(buf: &[u8], at: usize) -> (r: Self)
        requires
            at + 16 <= buf.len(),
        ensures
            r == FileListBaseNode::decode(buf@, at as int),
    {
        FileListBaseNode {
            list_len: read_u32(buf, at),
            first_node: FileAddress::read_at(buf, at + 4),
            last_node: FileAddress::read_at(buf, at + 10),
        }
    }

    /// Number of bytes that the structure takes.
    pub fn size() -> (r: usize)
        ensures
            r == 16,
    {
        4 + FileAddress::size() + FileAddress::size()
    }
}

/// A node inside a list: the addresses of its neighbours.
#[derive(Debug, Clone, Copy)]
pub struct FileListInnerNode {
    pub prev: FileAddress,
    pub next: FileAddress,
}

impl FileListInnerNode {
    /// The inner node that the 12 bytes at `s[at..]` encode.
    pub open spec fn decode(s: Seq<u8>, at: int) -> FileListInnerNode {
        FileListInnerNode {
            prev: FileAddress::decode(s, at),
            next: FileAddress::decode(s, at + 6),
        }
    }

    /// Decodes the structure at the start of the buffer; a buffer that is too short is an
    /// error.
    pub fn try_from_bytes(buf: &[u8]) -> (r: Result<Self, InnoDBError>)
        ensures
            buf@.len() >= 12 ==> r == Ok::<Self, InnoDBError>(FileListInnerNode::decode(buf@, 0)),
            buf@.len() < 12 ==> r == Err::<Self, InnoDBError>(InnoDBError::InvalidLength),
    {
        if buf.len() < 12 {
            return Err(InnoDBError::InvalidLength);
        }
        Ok(FileListInnerNode::read_at(buf, 0))
    }

    pub(crate) fn read_at(buf: &[u8], at: usize) -> (r: Self)
        requires
            at + 12 <= buf.len(),
        ensures
            r == FileListInnerNode::decode(buf@, at as int),
    {
        FileListInnerNode {
            prev: FileAddress::read_at(buf, at),
            next: FileAddress::read_at(buf, at + 6),
        }
    }

    /// Number of bytes that the structure takes.
    pub fn size() -> (r: usize)
        ensures
            r == 12,
    {
        FileAddress::size() + FileAddress::size()
    }
}

} // verus!
