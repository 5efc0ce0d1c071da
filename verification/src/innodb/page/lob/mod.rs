//! Pages that hold externally stored values: the first page of a value, with its
//! header, its index entries and the start of the data.
pub mod data_page;

use vstd::prelude::*;

use crate::innodb::bytes::{be_u16, be_u32, be_u48, copy_prefix, overwritten_prefix, read_u16, read_u32, read_u48};
use crate::innodb::file_list::{FileListBaseNode, FileListInnerNode};
use crate::innodb::page::{body_of, Page, PageType, FIL_PAGE_BODY_OFFSET};
use crate::innodb::InnoDBError;

verus! {

/// Number of index entries that the first page of a value holds.
pub const LOB_FIRST_INDEX_ENTRIES: usize = 10;

/// Offset, in the body of a first page, at which the data starts: after the header
/// and the index entries.
pub const LOB_FIRST_DATA_OFFSET: usize = 658;

/// Number of data bytes that a first page can hold.
pub const LOB_FIRST_DATA_CAPACITY: usize = 15680;

/// The 58 bytes that open the body of the first page of a value.
#[derive(Debug, Clone, Copy)]
pub struct LobFirstHeader {
    pub version: u8,
    pub flags: u8,
    pub lob_version: u32,
    /// 6 bytes
    pub last_transaction_id: u64,
    pub last_undo_number: u32,
    pub data_length: u32,
    /// 6 bytes
    pub transaction_id: u64,
    pub index_list_head: FileListBaseNode,
    pub free_list_head: FileListBaseNode,
}

impl LobFirstHeader {
    /// The header that the first 58 bytes of `s` encode.
    pub open spec fn decode(s: Seq<u8>) -> LobFirstHeader {
        LobFirstHeader {
            version: s[0],
            flags: s[1],
            lob_version: be_u32(s, 2),
            last_transaction_id: be_u48(s, 6),
            last_undo_number: be_u32(s, 12),
            data_length: be_u32(s, 16),
            transaction_id: be_u48(s, 20),
            index_list_head: FileListBaseNode::decode(s, 26),
            free_list_head: FileListBaseNode::decode(s, 42),
        }
    }

    /// Decodes the structure at the start of the buffer; a buffer that is too short is an
    /// error.
    pub fn try_from_bytes(buf: &[u8]) -> (r: Result<Self, InnoDBError>)
        ensures
            buf@.len() >= 58 ==> r == Ok::<Self, InnoDBError>(LobFirstHeader::decode(buf@)),
            buf@.len() < 58 ==> r == Err::<Self, InnoDBError>(InnoDBError::InvalidLength),
    {
        if buf.len() < 58 {
            return Err(InnoDBError::InvalidLength);
        }
        Ok(
            LobFirstHeader {
                version: buf[0],
                flags: buf[1],
                lob_version: read_u32(buf, 2),
                last_transaction_id: read_u48(buf, 6),
                last_undo_number: read_u32(buf, 12),
                data_length: read_u32(buf, 16),
                transaction_id: read_u48(buf, 20),
                index_list_head: FileListBaseNode::read_at(buf, 26),
                free_list_head: FileListBaseNode::read_at(buf, 42),
            },
        )
    }

    /// Number of bytes that the structure takes.
    pub fn size() -> (r: usize)
        ensures
            r == 58,
    {
        1 + 1 + 4 + 6 + 4 + 4 + 6 + FileListBaseNode::size() + FileListBaseNode::size()
    }
}

/// The data that a first page with these bytes holds, if the length that its header
/// declares fits the page.
pub open spec fn lob_first_data_of(page: Seq<u8>) -> Option<Seq<u8>> {
    let body = body_of(page);
    let data_length = LobFirstHeader::decode(body).data_length;
    if data_length <= LOB_FIRST_DATA_CAPACITY {
        Some(body.subrange(LOB_FIRST_DATA_OFFSET as int, LOB_FIRST_DATA_OFFSET + data_length))
    } else {
        None
    }
}

/// What a read at `offset` into `dst` does with `data`: `None` where there is nothing
/// at the offset, else the bytes that `dst` holds afterwards, and their number.
pub open spec fn read_outcome(data: Option<Seq<u8>>, offset: int, dst: Seq<u8>) -> Option<
    (Seq<u8>, int),
> {
    match data {
        None => None,
        Some(data) => if offset < data.len() {
            let rest = data.subrange(offset, data.len() as int);
            Some(
                (
                    overwritten_prefix(dst, rest),
                    if rest.len() <= dst.len() {
                        rest.len() as int
                    } else {
                        dst.len() as int
                    },
                ),
            )
        } else {
            None
        },
    }
}

/// The first page of a value: the page, and the header decoded from its body.
#[derive(Debug, Clone, Copy)]
pub struct LobFirst<'a> {
    pub page: &'a Page<'a>,
    pub header: LobFirstHeader,
}

impl<'a> LobFirst<'a> {
    /// The page is a first page and the header is that of its body.
    pub open spec fn wf(&self) -> bool {
        &&& self.page.wf()
        &&& self.page.header.page_type == PageType::LobFirst
        &&& self.header == LobFirstHeader::decode(body_of(self.page.raw_data@))
    }

    /// Takes a page as the first page of a value; a page of another type is an error.
    pub fn try_from_page(p: &'a Page<'a>) -> (r: Result<Self, InnoDBError>)
        requires
            p.wf(),
        ensures
            p.header.page_type == PageType::LobFirst ==> r is Ok && r->Ok_0.page == p
                && r->Ok_0.wf(),
            p.header.page_type != PageType::LobFirst ==> r == Err::<Self, InnoDBError>(
                InnoDBError::InvalidPageType {
                    expected: PageType::LobFirst,
                    actual: p.header.page_type,
                },
            ),
    {
        match p.header.page_type {
            PageType::LobFirst => {
                let header = match LobFirstHeader::try_from_bytes(p.body()) {
                    Ok(h) => h,
                    Err(e) => { return Err(e); },
                };
                Ok(LobFirst { page: p, header })
            },
            _ => Err(
                InnoDBError::InvalidPageType {
                    expected: PageType::LobFirst,
                    actual: p.header.page_type,
                },
            ),
        }
    }

    /// Copies data of this page, from `offset` on, to the start of `buf`, as much as
    /// fits, and returns the number of bytes copied. Fails where the declared data
    /// length exceeds the page or nothing lies at `offset`.
    pub fn read(&self, offset: usize, buf: &mut [u8]) -> (r: Result<usize, InnoDBError>)
        requires
            self.wf(),
        ensures
            match read_outcome(lob_first_data_of(self.page.raw_data@), offset as int, old(buf)@) {
                Some((bytes, n)) => r == Ok::<usize, InnoDBError>(n as usize) && final(buf)@
                    == bytes,
                None => r == Err::<usize, InnoDBError>(InnoDBError::InvalidLength) && final(buf)@
                    == old(buf)@,
            },
    {
        let data_len = self.header.data_length as usize;
        if data_len > LOB_FIRST_DATA_CAPACITY || offset >= data_len {
            return Err(InnoDBError::InvalidLength);
        }
        let index_array_size = LobIndexEntry::size() * LOB_FIRST_INDEX_ENTRIES;
        let body = self.body();
        let data = vstd::slice::slice_subrange(
            body,
            index_array_size + offset,
            index_array_size + data_len,
        );
        proof {
            let whole = lob_first_data_of(self.page.raw_data@)->Some_0;
            assert(data@ =~= whole.subrange(offset as int, whole.len() as int));
        }
        Ok(copy_prefix(buf, data))
    }

    /// The body of the page after the header.
    pub fn body(&self) -> (r: &'a [u8])
        requires
            self.wf(),
        ensures
            r@ == body_of(self.page.raw_data@).subrange(58, 16338),
    {
        let body = self.page.body();
        vstd::slice::slice_subrange(body, LobFirstHeader::size(), body.len())
    }
}

/// An entry of the index of a value: it names the page that holds one stretch of it.
#[derive(Debug, Clone, Copy)]
pub struct LobIndexEntry {
    pub file_list_node: FileListInnerNode,
    pub version_list: FileListBaseNode,
    /// 6 bytes
    pub creation_transaction_id: u64,
    /// 6 bytes
    pub modify_transaction_id: u64,
    /// Undo number of the creating transaction
    pub undo_number: u32,
    /// Undo number of the modifying transaction
    pub undo_number_modify: u32,
    pub page_number: u32,
    pub data_length: u16,
    /// Follows a gap of two bytes.
    pub lob_version: u32,
}

impl LobIndexEntry {
    /// The entry that the 60 bytes at `s[at..]` encode.
    pub open spec fn decode(s: Seq<u8>, at: int) -> LobIndexEntry {
        LobIndexEntry {
            file_list_node: FileListInnerNode::decode(s, at),
            version_list: FileListBaseNode::decode(s, at + 12),
            creation_transaction_id: be_u48(s, at + 28),
            modify_transaction_id: be_u48(s, at + 34),
            undo_number: be_u32(s, at + 40),
            undo_number_modify: be_u32(s, at + 44),
            page_number: be_u32(s, at + 48),
            data_length: be_u16(s, at + 52),
            lob_version: be_u32(s, at + 56),
        }
    }

    /// Decodes the structure at the start of the buffer; a buffer that is too short is an
    /// error.
    pub fn try_from_bytes(bytes: &[u8]) -> (r: Result<Self, InnoDBError>)
        ensures
            bytes@.len() >= 60 ==> r == Ok::<Self, InnoDBError>(LobIndexEntry::decode(bytes@, 0)),
            bytes@.len() < 60 ==> r == Err::<Self, InnoDBError>(InnoDBError::InvalidLength),
    {
        if bytes.len() < Self::size() {
            return Err(InnoDBError::InvalidLength);
        }
        Ok(LobIndexEntry::read_at(bytes, 0))
    }

    /// Reads the entry that starts at `at`.
    pub fn read_at(bytes: &[u8], at: usize) -> (r: Self)
        requires
            at + 60 <= bytes.len(),
        ensures
            r == LobIndexEntry::decode(bytes@, at as int),
    {
        let mut offset: usize = at;
        let file_list_node = FileListInnerNode::read_at(bytes, offset);
        offset += FileListInnerNode::size();
        let version_list = FileListBaseNode::read_at(bytes, offset);
        offset += FileListBaseNode::size();
        let creation_transaction_id = read_u48(bytes, offset);
        offset += 6;
        let modify_transaction_id = read_u48(bytes, offset);
        offset += 6;
        let undo_number = read_u32(bytes, offset);
        offset += 4;
        let undo_number_modify = read_u32(bytes, offset);
        offset += 4;
        let page_number = read_u32(bytes, offset);
        offset += 4;
        let data_length = read_u16(bytes, offset);
        offset += 2;
        // a gap of two bytes
        offset += 2;
        let lob_version = read_u32(bytes, offset);
        LobIndexEntry {
            file_list_node,
            version_list,
            creation_transaction_id,
            modify_transaction_id,
            undo_number,
            undo_number_modify,
            page_number,
            data_length,
            lob_version,
        }
    }

    /// Number of bytes that the structure takes.
    pub fn size() -> (r: usize)
        ensures
            r == 60,
    {
        60
    }
}

} // verus!
