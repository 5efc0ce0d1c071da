//! Pages that hold a stretch of an externally stored value after its first page.
use vstd::prelude::*;

use crate::innodb::bytes::{be_u32, be_u48, copy_prefix, read_u32, read_u48};
use crate::innodb::page::lob::read_outcome;
use crate::innodb::page::{body_of, Page, PageType};
use crate::innodb::InnoDBError;

verus! {

/// Number of data bytes that a data page can hold.
pub const LOB_DATA_CAPACITY: usize = 16327;

/// The 11 bytes that open the body of a data page.
#[derive(Debug, Clone, Copy)]
pub struct LobDataHeader {
    pub version: u8,
    pub data_len: u32,
    /// 6 bytes
    pub trx_id: u64,
}

impl LobDataHeader {
    /// The header that the first 11 bytes of `s` encode.
    pub open spec fn decode(s: Seq<u8>) -> LobDataHeader {
        LobDataHeader { version: s[0], data_len: be_u32(s, 1), trx_id: be_u48(s, 5) }
    }

    /// Size of the header.
    pub fn size() -> (r: usize)
        ensures
            r == 11,
    {
        1 + 4 + 6
    }

    /// Decodes the header at the start of `buf`.
    pub fn try_from_bytes(buf: &[u8]) -> (r: Result<Self, InnoDBError>)
        ensures
            buf@.len() >= 11 ==> r == Ok::<Self, InnoDBError>(LobDataHeader::decode(buf@)),
            buf@.len() < 11 ==> r == Err::<Self, InnoDBError>(InnoDBError::InvalidLength),
    {
        if buf.len() < 11 {
            return Err(InnoDBError::InvalidLength);
        }
        Ok(
            LobDataHeader {
                version: buf[0],
                data_len: read_u32(buf, 1),
                trx_id: read_u48(buf, 5),
            },
        )
    }
}

/// The data that a data page with these bytes holds, if the length that its header
/// declares fits the page.
pub open spec fn lob_data_of(page: Seq<u8>) -> Option<Seq<u8>> {
    let body = body_of(page);
    let data_len = LobDataHeader::decode(body).data_len;
    if data_len <= LOB_DATA_CAPACITY {
        Some(body.subrange(11, 11 + data_len))
    } else {
        None
    }
}

/// A data page of a value: the page, and the header decoded from its body.
#[derive(Debug, Clone, Copy)]
pub struct LobData<'a> {
    pub page: &'a Page<'a>,
    pub header: LobDataHeader,
}

impl<'a> LobData<'a> {
    /// The page is a data page and the header is that of its body.
    pub open spec fn wf(&self) -> bool {
        &&& self.page.wf()
        &&& self.page.header.page_type == PageType::LobData
        &&& self.header == LobDataHeader::decode(body_of(self.page.raw_data@))
    }

    /// Takes a page as a data page; a page of another type is an error.
    pub fn try_from_page(p: &'a Page<'a>) -> (r: Result<Self, InnoDBError>)
        requires
            p.wf(),
        ensures
            p.header.page_type == PageType::LobData ==> r is Ok && r->Ok_0.page == p
                && r->Ok_0.wf(),
            p.header.page_type != PageType::LobData ==> r == Err::<Self, InnoDBError>(
                InnoDBError::InvalidPageType {
                    expected: PageType::LobData,
                    actual: p.header.page_type,
                },
            ),
    {
        match p.header.page_type {
            PageType::LobData => {
                let header = match LobDataHeader::try_from_bytes(p.body()) {
                    Ok(h) => h,
                    Err(e) => { return Err(e); },
                };
                Ok(LobData { page: p, header })
            },
            _ => Err(
                InnoDBError::InvalidPageType {
                    expected: PageType::LobData,
                    actual: p.header.page_type,
                },
            ),
        }
    }

    /// Copies data of this page, from `offset` on, to the start of `buf`, as much as
    /// fits, and returns the number of bytes copied. Fails where the declared data
    /// length exceeds the page or nothing lies at `offset`.
    pub fn read(&self, offset: usize, buf: &mut [u8]) -> (r: Result<usize, InnoDBError>)
        requires
            self.wf(),
        ensures
            match read_outcome(lob_data_of(self.page.raw_data@), offset as int, old(buf)@) {
                Some((bytes, n)) => r == Ok::<usize, InnoDBError>(n as usize) && final(buf)@
                    == bytes,
                None => r == Err::<usize, InnoDBError>(InnoDBError::InvalidLength) && final(buf)@
                    == old(buf)@,
            },
    {
        let data_len = self.header.data_len as usize;
        if data_len > LOB_DATA_CAPACITY || offset >= data_len {
            return Err(InnoDBError::InvalidLength);
        }
        let body = self.body();
        let data = vstd::slice::slice_subrange(body, offset, data_len);
        proof {
            let whole = lob_data_of(self.page.raw_data@)->Some_0;
            assert(data@ =~= whole.subrange(offset as int, whole.len() as int));
        }
        Ok(copy_prefix(buf, data))
    }

    /// The body of the page after the header.
    pub fn body(&self) -> (r: &'a [u8])
        requires
            self.wf(),
        ensures
            r@ == body_of(self.page.raw_data@).subrange(11, 16338),
    {
        let body = self.page.body();
        vstd::slice::slice_subrange(body, LobDataHeader::size(), body.len())
    }
}

} // verus!
