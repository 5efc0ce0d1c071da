//! Index pages: the index header that opens the page body, and the chain of
//! records that starts at the infimum.
use vstd::prelude::*;

use crate::innodb::bytes::{be_u16, be_u64, read_u16, read_u64};
use crate::innodb::page::record::{valid_record_at, Record, RecordHeader, RecordType};
use crate::innodb::page::{body_of, Page, PageType};
use crate::innodb::InnoDBError;

verus! {

/// Offset of the infimum record in every index page.
pub const INFIMUM_OFFSET: usize = 99;

/// The row format of the records of an index page.
#[derive(Clone, Copy, Debug, PartialEq, Eq, Structural)]
pub enum IndexFormat {
    Redundant,
    Compact,
}

/// The 36 bytes that open the body of an index page.
#[derive(Debug, Clone, Copy)]
pub struct IndexHeader {
    pub number_of_directory_slots: u16,
    pub heap_top_position: u16,
    /// Highest bit of the field that also holds the number of heap records.
    pub format: IndexFormat,
    /// Lower 15 bits of that field.
    pub number_of_heap_records: u16,
    pub first_garbage_record_offset: u16,
    pub garbage_space: u16,
    pub last_insert_position: u16,
    pub page_direction: u16,
    pub number_of_inserts_in_page_direction: u16,
    pub number_of_records: u16,
    pub maximum_transaction_id: u64,
    /// Nonzero in an internal node.
    pub page_level: u16,
    pub index_id: u64,
}

impl IndexHeader {
    /// The index header that the first 36 bytes of `s` encode.
    pub open spec fn decode(s: Seq<u8>) -> IndexHeader {
        IndexHeader {
            number_of_directory_slots: be_u16(s, 0),
            heap_top_position: be_u16(s, 2),
            format: if be_u16(s, 4) < 0x8000 {
                IndexFormat::Redundant
            } else {
                IndexFormat::Compact
            },
            number_of_heap_records: be_u16(s, 4) % 0x8000,
            first_garbage_record_offset: be_u16(s, 6),
            garbage_space: be_u16(s, 8),
            last_insert_position: be_u16(s, 10),
            page_direction: be_u16(s, 12),
            number_of_inserts_in_page_direction: be_u16(s, 14),
            number_of_records: be_u16(s, 16),
            maximum_transaction_id: be_u64(s, 18),
            page_level: be_u16(s, 26),
            index_id: be_u64(s, 28),
        }
    }

    /// Decodes the index header at the start of `data`.
    pub fn from_bytes(data: &[u8]) -> (r: Result<Self, InnoDBError>)
        ensures
            data@.len() >= 36 ==> r == Ok::<Self, InnoDBError>(IndexHeader::decode(data@)),
            data@.len() < 36 ==> r == Err::<Self, InnoDBError>(InnoDBError::InvalidLength),
    {
        if data.len() < 36 {
            return Err(InnoDBError::InvalidLength);
        }
        let format_and_num_heap_records_raw: u16 = read_u16(data, 4);
        Ok(
            IndexHeader {
                number_of_directory_slots: read_u16(data, 0),
                heap_top_position: read_u16(data, 2),
                format: if format_and_num_heap_records_raw < 0x8000 {
                    IndexFormat::Redundant
                } else {
                    IndexFormat::Compact
                },
                number_of_heap_records: format_and_num_heap_records_raw % 0x8000,
                first_garbage_record_offset: read_u16(data, 6),
                garbage_space: read_u16(data, 8),
                last_insert_position: read_u16(data, 10),
                page_direction: read_u16(data, 12),
                number_of_inserts_in_page_direction: read_u16(data, 14),
                number_of_records: read_u16(data, 16),
                maximum_transaction_id: read_u64(data, 18),
                page_level: read_u16(data, 26),
                index_id: read_u64(data, 28),
            },
        )
    }
}

/// The record that a page holds at `offset`.
pub open spec fn record_at<'a>(buf: &'a [u8], offset: int) -> Record<'a> {
    Record { header: RecordHeader::decode(buf@, offset), offset: offset as usize, buf }
}

/// `v` starts at the infimum of the page and each of its records is followed by its
/// successor in the page.
pub open spec fn is_chain_prefix<'a>(buf: &'a [u8], v: Seq<Record<'a>>) -> bool {
    &&& v.len() >= 1
    &&& valid_record_at(buf@, INFIMUM_OFFSET as int)
    &&& v[0] == record_at(buf, INFIMUM_OFFSET as int)
    &&& forall|i: int| 0 <= i < v.len() - 1 ==> (#[trigger] v[i]).successor() == Some(v[i + 1])
}

/// `v` is the whole chain of the page: it starts at the infimum, follows the next
/// offsets, and ends at a supremum.
pub open spec fn is_record_chain<'a>(buf: &'a [u8], v: Seq<Record<'a>>) -> bool {
    &&& is_chain_prefix(buf, v)
    &&& v.last().header.record_type == RecordType::Supremum
}

/// Two walks from the infimum of one page agree as far as both go.
pub proof fn lemma_chain_prefix_unique<'a>(
    buf: &'a [u8],
    a: Seq<Record<'a>>,
    b: Seq<Record<'a>>,
    i: int,
)
    requires
        is_chain_prefix(buf, a),
        is_chain_prefix(buf, b),
        0 <= i < a.len(),
        i < b.len(),
    ensures
        a[i] == b[i],
    decreases i,
{
    if i > 0 {
        lemma_chain_prefix_unique(buf, a, b, i - 1);
        assert(a[i - 1].successor() == Some(a[i]));
        assert(b[i - 1].successor() == Some(b[i]));
    }
}

/// An index page: the page, and the index header decoded from its body.
#[derive(Debug, Clone)]
pub struct IndexPage<'a> {
    pub page: Page<'a>,
    pub index_header: IndexHeader,
}

impl<'a> IndexPage<'a> {
    /// The page is an index page and the header is that of its body.
    pub open spec fn wf(&self) -> bool {
        &&& self.page.wf()
        &&& self.page.header.page_type == PageType::Index
        &&& self.index_header == IndexHeader::decode(body_of(self.page.raw_data@))
    }

    /// The most records that a walk over this page visits.
    pub open spec fn walk_limit(&self) -> int {
        self.index_header.number_of_heap_records + 2
    }

    /// Takes a page as an index page; a page of another type is an error.
    pub fn try_from_page(page: Page<'a>) -> (r: Result<IndexPage<'a>, InnoDBError>)
        requires
            page.wf(),
        ensures
            page.header.page_type == PageType::Index ==> r is Ok && r->Ok_0.page == page
                && r->Ok_0.wf(),
            page.header.page_type != PageType::Index ==> r == Err::<IndexPage<'a>, InnoDBError>(
                InnoDBError::InvalidPageType {
                    expected: PageType::Index,
                    actual: page.header.page_type,
                },
            ),
    {
        match page.header.page_type {
            PageType::Index => {
                let index_header = match IndexHeader::from_bytes(page.body()) {
                    Ok(h) => h,
                    Err(e) => { return Err(e); },
                };
                Ok(IndexPage { page, index_header })
            },
            _ => Err(
                InnoDBError::InvalidPageType {
                    expected: PageType::Index,
                    actual: page.header.page_type,
                },
            ),
        }
    }

    /// The first record of the chain. It lies at a fixed offset.
    pub fn infimum(&self) -> (r: Result<Record<'a>, InnoDBError>)
        requires
            self.wf(),
        ensures
            valid_record_at(self.page.raw_data@, INFIMUM_OFFSET as int) ==> r == Ok::<
                Record<'a>,
                InnoDBError,
            >(record_at(self.page.raw_data, INFIMUM_OFFSET as int)),
            !valid_record_at(self.page.raw_data@, INFIMUM_OFFSET as int) ==> r == Err::<
                Record<'a>,
                InnoDBError,
            >(InnoDBError::InvalidPage),
            r is Ok ==> r->Ok_0.wf(),
    {
        Record::try_from_offset(self.page.raw_data, INFIMUM_OFFSET)
    }

    /// Walks the chain of records from the infimum to the supremum. The walk visits at
    /// most `number_of_heap_records + 2` records: a page whose chain does not reach a
    /// supremum within that many records is rejected.
    pub fn records(&self) -> (r: Result<Vec<Record<'a>>, InnoDBError>)
        requires
            self.wf(),
        ensures
            r matches Ok(v) ==> {
                &&& is_record_chain(self.page.raw_data, v@)
                &&& v@.len() <= self.walk_limit()
                &&& forall|i: int| 0 <= i < v@.len() ==> (#[trigger] v@[i]).wf()
            },
            r matches Err(e) ==> {
                &&& e == InnoDBError::InvalidPage
                &&& forall|c: Seq<Record<'a>>|
                    is_record_chain(self.page.raw_data, c) ==> c.len() > self.walk_limit()
            },
    {
        let buf = self.page.raw_data;
        let limit: usize = self.index_header.number_of_heap_records as usize + 2;
        let first = match self.infimum() {
            Ok(first) => first,
            Err(e) => { return Err(e); },
        };
        let mut v: Vec<Record<'a>> = Vec::new();
        v.push(first);
        loop
            invariant
                buf == self.page.raw_data,
                limit == self.walk_limit(),
                is_chain_prefix(buf, v@),
                v@.len() <= limit,
                forall|i: int| 0 <= i < v@.len() ==> (#[trigger] v@[i]).wf(),
            decreases limit - v@.len(),
        {
            let last = v[v.len() - 1];
            if let RecordType::Supremum = last.header.record_type {
                return Ok(v);
            }
            if v.len() >= limit {
                proof {
                    assert forall|c: Seq<Record<'a>>| is_record_chain(buf, c) implies c.len()
                        > limit by {
                        if c.len() <= limit {
                            lemma_chain_prefix_unique(buf, c, v@, c.len() - 1);
                            if c.len() < v@.len() {
                                assert(v@[c.len() - 1].successor() == Some(v@[c.len() as int]));
                            }
                        }
                    }
                }
                return Err(InnoDBError::InvalidPage);
            }
            match last.next() {
                Some(next) => {
                    v.push(next);
                },
                None => {
                    proof {
                        assert forall|c: Seq<Record<'a>>| is_record_chain(buf, c) implies c.len()
                            > limit by {
                            if c.len() <= v@.len() {
                                lemma_chain_prefix_unique(buf, c, v@, c.len() - 1);
                                if c.len() < v@.len() {
                                    assert(v@[c.len() - 1].successor() == Some(
                                        v@[c.len() as int],
                                    ));
                                }
                            } else {
                                lemma_chain_prefix_unique(buf, c, v@, v@.len() - 1);
                                assert(c[v@.len() - 1].successor() == Some(c[v@.len() as int]));
                            }
                        }
                    }
                    return Err(InnoDBError::InvalidPage);
                },
            }
        }
    }
}

} // verus!
