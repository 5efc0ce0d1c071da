//! Page framing: the 38-byte header, the 8-byte trailer and the two checksums
//! that are defined over a 16 KiB page.
pub mod index;
pub mod lob;
pub mod record;

use vstd::prelude::*;

use crate::innodb::bytes::{be_u16, be_u32, be_u64, read_u16, read_u32, read_u64};
use crate::innodb::InnoDBError;
use crc::{Crc, CRC_32_ISCSI};

verus! {

/// The mask that the folded-byte hash applies last.
pub const HASH_RANDOM_MASK: u32 = 0x5741_7087;

/// The mask that the folded-byte hash applies first.
pub const HASH_RANDOM_MASK2: u32 = 0x628E_5B0F;

/// Size of every page of a tablespace.
pub const FIL_PAGE_SIZE: usize = 16384;

/// Size of the trailer of a page.
pub const FIL_TRAILER_SIZE: usize = 8;

/// Size of the header of a page.
pub const FIL_HEADER_SIZE: usize = 38;

/// The part of the header that the checksums cover starts after the stored checksum.
pub const FIL_HEADER_PARTIAL_OFFSET: usize = 4;

/// The covered part leaves out the checksum (4), the flush LSN (8) and the space id (4).
pub const FIL_HEADER_PARTIAL_SIZE: usize = 22;

/// Offset of the body of a page.
pub const FIL_PAGE_BODY_OFFSET: usize = 38;

/// Size of the body of a page.
pub const FIL_PAGE_BODY_SIZE: usize = 16338;

/// The closed set of page types.
#[derive(Clone, Copy, Debug, PartialEq, Eq, Structural)]
pub enum PageType {
    /// Freshly allocated
    Allocated,
    /// Undo log
    UndoLog,
    /// File segment inode
    Inode,
    /// Insert buffer free list
    IbufFreeList,
    /// Insert buffer bitmap
    IbufBitmap,
    /// System internal
    Sys,
    /// Transaction system header
    TrxSys,
    /// File space header
    FspHdr,
    /// Extent descriptor
    Xdes,
    /// Uncompressed BLOB
    Blob,
    /// First compressed BLOB
    Zblob,
    /// Subsequent compressed BLOB
    Zblob2,
    /// Unknown; also stands for every code outside the set
    Unknown,
    /// Compressed
    Compressed,
    /// Encrypted
    Encrypted,
    /// Compressed and encrypted
    CompressedAndEncrypted,
    /// Encrypted R-tree
    EncryptedRtree,
    /// Uncompressed SDI BLOB
    SdiBlob,
    /// Compressed SDI BLOB
    SdiZblob,
    /// Legacy doublewrite buffer
    LegacyDblwr,
    /// Rollback segment array
    RsegArray,
    /// Index of uncompressed LOB
    LobIndex,
    /// Data of uncompressed LOB
    LobData,
    /// First page of an uncompressed LOB
    LobFirst,
    /// First page of a compressed LOB
    ZlobFirst,
    /// Data of compressed LOB
    ZlobData,
    /// Index of compressed LOB
    ZlobIndex,
    /// Fragment of compressed LOB
    ZlobFrag,
    /// Index of fragment for compressed LOB
    ZlobFragEntry,
    /// Serialized dictionary information
    SDI,
    /// R-tree index
    RTree,
    /// B+Tree index
    Index,
}

impl PageType {
    /// The number that stands for this type in a page header.
    pub open spec fn code(self) -> u16 {
        match self {
            PageType::Allocated => 0,
            PageType::UndoLog => 2,
            PageType::Inode => 3,
            PageType::IbufFreeList => 4,
            PageType::IbufBitmap => 5,
            PageType::Sys => 6,
            PageType::TrxSys => 7,
            PageType::FspHdr => 8,
            PageType::Xdes => 9,
            PageType::Blob => 10,
            PageType::Zblob => 11,
            PageType::Zblob2 => 12,
            PageType::Unknown => 13,
            PageType::Compressed => 14,
            PageType::Encrypted => 15,
            PageType::CompressedAndEncrypted => 16,
            PageType::EncryptedRtree => 17,
            PageType::SdiBlob => 18,
            PageType::SdiZblob => 19,
            PageType::LegacyDblwr => 20,
            PageType::RsegArray => 21,
            PageType::LobIndex => 22,
            PageType::LobData => 23,
            PageType::LobFirst => 24,
            PageType::ZlobFirst => 25,
            PageType::ZlobData => 26,
            PageType::ZlobIndex => 27,
            PageType::ZlobFrag => 28,
            PageType::ZlobFragEntry => 29,
            PageType::SDI => 17853,
            PageType::RTree => 17854,
            PageType::Index => 17855,
        }
    }

    /// The type that a header number stands for, if it is one of the set.
    pub open spec fn from_code(v: u16) -> Option<PageType> {
        if v == 0 {
            Some(PageType::Allocated)
        } else if v == 2 {
            Some(PageType::UndoLog)
        } else if v == 3 {
            Some(PageType::Inode)
        } else if v == 4 {
            Some(PageType::IbufFreeList)
        } else if v == 5 {
            Some(PageType::IbufBitmap)
        } else if v == 6 {
            Some(PageType::Sys)
        } else if v == 7 {
            Some(PageType::TrxSys)
        } else if v == 8 {
            Some(PageType::FspHdr)
        } else if v == 9 {
            Some(PageType::Xdes)
        } else if v == 10 {
            Some(PageType::Blob)
        } else if v == 11 {
            Some(PageType::Zblob)
        } else if v == 12 {
            Some(PageType::Zblob2)
        } else if v == 13 {
            Some(PageType::Unknown)
        } else if v == 14 {
            Some(PageType::Compressed)
        } else if v == 15 {
            Some(PageType::Encrypted)
        } else if v == 16 {
            Some(PageType::CompressedAndEncrypted)
        } else if v == 17 {
            Some(PageType::EncryptedRtree)
        } else if v == 18 {
            Some(PageType::SdiBlob)
        } else if v == 19 {
            Some(PageType::SdiZblob)
        } else if v == 20 {
            Some(PageType::LegacyDblwr)
        } else if v == 21 {
            Some(PageType::RsegArray)
        } else if v == 22 {
            Some(PageType::LobIndex)
        } else if v == 23 {
            Some(PageType::LobData)
        } else if v == 24 {
            Some(PageType::LobFirst)
        } else if v == 25 {
            Some(PageType::ZlobFirst)
        } else if v == 26 {
            Some(PageType::ZlobData)
        } else if v == 27 {
            Some(PageType::ZlobIndex)
        } else if v == 28 {
            Some(PageType::ZlobFrag)
        } else if v == 29 {
            Some(PageType::ZlobFragEntry)
        } else if v == 17853 {
            Some(PageType::SDI)
        } else if v == 17854 {
            Some(PageType::RTree)
        } else if v == 17855 {
            Some(PageType::Index)
        } else {
            None
        }
    }

    /// The type that a header number decodes to: numbers outside the set give `Unknown`.
    pub open spec fn decode(v: u16) -> PageType {
        match PageType::from_code(v) {
            Some(t) => t,
            None => PageType::Unknown,
        }
    }

    /// The number that stands for a type in a page header.
    pub fn to_primitive(&self) -> (v: u16)
        ensures
            v == self.code(),
            PageType::from_code(v) == Some(*self),
    {
        match self {
            PageType::Allocated => 0,
            PageType::UndoLog => 2,
            PageType::Inode => 3,
            PageType::IbufFreeList => 4,
            PageType::IbufBitmap => 5,
            PageType::Sys => 6,
            PageType::TrxSys => 7,
            PageType::FspHdr => 8,
            PageType::Xdes => 9,
            PageType::Blob => 10,
            PageType::Zblob => 11,
            PageType::Zblob2 => 12,
            PageType::Unknown => 13,
            PageType::Compressed => 14,
            PageType::Encrypted => 15,
            PageType::CompressedAndEncrypted => 16,
            PageType::EncryptedRtree => 17,
            PageType::SdiBlob => 18,
            PageType::SdiZblob => 19,
            PageType::LegacyDblwr => 20,
            PageType::RsegArray => 21,
            PageType::LobIndex => 22,
            PageType::LobData => 23,
            PageType::LobFirst => 24,
            PageType::ZlobFirst => 25,
            PageType::ZlobData => 26,
            PageType::ZlobIndex => 27,
            PageType::ZlobFrag => 28,
            PageType::ZlobFragEntry => 29,
            PageType::SDI => 17853,
            PageType::RTree => 17854,
            PageType::Index => 17855,
        }
    }

    /// Decodes a header number, and rejects one that stands for no type.
    pub fn try_from_primitive(v: u16) -> (r: Result<PageType, InnoDBError>)
        ensures
            match PageType::from_code(v) {
                Some(t) => r == Ok::<PageType, InnoDBError>(t),
                None => r == Err::<PageType, InnoDBError>(InnoDBError::InvalidPage),
            },
    {
        if v == 0 {
            Ok(PageType::Allocated)
        } else if v == 2 {
            Ok(PageType::UndoLog)
        } else if v == 3 {
            Ok(PageType::Inode)
        } else if v == 4 {
            Ok(PageType::IbufFreeList)
        } else if v == 5 {
            Ok(PageType::IbufBitmap)
        } else if v == 6 {
            Ok(PageType::Sys)
        } else if v == 7 {
            Ok(PageType::TrxSys)
        } else if v == 8 {
            Ok(PageType::FspHdr)
        } else if v == 9 {
            Ok(PageType::Xdes)
        } else if v == 10 {
            Ok(PageType::Blob)
        } else if v == 11 {
            Ok(PageType::Zblob)
        } else if v == 12 {
            Ok(PageType::Zblob2)
        } else if v == 13 {
            Ok(PageType::Unknown)
        } else if v == 14 {
            Ok(PageType::Compressed)
        } else if v == 15 {
            Ok(PageType::Encrypted)
        } else if v == 16 {
            Ok(PageType::CompressedAndEncrypted)
        } else if v == 17 {
            Ok(PageType::EncryptedRtree)
        } else if v == 18 {
            Ok(PageType::SdiBlob)
        } else if v == 19 {
            Ok(PageType::SdiZblob)
        } else if v == 20 {
            Ok(PageType::LegacyDblwr)
        } else if v == 21 {
            Ok(PageType::RsegArray)
        } else if v == 22 {
            Ok(PageType::LobIndex)
        } else if v == 23 {
            Ok(PageType::LobData)
        } else if v == 24 {
            Ok(PageType::LobFirst)
        } else if v == 25 {
            Ok(PageType::ZlobFirst)
        } else if v == 26 {
            Ok(PageType::ZlobData)
        } else if v == 27 {
            Ok(PageType::ZlobIndex)
        } else if v == 28 {
            Ok(PageType::ZlobFrag)
        } else if v == 29 {
            Ok(PageType::ZlobFragEntry)
        } else if v == 17853 {
            Ok(PageType::SDI)
        } else if v == 17854 {
            Ok(PageType::RTree)
        } else if v == 17855 {
            Ok(PageType::Index)
        } else {
            Err(InnoDBError::InvalidPage)
        }
    }
}

impl Default for PageType {
    fn default() -> (r: PageType)
        ensures
            r == PageType::Allocated,
    {
        PageType::Allocated
    }
}

/// The 38-byte header that opens every page.
#[derive(Debug, Clone, PartialEq)]
pub struct FILHeader {
    pub new_checksum: u32,
    /// Page number within the tablespace.
    pub offset: u32,
    pub prev: u32,
    pub next: u32,
    pub lsn: u64,
    pub page_type: PageType,
    pub flush_lsn: u64,
    pub space_id: u32,
}

impl FILHeader {
    /// The header that the first 38 bytes of `s` encode.
    pub open spec fn decode(s: Seq<u8>) -> FILHeader {
        FILHeader {
            new_checksum: be_u32(s, 0),
            offset: be_u32(s, 4),
            prev: be_u32(s, 8),
            next: be_u32(s, 12),
            lsn: be_u64(s, 16),
            page_type: PageType::decode(be_u16(s, 24)),
            flush_lsn: be_u64(s, 26),
            space_id: be_u32(s, 34),
        }
    }

    /// Decodes the header at the start of `buffer`; fewer than 38 bytes are an error. A
    /// type code outside the set decodes to `Unknown`.
    pub fn from_bytes(buffer: &[u8]) -> (r: Result<FILHeader, InnoDBError>)
        ensures
            buffer@.len() >= 38 ==> r == Ok::<FILHeader, InnoDBError>(FILHeader::decode(buffer@)),
            buffer@.len() < 38 ==> r == Err::<FILHeader, InnoDBError>(InnoDBError::InvalidLength),
    {
        if buffer.len() < 38 {
            return Err(InnoDBError::InvalidLength);
        }
        let page_type = match PageType::try_from_primitive(read_u16(buffer, 24)) {
            Ok(page_type) => page_type,
            Err(_) => PageType::Unknown,
        };
        Ok(
            FILHeader {
                new_checksum: read_u32(buffer, 0),
                offset: read_u32(buffer, 4),
                prev: read_u32(buffer, 8),
                next: read_u32(buffer, 12),
                lsn: read_u64(buffer, 16),
                page_type,
                flush_lsn: read_u64(buffer, 26),
                space_id: read_u32(buffer, 34),
            },
        )
    }
}

/// The 8-byte trailer that closes every page.
#[derive(Debug, Clone, PartialEq)]
pub struct FILTrailer {
    pub old_checksum: u32,
    pub lsn_low_32: u32,
}

impl FILTrailer {
    /// The trailer that the 8 bytes of `s` encode.
    pub open spec fn decode(s: Seq<u8>) -> FILTrailer {
        FILTrailer { old_checksum: be_u32(s, 0), lsn_low_32: be_u32(s, 4) }
    }

    /// Decodes the trailer from its 8 bytes; any other number of bytes is an error.
    pub fn from_bytes(buffer: &[u8]) -> (r: Result<FILTrailer, InnoDBError>)
        ensures
            buffer@.len() == 8 ==> r == Ok::<FILTrailer, InnoDBError>(FILTrailer::decode(buffer@)),
            buffer@.len() != 8 ==> r == Err::<FILTrailer, InnoDBError>(InnoDBError::InvalidLength),
    {
        if buffer.len() != FIL_TRAILER_SIZE {
            return Err(InnoDBError::InvalidLength);
        }
        Ok(FILTrailer { old_checksum: read_u32(buffer, 0), lsn_low_32: read_u32(buffer, 4) })
    }
}

/// One step of the folded-byte hash.
pub open spec fn fold_pair_spec(n1: u32, n2: u32) -> u32 {
    ((((n1 ^ n2 ^ HASH_RANDOM_MASK2) << 8u32).wrapping_add(n1)) ^ HASH_RANDOM_MASK).wrapping_add(n2)
}

/// The folded-byte hash of a byte string: `fold_pair_spec` folded over it from the left,
/// starting at 0.
pub open spec fn fold_bytes_spec(s: Seq<u8>) -> u32
    decreases s.len(),
{
    if s.len() == 0 {
        0
    } else {
        fold_pair_spec(fold_bytes_spec(s.drop_last()), s.last() as u32)
    }
}

/// One step of the folded-byte hash, with all sums and shifts wrapping at 32 bits.
pub fn fold_pair(n1: u32, n2: u32) -> (r: u32)
    ensures
        r == fold_pair_spec(n1, n2),
{
    ((((n1 ^ n2 ^ HASH_RANDOM_MASK2) << 8u32).wrapping_add(n1)) ^ HASH_RANDOM_MASK).wrapping_add(n2)
}

/// The folded-byte hash of a byte string.
pub fn fold_bytes(buf: &[u8]) -> (r: u32)
    ensures
        r == fold_bytes_spec(buf@),
{
    let mut fold: u32 = 0;
    let mut i: usize = 0;
    while i < buf.len()
        invariant
            i <= buf@.len(),
            fold == fold_bytes_spec(buf@.subrange(0, i as int)),
        decreases buf@.len() - i,
    {
        assert(buf@.subrange(0, i + 1).drop_last() == buf@.subrange(0, i as int));
        fold = fold_pair(fold, buf[i] as u32);
        i += 1;
    }
    assert(buf@.subrange(0, i as int) == buf@);
    fold
}

/// The CRC-32C (Castagnoli) checksum of a byte string.
pub uninterp spec fn crc32c(bytes: Seq<u8>) -> u32;

/// Calls `crc::Crc::<u32>::checksum` with the `CRC_32_ISCSI` algorithm of the catalog.
/// The contract only names what comes back: the CRC-32C of the bytes, a function of
/// the bytes alone.
#[verifier::external_body]
fn crc32c_checksum(bytes: &[u8]) -> (r: u32)
    ensures
        r == crc32c(bytes@),
{
    Crc::<u32>::new(&CRC_32_ISCSI).checksum(bytes)
}

/// The checksum-covered part of the header of a page: bytes 4 to 26.
pub open spec fn partial_header_of(page: Seq<u8>) -> Seq<u8> {
    page.subrange(4, 26)
}

/// The body of a page: what lies between header and trailer.
pub open spec fn body_of(page: Seq<u8>) -> Seq<u8> {
    page.subrange(38, 16376)
}

/// The folded-byte checksum of a whole page.
pub open spec fn innodb_checksum_of(page: Seq<u8>) -> u32 {
    fold_bytes_spec(partial_header_of(page)).wrapping_add(fold_bytes_spec(body_of(page)))
}

/// The CRC-32C checksum of a whole page: the two halves combined with XOR.
pub open spec fn crc32_checksum_of(page: Seq<u8>) -> u32 {
    crc32c(partial_header_of(page)) ^ crc32c(body_of(page))
}

/// Combines the CRC-32C of the partial header with that of the body.
pub fn combine_crc32(header_crc: u32, body_crc: u32) -> (r: u32)
    ensures
        r == header_crc ^ body_crc,
{
    header_crc ^ body_crc
}

/// A view over one page of 16 KiB: the bytes, and header and trailer decoded from them.
#[derive(Debug, Clone, PartialEq)]
pub struct Page<'a> {
    pub header: FILHeader,
    pub trailer: FILTrailer,
    pub raw_data: &'a [u8],
}

impl<'a> Page<'a> {
    /// The view is over exactly one page, and header and trailer are those of its bytes.
    pub open spec fn wf(&self) -> bool {
        &&& self.raw_data@.len() == FIL_PAGE_SIZE
        &&& self.header == FILHeader::decode(self.raw_data@)
        &&& self.trailer == FILTrailer::decode(self.raw_data@.subrange(16376, 16384))
    }

    /// Takes a buffer of exactly 16 KiB as a page, and decodes header and trailer. The
    /// view shares the bytes of the buffer. Checksums are not held against the bytes
    /// here: that is for the caller to ask for.
    pub fn from_bytes(buf: &'a [u8]) -> (r: Result<Page<'a>, InnoDBError>)
        ensures
            buf@.len() == FIL_PAGE_SIZE ==> r is Ok && r->Ok_0.raw_data@ == buf@ && r->Ok_0.wf(),
            buf@.len() != FIL_PAGE_SIZE ==> r == Err::<Page<'a>, InnoDBError>(
                InnoDBError::InvalidLength,
            ),
    {
        if buf.len() != FIL_PAGE_SIZE {
            return Err(InnoDBError::InvalidLength);
        }
        let header = match FILHeader::from_bytes(buf) {
            Ok(header) => header,
            Err(e) => { return Err(e); },
        };
        let tail = vstd::slice::slice_subrange(buf, FIL_PAGE_SIZE - FIL_TRAILER_SIZE, FIL_PAGE_SIZE);
        let trailer = match FILTrailer::from_bytes(tail) {
            Ok(trailer) => trailer,
            Err(e) => { return Err(e); },
        };
        Ok(Page { header, trailer, raw_data: buf })
    }

    /// The part of the header that the checksums cover.
    pub fn partial_page_header(&self) -> (r: &'a [u8])
        requires
            self.wf(),
        ensures
            r@ == partial_header_of(self.raw_data@),
    {
        vstd::slice::slice_subrange(
            self.raw_data,
            FIL_HEADER_PARTIAL_OFFSET,
            FIL_HEADER_PARTIAL_OFFSET + FIL_HEADER_PARTIAL_SIZE,
        )
    }

    /// The body of the page.
    pub fn body(&self) -> (r: &'a [u8])
        requires
            self.wf(),
        ensures
            r@ == body_of(self.raw_data@),
            r@.len() == FIL_PAGE_BODY_SIZE,
    {
        vstd::slice::slice_subrange(
            self.raw_data,
            FIL_PAGE_BODY_OFFSET,
            FIL_PAGE_BODY_OFFSET + FIL_PAGE_BODY_SIZE,
        )
    }

    /// The folded-byte checksum of the page: the hashes of covered header and body, added.
    pub fn innodb_checksum(&self) -> (r: u32)
        requires
            self.wf(),
        ensures
            r == innodb_checksum_of(self.raw_data@),
    {
        let header_checksum = fold_bytes(self.partial_page_header());
        let body_checksum = fold_bytes(self.body());
        header_checksum.wrapping_add(body_checksum)
    }

    /// The CRC-32C checksum of the page: those of covered header and body, combined with XOR.
    pub fn crc32_checksum(&self) -> (r: u32)
        requires
            self.wf(),
        ensures
            r == crc32_checksum_of(self.raw_data@),
    {
        combine_crc32(crc32c_checksum(self.partial_page_header()), crc32c_checksum(self.body()))
    }
}

/// What a span of 16 KiB turns out to be when it is held against the page format.
#[derive(Debug, Clone, Copy, PartialEq, Eq, Structural)]
pub enum PageValidity {
    /// A page whose stored checksum is one of its two checksums.
    Valid,
    /// A page whose checksum fails while header and trailer agree on the LSN.
    InvalidChecksum,
    /// Not a page.
    NotAPage,
    /// An allocated page that was never written.
    EmptyPage,
}

/// The verdict on a page, given its header, its trailer and its two checksums.
pub open spec fn validity_of(
    header: FILHeader,
    trailer: FILTrailer,
    crc32: u32,
    folded: u32,
) -> PageValidity {
    match header.page_type {
        PageType::Unknown => PageValidity::NotAPage,
        PageType::Allocated => if header.new_checksum == 0 {
            PageValidity::EmptyPage
        } else {
            PageValidity::NotAPage
        },
        _ => if crc32 == header.new_checksum || folded == header.new_checksum {
            PageValidity::Valid
        } else if header.lsn % 0x1_0000_0000 == trailer.lsn_low_32 {
            PageValidity::InvalidChecksum
        } else {
            PageValidity::NotAPage
        },
    }
}

/// Decides what a page is from its header, its trailer and its two checksums.
pub fn classify_page(header: &FILHeader, trailer: &FILTrailer, crc32: u32, folded: u32) -> (r:
    PageValidity)
    ensures
        r == validity_of(*header, *trailer, crc32, folded),
{
    match header.page_type {
        PageType::Unknown => PageValidity::NotAPage,
        PageType::Allocated => {
            if header.new_checksum == 0 {
                PageValidity::EmptyPage
            } else {
                PageValidity::NotAPage
            }
        },
        _ => {
            if crc32 == header.new_checksum || folded == header.new_checksum {
                PageValidity::Valid
            } else if header.lsn % 0x1_0000_0000 == trailer.lsn_low_32 as u64 {
                PageValidity::InvalidChecksum
            } else {
                PageValidity::NotAPage
            }
        },
    }
}

/// The verdict on a span of bytes: anything but 16 KiB is no page.
pub open spec fn page_validity_of(bytes: Seq<u8>) -> PageValidity {
    if bytes.len() != FIL_PAGE_SIZE {
        PageValidity::NotAPage
    } else {
        validity_of(
            FILHeader::decode(bytes),
            FILTrailer::decode(bytes.subrange(16376, 16384)),
            crc32_checksum_of(bytes),
            innodb_checksum_of(bytes),
        )
    }
}

/// The stored checksum of a valid page is its CRC-32C checksum or its folded-byte
/// checksum.
pub proof fn lemma_valid_page_checksum(bytes: Seq<u8>)
    requires
        page_validity_of(bytes) == PageValidity::Valid,
    ensures
        bytes.len() == FIL_PAGE_SIZE,
        FILHeader::decode(bytes).new_checksum == crc32_checksum_of(bytes) || FILHeader::decode(
            bytes,
        ).new_checksum == innodb_checksum_of(bytes),
{
}

/// The outcome of validating a span of bytes: a valid page comes with its view.
#[derive(Debug, Clone)]
pub enum PageValidationResult<'a> {
    Valid(Page<'a>),
    InvalidChecksum,
    NotAPage,
    EmptyPage,
}

impl<'a> PageValidationResult<'a> {
    /// The verdict that the outcome stands for.
    pub open spec fn validity(self) -> PageValidity {
        match self {
            PageValidationResult::Valid(_) => PageValidity::Valid,
            PageValidationResult::InvalidChecksum => PageValidity::InvalidChecksum,
            PageValidationResult::NotAPage => PageValidity::NotAPage,
            PageValidationResult::EmptyPage => PageValidity::EmptyPage,
        }
    }
}

/// Holds a span of bytes against the page format. A page is valid exactly when its
/// type is a known one other than `Allocated` and its stored checksum equals its
/// CRC-32C checksum or its folded-byte checksum.
pub fn validate_page<'a>(bytes: &'a [u8]) -> (r: PageValidationResult<'a>)
    ensures
        r.validity() == page_validity_of(bytes@),
        r matches PageValidationResult::Valid(page) ==> {
            &&& page.wf()
            &&& page.raw_data@ == bytes@
            &&& (page.header.new_checksum == crc32_checksum_of(bytes@)
                || page.header.new_checksum == innodb_checksum_of(bytes@))
        },
{
    let page = match Page::from_bytes(bytes) {
        Ok(page) => page,
        Err(_) => { return PageValidationResult::NotAPage; },
    };
    let crc32 = page.crc32_checksum();
    let folded = page.innodb_checksum();
    match classify_page(&page.header, &page.trailer, crc32, folded) {
        PageValidity::Valid => PageValidationResult::Valid(page),
        PageValidity::InvalidChecksum => PageValidationResult::InvalidChecksum,
        PageValidity::NotAPage => PageValidationResult::NotAPage,
        PageValidity::EmptyPage => PageValidationResult::EmptyPage,
    }
}

} // verus!
