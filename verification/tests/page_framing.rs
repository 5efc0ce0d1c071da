use crc::{Crc, CRC_32_ISCSI};
use innodb::innodb::file_list::{FileAddress, FileListBaseNode, FileListInnerNode, FIL_NULL};
use innodb::innodb::page::index::{IndexFormat, IndexHeader, IndexPage};
use innodb::innodb::page::record::{InfoFlags, Record, RecordHeader, RecordType};
use innodb::innodb::page::{
    classify_page, combine_crc32, fold_bytes, fold_pair, validate_page, FILHeader, FILTrailer, Page,
    PageType, PageValidationResult, PageValidity, FIL_PAGE_SIZE,
};
use innodb::innodb::InnoDBError;

fn put_u16(page: &mut [u8], at: usize, v: u16) {
    page[at..at + 2].copy_from_slice(&v.to_be_bytes());
}

fn put_u32(page: &mut [u8], at: usize, v: u32) {
    page[at..at + 4].copy_from_slice(&v.to_be_bytes());
}

fn put_u64(page: &mut [u8], at: usize, v: u64) {
    page[at..at + 8].copy_from_slice(&v.to_be_bytes());
}

/// Writes the CRC-32C checksum of a page into its header.
fn seal(page: &mut [u8]) {
    let crc = Crc::<u32>::new(&CRC_32_ISCSI);
    let sum = crc.checksum(&page[4..26]) ^ crc.checksum(&page[38..16376]);
    put_u32(page, 0, sum);
}

/// An index page of space 5, page 3, with no records but infimum and supremum.
fn empty_index_page() -> Vec<u8> {
    let mut page = vec![0u8; FIL_PAGE_SIZE];
    put_u32(&mut page, 4, 3);
    put_u16(&mut page, 24, 17855);
    put_u32(&mut page, 34, 5);
    put_u16(&mut page, 38 + 4, 0x8002);
    page[94..99].copy_from_slice(&[0x01, 0x00, 0x02, 0x00, 0x0d]);
    page[107..112].copy_from_slice(&[0x01, 0x00, 0x0b, 0x00, 0x00]);
    page
}

/// Writes a record header before `offset`.
fn put_record(page: &mut [u8], offset: usize, order: u16, record_type: u8, next: usize) {
    page[offset - 5] = 0;
    put_u16(page, offset - 4, (order << 3) | record_type as u16);
    put_u16(page, offset - 2, (next as i64 - offset as i64) as i16 as u16);
}

#[test]
fn page_of_16k_shares_its_input() {
    let bytes: Vec<u8> = (0..FIL_PAGE_SIZE).map(|i| (i % 251) as u8).collect();
    let page = Page::from_bytes(&bytes).unwrap();
    assert_eq!(page.raw_data, &bytes[..]);
    assert_eq!(page.raw_data.as_ptr(), bytes.as_ptr());
    assert_eq!(page.body().len(), 16338);
    assert_eq!(page.body(), &bytes[38..16376]);
    assert_eq!(page.partial_page_header(), &bytes[4..26]);
}

#[test]
fn page_of_another_size_is_rejected() {
    assert_eq!(Page::from_bytes(&vec![0u8; 16383]).err(), Some(InnoDBError::InvalidLength));
    assert_eq!(Page::from_bytes(&vec![0u8; 16385]).err(), Some(InnoDBError::InvalidLength));
    assert_eq!(Page::from_bytes(&[]).err(), Some(InnoDBError::InvalidLength));
}

#[test]
fn header_fields_are_big_endian() {
    let mut bytes = vec![0u8; 38];
    put_u32(&mut bytes, 0, 0xDEAD_BEEF);
    put_u32(&mut bytes, 4, 42);
    put_u32(&mut bytes, 8, 41);
    put_u32(&mut bytes, 12, 0xFFFF_FFFF);
    put_u64(&mut bytes, 16, 0x0102_0304_0506_0708);
    put_u16(&mut bytes, 24, 24);
    put_u64(&mut bytes, 26, 0xFFFF_FFFF_FFFF_FFFF);
    put_u32(&mut bytes, 34, 7);
    let header = FILHeader::from_bytes(&bytes).unwrap();
    assert_eq!(
        header,
        FILHeader {
            new_checksum: 0xDEAD_BEEF,
            offset: 42,
            prev: 41,
            next: 0xFFFF_FFFF,
            lsn: 0x0102_0304_0506_0708,
            page_type: PageType::LobFirst,
            flush_lsn: u64::MAX,
            space_id: 7,
        }
    );
    assert_eq!(FILHeader::from_bytes(&bytes[..37]), Err(InnoDBError::InvalidLength));
}

#[test]
fn unknown_page_types_decode_to_unknown() {
    let mut bytes = vec![0u8; 38];
    for (code, expected) in [
        (0u16, PageType::Allocated),
        (1, PageType::Unknown),
        (2, PageType::UndoLog),
        (13, PageType::Unknown),
        (29, PageType::ZlobFragEntry),
        (30, PageType::Unknown),
        (17852, PageType::Unknown),
        (17853, PageType::SDI),
        (17854, PageType::RTree),
        (17855, PageType::Index),
        (17856, PageType::Unknown),
        (65535, PageType::Unknown),
    ] {
        put_u16(&mut bytes, 24, code);
        assert_eq!(FILHeader::from_bytes(&bytes).unwrap().page_type, expected, "code {}", code);
    }
}

#[test]
fn page_type_codes_round_trip() {
    for code in 0..=u16::MAX {
        match PageType::try_from_primitive(code) {
            Ok(t) => assert_eq!(t.to_primitive(), code),
            Err(e) => {
                assert_eq!(e, InnoDBError::InvalidPage);
                assert!(code == 1 || (code > 29 && !(17853..=17855).contains(&code)));
            }
        }
    }
    assert_eq!(PageType::try_from_primitive(10), Ok(PageType::Blob));
    assert_eq!(PageType::try_from_primitive(23), Ok(PageType::LobData));
    assert_eq!(PageType::default(), PageType::Allocated);
}

#[test]
fn trailer_is_eight_bytes() {
    let trailer = FILTrailer::from_bytes(&[0, 0, 0, 9, 0xAA, 0xBB, 0xCC, 0xDD]).unwrap();
    assert_eq!(trailer, FILTrailer { old_checksum: 9, lsn_low_32: 0xAABB_CCDD });
    assert_eq!(FILTrailer::from_bytes(&[0; 7]), Err(InnoDBError::InvalidLength));
    assert_eq!(FILTrailer::from_bytes(&[0; 9]), Err(InnoDBError::InvalidLength));
}

#[test]
fn folded_hash_follows_its_formula() {
    assert_eq!(fold_pair(0, 0), 0xd91a7f87);
    assert_eq!(fold_pair(0, 0), ((0x628E5B0Fu32 << 8) ^ 0x57417087));
    assert_eq!(fold_pair(1, 2), 0xd91a7c88);
    assert_eq!(fold_bytes(&[]), 0);
    assert_eq!(fold_bytes(b"abc"), 0x9de6e0b9);
    assert_eq!(fold_bytes(b"abc"), fold_pair(fold_pair(fold_pair(0, 0x61), 0x62), 0x63));
}

#[test]
fn checksums_of_known_pages() {
    let zero = vec![0u8; FIL_PAGE_SIZE];
    let page = Page::from_bytes(&zero).unwrap();
    assert_eq!(page.crc32_checksum(), 0x1ffdd4d2);
    assert_eq!(page.innodb_checksum(), 0xb7facc00);
    let index = empty_index_page();
    let page = Page::from_bytes(&index).unwrap();
    assert_eq!(page.crc32_checksum(), 0xcb61d2ab);
    assert_eq!(page.innodb_checksum(), 0x3ef70eab);
    assert_eq!(combine_crc32(0xF0F0_0000, 0x0FF0_1234), 0xFF00_1234);
}

#[test]
fn checksums_leave_out_what_they_do_not_cover() {
    let mut bytes = empty_index_page();
    let before = Page::from_bytes(&bytes).unwrap();
    let (crc, folded) = (before.crc32_checksum(), before.innodb_checksum());
    put_u32(&mut bytes, 0, 0x1234_5678);
    put_u64(&mut bytes, 26, 77);
    put_u32(&mut bytes, 34, 99);
    put_u64(&mut bytes, 16376, 0x0102_0304_0506_0708);
    let after = Page::from_bytes(&bytes).unwrap();
    assert_eq!((after.crc32_checksum(), after.innodb_checksum()), (crc, folded));
    bytes[25] ^= 1;
    let changed = Page::from_bytes(&bytes).unwrap();
    assert_ne!(changed.crc32_checksum(), crc);
    assert_ne!(changed.innodb_checksum(), folded);
}

#[test]
fn a_page_with_either_checksum_is_valid() {
    let mut bytes = empty_index_page();
    put_u32(&mut bytes, 0, 0xcb61d2ab);
    match validate_page(&bytes) {
        PageValidationResult::Valid(page) => {
            assert_eq!(page.header.new_checksum, page.crc32_checksum());
            assert_eq!(page.raw_data, &bytes[..]);
        }
        other => panic!("{:?}", other),
    }
    put_u32(&mut bytes, 0, 0x3ef70eab);
    match validate_page(&bytes) {
        PageValidationResult::Valid(page) => {
            assert_eq!(page.header.new_checksum, page.innodb_checksum());
        }
        other => panic!("{:?}", other),
    }
}

#[test]
fn a_failed_checksum_is_told_from_garbage_by_the_lsn() {
    let mut bytes = empty_index_page();
    put_u32(&mut bytes, 0, 1);
    put_u64(&mut bytes, 16, 0x0000_0001_0000_0042);
    put_u32(&mut bytes, 16380, 0x42);
    assert!(matches!(validate_page(&bytes), PageValidationResult::InvalidChecksum));
    put_u32(&mut bytes, 16380, 0x43);
    assert!(matches!(validate_page(&bytes), PageValidationResult::NotAPage));
}

#[test]
fn allocated_and_unknown_pages_are_not_valid() {
    let zero = vec![0u8; FIL_PAGE_SIZE];
    assert!(matches!(validate_page(&zero), PageValidationResult::EmptyPage));
    let mut allocated = vec![0u8; FIL_PAGE_SIZE];
    seal(&mut allocated);
    assert!(matches!(validate_page(&allocated), PageValidationResult::NotAPage));
    let mut unknown = vec![0u8; FIL_PAGE_SIZE];
    put_u16(&mut unknown, 24, 999);
    seal(&mut unknown);
    assert!(matches!(validate_page(&unknown), PageValidationResult::NotAPage));
    assert!(matches!(validate_page(&zero[..100]), PageValidationResult::NotAPage));
}

#[test]
fn classification_follows_type_and_checksums() {
    let mut header = FILHeader::from_bytes(&[0u8; 38]).unwrap();
    let trailer = FILTrailer { old_checksum: 0, lsn_low_32: 7 };
    header.page_type = PageType::Index;
    header.new_checksum = 10;
    header.lsn = 0xFF_0000_0007;
    assert_eq!(classify_page(&header, &trailer, 10, 11), PageValidity::Valid);
    assert_eq!(classify_page(&header, &trailer, 11, 10), PageValidity::Valid);
    assert_eq!(classify_page(&header, &trailer, 11, 12), PageValidity::InvalidChecksum);
    header.lsn = 8;
    assert_eq!(classify_page(&header, &trailer, 11, 12), PageValidity::NotAPage);
    header.page_type = PageType::Unknown;
    assert_eq!(classify_page(&header, &trailer, 10, 10), PageValidity::NotAPage);
    header.page_type = PageType::Allocated;
    assert_eq!(classify_page(&header, &trailer, 10, 10), PageValidity::NotAPage);
    header.new_checksum = 0;
    assert_eq!(classify_page(&header, &trailer, 10, 10), PageValidity::EmptyPage);
}

#[test]
fn infimum_of_an_empty_index_page() {
    let mut bytes = empty_index_page();
    seal(&mut bytes);
    let page = Page::from_bytes(&bytes).expect("Failed loading page");
    assert_eq!(page.header.page_type, PageType::Index);
    let index_page = IndexPage::try_from_page(page).unwrap();
    let inf_header = index_page.infimum().expect("INF exist").header;
    assert_eq!(inf_header.record_type, RecordType::Infimum);
    assert_eq!(inf_header.next_record_offset, Some(112));
    assert_eq!(inf_header.order, 0);
    assert_eq!(inf_header.num_records_owned, 1);
    assert_eq!(inf_header.info_flags.min_rec, false);
    assert_eq!(inf_header.info_flags.deleted, false);
    assert_eq!(inf_header.next_record_offset(), 112);
    assert_eq!(index_page.index_header.format, IndexFormat::Compact);
    assert_eq!(index_page.index_header.number_of_heap_records, 2);
}

#[test]
fn index_page_wants_an_index_page() {
    let mut bytes = empty_index_page();
    put_u16(&mut bytes, 24, 24);
    let page = Page::from_bytes(&bytes).unwrap();
    assert_eq!(
        IndexPage::try_from_page(page).err(),
        Some(InnoDBError::InvalidPageType { expected: PageType::Index, actual: PageType::LobFirst })
    );
}

#[test]
fn index_header_fields() {
    let mut data = vec![0u8; 36];
    put_u16(&mut data, 0, 2);
    put_u16(&mut data, 2, 300);
    put_u16(&mut data, 4, 0x7FFF);
    put_u16(&mut data, 6, 6);
    put_u16(&mut data, 8, 8);
    put_u16(&mut data, 10, 10);
    put_u16(&mut data, 12, 12);
    put_u16(&mut data, 14, 14);
    put_u16(&mut data, 16, 16);
    put_u64(&mut data, 18, 0x1122_3344_5566_7788);
    put_u16(&mut data, 26, 1);
    put_u64(&mut data, 28, 960);
    let header = IndexHeader::from_bytes(&data).unwrap();
    assert_eq!(header.number_of_directory_slots, 2);
    assert_eq!(header.heap_top_position, 300);
    assert_eq!(header.format, IndexFormat::Redundant);
    assert_eq!(header.number_of_heap_records, 0x7FFF);
    assert_eq!(header.first_garbage_record_offset, 6);
    assert_eq!(header.garbage_space, 8);
    assert_eq!(header.last_insert_position, 10);
    assert_eq!(header.page_direction, 12);
    assert_eq!(header.number_of_inserts_in_page_direction, 14);
    assert_eq!(header.number_of_records, 16);
    assert_eq!(header.maximum_transaction_id, 0x1122_3344_5566_7788);
    assert_eq!(header.page_level, 1);
    assert_eq!(header.index_id, 960);
    put_u16(&mut data, 4, 0x8000);
    let compact = IndexHeader::from_bytes(&data).unwrap();
    assert_eq!(compact.format, IndexFormat::Compact);
    assert_eq!(compact.number_of_heap_records, 0);
    assert!(IndexHeader::from_bytes(&data[..35]).is_err());
}

#[test]
fn record_header_bit_fields() {
    let mut buf = vec![0u8; 200];
    buf[95] = 0x38;
    put_u16(&mut buf, 96, (0x1ABC << 3) | 1);
    put_u16(&mut buf, 98, 0xFFF6);
    let header = RecordHeader::try_from_offset(&buf, 100).unwrap();
    assert!(header.info_flags.min_rec);
    assert!(header.info_flags.deleted);
    assert_eq!(header.num_records_owned, 8);
    assert_eq!(header.order, 0x1ABC);
    assert_eq!(header.record_type, RecordType::NodePointer);
    assert_eq!(header.next_record_offset, Some(90));
    buf[95] = 0x10;
    let flags = RecordHeader::try_from_offset(&buf, 100).unwrap().info_flags;
    assert!(flags.min_rec && !flags.deleted);
    buf[95] = 0x20;
    let flags = RecordHeader::try_from_offset(&buf, 100).unwrap().info_flags;
    assert!(!flags.min_rec && flags.deleted);
}

#[test]
fn record_header_rejects_what_is_outside_its_sets() {
    let mut buf = vec![0u8; 200];
    buf[95] = 0x40;
    assert_eq!(RecordHeader::try_from_offset(&buf, 100).err(), Some(InnoDBError::InvalidPage));
    buf[95] = 0x80;
    assert_eq!(RecordHeader::try_from_offset(&buf, 100).err(), Some(InnoDBError::InvalidPage));
    buf[95] = 0;
    for bad_type in 4u16..8 {
        put_u16(&mut buf, 96, bad_type);
        assert_eq!(RecordHeader::try_from_offset(&buf, 100).err(), Some(InnoDBError::InvalidPage));
    }
    put_u16(&mut buf, 96, 3);
    assert!(RecordHeader::try_from_offset(&buf, 100).is_ok());
    assert!(RecordHeader::try_from_offset(&buf, 4).is_err());
    assert!(RecordHeader::try_from_offset(&buf, 5).is_ok());
    assert!(RecordHeader::try_from_offset(&buf, 200).is_ok());
    assert!(RecordHeader::try_from_offset(&buf, 201).is_err());
    let big = vec![0u8; 70000];
    assert!(RecordHeader::try_from_offset(&big, 65534).is_ok());
    assert!(RecordHeader::try_from_offset(&big, 65535).is_err());
    assert!(InfoFlags::try_from_primitive(3).is_ok());
    assert_eq!(InfoFlags::try_from_primitive(4).err(), Some(InnoDBError::InvalidPage));
    assert_eq!(RecordType::try_from_primitive(2), Ok(RecordType::Infimum));
    assert_eq!(RecordType::try_from_primitive(4), Err(InnoDBError::InvalidPage));
}

#[test]
fn next_offset_that_leaves_the_range_is_none() {
    let mut buf = vec![0u8; 70000];
    put_u16(&mut buf, 98, 0x7FFF);
    let header = RecordHeader::try_from_offset(&buf, 100).unwrap();
    assert_eq!(header.next_record_offset, Some(100 + 0x7FFF));
    put_u16(&mut buf, 98, 0xFF00);
    let header = RecordHeader::try_from_offset(&buf, 100).unwrap();
    assert_eq!(header.next_record_offset, None);
    let record = Record::try_from_offset(&buf, 100).unwrap();
    assert!(record.next().is_none());
    put_u16(&mut buf, 65498, 0x7FFF);
    let far = RecordHeader::try_from_offset(&buf, 65500).unwrap();
    assert_eq!(far.next_record_offset, None);
}

#[test]
fn next_follows_the_offsets_and_stops_at_the_supremum() {
    let mut page = empty_index_page();
    put_record(&mut page, 99, 0, 2, 130);
    put_record(&mut page, 130, 2, 0, 160);
    put_record(&mut page, 160, 3, 0, 112);
    put_record(&mut page, 112, 1, 3, 0);
    let infimum = Record::try_from_offset(&page, 99).unwrap();
    let first = infimum.next().unwrap();
    assert_eq!((first.offset, first.header.record_type), (130, RecordType::Conventional));
    let second = first.next().unwrap();
    assert_eq!((second.offset, second.header.order), (160, 3));
    let supremum = second.next().unwrap();
    assert_eq!((supremum.offset, supremum.header.record_type), (112, RecordType::Supremum));
    assert!(supremum.next().is_none());
}

#[test]
fn next_offset_zero_ends_the_chain() {
    let mut page = empty_index_page();
    put_record(&mut page, 99, 0, 2, 0);
    let infimum = Record::try_from_offset(&page, 99).unwrap();
    assert_eq!(infimum.header.next_record_offset, Some(0));
    assert!(infimum.next().is_none());
}

#[test]
fn records_walks_from_infimum_to_supremum() {
    let mut bytes = empty_index_page();
    put_u16(&mut bytes, 38 + 4, 0x8004);
    put_record(&mut bytes, 99, 0, 2, 130);
    put_record(&mut bytes, 130, 2, 0, 160);
    put_record(&mut bytes, 160, 3, 1, 112);
    let index = IndexPage::try_from_page(Page::from_bytes(&bytes).unwrap()).unwrap();
    let records = index.records().unwrap();
    let offsets: Vec<usize> = records.iter().map(|r| r.offset).collect();
    assert_eq!(offsets, vec![99, 130, 160, 112]);
    assert_eq!(records[3].header.record_type, RecordType::Supremum);
    assert!(records.len() <= index.index_header.number_of_heap_records as usize + 2);
}

#[test]
fn records_of_an_empty_page_are_infimum_and_supremum() {
    let bytes = empty_index_page();
    let index = IndexPage::try_from_page(Page::from_bytes(&bytes).unwrap()).unwrap();
    let records = index.records().unwrap();
    assert_eq!(records.len(), 2);
    assert_eq!(records[0].header.record_type, RecordType::Infimum);
    assert_eq!(records[1].header.record_type, RecordType::Supremum);
}

#[test]
fn records_rejects_a_chain_that_does_not_end() {
    let mut bytes = empty_index_page();
    put_record(&mut bytes, 99, 0, 2, 130);
    put_record(&mut bytes, 130, 2, 0, 160);
    put_record(&mut bytes, 160, 3, 0, 130);
    let index = IndexPage::try_from_page(Page::from_bytes(&bytes).unwrap()).unwrap();
    assert_eq!(index.records().err(), Some(InnoDBError::InvalidPage));
}

#[test]
fn records_rejects_a_chain_longer_than_the_heap() {
    let mut bytes = empty_index_page();
    put_u16(&mut bytes, 38 + 4, 0x8001);
    put_record(&mut bytes, 99, 0, 2, 130);
    put_record(&mut bytes, 130, 2, 0, 160);
    put_record(&mut bytes, 160, 3, 0, 112);
    let index = IndexPage::try_from_page(Page::from_bytes(&bytes).unwrap()).unwrap();
    assert_eq!(index.records().err(), Some(InnoDBError::InvalidPage));
    put_u16(&mut bytes, 38 + 4, 0x8002);
    let index = IndexPage::try_from_page(Page::from_bytes(&bytes).unwrap()).unwrap();
    assert_eq!(index.records().unwrap().len(), 4);
}

#[test]
fn records_rejects_a_broken_chain() {
    let mut bytes = empty_index_page();
    put_record(&mut bytes, 99, 0, 2, 130);
    put_record(&mut bytes, 130, 2, 5, 112);
    let index = IndexPage::try_from_page(Page::from_bytes(&bytes).unwrap()).unwrap();
    assert_eq!(index.records().err(), Some(InnoDBError::InvalidPage));
    let mut no_infimum = empty_index_page();
    no_infimum[94] = 0xF0;
    let index = IndexPage::try_from_page(Page::from_bytes(&no_infimum).unwrap()).unwrap();
    assert_eq!(index.infimum().err(), Some(InnoDBError::InvalidPage));
    assert_eq!(index.records().err(), Some(InnoDBError::InvalidPage));
}

#[test]
fn file_addresses_and_list_nodes() {
    let bytes = [0, 0, 0, 42, 0x01, 0x02, 0xFF, 0xFF, 0xFF, 0xFF, 0, 9, 0, 0, 0, 1, 0, 3];
    let address = FileAddress::try_from_bytes(&bytes).unwrap();
    assert_eq!((address.page_number, address.offset), (42, 0x0102));
    assert!(!address.is_null());
    assert!(FileAddress::new(FIL_NULL, 0).is_null());
    assert!(FileAddress::try_from_bytes(&bytes[..5]).is_err());
    let inner = FileListInnerNode::try_from_bytes(&bytes).unwrap();
    assert_eq!((inner.prev.page_number, inner.prev.offset), (42, 0x0102));
    assert_eq!((inner.next.page_number, inner.next.offset), (0xFFFF_FFFF, 9));
    assert!(inner.next.is_null());
    assert!(FileListInnerNode::try_from_bytes(&bytes[..11]).is_err());
    let base = FileListBaseNode::try_from_bytes(&bytes).unwrap();
    assert_eq!(base.list_len, 42);
    assert_eq!((base.first_node.page_number, base.first_node.offset), (0x0102_FFFF, 0xFFFF));
    assert_eq!((base.last_node.page_number, base.last_node.offset), (0x0009_0000, 1));
    assert!(FileListBaseNode::try_from_bytes(&bytes[..15]).is_err());
    assert_eq!(FileAddress::size(), 6);
    assert_eq!(FileListBaseNode::size(), 16);
    assert_eq!(FileListInnerNode::size(), 12);
}
