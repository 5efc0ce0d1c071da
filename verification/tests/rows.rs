use crc::{Crc, CRC_32_ISCSI};
use innodb::innodb::buffer_manager::lru::LRUBufferManager;
use innodb::innodb::buffer_manager::simple::SimpleBufferManager;
use innodb::innodb::buffer_manager::{BufferManager, DummyBufferMangaer, PageSource};
use innodb::innodb::charset::InnoDBCharset;
use innodb::innodb::page::record::Record;
use innodb::innodb::page::FIL_PAGE_SIZE;
use innodb::innodb::table::blob_header::ExternReference;
use innodb::innodb::table::field::{Field, FieldType, FieldValue};
use innodb::innodb::table::lob::{gather_lob, load_value, read_chunk, read_index_entry};
use innodb::innodb::table::row::{extern_value, test_bit, Row};
use innodb::innodb::table::TableDefinition;
use innodb::innodb::InnoDBError;
use innodb::innodb::file_list::FileAddress;

struct MemorySource {
    pages: Vec<((u32, u32), Vec<u8>)>,
}

impl PageSource for MemorySource {
    fn read_page(&mut self, space_id: u32, page_number: u32) -> Result<Vec<u8>, InnoDBError> {
        for (key, bytes) in self.pages.iter() {
            if *key == (space_id, page_number) {
                return Ok(bytes.clone());
            }
        }
        Err(InnoDBError::Io)
    }
}

fn put_u32(page: &mut [u8], at: usize, v: u32) {
    page[at..at + 4].copy_from_slice(&v.to_be_bytes());
}

fn seal(page: &mut [u8]) {
    let crc = Crc::<u32>::new(&CRC_32_ISCSI);
    let sum = crc.checksum(&page[4..26]) ^ crc.checksum(&page[38..16376]);
    put_u32(page, 0, sum);
}

fn lob_first_page(space_id: u32, page_number: u32, inline: &[u8], chain: &[u32]) -> Vec<u8> {
    let mut page = vec![0u8; FIL_PAGE_SIZE];
    put_u32(&mut page, 4, page_number);
    page[24..26].copy_from_slice(&24u16.to_be_bytes());
    put_u32(&mut page, 34, space_id);
    put_u32(&mut page, 38 + 16, inline.len() as u32);
    put_u32(&mut page, 38 + 26, chain.len() as u32);
    put_u32(&mut page, 38 + 30, if chain.is_empty() { 0xFFFF_FFFF } else { page_number });
    page[38 + 34..38 + 36].copy_from_slice(&96u16.to_be_bytes());
    for (i, target) in chain.iter().enumerate() {
        let at = 96 + 60 * i;
        if i + 1 < chain.len() {
            put_u32(&mut page, at + 6, page_number);
            page[at + 10..at + 12].copy_from_slice(&((at + 60) as u16).to_be_bytes());
        } else {
            put_u32(&mut page, at + 6, 0xFFFF_FFFF);
        }
        put_u32(&mut page, at + 48, *target);
    }
    page[696..696 + inline.len()].copy_from_slice(inline);
    seal(&mut page);
    page
}

fn lob_data_page(space_id: u32, page_number: u32, data: &[u8]) -> Vec<u8> {
    let mut page = vec![0u8; FIL_PAGE_SIZE];
    put_u32(&mut page, 4, page_number);
    page[24..26].copy_from_slice(&23u16.to_be_bytes());
    put_u32(&mut page, 34, space_id);
    put_u32(&mut page, 38 + 1, data.len() as u32);
    page[49..49 + data.len()].copy_from_slice(data);
    seal(&mut page);
    page
}

/// A value of 8000 bytes: 5000 in the first page (7, 42), 3000 in the data page (7, 43).
fn value_of_8000() -> (Vec<u8>, MemorySource) {
    let text: Vec<u8> = (0..8000u32).map(|i| b'a' + (i % 26) as u8).collect();
    let first = lob_first_page(7, 42, &text[..5000], &[42, 43]);
    let data = lob_data_page(7, 43, &text[5000..]);
    (text, MemorySource { pages: vec![((7, 42), first), ((7, 43), data)] })
}

fn reference(space_id: u32, page_number: u32, length: u64) -> [u8; 20] {
    let mut bytes = [0u8; 20];
    bytes[0..4].copy_from_slice(&space_id.to_be_bytes());
    bytes[4..8].copy_from_slice(&page_number.to_be_bytes());
    bytes[8..12].copy_from_slice(&40u32.to_be_bytes());
    bytes[12..20].copy_from_slice(&length.to_be_bytes());
    bytes
}

/// id INT UNSIGNED key; name VARCHAR(255) NULL; body MEDIUMTEXT; n INT NULL
fn sample_table() -> TableDefinition {
    TableDefinition {
        name: "t".to_string(),
        cluster_columns: vec![Field::new("id", FieldType::Int(false), false)],
        data_columns: vec![
            Field::new("name", FieldType::Text(255, InnoDBCharset::Ascii), true),
            Field::new("body", FieldType::Text((1 << 24) - 1, InnoDBCharset::Utf8mb4), false),
            Field::new("n", FieldType::Int(true), true),
        ],
    }
}

/// A buffer with one record at offset 200: `header` are the bytes before the fixed
/// part of the record header, nearest first; `payload` follows the offset.
fn record_buffer(header: &[u8], payload: &[u8]) -> Vec<u8> {
    let mut buf = vec![0u8; 200];
    for (k, b) in header.iter().enumerate() {
        buf[194 - k] = *b;
    }
    buf.extend_from_slice(payload);
    buf
}

fn payload(id: u32, rest: &[&[u8]]) -> Vec<u8> {
    let mut bytes = id.to_be_bytes().to_vec();
    bytes.extend_from_slice(&[0xAA; 13]);
    for part in rest {
        bytes.extend_from_slice(part);
    }
    bytes
}

#[test]
fn bits_count_from_the_least_significant() {
    assert!(test_bit(0b0000_0001, 0));
    assert!(!test_bit(0b0000_0001, 1));
    assert!(test_bit(0b1000_0000, 7));
    assert!(!test_bit(0b0111_1111, 7));
    assert!(test_bit(0b0010_0000, 5));
}

#[test]
fn row_with_all_fields_in_the_record() {
    let td = sample_table();
    let n = (-5i32 as u32 ^ 0x8000_0000).to_be_bytes();
    let buf = record_buffer(&[0b00, 10, 3], &payload(77, &[b"0123456789", b"abc", &n]));
    let record = Record::try_from_offset(&buf, 200).unwrap();
    let row = Row::try_from_record_and_table(&record, &td).unwrap();
    assert_eq!(row.is_null(1), false);
    assert_eq!(row.field_length(0), None);
    assert_eq!(row.field_length(1), Some(10));
    assert_eq!(row.field_length(2), Some(3));
    assert_eq!(row.field_length(3), None);
    assert!(!row.is_extern(2));
    let values = row.parse_values(&mut DummyBufferMangaer).unwrap();
    assert_eq!(values.len(), td.field_count());
    assert_eq!(
        values,
        vec![
            FieldValue::UnsignedInt(77),
            FieldValue::String("0123456789".to_string()),
            FieldValue::String("abc".to_string()),
            FieldValue::SignedInt(-5),
        ]
    );
    assert_eq!(row.values().unwrap(), values);
}

#[test]
fn null_fields_take_no_bytes() {
    let td = sample_table();
    // name is null (bit 0), n is null (bit 1): no length for name, no bytes for either
    let buf = record_buffer(&[0b11, 2], &payload(1, &[b"hi"]));
    let record = Record::try_from_offset(&buf, 200).unwrap();
    let row = Row::try_from_record_and_table(&record, &td).unwrap();
    assert!(row.is_null(1) && row.is_null(3));
    assert!(!row.is_null(0) && !row.is_null(2));
    assert_eq!(row.field_length(1), None);
    assert_eq!(row.field_length(2), Some(2));
    let values = row.parse_values(&mut DummyBufferMangaer).unwrap();
    assert_eq!(
        values,
        vec![
            FieldValue::UnsignedInt(1),
            FieldValue::Null,
            FieldValue::String("hi".to_string()),
            FieldValue::Null,
        ]
    );
    // only n is null
    let buf = record_buffer(&[0b10, 1, 2], &payload(1, &[b"x", b"hi"]));
    let record = Record::try_from_offset(&buf, 200).unwrap();
    let row = Row::try_from_record_and_table(&record, &td).unwrap();
    let values = row.parse_values(&mut DummyBufferMangaer).unwrap();
    assert_eq!(values[1], FieldValue::String("x".to_string()));
    assert_eq!(values[3], FieldValue::Null);
}

#[test]
fn lengths_of_128_and_more_take_two_bytes() {
    let td = sample_table();
    let long = vec![b'z'; 300];
    let n = 0x8000_0001u32.to_be_bytes();
    // name has at most 255 bytes: one byte even with the top bit set
    let name = vec![b'n'; 200];
    let buf = record_buffer(&[0, 200, 0x81, 0x2C], &payload(9, &[&name, &long, &n]));
    let record = Record::try_from_offset(&buf, 200).unwrap();
    let row = Row::try_from_record_and_table(&record, &td).unwrap();
    assert_eq!(row.field_length(1), Some(200));
    assert_eq!(row.field_length(2), Some(300));
    assert!(!row.is_extern(1) && !row.is_extern(2));
    let values = row.parse_values(&mut DummyBufferMangaer).unwrap();
    assert_eq!(values[1], FieldValue::String("n".repeat(200)));
    assert_eq!(values[2], FieldValue::String("z".repeat(300)));
    assert_eq!(values[3], FieldValue::SignedInt(1));
    // 127 still takes one byte
    let buf = record_buffer(&[0, 0, 127], &payload(9, &[&long[..127], &n]));
    let record = Record::try_from_offset(&buf, 200).unwrap();
    let row = Row::try_from_record_and_table(&record, &td).unwrap();
    assert_eq!(row.field_length(2), Some(127));
}

#[test]
fn null_bitmap_spans_bytes() {
    let mut data_columns = Vec::new();
    for i in 0..10 {
        data_columns.push(Field::new(&format!("c{}", i), FieldType::TinyInt(false), true));
    }
    let td = TableDefinition {
        name: "wide".to_string(),
        cluster_columns: vec![Field::new("id", FieldType::TinyInt(false), false)],
        data_columns,
    };
    // bits 0, 3 and 9 are set: c0, c3, c9 are null
    let mut bytes = vec![1u8];
    bytes.extend_from_slice(&[0; 13]);
    bytes.extend_from_slice(&[11, 12, 14, 15, 16, 17, 18]);
    let buf = record_buffer(&[0b0000_1001, 0b0000_0010], &bytes);
    let record = Record::try_from_offset(&buf, 200).unwrap();
    let row = Row::try_from_record_and_table(&record, &td).unwrap();
    let nulls: Vec<bool> = (0..11).map(|i| row.is_null(i)).collect();
    assert_eq!(
        nulls,
        vec![false, true, false, false, true, false, false, false, false, false, true]
    );
    let values = row.parse_values(&mut DummyBufferMangaer).unwrap();
    assert_eq!(values.len(), 11);
    assert_eq!(values[1], FieldValue::Null);
    assert_eq!(values[2], FieldValue::UnsignedInt(11));
    assert_eq!(values[9], FieldValue::UnsignedInt(18));
    assert_eq!(values[10], FieldValue::Null);
}

#[test]
fn header_that_runs_out_is_rejected() {
    let td = sample_table();
    let mut buf = vec![0u8; 5];
    buf.extend_from_slice(&payload(1, &[b"abc"]));
    let record = Record::try_from_offset(&buf, 5).unwrap();
    assert_eq!(
        Row::try_from_record_and_table(&record, &td).err(),
        Some(InnoDBError::InvalidLength)
    );
    let mut buf = vec![0u8; 7];
    buf[1] = 0;
    buf[0] = 0x81;
    buf.extend_from_slice(&payload(1, &[b"abc"]));
    let record = Record::try_from_offset(&buf, 7).unwrap();
    // the null bitmap and the length of name fit; the length of body does not
    assert_eq!(
        Row::try_from_record_and_table(&record, &td).err(),
        Some(InnoDBError::InvalidLength)
    );
    let mut buf = vec![0u8; 8];
    buf[2] = 0;
    buf[1] = 0;
    buf[0] = 3;
    buf.extend_from_slice(&payload(1, &[b"abc"]));
    let record = Record::try_from_offset(&buf, 8).unwrap();
    assert!(Row::try_from_record_and_table(&record, &td).is_ok());
}

#[test]
fn payload_that_runs_out_is_rejected() {
    let td = sample_table();
    let buf = record_buffer(&[0b10, 0, 5], &payload(1, &[b"abc"]));
    let record = Record::try_from_offset(&buf, 200).unwrap();
    let row = Row::try_from_record_and_table(&record, &td).unwrap();
    assert_eq!(row.parse_values(&mut DummyBufferMangaer).err(), Some(InnoDBError::InvalidLength));
    // the hidden columns must be there
    let buf = record_buffer(&[0b11, 0], &[0, 0, 0, 1, 1, 2, 3]);
    let record = Record::try_from_offset(&buf, 200).unwrap();
    let row = Row::try_from_record_and_table(&record, &td).unwrap();
    assert_eq!(row.parse_values(&mut DummyBufferMangaer).err(), Some(InnoDBError::InvalidLength));
}

#[test]
fn invalid_utf8_in_the_record_is_an_error() {
    let td = sample_table();
    let buf = record_buffer(&[0b10, 0, 2], &payload(1, &[&[0xFF, 0xFE]]));
    let record = Record::try_from_offset(&buf, 200).unwrap();
    let row = Row::try_from_record_and_table(&record, &td).unwrap();
    assert_eq!(row.parse_values(&mut DummyBufferMangaer).err(), Some(InnoDBError::InvalidUtf8));
}

#[test]
fn table_without_a_key_has_no_rows() {
    let td = TableDefinition {
        name: "t".to_string(),
        cluster_columns: vec![],
        data_columns: vec![Field::new("a", FieldType::TinyInt(false), false)],
    };
    let buf = record_buffer(&[], &[1; 20]);
    let record = Record::try_from_offset(&buf, 200).unwrap();
    let row = Row::try_from_record_and_table(&record, &td).unwrap();
    assert_eq!(
        row.parse_values(&mut DummyBufferMangaer).err(),
        Some(InnoDBError::InvalidTableDefinition)
    );
}

#[test]
fn extern_reference_fields() {
    let mut bytes = reference(7, 42, 8000);
    let owned = ExternReference::from_bytes(&bytes).unwrap();
    assert_eq!((owned.space_id, owned.page_number, owned.offset), (7, 42, 40));
    assert_eq!((owned.owner, owned.inherit, owned.length), (true, false, 8000));
    bytes[12] = 0x80;
    let not_owner = ExternReference::from_bytes(&bytes).unwrap();
    assert_eq!((not_owner.owner, not_owner.inherit, not_owner.length), (false, false, 8000));
    bytes[12] = 0x40;
    let inherit = ExternReference::from_bytes(&bytes).unwrap();
    assert_eq!((inherit.owner, inherit.inherit, inherit.length), (true, true, 8000));
    bytes[12] = 0xFF;
    let all = ExternReference::from_bytes(&bytes).unwrap();
    assert_eq!((all.owner, all.inherit), (false, true));
    assert_eq!(all.length, 0x0F00_0000_0000_1F40);
    assert_eq!(ExternReference::from_bytes(&bytes[..19]).err(), Some(InnoDBError::InvalidLength));
}

#[test]
fn extern_field_is_fetched_through_the_buffer_manager() {
    let (text, source) = value_of_8000();
    let mut lru = LRUBufferManager::new(source);
    let td = sample_table();
    let n = 0x8000_0002u32.to_be_bytes();
    let buf = record_buffer(&[0b01, 0xC0, 0x14], &payload(5, &[&reference(7, 42, 8000), &n]));
    let record = Record::try_from_offset(&buf, 200).unwrap();
    let row = Row::try_from_record_and_table(&record, &td).unwrap();
    assert!(row.is_extern(2));
    assert_eq!(row.field_length(2), Some(20));
    let values = row.parse_values(&mut lru).unwrap();
    assert_eq!(values.len(), 4);
    assert_eq!(values[0], FieldValue::UnsignedInt(5));
    assert_eq!(values[1], FieldValue::Null);
    assert_eq!(values[2], FieldValue::String(String::from_utf8(text).unwrap()));
    assert_eq!(values[3], FieldValue::SignedInt(2));
    // every pin was released
    assert_eq!(lru.pin_count_of(7, 42), 0);
    assert_eq!(lru.pin_count_of(7, 43), 0);
    assert_eq!(lru.resident_count(), 2);
}

#[test]
fn extern_field_that_cannot_be_fetched_is_skipped() {
    let td = sample_table();
    let n = 0x8000_0002u32.to_be_bytes();
    let buf = record_buffer(&[0b01, 0xC0, 0x14], &payload(5, &[&reference(7, 42, 8000), &n]));
    let record = Record::try_from_offset(&buf, 200).unwrap();
    let row = Row::try_from_record_and_table(&record, &td).unwrap();
    let values = row.parse_values(&mut DummyBufferMangaer).unwrap();
    assert_eq!(
        values,
        vec![
            FieldValue::UnsignedInt(5),
            FieldValue::Null,
            FieldValue::Skipped,
            FieldValue::SignedInt(2),
        ]
    );
    assert_eq!(row.values().unwrap()[2], FieldValue::Skipped);
}

#[test]
fn extern_reference_must_take_20_bytes() {
    let td = sample_table();
    let buf = record_buffer(&[0b11, 0xC0, 0x15], &payload(5, &[&reference(7, 42, 8000), &[0]]));
    let record = Record::try_from_offset(&buf, 200).unwrap();
    let row = Row::try_from_record_and_table(&record, &td).unwrap();
    assert_eq!(row.field_length(2), Some(21));
    assert_eq!(row.parse_values(&mut DummyBufferMangaer).err(), Some(InnoDBError::InvalidPage));
    let buf = record_buffer(&[0b11, 0xC0, 0x14], &payload(5, &[&[1, 2, 3]]));
    let record = Record::try_from_offset(&buf, 200).unwrap();
    let row = Row::try_from_record_and_table(&record, &td).unwrap();
    assert_eq!(row.parse_values(&mut DummyBufferMangaer).err(), Some(InnoDBError::InvalidLength));
}

#[test]
fn load_extern_gives_as_many_bytes_as_the_reference_says() {
    let (text, source) = value_of_8000();
    let mut simple = SimpleBufferManager::new(source);
    let td = sample_table();
    let buf = record_buffer(&[0b11, 0], &payload(5, &[]));
    let record = Record::try_from_offset(&buf, 200).unwrap();
    let row = Row::try_from_record_and_table(&record, &td).unwrap();
    for length in [1u64, 4999, 5000, 5001, 8000] {
        let header = ExternReference::from_bytes(&reference(7, 42, length)).unwrap();
        let bytes = row.load_extern(&header, &mut simple).unwrap();
        assert_eq!(bytes.len() as u64, length);
        assert_eq!(&bytes[..], &text[..length as usize]);
    }
    let short = ExternReference::from_bytes(&reference(7, 42, 8001)).unwrap();
    assert_eq!(row.load_extern(&short, &mut simple).err(), Some(InnoDBError::ReadIncomplete));
    let empty = ExternReference::from_bytes(&reference(7, 42, 0)).unwrap();
    assert_eq!(row.load_extern(&empty, &mut simple).unwrap().len(), 0);
    let absent = ExternReference::from_bytes(&reference(7, 41, 10)).unwrap();
    assert_eq!(row.load_extern(&absent, &mut simple).err(), Some(InnoDBError::Io));
    let wrong_type = ExternReference::from_bytes(&reference(7, 43, 10)).unwrap();
    assert!(matches!(
        row.load_extern(&wrong_type, &mut simple).err(),
        Some(InnoDBError::InvalidPageType { .. })
    ));
}

#[test]
fn load_extern_fails_where_a_data_page_is_missing() {
    let (_, mut source) = value_of_8000();
    source.pages.pop();
    let mut lru = LRUBufferManager::new(source);
    let td = sample_table();
    let buf = record_buffer(&[0b11, 0], &payload(5, &[]));
    let record = Record::try_from_offset(&buf, 200).unwrap();
    let row = Row::try_from_record_and_table(&record, &td).unwrap();
    let header = ExternReference::from_bytes(&reference(7, 42, 8000)).unwrap();
    assert_eq!(row.load_extern(&header, &mut lru).err(), Some(InnoDBError::Io));
    assert_eq!(lru.pin_count_of(7, 42), 0);
    let field = Field::new("body", FieldType::Text(10000, InnoDBCharset::Ascii), false);
    assert_eq!(row.parse_extern_field(&field, &header, &mut lru), FieldValue::Skipped);
    // what lies in the first page can still be had
    let inline = ExternReference::from_bytes(&reference(7, 42, 5000)).unwrap();
    assert_eq!(row.load_extern(&inline, &mut lru).unwrap().len(), 5000);
}

#[test]
fn gathering_follows_the_index_entries() {
    let (text, source) = value_of_8000();
    let mut lru = LRUBufferManager::new(source);
    let first = lru.pin(7, 42).unwrap();
    let entry = read_index_entry(&mut lru, &first, FileAddress::new(42, 96)).unwrap();
    assert_eq!(entry.page_number, 42);
    let next = read_index_entry(&mut lru, &first, entry.file_list_node.next).unwrap();
    assert_eq!(next.page_number, 43);
    assert!(next.file_list_node.next.is_null());
    assert_eq!(
        read_index_entry(&mut lru, &first, FileAddress::new(42, 16325)).err(),
        Some(InnoDBError::InvalidPage)
    );
    assert!(read_index_entry(&mut lru, &first, FileAddress::new(42, 16324)).is_ok());
    // an entry on another page is read under a pin of its own
    let elsewhere = read_index_entry(&mut lru, &first, FileAddress::new(43, 96)).unwrap();
    let expected = u32::from_be_bytes([text[5095], text[5096], text[5097], text[5098]]);
    assert_eq!(elsewhere.page_number, expected);
    assert_eq!(lru.pin_count_of(7, 43), 0);
    assert_eq!(gather_lob(&mut lru, &first, 6000).unwrap(), text[..6000].to_vec());
    assert_eq!(lru.pin_count_of(7, 42), 1);
    let mut out = vec![0u8; 100];
    assert_eq!(read_chunk(&mut lru, &first, 42, &mut out, 90), Ok(10));
    assert_eq!(&out[90..], &text[..10]);
    assert_eq!(&out[..90], &[0u8; 90][..]);
    assert_eq!(read_chunk(&mut lru, &first, 43, &mut out, 0), Ok(100));
    assert_eq!(&out[..], &text[5000..5100]);
    assert_eq!(read_chunk(&mut lru, &first, 44, &mut out, 0), Err(InnoDBError::Io));
    assert_eq!(lru.pin_count_of(7, 43), 0);
    lru.unpin(first);
    let header = ExternReference::from_bytes(&reference(7, 42, 7000)).unwrap();
    assert_eq!(load_value(&header, &mut lru).unwrap(), text[..7000].to_vec());
    assert_eq!(lru.pin_count_of(7, 42), 0);
}

#[test]
fn extern_values_are_decoded_or_skipped() {
    let field = Field::new("body", FieldType::Text(100, InnoDBCharset::Utf8mb4), false);
    assert_eq!(
        extern_value(&field, Ok(b"hello".to_vec()), 5),
        FieldValue::String("hello".to_string())
    );
    assert_eq!(extern_value(&field, Ok(vec![0xFF, 0xFF]), 2), FieldValue::Skipped);
    assert_eq!(extern_value(&field, Ok(b"hello".to_vec()), 401), FieldValue::Skipped);
    assert_eq!(extern_value(&field, Err(InnoDBError::Io), 5), FieldValue::Skipped);
    assert_eq!(extern_value(&field, Err(InnoDBError::ReadIncomplete), 5), FieldValue::Skipped);
}

#[test]
fn hidden_columns_follow_the_whole_key() {
    let td = TableDefinition {
        name: "k".to_string(),
        cluster_columns: vec![
            Field::new("a", FieldType::SmallInt(false), false),
            Field::new("b", FieldType::Char(3, InnoDBCharset::Ascii), false),
        ],
        data_columns: vec![
            Field::new("c", FieldType::Date, false),
            Field::new("d", FieldType::Enum(vec!["x".to_string(), "y".to_string()]), false),
        ],
    };
    let mut bytes = vec![0x01, 0x02, b'h', b'i', b' '];
    bytes.extend_from_slice(&[0xEE; 13]);
    bytes.extend_from_slice(&[0x8F, 0xD0, 0x5D, 2]);
    let buf = record_buffer(&[], &bytes);
    let record = Record::try_from_offset(&buf, 200).unwrap();
    let row = Row::try_from_record_and_table(&record, &td).unwrap();
    let values = row.parse_values(&mut DummyBufferMangaer).unwrap();
    assert_eq!(
        values,
        vec![
            FieldValue::UnsignedInt(0x0102),
            FieldValue::String("hi".to_string()),
            FieldValue::String("2024-02-29".to_string()),
            FieldValue::String("y".to_string()),
        ]
    );
    assert_eq!(values.len(), td.cluster_columns.len() + td.data_columns.len());
}

#[test]
fn key_without_data_columns_still_has_hidden_columns() {
    let td = TableDefinition {
        name: "k".to_string(),
        cluster_columns: vec![Field::new("a", FieldType::TinyInt(true), false)],
        data_columns: vec![],
    };
    let buf = record_buffer(&[], &[0x85, 1, 2, 3, 4, 5, 6, 7, 8, 9, 10, 11, 12, 13]);
    let record = Record::try_from_offset(&buf, 200).unwrap();
    let row = Row::try_from_record_and_table(&record, &td).unwrap();
    assert_eq!(row.parse_values(&mut DummyBufferMangaer).unwrap(), vec![FieldValue::SignedInt(5)]);
    let buf = record_buffer(&[], &[0x85, 1, 2, 3, 4, 5, 6, 7, 8, 9, 10, 11, 12]);
    let record = Record::try_from_offset(&buf, 200).unwrap();
    let row = Row::try_from_record_and_table(&record, &td).unwrap();
    assert_eq!(row.parse_values(&mut DummyBufferMangaer).err(), Some(InnoDBError::InvalidLength));
}

#[test]
fn a_failed_first_pin_fails_the_load() {
    let td = sample_table();
    let buf = record_buffer(&[0b11, 0], &payload(5, &[]));
    let record = Record::try_from_offset(&buf, 200).unwrap();
    let row = Row::try_from_record_and_table(&record, &td).unwrap();
    assert_eq!(row.record().offset, 200);
    let header = ExternReference::from_bytes(&reference(7, 42, 8000)).unwrap();
    let mut dummy = DummyBufferMangaer;
    assert_eq!(row.load_extern(&header, &mut dummy).err(), Some(InnoDBError::PinUnavailable));
    assert_eq!(load_value(&header, &mut dummy).err(), Some(InnoDBError::PinUnavailable));
    let field = Field::new("body", FieldType::Text(10000, InnoDBCharset::Ascii), false);
    assert_eq!(row.parse_extern_field(&field, &header, &mut dummy), FieldValue::Skipped);
}

#[test]
fn the_first_pin_is_on_the_page_of_the_reference() {
    let (text, mut source) = value_of_8000();
    // the same page number in another space holds another value
    let other: Vec<u8> = vec![b'#'; 100];
    source.pages.push(((8, 42), lob_first_page(8, 42, &other, &[42])));
    let mut simple = SimpleBufferManager::new(source);
    let here = ExternReference::from_bytes(&reference(7, 42, 100)).unwrap();
    let there = ExternReference::from_bytes(&reference(8, 42, 100)).unwrap();
    assert_eq!(load_value(&here, &mut simple).unwrap(), text[..100].to_vec());
    assert_eq!(load_value(&there, &mut simple).unwrap(), other);
}
