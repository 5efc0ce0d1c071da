use innodb::innodb::charset::InnoDBCharset;
use innodb::innodb::table::field::{timestamp_value, Field, FieldType, FieldValue};
use innodb::innodb::table::text::{format_date, format_datetime};
use innodb::innodb::InnoDBError;

fn int_field(t: FieldType) -> Field {
    Field { name: Default::default(), field_type: t, nullable: false }
}

fn text_of(parsed: Result<(FieldValue, usize), InnoDBError>) -> (String, usize) {
    match parsed {
        Ok((FieldValue::String(s), n)) => (s, n),
        other => panic!("not a string: {:?}", other),
    }
}

#[test]
fn test_field_parse_int() {
    let buf = [0xFFu8, 0xFF, 0xFF];
    let field = Field {
        name: Default::default(),
        field_type: FieldType::MediumInt(true),
        nullable: false,
    };
    let result = field.parse_int(&buf, 3);
    match result {
        FieldValue::SignedInt(val) => assert_eq!(val, -1),
        _ => unreachable!(),
    }
}

#[test]
fn test_field_parse_medium_int() {
    let buf = [0x80, 0x00, 0x00];
    let field = Field {
        name: Default::default(),
        field_type: FieldType::MediumInt(true),
        nullable: false,
    };
    let result = field.parse_int_field(&buf, 3, true);
    match result {
        FieldValue::SignedInt(val) => assert_eq!(val, 0),
        _ => unreachable!(),
    }
}

#[test]
fn test_field_parse_tiny_int() {
    let buf = [0x7F];
    let field = Field {
        name: Default::default(),
        field_type: FieldType::TinyInt(true),
        nullable: false,
    };
    let result = field.parse_int_field(&buf, 1, true);
    match result {
        FieldValue::SignedInt(val) => assert_eq!(val, -1),
        _ => unreachable!(),
    }
}

#[test]
fn plain_twos_complement_is_unsigned_for_unsigned_fields() {
    let field = int_field(FieldType::MediumInt(false));
    assert_eq!(field.parse_int(&[0xFF, 0xFF, 0xFF], 3), FieldValue::UnsignedInt(0xFF_FFFF));
    let signed = int_field(FieldType::BigInt(true));
    assert_eq!(signed.parse_int(&[0x80, 0, 0, 0, 0, 0, 0, 0], 8), FieldValue::SignedInt(i64::MIN));
    assert_eq!(signed.parse_int(&[0x7F, 0xFF], 2), FieldValue::SignedInt(0x7FFF));
    assert_eq!(signed.parse_int(&[0x80, 0x00, 0x00, 0x00, 0x01], 5), FieldValue::SignedInt(-0x7F_FFFF_FFFF));
}

#[test]
fn tiny_int_ff_is_127() {
    let field = int_field(FieldType::TinyInt(true));
    assert_eq!(field.parse_signed_int(&[0xFF], 1), 127);
    assert_eq!(field.parse_signed_int(&[0x00], 1), -128);
    assert_eq!(field.parse_signed_int(&[0x80], 1), 0);
}

#[test]
fn medium_int_below_sign_bit_is_negative() {
    let field = int_field(FieldType::MediumInt(true));
    assert_eq!(field.parse_signed_int(&[0x7F, 0xFF, 0xFF], 3), -1);
    assert_eq!(field.parse_signed_int(&[0xFF, 0x7F, 0xFF], 3), 0x7F7FFF);
    assert_eq!(field.parse_signed_int(&[0x00, 0x00, 0x00], 3), -8_388_608);
    assert_eq!(field.parse_signed_int(&[0xFF, 0xFF, 0xFF], 3), 8_388_607);
}

/// The wire form of `v` in `w` bytes: two's complement with the sign bit inverted.
fn wire_form(v: i64, w: usize) -> Vec<u8> {
    let all = (v as u64).to_be_bytes();
    let mut bytes = all[8 - w..].to_vec();
    bytes[0] ^= 0x80;
    bytes
}

#[test]
fn signed_integers_round_trip_through_the_wire_form() {
    let field = int_field(FieldType::BigInt(true));
    for w in [1usize, 2, 3, 4, 6, 8] {
        let bits = 8 * w as u32 - 1;
        let min = if w == 8 { i64::MIN } else { -(1i64 << bits) };
        let max = if w == 8 { i64::MAX } else { (1i64 << bits) - 1 };
        for v in [min, min + 1, -2, -1, 0, 1, 2, 100, max - 1, max] {
            if v < min || v > max {
                continue;
            }
            let bytes = wire_form(v, w);
            assert_eq!(field.parse_signed_int(&bytes, w), v, "width {} value {}", w, v);
        }
    }
}

#[test]
fn unsigned_integers_are_big_endian() {
    let field = int_field(FieldType::Int6(false));
    assert_eq!(field.parse_uint(&[0x01, 0x02, 0x03, 0x04, 0x05, 0x06], 6), 0x0102_0304_0506);
    assert_eq!(field.parse_uint(&[0xFF; 8], 8), u64::MAX);
    assert_eq!(field.parse_uint(&[0x12, 0x34], 0), 0);
    assert_eq!(field.parse_int_field(&[0x12, 0x34], 2, false), FieldValue::UnsignedInt(0x1234));
}

#[test]
fn integer_columns_take_their_width() {
    let buf = [0x80u8, 0, 0, 5, 9, 9, 9, 9, 9];
    for (t, width, value) in [
        (FieldType::TinyInt(true), 1usize, 0i64),
        (FieldType::SmallInt(true), 2, 0),
        (FieldType::MediumInt(true), 3, 0),
        (FieldType::Int(true), 4, 5),
        (FieldType::Int6(true), 6, 0x0005_0909),
        (FieldType::BigInt(true), 8, 0x0005_0909_0909),
    ] {
        let parsed = int_field(t).parse(&buf, None).unwrap();
        assert_eq!(parsed, (FieldValue::SignedInt(value), width));
    }
    let parsed = int_field(FieldType::Int(false)).parse(&buf, None).unwrap();
    assert_eq!(parsed, (FieldValue::UnsignedInt(0x8000_0005), 4));
}

#[test]
fn short_buffers_are_rejected() {
    assert_eq!(int_field(FieldType::Int(true)).parse(&[1, 2, 3], None), Err(InnoDBError::InvalidLength));
    assert_eq!(int_field(FieldType::Date).parse(&[1, 2], None), Err(InnoDBError::InvalidLength));
    assert_eq!(int_field(FieldType::DateTime).parse(&[0; 7], None), Err(InnoDBError::InvalidLength));
    assert_eq!(int_field(FieldType::Timestamp).parse(&[0; 3], None), Err(InnoDBError::InvalidLength));
    assert_eq!(
        int_field(FieldType::Char(4, InnoDBCharset::Ascii)).parse(b"abc", None),
        Err(InnoDBError::InvalidLength)
    );
    assert_eq!(
        int_field(FieldType::Text(10, InnoDBCharset::Ascii)).parse(b"abc", Some(4)),
        Err(InnoDBError::InvalidLength)
    );
    assert_eq!(
        int_field(FieldType::Enum(vec!["a".to_string()])).parse(&[], None),
        Err(InnoDBError::InvalidLength)
    );
}

#[test]
fn floats_are_not_decoded() {
    assert_eq!(int_field(FieldType::Float).parse(&[0; 8], None), Err(InnoDBError::UnsupportedFieldType));
    assert_eq!(int_field(FieldType::Double).parse(&[0; 8], None), Err(InnoDBError::UnsupportedFieldType));
}

#[test]
fn char_trims_trailing_spaces_only() {
    let field = int_field(FieldType::Char(8, InnoDBCharset::Ascii));
    assert_eq!(text_of(field.parse(b"ab c    tail", None)), ("ab c".to_string(), 8));
    assert_eq!(text_of(field.parse(b"        ", None)), (String::new(), 8));
    assert_eq!(text_of(field.parse(b" ab\t\n   ", None)), (" ab\t\n".to_string(), 8));
}

#[test]
fn char_rejects_invalid_utf8() {
    let field = int_field(FieldType::Char(3, InnoDBCharset::Latin1));
    assert_eq!(field.parse(&[0x61, 0xFF, 0x20], None), Err(InnoDBError::InvalidUtf8));
    assert_eq!(field.parse(&[0xC3, 0x20, 0x20], None), Err(InnoDBError::InvalidUtf8));
}

#[test]
fn varchar_returns_the_string_unchanged() {
    let field = int_field(FieldType::Text(255, InnoDBCharset::Ascii));
    let parsed = field.parse(b"0123456789following", Some(10));
    assert_eq!(text_of(parsed), ("0123456789".to_string(), 10));
    let spaced = field.parse(b"ab  rest", Some(4));
    assert_eq!(text_of(spaced), ("ab  ".to_string(), 4));
}

#[test]
fn text_decodes_multi_byte_characters() {
    let field = int_field(FieldType::Text(20, InnoDBCharset::Utf8mb4));
    let bytes = "h\u{e9}llo \u{4e16}\u{754c} \u{1f600}".as_bytes();
    let parsed = field.parse(bytes, Some(bytes.len() as u64));
    assert_eq!(text_of(parsed), ("h\u{e9}llo \u{4e16}\u{754c} \u{1f600}".to_string(), bytes.len()));
    assert_eq!(field.parse(&[0xE4, 0xB8], Some(2)), Err(InnoDBError::InvalidUtf8));
    assert_eq!(field.parse(&[0xED, 0xA0, 0x80], Some(3)), Err(InnoDBError::InvalidUtf8));
}

#[test]
fn text_without_length_is_null() {
    let field = int_field(FieldType::Text(20, InnoDBCharset::Utf8mb4));
    assert_eq!(field.parse(b"abc", None), Ok((FieldValue::Null, 0)));
}

#[test]
fn text_longer_than_declared_is_rejected() {
    let field = int_field(FieldType::Text(2, InnoDBCharset::Utf8mb4));
    assert_eq!(field.parse(b"123456789", Some(9)), Err(InnoDBError::InvalidLength));
    assert_eq!(text_of(field.parse(b"123456789", Some(8))), ("12345678".to_string(), 8));
}

#[test]
fn date_is_year_month_day() {
    let field = int_field(FieldType::Date);
    assert_eq!(text_of(field.parse(&[0x8F, 0xD0, 0x5D], None)), ("2024-02-29".to_string(), 3));
    assert_eq!(text_of(field.parse(&[0x80, 0x00, 0x00], None)), ("0000-00-00".to_string(), 3));
    assert_eq!(text_of(field.parse(&[0x80, 0x02, 0x21], None)), ("0001-01-01".to_string(), 3));
    assert_eq!(text_of(field.parse(&[0x7F, 0xFE, 0x21], None)), ("-001-01-01".to_string(), 3));
    assert_eq!(text_of(field.parse(&[0xFF, 0xFF, 0xFF], None)), ("16383-15-31".to_string(), 3));
    assert_eq!(text_of(field.parse(&[0x00, 0x00, 0x00], None)), ("-16384-00-00".to_string(), 3));
}

#[test]
fn datetime_follows_the_bit_fields() {
    let field = int_field(FieldType::DateTime);
    let wire = [0x99, 0x9A, 0x82, 0x9B, 0x8C, 0xE0, 0x00, 0x00];
    assert_eq!(text_of(field.parse(&wire, None)), ("2016-10-01 09:46:12".to_string(), 8));
    let zero = [0x80, 0, 0, 0, 0, 0, 0, 0];
    assert_eq!(text_of(field.parse(&zero, None)), ("0000-00-00 00:00:00".to_string(), 8));
    let top = [0x7F, 0xFF, 0xFF, 0xFF, 0xFF, 0xFF, 0xFF, 0xFF];
    assert_eq!(text_of(field.parse(&top, None)), ("20164-11-31 31:63:63".to_string(), 8));
}

#[test]
fn timestamp_is_utc_time() {
    let field = int_field(FieldType::Timestamp);
    assert_eq!(text_of(field.parse(&[0, 0, 0, 0], None)), ("0000-00-00 00:00:00".to_string(), 4));
    assert_eq!(text_of(field.parse(&[0, 0, 0, 1], None)), ("1970-01-01 00:00:01".to_string(), 4));
    let secs = 1_431_648_000u32.to_be_bytes();
    assert_eq!(text_of(field.parse(&secs, None)), ("2015-05-15 00:00:00".to_string(), 4));
    assert_eq!(
        text_of(field.parse(&[0xFF, 0xFF, 0xFF, 0xFF], None)),
        ("2106-02-07 06:28:15".to_string(), 4)
    );
}

#[test]
fn timestamp_value_follows_the_text() {
    assert_eq!(timestamp_value(0, None), Ok(FieldValue::String("0000-00-00 00:00:00".to_string())));
    assert_eq!(
        timestamp_value(0, Some("ignored".to_string())),
        Ok(FieldValue::String("0000-00-00 00:00:00".to_string()))
    );
    assert_eq!(timestamp_value(5, Some("text".to_string())), Ok(FieldValue::String("text".to_string())));
    assert_eq!(timestamp_value(5, None), Err(InnoDBError::InvalidPage));
}

#[test]
fn enum_value_is_the_label_before_it() {
    let labels = vec!["red".to_string(), "green".to_string(), "blue".to_string()];
    let field = int_field(FieldType::Enum(labels));
    assert_eq!(text_of(field.parse(&[0, 9], None)), (String::new(), 1));
    assert_eq!(text_of(field.parse(&[1, 9], None)), ("red".to_string(), 1));
    assert_eq!(text_of(field.parse(&[3, 9], None)), ("blue".to_string(), 1));
    assert_eq!(field.parse(&[4, 9], None), Err(InnoDBError::InvalidPage));
}

#[test]
fn enum_with_many_labels_takes_two_bytes() {
    let labels: Vec<String> = (0..256).map(|i| format!("l{}", i)).collect();
    let field = int_field(FieldType::Enum(labels));
    assert_eq!(text_of(field.parse(&[0x01, 0x00], None)), ("l255".to_string(), 2));
    assert_eq!(text_of(field.parse(&[0x00, 0x01], None)), ("l0".to_string(), 2));
    assert_eq!(field.parse(&[0x01, 0x01], None), Err(InnoDBError::InvalidPage));
    let fewer: Vec<String> = (0..255).map(|i| format!("l{}", i)).collect();
    let one_byte = int_field(FieldType::Enum(fewer));
    assert_eq!(text_of(one_byte.parse(&[0xFF, 0x00], None)), ("l254".to_string(), 1));
}

#[test]
fn field_types_know_their_lengths() {
    assert_eq!(FieldType::TinyInt(true).max_len(), 1);
    assert_eq!(FieldType::SmallInt(false).max_len(), 2);
    assert_eq!(FieldType::MediumInt(false).max_len(), 3);
    assert_eq!(FieldType::Int(false).max_len(), 4);
    assert_eq!(FieldType::Int6(false).max_len(), 6);
    assert_eq!(FieldType::BigInt(false).max_len(), 8);
    assert_eq!(FieldType::Float.max_len(), 4);
    assert_eq!(FieldType::Double.max_len(), 8);
    assert_eq!(FieldType::Enum(vec![]).max_len(), 2);
    assert_eq!(FieldType::Date.max_len(), 3);
    assert_eq!(FieldType::DateTime.max_len(), 8);
    assert_eq!(FieldType::Timestamp.max_len(), 4);
    assert_eq!(FieldType::Text(255, InnoDBCharset::Utf8mb4).max_len(), 1020);
    assert_eq!(FieldType::Text(85, InnoDBCharset::Utf8mb3).max_len(), 255);
    assert_eq!(FieldType::Char(10, InnoDBCharset::Latin1).max_len(), 10);
    assert!(FieldType::Text(1, InnoDBCharset::Ascii).is_variable());
    assert!(!FieldType::Char(1, InnoDBCharset::Ascii).is_variable());
    assert!(!FieldType::Int(true).is_variable());
}

#[test]
fn charsets_go_by_name() {
    assert_eq!(InnoDBCharset::with_name("ascii"), Ok(InnoDBCharset::Ascii));
    assert_eq!(InnoDBCharset::with_name("latin1"), Ok(InnoDBCharset::Latin1));
    assert_eq!(InnoDBCharset::with_name("utf8"), Ok(InnoDBCharset::Utf8mb3));
    assert_eq!(InnoDBCharset::with_name("utf8mb3"), Ok(InnoDBCharset::Utf8mb3));
    assert_eq!(InnoDBCharset::with_name("utf8mb4"), Ok(InnoDBCharset::Utf8mb4));
    assert_eq!(InnoDBCharset::with_name("klingon"), Err(InnoDBError::InvalidTableDefinition));
    assert_eq!(InnoDBCharset::Ascii.max_len(), 1);
    assert_eq!(InnoDBCharset::Latin1.max_len(), 1);
    assert_eq!(InnoDBCharset::Utf8mb3.max_len(), 3);
    assert_eq!(InnoDBCharset::Utf8mb4.max_len(), 4);
}

#[test]
fn dates_are_written_with_leading_zeros() {
    assert_eq!(format_date(7, 3, 9), "0007-03-09");
    assert_eq!(format_date(12345, 12, 31), "12345-12-31");
    assert_eq!(format_date(-5, 0, 0), "-005-00-00");
    assert_eq!(format_date(-12345, 1, 1), "-12345-01-01");
    assert_eq!(format_datetime(1999, 12, 31, 23, 59, 58), "1999-12-31 23:59:58");
    assert_eq!(format_datetime(0, 0, 0, 0, 0, 0), "0000-00-00 00:00:00");
}
