//! Fields of a table and the decoding of their values from record bytes.
use vstd::arithmetic::div_mod::lemma_fundamental_div_mod_converse;
use vstd::arithmetic::power2::lemma2_to64;
use vstd::prelude::*;
use vstd::utf8::{decode_utf8, valid_utf8};

use crate::innodb::charset::InnoDBCharset;
use crate::innodb::integer::{
    be_uint, flip_sign_bit, is_integer_width, lemma_be_uint_bound, lemma_sign_bits,
    lemma_signed_wire_value, read_signed, read_twos_complement, read_uint, signed_wire_value,
    twos_complement_value,
};
use crate::innodb::table::text::{date_text, datetime_text, format_date, format_datetime};
use crate::innodb::InnoDBError;
use chrono::DateTime;

verus! {

/// The types that fields can have.
#[derive(Debug, Clone, PartialEq, Eq)]
pub enum FieldType {
    /// 1 byte; signed or not
    TinyInt(bool),
    /// 2 bytes
    SmallInt(bool),
    /// 3 bytes
    MediumInt(bool),
    /// 4 bytes
    Int(bool),
    /// 6 bytes
    Int6(bool),
    /// 8 bytes
    BigInt(bool),
    Float,
    Double,
    Enum(Vec<String>),
    /// Variable length: at most so many characters of the character set.
    Text(usize, InnoDBCharset),
    /// Fixed length: so many bytes.
    Char(usize, InnoDBCharset),
    Date,
    DateTime,
    Timestamp,
}

impl FieldType {
    /// The most bytes a value of the type takes: for text, characters times the most
    /// bytes of a character.
    pub open spec fn spec_max_len(&self) -> int {
        match self {
            FieldType::TinyInt(_) => 1,
            FieldType::SmallInt(_) => 2,
            FieldType::MediumInt(_) => 3,
            FieldType::Int(_) => 4,
            FieldType::Int6(_) => 6,
            FieldType::BigInt(_) => 8,
            FieldType::Float => 4,
            FieldType::Double => 8,
            FieldType::Enum(_) => 2,
            FieldType::Text(len, charset) => len * charset.max_bytes_per_char(),
            FieldType::Char(len, charset) => len * charset.max_bytes_per_char(),
            FieldType::Date => 3,
            FieldType::DateTime => 8,
            FieldType::Timestamp => 4,
        }
    }

    /// The greatest length of the type fits 64 bits.
    pub open spec fn wf(&self) -> bool {
        self.spec_max_len() <= u64::MAX
    }

    /// Values of the type have their length stored in the record header.
    pub open spec fn spec_is_variable(&self) -> bool {
        self is Text
    }

    /// Whether values of the type have their length stored in the record header.
    #[verifier::when_used_as_spec(spec_is_variable)]
    pub fn is_variable(&self) -> (r: bool)
        ensures
            r == (self is Text),
    {
        match self {
            FieldType::Text(_, _) => true,
            _ => false,
        }
    }

    /// The most bytes that a value of the type takes.
    pub fn max_len(&self) -> (r: u64)
        requires
            self.wf(),
        ensures
            r == self.spec_max_len(),
    {
        match self {
            FieldType::TinyInt(_) => 1,
            FieldType::SmallInt(_) => 2,
            FieldType::MediumInt(_) => 3,
            FieldType::Int(_) => 4,
            FieldType::Int6(_) => 6,
            FieldType::BigInt(_) => 8,
            FieldType::Float => 4,
            FieldType::Double => 8,
            FieldType::Enum(_) => 2,
            FieldType::Text(len, charset) => (*len as u64) * charset.max_len(),
            FieldType::Char(len, charset) => (*len as u64) * charset.max_len(),
            FieldType::Date => 3,
            FieldType::DateTime => 8,
            FieldType::Timestamp => 4,
        }
    }
}

/// The characters of each string of a list.
pub open spec fn views_of(strings: Seq<String>) -> Seq<Seq<char>> {
    strings.map_values(|s: String| s@)
}

/// Copies a list of strings.
pub fn copy_strings(strings: &Vec<String>) -> (r: Vec<String>)
    ensures
        views_of(r@) == views_of(strings@),
{
    let mut copy: Vec<String> = Vec::new();
    let mut i: usize = 0;
    while i < strings.len()
        invariant
            i <= strings@.len(),
            copy@.len() == i,
            forall|k: int| 0 <= k < i ==> (#[trigger] copy@[k])@ == strings@[k]@,
        decreases strings@.len() - i,
    {
        copy.push(strings[i].clone());
        i += 1;
    }
    assert(views_of(copy@) =~= views_of(strings@));
    copy
}

/// A field type with its strings as sequences of characters.
pub enum FieldTypeView {
    TinyInt(bool),
    SmallInt(bool),
    MediumInt(bool),
    Int(bool),
    Int6(bool),
    BigInt(bool),
    Float,
    Double,
    Enum(Seq<Seq<char>>),
    Text(usize, InnoDBCharset),
    Char(usize, InnoDBCharset),
    Date,
    DateTime,
    Timestamp,
}

impl View for FieldType {
    type V = FieldTypeView;

    open spec fn view(&self) -> FieldTypeView {
        match self {
            FieldType::TinyInt(signed) => FieldTypeView::TinyInt(*signed),
            FieldType::SmallInt(signed) => FieldTypeView::SmallInt(*signed),
            FieldType::MediumInt(signed) => FieldTypeView::MediumInt(*signed),
            FieldType::Int(signed) => FieldTypeView::Int(*signed),
            FieldType::Int6(signed) => FieldTypeView::Int6(*signed),
            FieldType::BigInt(signed) => FieldTypeView::BigInt(*signed),
            FieldType::Float => FieldTypeView::Float,
            FieldType::Double => FieldTypeView::Double,
            FieldType::Enum(labels) => FieldTypeView::Enum(views_of(labels@)),
            FieldType::Text(len, charset) => FieldTypeView::Text(*len, *charset),
            FieldType::Char(len, charset) => FieldTypeView::Char(*len, *charset),
            FieldType::Date => FieldTypeView::Date,
            FieldType::DateTime => FieldTypeView::DateTime,
            FieldType::Timestamp => FieldTypeView::Timestamp,
        }
    }
}

impl FieldType {
    /// A copy of the type.
    pub fn copy_of(&self) -> (r: FieldType)
        ensures
            r@ == self@,
            self.wf() ==> r.wf(),
    {
        match self {
            FieldType::TinyInt(signed) => FieldType::TinyInt(*signed),
            FieldType::SmallInt(signed) => FieldType::SmallInt(*signed),
            FieldType::MediumInt(signed) => FieldType::MediumInt(*signed),
            FieldType::Int(signed) => FieldType::Int(*signed),
            FieldType::Int6(signed) => FieldType::Int6(*signed),
            FieldType::BigInt(signed) => FieldType::BigInt(*signed),
            FieldType::Float => FieldType::Float,
            FieldType::Double => FieldType::Double,
            FieldType::Enum(labels) => FieldType::Enum(copy_strings(labels)),
            FieldType::Text(len, charset) => FieldType::Text(*len, *charset),
            FieldType::Char(len, charset) => FieldType::Char(*len, *charset),
            FieldType::Date => FieldType::Date,
            FieldType::DateTime => FieldType::DateTime,
            FieldType::Timestamp => FieldType::Timestamp,
        }
    }
}

/// The value of a field of a row.
#[derive(Clone, Debug, PartialEq)]
pub enum FieldValue {
    SignedInt(i64),
    UnsignedInt(u64),
    String(String),
    PartialString { partial: String, total_len: usize },
    Null,
    /// The value lies outside the record and could not be fetched.
    Skipped,
}

/// A field value with its strings as sequences of characters.
pub enum FieldValueView {
    SignedInt(i64),
    UnsignedInt(u64),
    String(Seq<char>),
    PartialString { partial: Seq<char>, total_len: usize },
    Null,
    Skipped,
}

impl View for FieldValue {
    type V = FieldValueView;

    open spec fn view(&self) -> FieldValueView {
        match self {
            FieldValue::SignedInt(v) => FieldValueView::SignedInt(*v),
            FieldValue::UnsignedInt(v) => FieldValueView::UnsignedInt(*v),
            FieldValue::String(s) => FieldValueView::String(s@),
            FieldValue::PartialString { partial, total_len } => FieldValueView::PartialString {
                partial: partial@,
                total_len: *total_len,
            },
            FieldValue::Null => FieldValueView::Null,
            FieldValue::Skipped => FieldValueView::Skipped,
        }
    }
}

/// `s` without the spaces at its end.
pub open spec fn trim_trailing_spaces(s: Seq<u8>) -> Seq<u8>
    decreases s.len(),
{
    if s.len() > 0 && s.last() == 0x20 {
        trim_trailing_spaces(s.drop_last())
    } else {
        s
    }
}

/// The text that chrono writes for a UNIX timestamp, taken in UTC, in the form
/// `%Y-%m-%d %H:%M:%S`; `None` where chrono holds the timestamp to be out of range.
pub uninterp spec fn utc_timestamp_text(secs: u32) -> Option<Seq<char>>;

/// Calls `chrono::DateTime::from_timestamp` with no nanoseconds and writes the result
/// with `DateTime::format` in the form `%Y-%m-%d %H:%M:%S`. The contract only names
/// what comes back, which depends on the number of seconds alone.
#[verifier::external_body]
fn format_utc_timestamp(secs: u32) -> (r: Option<String>)
    ensures
        (match r {
            Some(s) => Some(s@),
            None => None,
        }) == utc_timestamp_text(secs),
{
    match DateTime::from_timestamp(secs as i64, 0) {
        Some(t) => Some(format!("{}", t.format("%Y-%m-%d %H:%M:%S"))),
        None => None,
    }
}

/// Calls `String::from_utf8` on a copy of the bytes: a string comes back exactly when
/// the bytes are valid UTF-8, and it holds the characters that they encode.
#[verifier::external_body]
fn string_from_utf8(bytes: &[u8]) -> (r: Option<String>)
    ensures
        r is Some <==> valid_utf8(bytes@),
        r matches Some(s) ==> s@ == decode_utf8(bytes@),
{
    String::from_utf8(bytes.to_vec()).ok()
}

/// The string value that bytes decode to: strict UTF-8.
pub open spec fn decode_string(bytes: Seq<u8>) -> Result<FieldValueView, InnoDBError> {
    if valid_utf8(bytes) {
        Ok(FieldValueView::String(decode_utf8(bytes)))
    } else {
        Err(InnoDBError::InvalidUtf8)
    }
}

/// The value of a timestamp column: 0 stands for the zero date, any other number of
/// seconds for the UTC time that it counts from the epoch.
pub open spec fn decode_timestamp(secs: u32, text: Option<Seq<char>>) -> Result<
    FieldValueView,
    InnoDBError,
> {
    if secs == 0 {
        Ok(FieldValueView::String("0000-00-00 00:00:00"@))
    } else {
        match text {
            Some(t) => Ok(FieldValueView::String(t)),
            None => Err(InnoDBError::InvalidPage),
        }
    }
}

/// The value of a date column, from the signed 3-byte integer that holds it: the day
/// in bits 0 to 4, the month in bits 5 to 8, the year above them.
pub open spec fn decode_date(v: int) -> FieldValueView {
    FieldValueView::String(date_text(v / 512, ((v / 32) % 16) as nat, (v % 32) as nat))
}

/// The value of a datetime column, from its 8 bytes with the sign bit inverted: year
/// and month share the bits from 46 up, as `year * 13 + month`; day, hour, minute and
/// second follow in 5, 5, 6 and 6 bits.
pub open spec fn decode_datetime(d: nat) -> FieldValueView {
    let yd = d / 0x4000_0000_0000;
    FieldValueView::String(
        datetime_text(
            (yd / 13) as int,
            yd % 13,
            (d / 0x200_0000_0000) % 32,
            (d / 0x10_0000_0000) % 32,
            (d / 0x4000_0000) % 64,
            (d / 0x100_0000) % 64,
        ),
    )
}

/// The value of an enum column: 0 stands for the empty string, `k > 0` for label `k - 1`.
pub open spec fn decode_enum(labels: Seq<String>, n: nat) -> Result<FieldValueView, InnoDBError> {
    if n == 0 {
        Ok(FieldValueView::String(Seq::empty()))
    } else if n - 1 < labels.len() {
        Ok(FieldValueView::String(labels[n - 1]@))
    } else {
        Err(InnoDBError::InvalidPage)
    }
}

/// The number of bytes that an enum column with so many labels takes.
pub open spec fn enum_width(labels: nat) -> nat {
    if labels <= 255 {
        1
    } else {
        2
    }
}

/// An integer column of `len` bytes.
pub open spec fn decode_int(buf: Seq<u8>, len: nat, signed: bool) -> Result<
    (FieldValueView, nat),
    InnoDBError,
> {
    if buf.len() < len {
        Err(InnoDBError::InvalidLength)
    } else if signed {
        Ok((FieldValueView::SignedInt(signed_wire_value(buf.subrange(0, len as int)) as i64), len))
    } else {
        Ok((FieldValueView::UnsignedInt(be_uint(buf.subrange(0, len as int)) as u64), len))
    }
}

/// `r` with the number of bytes `n` beside the value.
pub open spec fn with_length(r: Result<FieldValueView, InnoDBError>, n: nat) -> Result<
    (FieldValueView, nat),
    InnoDBError,
> {
    match r {
        Ok(v) => Ok((v, n)),
        Err(e) => Err(e),
    }
}

/// What decoding a field of type `t` from the start of `buf` gives: the value and the
/// number of bytes it took, or the error. `length` is the length that the record header
/// holds for a field of variable length.
pub open spec fn decode_field(t: FieldType, buf: Seq<u8>, length: Option<u64>) -> Result<
    (FieldValueView, nat),
    InnoDBError,
> {
    match t {
        FieldType::TinyInt(signed) => decode_int(buf, 1, signed),
        FieldType::SmallInt(signed) => decode_int(buf, 2, signed),
        FieldType::MediumInt(signed) => decode_int(buf, 3, signed),
        FieldType::Int(signed) => decode_int(buf, 4, signed),
        FieldType::Int6(signed) => decode_int(buf, 6, signed),
        FieldType::BigInt(signed) => decode_int(buf, 8, signed),
        FieldType::Float => Err(InnoDBError::UnsupportedFieldType),
        FieldType::Double => Err(InnoDBError::UnsupportedFieldType),
        FieldType::Char(len, _) => if buf.len() < len {
            Err(InnoDBError::InvalidLength)
        } else {
            with_length(
                decode_string(trim_trailing_spaces(buf.subrange(0, len as int))),
                len as nat,
            )
        },
        FieldType::Text(_, _) => match length {
            None => Ok((FieldValueView::Null, 0)),
            Some(length) => if length > t.spec_max_len() || length > buf.len() {
                Err(InnoDBError::InvalidLength)
            } else {
                with_length(decode_string(buf.subrange(0, length as int)), length as nat)
            },
        },
        FieldType::Date => if buf.len() < 3 {
            Err(InnoDBError::InvalidLength)
        } else {
            Ok((decode_date(signed_wire_value(buf.subrange(0, 3))), 3))
        },
        FieldType::DateTime => if buf.len() < 8 {
            Err(InnoDBError::InvalidLength)
        } else {
            Ok((decode_datetime(flip_sign_bit(be_uint(buf.subrange(0, 8)), 8)), 8))
        },
        FieldType::Timestamp => if buf.len() < 4 {
            Err(InnoDBError::InvalidLength)
        } else {
            let secs = be_uint(buf.subrange(0, 4)) as u32;
            with_length(decode_timestamp(secs, utc_timestamp_text(secs)), 4)
        },
        FieldType::Enum(labels) => {
            let width = enum_width(labels@.len());
            if buf.len() < width {
                Err(InnoDBError::InvalidLength)
            } else {
                with_length(decode_enum(labels@, be_uint(buf.subrange(0, width as int))), width)
            }
        },
    }
}

/// Whether a decoded value and its length are what the model says.
pub open spec fn agrees(
    r: Result<(FieldValue, usize), InnoDBError>,
    model: Result<(FieldValueView, nat), InnoDBError>,
) -> bool {
    match model {
        Ok((v, n)) => r is Ok && r->Ok_0.0@ == v && r->Ok_0.1 == n,
        Err(e) => r == Err::<(FieldValue, usize), InnoDBError>(e),
    }
}

/// Whether a decoded value is what the model says.
pub open spec fn value_agrees(
    r: Result<FieldValue, InnoDBError>,
    model: Result<FieldValueView, InnoDBError>,
) -> bool {
    match model {
        Ok(v) => r is Ok && r->Ok_0@ == v,
        Err(e) => r == Err::<FieldValue, InnoDBError>(e),
    }
}

/// Decodes bytes as a string in strict UTF-8.
pub fn string_value(bytes: &[u8]) -> (r: Result<FieldValue, InnoDBError>)
    ensures
        value_agrees(r, decode_string(bytes@)),
{
    match string_from_utf8(bytes) {
        Some(s) => Ok(FieldValue::String(s)),
        None => Err(InnoDBError::InvalidUtf8),
    }
}

/// Removes the spaces at the end of `bytes`.
pub fn trim_spaces(bytes: &[u8]) -> (r: &[u8])
    ensures
        r@ == trim_trailing_spaces(bytes@),
{
    let mut end: usize = bytes.len();
    assert(bytes@.subrange(0, end as int) == bytes@);
    while end > 0 && bytes[end - 1] == 0x20
        invariant
            end <= bytes.len(),
            trim_trailing_spaces(bytes@) == trim_trailing_spaces(bytes@.subrange(0, end as int)),
        decreases end,
    {
        assert(bytes@.subrange(0, end as int).drop_last() == bytes@.subrange(0, end - 1));
        end -= 1;
    }
    vstd::slice::slice_subrange(bytes, 0, end)
}

/// The value of a timestamp column, given the text that the number of seconds stands
/// for where there is one.
pub fn timestamp_value(secs: u32, text: Option<String>) -> (r: Result<FieldValue, InnoDBError>)
    ensures
        value_agrees(
            r,
            decode_timestamp(
                secs,
                match text {
                    Some(s) => Some(s@),
                    None => None,
                },
            ),
        ),
{
    if secs == 0 {
        Ok(FieldValue::String(String::from_str("0000-00-00 00:00:00")))
    } else {
        match text {
            Some(t) => Ok(FieldValue::String(t)),
            None => Err(InnoDBError::InvalidPage),
        }
    }
}

/// A field of a table: its name, its type, and whether it can be null.
#[derive(Debug, Clone, PartialEq, Eq)]
pub struct Field {
    pub name: String,
    pub field_type: FieldType,
    pub nullable: bool,
}

/// A field with its strings as sequences of characters.
pub struct FieldView {
    pub name: Seq<char>,
    pub field_type: FieldTypeView,
    pub nullable: bool,
}

impl View for Field {
    type V = FieldView;

    open spec fn view(&self) -> FieldView {
        FieldView { name: self.name@, field_type: self.field_type@, nullable: self.nullable }
    }
}

impl Field {
    /// A copy of the field.
    pub fn copy_of(&self) -> (r: Field)
        ensures
            r@ == self@,
            self.field_type.wf() ==> r.field_type.wf(),
    {
        Field {
            name: self.name.clone(),
            field_type: self.field_type.copy_of(),
            nullable: self.nullable,
        }
    }

    /// A field of that name and type.
    pub fn new(name: &str, t: FieldType, nullable: bool) -> (r: Self)
        ensures
            r.name@ == name@,
            r.field_type == t,
            r.nullable == nullable,
    {
        Field { name: name.to_owned(), field_type: t, nullable }
    }

    /// Reads the first `len` bytes of `buf` as a big-endian unsigned integer.
    pub fn parse_uint(&self, buf: &[u8], len: usize) -> (r: u64)
        requires
            len <= 8,
            len <= buf.len(),
        ensures
            r == be_uint(buf@.subrange(0, len as int)),
    {
        read_uint(buf, len)
    }

    /// Reads the first `len` bytes of `buf` as a signed integer: big-endian, with the
    /// sign bit inverted.
    pub fn parse_signed_int(&self, buf: &[u8], len: usize) -> (r: i64)
        requires
            is_integer_width(len as nat),
            len <= buf.len(),
        ensures
            r == signed_wire_value(buf@.subrange(0, len as int)),
    {
        read_signed(buf, len)
    }

    /// Whether the field is an integer with a sign.
    pub open spec fn is_signed(&self) -> bool {
        match self.field_type {
            FieldType::TinyInt(signed) => signed,
            FieldType::SmallInt(signed) => signed,
            FieldType::MediumInt(signed) => signed,
            FieldType::Int(signed) => signed,
            FieldType::Int6(signed) => signed,
            FieldType::BigInt(signed) => signed,
            _ => false,
        }
    }

    /// Reads the first `len` bytes of `buf` as a big-endian integer that is stored as it
    /// is: where the field is a signed integer, in plain two's complement, without the
    /// inversion of the sign bit that `parse_signed_int` undoes.
    pub fn parse_int(&self, buf: &[u8], len: usize) -> (r: FieldValue)
        requires
            1 <= len <= 8,
            len <= buf.len(),
        ensures
            r@ == if self.is_signed() {
                FieldValueView::SignedInt(
                    twos_complement_value(be_uint(buf@.subrange(0, len as int)), len as nat) as i64,
                )
            } else {
                FieldValueView::UnsignedInt(be_uint(buf@.subrange(0, len as int)) as u64)
            },
    {
        let signed = match &self.field_type {
            FieldType::TinyInt(signed) => *signed,
            FieldType::SmallInt(signed) => *signed,
            FieldType::MediumInt(signed) => *signed,
            FieldType::Int(signed) => *signed,
            FieldType::Int6(signed) => *signed,
            FieldType::BigInt(signed) => *signed,
            _ => false,
        };
        if signed {
            FieldValue::SignedInt(read_twos_complement(buf, len))
        } else {
            FieldValue::UnsignedInt(read_uint(buf, len))
        }
    }

    /// Decodes an integer of `len` bytes in wire form, signed or not.
    pub fn parse_int_field(&self, buf: &[u8], len: usize, signed: bool) -> (r: FieldValue)
        requires
            is_integer_width(len as nat),
            len <= buf.len(),
        ensures
            Ok::<(FieldValueView, nat), InnoDBError>((r@, len as nat)) == decode_int(
                buf@,
                len as nat,
                signed,
            ),
    {
        if signed {
            FieldValue::SignedInt(self.parse_signed_int(buf, len))
        } else {
            FieldValue::UnsignedInt(self.parse_uint(buf, len))
        }
    }

    /// Decodes the value of this field from the start of `buf`, and says how many
    /// bytes it took.
    pub fn parse(&self, buf: &[u8], length_opt: Option<u64>) -> (r: Result<
        (FieldValue, usize),
        InnoDBError,
    >)
        requires
            self.field_type.wf(),
        ensures
            agrees(r, decode_field(self.field_type, buf@, length_opt)),
    {
        match &self.field_type {
            FieldType::TinyInt(signed) => self.parse_int_column(buf, 1, *signed),
            FieldType::SmallInt(signed) => self.parse_int_column(buf, 2, *signed),
            FieldType::MediumInt(signed) => self.parse_int_column(buf, 3, *signed),
            FieldType::Int(signed) => self.parse_int_column(buf, 4, *signed),
            FieldType::Int6(signed) => self.parse_int_column(buf, 6, *signed),
            FieldType::BigInt(signed) => self.parse_int_column(buf, 8, *signed),
            FieldType::Float => Err(InnoDBError::UnsupportedFieldType),
            FieldType::Double => Err(InnoDBError::UnsupportedFieldType),
            FieldType::Char(len, _) => parse_char(buf, *len),
            FieldType::Text(_, _) => match length_opt {
                None => Ok((FieldValue::Null, 0)),
                Some(length) => parse_text(buf, length, self.field_type.max_len()),
            },
            FieldType::Date => parse_date(buf),
            FieldType::DateTime => parse_datetime(buf),
            FieldType::Timestamp => parse_timestamp(buf),
            FieldType::Enum(values) => parse_enum(buf, values),
        }
    }

    /// Decodes an integer column of `len` bytes.
    fn parse_int_column(&self, buf: &[u8], len: usize, signed: bool) -> (r: Result<
        (FieldValue, usize),
        InnoDBError,
    >)
        requires
            is_integer_width(len as nat),
        ensures
            agrees(r, decode_int(buf@, len as nat, signed)),
    {
        if buf.len() < len {
            return Err(InnoDBError::InvalidLength);
        }
        Ok((self.parse_int_field(buf, len, signed), len))
    }
}

/// Decodes a column of fixed length: `len` bytes, of which the spaces at the end
/// do not count.
fn parse_char(buf: &[u8], len: usize) -> (r: Result<(FieldValue, usize), InnoDBError>)
    ensures
        agrees(
            r,
            if buf@.len() < len {
                Err(InnoDBError::InvalidLength)
            } else {
                with_length(
                    decode_string(trim_trailing_spaces(buf@.subrange(0, len as int))),
                    len as nat,
                )
            },
        ),
{
    if buf.len() < len {
        return Err(InnoDBError::InvalidLength);
    }
    let bytes = trim_spaces(vstd::slice::slice_subrange(buf, 0, len));
    match string_value(bytes) {
        Ok(value) => Ok((value, len)),
        Err(e) => Err(e),
    }
}

/// Decodes a column of variable length whose value takes `length` bytes.
fn parse_text(buf: &[u8], length: u64, max_len: u64) -> (r: Result<
    (FieldValue, usize),
    InnoDBError,
>)
    ensures
        agrees(
            r,
            if length > max_len || length > buf@.len() {
                Err(InnoDBError::InvalidLength)
            } else {
                with_length(decode_string(buf@.subrange(0, length as int)), length as nat)
            },
        ),
{
    if length > max_len || length > buf.len() as u64 {
        return Err(InnoDBError::InvalidLength);
    }
    let bytes = vstd::slice::slice_subrange(buf, 0, length as usize);
    match string_value(bytes) {
        Ok(value) => Ok((value, length as usize)),
        Err(e) => Err(e),
    }
}

/// The fields of a date are those of the stored integer, but for the year, which the
/// inverted sign bit shifts.
proof fn lemma_date_fields(raw: int)
    requires
        0 <= raw < 0x100_0000,
    ensures
        (raw - 0x80_0000) / 512 == raw / 512 - 16384,
        ((raw - 0x80_0000) / 32) % 16 == (raw / 32) % 16,
        (raw - 0x80_0000) % 32 == raw % 32,
        0 <= raw / 512 < 0x8000,
{
    let v = raw - 0x80_0000;
    lemma_fundamental_div_mod_converse(v, 512, raw / 512 - 16384, raw % 512);
    lemma_fundamental_div_mod_converse(v, 32, raw / 32 - 0x4_0000, raw % 32);
    lemma_fundamental_div_mod_converse(
        raw / 32 - 0x4_0000,
        16,
        (raw / 32) / 16 - 0x4000,
        (raw / 32) % 16,
    );
}

fn parse_date(buf: &[u8]) -> (r: Result<(FieldValue, usize), InnoDBError>)
    ensures
        agrees(
            r,
            if buf@.len() < 3 {
                Err(InnoDBError::InvalidLength)
            } else {
                Ok((decode_date(signed_wire_value(buf@.subrange(0, 3))), 3))
            },
        ),
{
    if buf.len() < 3 {
        return Err(InnoDBError::InvalidLength);
    }
    let raw = read_uint(buf, 3);
    proof {
        lemma_signed_wire_value(buf@.subrange(0, 3));
        lemma_sign_bits();
        lemma_date_fields(raw as int);
    }
    let year: i64 = (raw / 512) as i64 - 16384;
    let month = (raw / 32) % 16;
    let day = raw % 32;
    Ok((FieldValue::String(format_date(year, month, day)), 3))
}

fn parse_datetime(buf: &[u8]) -> (r: Result<(FieldValue, usize), InnoDBError>)
    ensures
        agrees(
            r,
            if buf@.len() < 8 {
                Err(InnoDBError::InvalidLength)
            } else {
                Ok((decode_datetime(flip_sign_bit(be_uint(buf@.subrange(0, 8)), 8)), 8))
            },
        ),
{
    if buf.len() < 8 {
        return Err(InnoDBError::InvalidLength);
    }
    let raw = read_uint(buf, 8);
    proof {
        lemma_sign_bits();
    }
    let datetime: u64 = if raw >= 0x8000_0000_0000_0000 {
        raw - 0x8000_0000_0000_0000
    } else {
        raw + 0x8000_0000_0000_0000
    };
    let yd = datetime / 0x4000_0000_0000;
    let year = yd / 13;
    let month = yd % 13;
    let day = (datetime / 0x200_0000_0000) % 32;
    let hour = (datetime / 0x10_0000_0000) % 32;
    let min = (datetime / 0x4000_0000) % 64;
    let sec = (datetime / 0x100_0000) % 64;
    Ok((FieldValue::String(format_datetime(year, month, day, hour, min, sec)), 8))
}

fn parse_timestamp(buf: &[u8]) -> (r: Result<(FieldValue, usize), InnoDBError>)
    ensures
        agrees(
            r,
            if buf@.len() < 4 {
                Err(InnoDBError::InvalidLength)
            } else {
                let secs = be_uint(buf@.subrange(0, 4)) as u32;
                with_length(decode_timestamp(secs, utc_timestamp_text(secs)), 4)
            },
        ),
{
    if buf.len() < 4 {
        return Err(InnoDBError::InvalidLength);
    }
    proof {
        lemma_be_uint_bound(buf@.subrange(0, 4));
        lemma2_to64();
    }
    let ts = read_uint(buf, 4) as u32;
    let text = if ts == 0 {
        None
    } else {
        format_utc_timestamp(ts)
    };
    match timestamp_value(ts, text) {
        Ok(value) => Ok((value, 4)),
        Err(e) => Err(e),
    }
}

fn parse_enum(buf: &[u8], values: &Vec<String>) -> (r: Result<(FieldValue, usize), InnoDBError>)
    ensures
        agrees(
            r,
            if buf@.len() < enum_width(values@.len()) {
                Err(InnoDBError::InvalidLength)
            } else {
                with_length(
                    decode_enum(
                        values@,
                        be_uint(buf@.subrange(0, enum_width(values@.len()) as int)),
                    ),
                    enum_width(values@.len()),
                )
            },
        ),
{
    let len: usize = if values.len() <= 255 {
        1
    } else {
        2
    };
    if buf.len() < len {
        return Err(InnoDBError::InvalidLength);
    }
    let num = read_uint(buf, len);
    if num == 0 {
        Ok((FieldValue::String(String::new()), len))
    } else {
        let variant_index = num - 1;
        if variant_index >= values.len() as u64 {
            return Err(InnoDBError::InvalidPage);
        }
        Ok((FieldValue::String(values[variant_index as usize].clone()), len))
    }
}

} // verus!
