//! Records of an index page: the five-byte header that precedes each record,
//! and the chain that the headers form.
use vstd::prelude::*;

use crate::innodb::bytes::{be_i16, be_u16, read_i16, read_u16};
use crate::innodb::InnoDBError;

verus! {

/// Number of header bytes that every record has.
pub const RECORD_HEADER_FIXED_LENGTH: usize = 5;

/// The types of records on an index page.
#[derive(Debug, Clone, Copy, PartialEq, Eq, Structural)]
pub enum RecordType {
    Conventional,
    NodePointer,
    Infimum,
    Supremum,
}

impl RecordType {
    /// The type that the three type bits stand for, if any.
    pub open spec fn from_code(v: u8) -> Option<RecordType> {
        if v == 0 {
            Some(RecordType::Conventional)
        } else if v == 1 {
            Some(RecordType::NodePointer)
        } else if v == 2 {
            Some(RecordType::Infimum)
        } else if v == 3 {
            Some(RecordType::Supremum)
        } else {
            None
        }
    }

    /// Decodes the three type bits, and rejects a value that stands for no type.
    pub fn try_from_primitive(v: u8) -> (r: Result<RecordType, InnoDBError>)
        ensures
            match RecordType::from_code(v) {
                Some(t) => r == Ok::<RecordType, InnoDBError>(t),
                None => r == Err::<RecordType, InnoDBError>(InnoDBError::InvalidPage),
            },
    {
        if v == 0 {
            Ok(RecordType::Conventional)
        } else if v == 1 {
            Ok(RecordType::NodePointer)
        } else if v == 2 {
            Ok(RecordType::Infimum)
        } else if v == 3 {
            Ok(RecordType::Supremum)
        } else {
            Err(InnoDBError::InvalidPage)
        }
    }
}

/// The info flags of a record.
#[derive(Debug, Clone, Copy)]
pub struct InfoFlags {
    pub min_rec: bool,
    pub deleted: bool,
}

impl InfoFlags {
    /// The flags that the four info bits encode: bit 0 is `min_rec`, bit 1 is `deleted`.
    pub open spec fn decode(flags: u8) -> InfoFlags {
        InfoFlags { min_rec: flags % 2 == 1, deleted: (flags / 2) % 2 == 1 }
    }

    /// Any bit but the two lowest is an error.
    pub fn try_from_primitive(flags: u8) -> (r: Result<InfoFlags, InnoDBError>)
        ensures
            flags < 4 ==> r == Ok::<InfoFlags, InnoDBError>(InfoFlags::decode(flags)),
            flags >= 4 ==> r == Err::<InfoFlags, InnoDBError>(InnoDBError::InvalidPage),
    {
        if flags >= 4 {
            return Err(InnoDBError::InvalidPage);
        }
        Ok(InfoFlags { min_rec: flags % 2 == 1, deleted: (flags / 2) % 2 == 1 })
    }
}

/// The five bytes that precede the payload of every record.
#[derive(Debug, Clone, Copy)]
pub struct RecordHeader {
    /// 4 bits
    pub info_flags: InfoFlags,
    /// 4 bits, valid range 0 to 8
    pub num_records_owned: u8,
    /// 13 bits
    pub order: u16,
    /// 3 bits
    pub record_type: RecordType,
    /// Offset of the next record; `None` where it leaves the range of 16 bits.
    pub next_record_offset: Option<u16>,
}

/// The offset that a record at `offset` names as its successor: its own offset plus
/// the signed 16-bit distance stored in the last two header bytes.
pub open spec fn next_offset_of(s: Seq<u8>, offset: int) -> Option<u16> {
    let target = offset + be_i16(s, offset - 2);
    if 0 <= target <= u16::MAX {
        Some(target as u16)
    } else {
        None
    }
}

/// A record header can be read at `offset`: the five bytes before it lie in `s`, the
/// offset fits 16 bits, and info bits and type bits hold values of their sets.
pub open spec fn valid_record_at(s: Seq<u8>, offset: int) -> bool {
    &&& 5 <= offset <= s.len()
    &&& offset < u16::MAX
    &&& s[offset - 5] / 16 < 4
    &&& be_u16(s, offset - 4) % 8 < 4
}

impl RecordHeader {
    /// The header of the record at `offset`, decoded from `s[offset - 5..offset]`.
    pub open spec fn decode(s: Seq<u8>, offset: int) -> RecordHeader {
        RecordHeader {
            info_flags: InfoFlags::decode(s[offset - 5] / 16),
            num_records_owned: s[offset - 5] % 16,
            order: be_u16(s, offset - 4) / 8,
            record_type: RecordType::from_code((be_u16(s, offset - 4) % 8) as u8)->Some_0,
            next_record_offset: next_offset_of(s, offset),
        }
    }

    /// Decodes the record header that ends at `offset`.
    pub fn try_from_offset(buffer: &[u8], offset: usize) -> (r: Result<RecordHeader, InnoDBError>)
        ensures
            valid_record_at(buffer@, offset as int) ==> r == Ok::<RecordHeader, InnoDBError>(
                RecordHeader::decode(buffer@, offset as int),
            ),
            !valid_record_at(buffer@, offset as int) ==> r == Err::<RecordHeader, InnoDBError>(
                InnoDBError::InvalidPage,
            ),
    {
        if offset < 5 || offset > buffer.len() || offset >= 0xFFFF {
            return Err(InnoDBError::InvalidPage);
        }
        let record_type_order: u16 = read_u16(buffer, offset - 4);
        let owned_flags: u8 = buffer[offset - 5];
        let info_flags = match InfoFlags::try_from_primitive(owned_flags / 16) {
            Ok(flags) => flags,
            Err(e) => { return Err(e); },
        };
        let record_type = match RecordType::try_from_primitive((record_type_order % 8) as u8) {
            Ok(t) => t,
            Err(e) => { return Err(e); },
        };
        let distance: i16 = read_i16(buffer, offset - 2);
        Ok(
            RecordHeader {
                info_flags,
                num_records_owned: owned_flags % 16,
                order: record_type_order / 8,
                record_type,
                next_record_offset: (offset as u16).checked_add_signed(distance),
            },
        )
    }

    /// The offset of the next record, where the header has one.
    pub fn next_record_offset(&self) -> (r: usize)
        requires
            self.next_record_offset is Some,
        ensures
            r == self.next_record_offset->Some_0,
    {
        self.next_record_offset.unwrap() as usize
    }
}

/// A record of an index page: its decoded header, the offset at which its payload
/// starts, and the bytes that hold it.
#[derive(Debug, Clone, Copy)]
pub struct Record<'a> {
    pub header: RecordHeader,
    /// Offset of the payload in `buf`; the header lies before it.
    pub offset: usize,
    pub buf: &'a [u8],
}

impl<'a> Record<'a> {
    /// The record is one that `try_from_offset` gives for its bytes and offset.
    pub open spec fn wf(&self) -> bool {
        &&& valid_record_at(self.buf@, self.offset as int)
        &&& self.header == RecordHeader::decode(self.buf@, self.offset as int)
    }

    /// The record that follows this one in the chain, if there is one: none after a
    /// supremum, none where the next offset leaves the range of 16 bits, and none where
    /// no record header can be read at the next offset.
    pub open spec fn successor(&self) -> Option<Record<'a>> {
        if self.header.record_type == RecordType::Supremum {
            None
        } else {
            match self.header.next_record_offset {
                None => None,
                Some(next) => if valid_record_at(self.buf@, next as int) {
                    Some(
                        Record {
                            header: RecordHeader::decode(self.buf@, next as int),
                            offset: next as usize,
                            buf: self.buf,
                        },
                    )
                } else {
                    None
                },
            }
        }
    }

    /// Decodes the record header that ends at `offset`.
    pub fn try_from_offset(buffer: &'a [u8], offset: usize) -> (r: Result<Record<'a>, InnoDBError>)
        ensures
            valid_record_at(buffer@, offset as int) ==> r == Ok::<Record<'a>, InnoDBError>(
                Record {
                    header: RecordHeader::decode(buffer@, offset as int),
                    offset: offset,
                    buf: buffer,
                },
            ),
            !valid_record_at(buffer@, offset as int) ==> r == Err::<Record<'a>, InnoDBError>(
                InnoDBError::InvalidPage,
            ),
            r is Ok ==> r->Ok_0.wf(),
    {
        match RecordHeader::try_from_offset(buffer, offset) {
            Ok(header) => Ok(Record { header, offset, buf: buffer }),
            Err(e) => Err(e),
        }
    }

    /// The record that follows this one in the chain.
    pub fn next(&self) -> (r: Option<Record<'a>>)
        ensures
            r == self.successor(),
            r is Some ==> r->Some_0.wf(),
    {
        match self.header.record_type {
            RecordType::Supremum => { return None; },
            _ => {},
        }
        let next = match self.header.next_record_offset {
            Some(next) => next,
            None => { return None; },
        };
        match Record::try_from_offset(self.buf, next as usize) {
            Ok(record) => Some(record),
            Err(_) => None,
        }
    }
}

} // verus!
