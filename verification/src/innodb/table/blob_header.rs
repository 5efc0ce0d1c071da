//! The reference that a record holds in place of a value that is stored outside of it.
use vstd::prelude::*;

use crate::innodb::bytes::{be_u32, be_u64, read_u32, read_u64};
use crate::innodb::InnoDBError;

verus! {

/// Number of bytes that a reference takes in a record.
pub const EXTERN_REFERENCE_SIZE: usize = 20;

/// Where a value lies that is stored outside of its record, and how long it is.
#[derive(Debug, Clone, Copy)]
pub struct ExternReference {
    pub space_id: u32,
    pub page_number: u32,
    pub offset: u32,
    pub owner: bool,
    pub inherit: bool,
    pub length: u64,
}

impl ExternReference {
    /// The reference that the first 20 bytes of `s` encode. Of the 8 bytes of the
    /// length field, the top bit says that the record does not own the value, the
    /// next bit that it inherits it, and the low 60 bits are the length.
    pub open spec fn decode(s: Seq<u8>) -> ExternReference {
        let raw = be_u64(s, 12);
        ExternReference {
            space_id: be_u32(s, 0),
            page_number: be_u32(s, 4),
            offset: be_u32(s, 8),
            owner: raw < 0x8000_0000_0000_0000,
            inherit: (raw / 0x4000_0000_0000_0000) % 2 == 1,
            length: raw % 0x1000_0000_0000_0000,
        }
    }

    /// Decodes the reference at the start of `bytes`.
    pub fn from_bytes(bytes: &[u8]) -> (r: Result<ExternReference, InnoDBError>)
        ensures
            bytes@.len() >= 20 ==> r == Ok::<ExternReference, InnoDBError>(
                ExternReference::decode(bytes@),
            ),
            bytes@.len() < 20 ==> r == Err::<ExternReference, InnoDBError>(
                InnoDBError::InvalidLength,
            ),
    {
        if bytes.len() < 20 {
            return Err(InnoDBError::InvalidLength);
        }
        let length = read_u64(bytes, 12);
        Ok(
            ExternReference {
                space_id: read_u32(bytes, 0),
                page_number: read_u32(bytes, 4),
                offset: read_u32(bytes, 8),
                owner: length < 0x8000_0000_0000_0000,
                inherit: (length / 0x4000_0000_0000_0000) % 2 == 1,
                length: length % 0x1000_0000_0000_0000,
            },
        )
    }
}

} // verus!
