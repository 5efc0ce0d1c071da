//! Character sets, as far as decoding needs them: how many bytes a character can take.
use vstd::prelude::*;

use crate::innodb::InnoDBError;

verus! {

/// The character sets that columns can have.
#[derive(Debug, Clone, Copy, PartialEq, Eq, Structural)]
pub enum InnoDBCharset {
    Ascii,
    Latin1,
    Utf8mb3,
    Utf8mb4,
}

/// Whether two strings hold the same characters.
pub fn str_eq(a: &str, b: &str) -> (r: bool)
    ensures
        r == (a@ == b@),
{
    String::from_str(a) == String::from_str(b)
}

impl InnoDBCharset {
    /// The character set of that name, if there is one.
    pub open spec fn from_name(name: Seq<char>) -> Option<InnoDBCharset> {
        if name == "ascii"@ {
            Some(InnoDBCharset::Ascii)
        } else if name == "latin1"@ {
            Some(InnoDBCharset::Latin1)
        } else if name == "utf8"@ || name == "utf8mb3"@ {
            Some(InnoDBCharset::Utf8mb3)
        } else if name == "utf8mb4"@ {
            Some(InnoDBCharset::Utf8mb4)
        } else {
            None
        }
    }

    /// The most bytes that one character of the set takes.
    pub open spec fn max_bytes_per_char(&self) -> u64 {
        match self {
            InnoDBCharset::Ascii => 1,
            InnoDBCharset::Latin1 => 1,
            InnoDBCharset::Utf8mb3 => 3,
            InnoDBCharset::Utf8mb4 => 4,
        }
    }

    /// The character set of a name; an unknown name is an error.
    pub fn with_name(name: &str) -> (r: Result<InnoDBCharset, InnoDBError>)
        ensures
            match InnoDBCharset::from_name(name@) {
                Some(c) => r == Ok::<InnoDBCharset, InnoDBError>(c),
                None => r == Err::<InnoDBCharset, InnoDBError>(
                    InnoDBError::InvalidTableDefinition,
                ),
            },
    {
        if str_eq(name, "ascii") {
            Ok(InnoDBCharset::Ascii)
        } else if str_eq(name, "latin1") {
            Ok(InnoDBCharset::Latin1)
        } else if str_eq(name, "utf8") || str_eq(name, "utf8mb3") {
            Ok(InnoDBCharset::Utf8mb3)
        } else if str_eq(name, "utf8mb4") {
            Ok(InnoDBCharset::Utf8mb4)
        } else {
            Err(InnoDBError::InvalidTableDefinition)
        }
    }

    /// The most bytes that one character of the set takes.
    #[verifier::when_used_as_spec(max_bytes_per_char)]
    pub fn max_len(&self) -> (r: u64)
        ensures
            r == self.max_bytes_per_char(),
            1 <= r <= 4,
    {
        match self {
            InnoDBCharset::Ascii => 1,
            InnoDBCharset::Latin1 => 1,
            InnoDBCharset::Utf8mb3 => 3,
            InnoDBCharset::Utf8mb4 => 4,
        }
    }
}

} // verus!
