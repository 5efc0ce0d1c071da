//! Rows: what a conventional record of the clustering index holds, field by field.
//!
//! The bytes before the record header are read backwards: first the null bitmap,
//! then the lengths of the fields of variable length. The payload after the header is
//! read forwards: the fields of the clustering key, 13 bytes of hidden columns, the
//! other fields.
use std::collections::{HashMap, HashSet};
use vstd::prelude::*;

use crate::innodb::buffer_manager::{BufferManager, DummyBufferMangaer};
use crate::innodb::page::record::{Record, RECORD_HEADER_FIXED_LENGTH};
use crate::innodb::table::lob::{extern_bytes, fetched, load_value, loads, pins_kept};
use crate::innodb::table::blob_header::ExternReference;
use crate::innodb::table::field::{decode_field, Field, FieldType, FieldValue, FieldValueView};
use crate::innodb::table::TableDefinition;
use crate::innodb::InnoDBError;

verus! {

broadcast use vstd::std_specs::hash::group_hash_axioms;

/// Number of bytes that the hidden columns take: a transaction id of 6 bytes and a
/// roll pointer of 7.
pub const HIDDEN_COLUMNS_SIZE: usize = 13;

/// Bit `k` of a byte, counted from the least significant.
pub open spec fn bit_of(b: u8, k: u8) -> bool {
    (b >> k) & 1 == 1
}

/// Whether bit `k` of a byte is set.
pub fn test_bit(b: u8, k: u8) -> (r: bool)
    requires
        k < 8,
    ensures
        r == bit_of(b, k),
{
    (b >> k) & 1 == 1
}

/// The bytes before the header of the record at `offset`, nearest first.
pub open spec fn header_stream(buf: Seq<u8>, offset: int) -> Seq<u8> {
    Seq::new((offset - 5) as nat, |k: int| buf[offset - 6 - k])
}

/// The number of nullable fields among the first `upto`.
pub open spec fn nullable_count(fields: Seq<Field>, upto: int) -> nat
    decreases upto,
{
    if upto <= 0 {
        0
    } else {
        nullable_count(fields, upto - 1) + if fields[upto - 1].nullable {
            1nat
        } else {
            0nat
        }
    }
}

/// The number of bytes that the null bitmap of a record takes: a bit for each
/// nullable field.
pub open spec fn null_bitmap_size(fields: Seq<Field>) -> nat {
    (nullable_count(fields, fields.len() as int) + 7) / 8
}

/// Whether field `i` is null: a nullable field is null where its bit is set. The
/// bits of the nullable fields follow one another from the least significant bit of
/// the first byte of the stream.
pub open spec fn null_flag(stream: Seq<u8>, fields: Seq<Field>, i: int) -> bool {
    let rank = nullable_count(fields, i);
    fields[i].nullable && bit_of(stream[rank as int / 8], (rank % 8) as u8)
}

/// What the length header of one field says.
pub struct LengthEntry {
    /// The length of the value, for a field of variable length that is not null.
    pub length: Option<u64>,
    /// Whether the value lies outside the record.
    pub external: bool,
    /// The number of bytes of the stream that the entry takes.
    pub size: nat,
}

/// The length entry of a field that starts at `cursor` in the stream; `None` where
/// the stream ends before the entry does. A field of fixed length and a null field
/// have no entry. The length takes one byte; where the field can be longer than 255
/// bytes and the top bit of the byte is set, a second byte follows: bit 14 of the two
/// says that the value lies outside the record, the low 14 bits are the length.
pub open spec fn length_entry(stream: Seq<u8>, cursor: int, field: Field, is_null: bool) -> Option<
    LengthEntry,
> {
    if !field.field_type.is_variable() || is_null {
        Some(LengthEntry { length: None, external: false, size: 0 })
    } else if cursor >= stream.len() {
        None
    } else if field.field_type.spec_max_len() > 255 && stream[cursor] >= 0x80 {
        if cursor + 1 >= stream.len() {
            None
        } else {
            let tmp = stream[cursor] * 256 + stream[cursor + 1];
            Some(
                LengthEntry {
                    length: Some((tmp % 0x4000) as u64),
                    external: (tmp / 0x4000) % 2 == 1,
                    size: 2,
                },
            )
        }
    } else {
        Some(LengthEntry { length: Some(stream[cursor] as u64), external: false, size: 1 })
    }
}

/// Where in the stream the length entry of field `i` starts; `None` where the stream
/// ends before that. The entries follow the null bitmap in the order of the fields.
pub open spec fn length_cursor(stream: Seq<u8>, fields: Seq<Field>, i: int) -> Option<int>
    decreases i,
{
    if i <= 0 {
        if null_bitmap_size(fields) <= stream.len() {
            Some(null_bitmap_size(fields) as int)
        } else {
            None
        }
    } else {
        match length_cursor(stream, fields, i - 1) {
            None => None,
            Some(cursor) => match length_entry(
                stream,
                cursor,
                fields[i - 1],
                null_flag(stream, fields, i - 1),
            ) {
                None => None,
                Some(entry) => Some(cursor + entry.size),
            },
        }
    }
}

/// The length entry of field `i`, where the stream holds the header as far as that.
pub open spec fn field_length_entry(stream: Seq<u8>, fields: Seq<Field>, i: int) -> Option<
    LengthEntry,
> {
    match length_cursor(stream, fields, i) {
        None => None,
        Some(cursor) => length_entry(stream, cursor, fields[i], null_flag(stream, fields, i)),
    }
}

/// The stream holds the whole header of a record with these fields.
pub open spec fn header_complete(stream: Seq<u8>, fields: Seq<Field>) -> bool {
    length_cursor(stream, fields, fields.len() as int) is Some
}

/// A row: a record of the clustering index, the table it belongs to, and what the
/// header of the record says about each field.
#[derive(Debug)]
pub struct Row<'a> {
    td: &'a TableDefinition,
    /// From the index of each nullable field to whether it is null.
    null_map: HashMap<usize, bool>,
    /// The indices of the fields whose value lies outside the record.
    extern_fields: HashSet<usize>,
    /// From the index of each field of variable length that is not null to its length.
    field_len_map: HashMap<usize, u64>,
    pub record: Record<'a>,
}

/// Whether a map of null bits says that field `i` is null: a field without an entry is
/// not.
pub open spec fn null_in(map: Map<usize, bool>, i: int) -> bool {
    map.contains_key(i as usize) && map[i as usize]
}

/// The length that a map of lengths has for field `i`.
pub open spec fn length_in(map: Map<usize, u64>, i: int) -> Option<u64> {
    if map.contains_key(i as usize) {
        Some(map[i as usize])
    } else {
        None
    }
}

impl<'a> Row<'a> {
    /// The table that the row belongs to.
    pub closed spec fn table(&self) -> &'a TableDefinition {
        self.td
    }

    /// The null flag of each field.
    pub closed spec fn nulls(&self) -> Seq<bool> {
        Seq::new(self.td.fields().len(), |i: int| null_in(self.null_map@, i))
    }

    /// The length of each field of variable length that is not null.
    pub closed spec fn lengths(&self) -> Seq<Option<u64>> {
        Seq::new(self.td.fields().len(), |i: int| length_in(self.field_len_map@, i))
    }

    /// Of each field, whether its value lies outside the record.
    pub closed spec fn externs(&self) -> Seq<bool> {
        Seq::new(self.td.fields().len(), |i: int| self.extern_fields@.contains(i as usize))
    }

    /// The record of the row.
    pub closed spec fn rec(&self) -> Record<'a> {
        self.record
    }

    /// The stream of header bytes of the record of the row.
    pub open spec fn stream(&self) -> Seq<u8> {
        header_stream(self.rec().buf@, self.rec().offset as int)
    }

    /// The row holds, for each field of its table, what the header of its record says.
    pub open spec fn wf(&self) -> bool {
        let fields = self.table().fields();
        &&& self.table().wf()
        &&& 5 <= self.rec().offset <= self.rec().buf@.len()
        &&& self.nulls().len() == fields.len()
        &&& self.lengths().len() == fields.len()
        &&& self.externs().len() == fields.len()
        &&& forall|i: int|
            0 <= i < fields.len() ==> {
                &&& #[trigger] self.nulls()[i] == null_flag(self.stream(), fields, i)
                &&& field_length_entry(self.stream(), fields, i) is Some
                &&& self.lengths()[i] == field_length_entry(self.stream(), fields, i)->Some_0.length
                &&& self.externs()[i] == field_length_entry(
                    self.stream(),
                    fields,
                    i,
                )->Some_0.external
            }
    }

    /// Whether field `index` is null.
    pub fn is_null(&self, index: usize) -> (r: bool)
        requires
            index < self.nulls().len(),
        ensures
            r == self.nulls()[index as int],
    {
        match self.null_map.get(&index) {
            Some(bit) => *bit,
            None => false,
        }
    }

    /// Whether the value of field `index` lies outside the record.
    pub fn is_extern(&self, index: usize) -> (r: bool)
        requires
            index < self.externs().len(),
        ensures
            r == self.externs()[index as int],
    {
        self.extern_fields.contains(&index)
    }

    /// The length that the header gives for field `index`.
    pub fn field_length(&self, index: usize) -> (r: Option<u64>)
        requires
            index < self.lengths().len(),
        ensures
            r == self.lengths()[index as int],
    {
        match self.field_len_map.get(&index) {
            Some(length) => Some(*length),
            None => None,
        }
    }

    /// Reads the header of a record backwards from its fixed part: the null bitmap
    /// and the length entries of the fields of the table. Fails where the bytes before
    /// the record end before its header does.
    pub fn try_from_record_and_table(r: &Record<'a>, td: &'a TableDefinition) -> (row: Result<
        Row<'a>,
        InnoDBError,
    >)
        requires
            td.wf(),
        ensures
            match row {
                Ok(row) => {
                    &&& row.wf()
                    &&& row.table() == td
                    &&& row.rec() == *r
                    &&& header_complete(row.stream(), td.fields())
                },
                Err(e) => {
                    &&& e == InnoDBError::InvalidLength
                    &&& !(5 <= r.offset <= r.buf@.len() && header_complete(
                        header_stream(r.buf@, r.offset as int),
                        td.fields(),
                    ))
                },
            },
    {
        if r.offset < RECORD_HEADER_FIXED_LENGTH || r.offset > r.buf.len() {
            return Err(InnoDBError::InvalidLength);
        }
        let buf = r.buf;
        let top: usize = r.offset - RECORD_HEADER_FIXED_LENGTH;
        let count = td.field_count();
        let ghost stream = header_stream(buf@, r.offset as int);
        let ghost fields = td.fields();

        // the null bitmap
        let mut null_map: HashMap<usize, bool> = HashMap::new();
        let mut rank: usize = 0;
        let mut idx: usize = 0;
        while idx < count
            invariant
                idx <= count,
                count == fields.len(),
                fields == td.fields(),
                td.wf(),
                top + 5 == r.offset,
                buf == r.buf,
                r.offset <= buf@.len(),
                stream == header_stream(buf@, r.offset as int),
                stream.len() == top,
                rank == nullable_count(fields, idx as int),
                rank <= idx,
                (rank + 7) / 8 <= top,
                forall|i: int|
                    0 <= i < count ==> #[trigger] null_in(null_map@, i) == (i < idx && null_flag(
                        stream,
                        fields,
                        i,
                    )),
            decreases count - idx,
        {
            let field = td.field_at(idx);
            let ghost nulls_before = null_map@;
            if field.nullable {
                if rank / 8 >= top {
                    proof {
                        lemma_nullable_count_monotonic(fields, idx as int + 1, fields.len() as int);
                        assert(null_bitmap_size(fields) > stream.len());
                        lemma_length_cursor_none(stream, fields, 0, fields.len() as int);
                        assert(!header_complete(stream, fields));
                    }
                    return Err(InnoDBError::InvalidLength);
                }
                let byte = buf[top - 1 - rank / 8];
                null_map.insert(idx, test_bit(byte, (rank % 8) as u8));
                rank += 1;
            }
            proof {
                assert forall|i: int| 0 <= i < count implies #[trigger] null_in(null_map@, i) == (i
                    < idx + 1 && null_flag(stream, fields, i)) by {
                    if i != idx {
                        assert(null_in(null_map@, i) == null_in(nulls_before, i));
                    } else {
                        assert(!null_in(nulls_before, i));
                    }
                }
            }
            idx += 1;
        }
        let null_bytes: usize = if rank % 8 == 0 {
            rank / 8
        } else {
            rank / 8 + 1
        };
        assert(null_bytes == null_bitmap_size(fields));

        // the length entries
        let mut cursor: usize = null_bytes;
        let mut field_len_map: HashMap<usize, u64> = HashMap::new();
        let mut extern_fields: HashSet<usize> = HashSet::new();
        let mut idx: usize = 0;
        while idx < count
            invariant
                idx <= count,
                count == fields.len(),
                fields == td.fields(),
                td.wf(),
                top + 5 == r.offset,
                buf == r.buf,
                r.offset <= buf@.len(),
                stream == header_stream(buf@, r.offset as int),
                stream.len() == top,
                forall|i: int|
                    0 <= i < count ==> #[trigger] null_in(null_map@, i) == null_flag(
                        stream,
                        fields,
                        i,
                    ),
                cursor <= top,
                length_cursor(stream, fields, idx as int) == Some(cursor as int),
                forall|i: int|
                    0 <= i < idx ==> {
                        &&& #[trigger] field_length_entry(stream, fields, i) is Some
                        &&& length_in(field_len_map@, i) == field_length_entry(
                            stream,
                            fields,
                            i,
                        )->Some_0.length
                        &&& extern_fields@.contains(i as usize) == field_length_entry(
                            stream,
                            fields,
                            i,
                        )->Some_0.external
                    },
                forall|k: usize| #[trigger] field_len_map@.contains_key(k) ==> k < idx,
                forall|k: usize| #[trigger] extern_fields@.contains(k) ==> k < idx,
            decreases count - idx,
        {
            let field = td.field_at(idx);
            assert(fields[idx as int].field_type.wf());
            let is_null = match null_map.get(&idx) {
                Some(bit) => *bit,
                None => false,
            };
            assert(is_null == null_in(null_map@, idx as int));
            let ghost entry = length_entry(stream, cursor as int, *field, is_null);
            let ghost lengths_before = field_len_map@;
            let ghost externs_before = extern_fields@;
            if !field.field_type.is_variable() || is_null {
            } else {
                if cursor >= top {
                    proof {
                        assert(entry is None);
                        assert(length_cursor(stream, fields, idx as int + 1) is None);
                        lemma_length_cursor_none(stream, fields, idx as int + 1, fields.len() as int);
                        assert(!header_complete(stream, fields));
                    }
                    return Err(InnoDBError::InvalidLength);
                }
                let first: u8 = buf[top - 1 - cursor];
                if field.field_type.max_len() > 255 && first >= 0x80 {
                    if cursor + 1 >= top {
                        proof {
                            assert(entry is None);
                            assert(length_cursor(stream, fields, idx as int + 1) is None);
                            lemma_length_cursor_none(
                                stream,
                                fields,
                                idx as int + 1,
                                fields.len() as int,
                            );
                            assert(!header_complete(stream, fields));
                        }
                        return Err(InnoDBError::InvalidLength);
                    }
                    let second: u8 = buf[top - 2 - cursor];
                    let tmp: u64 = first as u64 * 256 + second as u64;
                    field_len_map.insert(idx, tmp % 0x4000);
                    if (tmp / 0x4000) % 2 == 1 {
                        extern_fields.insert(idx);
                    }
                    cursor += 2;
                } else {
                    field_len_map.insert(idx, first as u64);
                    cursor += 1;
                }
            }
            proof {
                assert forall|i: int| 0 <= i < idx implies length_in(field_len_map@, i)
                    == length_in(lengths_before, i) && extern_fields@.contains(i as usize)
                    == externs_before.contains(i as usize) by {}
            }
            idx += 1;
        }
        Ok(Row { td, null_map, extern_fields, field_len_map, record: *r })
    }
}

/// The count of nullable fields grows with the number of fields counted.
pub proof fn lemma_nullable_count_monotonic(fields: Seq<Field>, a: int, b: int)
    requires
        a <= b,
    ensures
        nullable_count(fields, a) <= nullable_count(fields, b),
    decreases b - a,
{
    if a < b {
        lemma_nullable_count_monotonic(fields, a, b - 1);
    }
}

/// Once the stream has ended, it has ended for all fields that follow.
pub proof fn lemma_length_cursor_none(stream: Seq<u8>, fields: Seq<Field>, a: int, b: int)
    requires
        0 <= a <= b,
        length_cursor(stream, fields, a) is None,
    ensures
        length_cursor(stream, fields, b) is None,
    decreases b - a,
{
    if a < b {
        lemma_length_cursor_none(stream, fields, a, b - 1);
    }
}

/// The value of a field whose bytes lie outside the record, given what fetching them
/// gave: the decoded bytes, or `Skipped` where fetching or decoding failed.
pub open spec fn extern_value_of(
    t: FieldType,
    loaded: Result<Seq<u8>, InnoDBError>,
    length: u64,
) -> FieldValueView {
    match loaded {
        Ok(bytes) => match decode_field(t, bytes, Some(length)) {
            Ok((v, _)) => v,
            Err(_) => FieldValueView::Skipped,
        },
        Err(_) => FieldValueView::Skipped,
    }
}

/// Decodes the bytes that were fetched for a field, or gives `Skipped` where there
/// are none or they cannot be decoded.
pub fn extern_value(field: &Field, loaded: Result<Vec<u8>, InnoDBError>, length: u64) -> (r:
    FieldValue)
    requires
        field.field_type.wf(),
    ensures
        r@ == extern_value_of(
            field.field_type,
            match loaded {
                Ok(bytes) => Ok(bytes@),
                Err(e) => Err(e),
            },
            length,
        ),
{
    match loaded {
        Ok(bytes) => match field.parse(bytes.as_slice(), Some(length)) {
            Ok((value, _)) => value,
            Err(_) => FieldValue::Skipped,
        },
        Err(_) => FieldValue::Skipped,
    }
}

/// A value is the one that a field outside the record got while the buffer manager
/// went from one state to another: what the bytes that were fetched decode to, or
/// `Skipped` where they could not be fetched or decoded.
pub open spec fn is_extern_value<B: BufferManager>(
    before: &B,
    after: &B,
    v: FieldValueView,
    t: FieldType,
    reference: ExternReference,
) -> bool {
    exists|loaded: Result<Seq<u8>, InnoDBError>| #[trigger]
        loads(before, after, reference, loaded) && v == extern_value_of(
            t,
            loaded,
            reference.length,
        )
}

/// The bytes of a value cannot be fetched: they are more than the machine can count,
/// or the pin of the first page of the value is bound to fail.
pub open spec fn cannot_fetch<B: BufferManager>(m: &B, reference: ExternReference) -> bool {
    reference.length > usize::MAX || m.refusal(reference.space_id, reference.page_number) is Some
}

/// Every pin on a buffer manager of this type is bound to fail, whatever its state.
pub open spec fn never_pins<B: BufferManager>() -> bool {
    forall|m: B, s: u32, p: u32| (#[trigger] m.refusal(s, p)) is Some
}

/// A value is one that a field outside the record got at some time after `start`, at
/// which all pins were held as at `start`.
pub open spec fn is_fetched_value<B: BufferManager>(
    start: &B,
    v: FieldValueView,
    t: FieldType,
    reference: ExternReference,
) -> bool {
    exists|before: B, after: B|
        before.inv() && pins_kept(start, &before) && #[trigger] is_extern_value(
            &before,
            &after,
            v,
            t,
            reference,
        )
}

/// The reference that stands for a field at the start of `rest`: its length entry must
/// say 20 bytes, and they must be there.
pub open spec fn reference_in(rest: Seq<u8>, length: Option<u64>) -> Result<
    ExternReference,
    InnoDBError,
> {
    if length != Some(20u64) {
        Err(InnoDBError::InvalidPage)
    } else if rest.len() < 20 {
        Err(InnoDBError::InvalidLength)
    } else {
        Ok(ExternReference::decode(rest))
    }
}

/// What a field in the record decodes to at the start of `rest`, and the bytes it
/// takes: a null field is `Null` and takes none.
pub open spec fn inline_outcome(t: FieldType, rest: Seq<u8>, is_null: bool, length: Option<u64>) -> Result<
    (FieldValueView, nat),
    InnoDBError,
> {
    if is_null {
        Ok((FieldValueView::Null, 0))
    } else {
        decode_field(t, rest, length)
    }
}

/// The number of bytes that a field takes at the start of `rest`: 20 for a reference.
pub open spec fn field_size(
    t: FieldType,
    rest: Seq<u8>,
    is_null: bool,
    length: Option<u64>,
    external: bool,
) -> Result<nat, InnoDBError> {
    if !is_null && external {
        match reference_in(rest, length) {
            Ok(_) => Ok(20),
            Err(e) => Err(e),
        }
    } else {
        match inline_outcome(t, rest, is_null, length) {
            Ok((_, n)) => Ok(n),
            Err(e) => Err(e),
        }
    }
}

/// A field never takes more bytes than there are.
pub proof fn lemma_field_size_bound(
    t: FieldType,
    rest: Seq<u8>,
    is_null: bool,
    length: Option<u64>,
    external: bool,
)
    ensures
        field_size(t, rest, is_null, length, external) matches Ok(n) ==> n <= rest.len(),
{
}

impl<'a> Row<'a> {
    /// What is left of the bytes of the record at a cursor.
    pub open spec fn rest_at(&self, cursor: int) -> Seq<u8> {
        self.rec().buf@.subrange(cursor, self.rec().buf@.len() as int)
    }

    /// The number of bytes that field `i` takes at a cursor.
    pub open spec fn size_at(&self, i: int, cursor: int) -> Result<nat, InnoDBError> {
        field_size(
            self.table().fields()[i].field_type,
            self.rest_at(cursor),
            self.nulls()[i],
            self.lengths()[i],
            self.externs()[i],
        )
    }

    /// Where in the bytes of the record field `i` starts, or the error that ends the
    /// decoding before it. The first field starts at the offset of the record; each
    /// field follows the one before it; the hidden columns follow the last field of the
    /// clustering key.
    pub open spec fn field_cursor(&self, i: int) -> Result<int, InnoDBError>
        decreases i,
    {
        if i <= 0 {
            if self.table().cluster_columns@.len() == 0 {
                Err(InnoDBError::InvalidTableDefinition)
            } else {
                Ok(self.rec().offset as int)
            }
        } else {
            match self.field_cursor(i - 1) {
                Err(e) => Err(e),
                Ok(cursor) => match self.size_at(i - 1, cursor) {
                    Err(e) => Err(e),
                    Ok(n) => if i == self.table().cluster_columns@.len() {
                        if cursor + n + HIDDEN_COLUMNS_SIZE > self.rec().buf@.len() {
                            Err(InnoDBError::InvalidLength)
                        } else {
                            Ok(cursor + n + HIDDEN_COLUMNS_SIZE)
                        }
                    } else {
                        Ok(cursor + n)
                    },
                },
            }
        }
    }

    /// Field `i` lies outside the record.
    pub open spec fn is_outside(&self, i: int) -> bool {
        !self.nulls()[i] && self.externs()[i]
    }

    /// Whether `v` is the value of field `i`, given that decoding reaches it and that
    /// the buffer manager was in the state `start` when decoding began.
    pub open spec fn is_value_of<B: BufferManager>(&self, start: &B, v: FieldValueView, i: int) -> bool {
        let cursor = self.field_cursor(i)->Ok_0;
        let t = self.table().fields()[i].field_type;
        if self.is_outside(i) {
            is_fetched_value(
                start,
                v,
                t,
                reference_in(self.rest_at(cursor), self.lengths()[i])->Ok_0,
            )
        } else {
            v == inline_outcome(t, self.rest_at(cursor), self.nulls()[i], self.lengths()[i])->Ok_0.0
        }
    }

    /// An error that ends the decoding ends it for all fields that follow.
    pub proof fn lemma_field_cursor_err(&self, a: int, b: int)
        requires
            0 <= a <= b,
            self.field_cursor(a) is Err,
        ensures
            self.field_cursor(b) == self.field_cursor(a),
        decreases b - a,
    {
        if a < b {
            self.lemma_field_cursor_err(a, b - 1);
        }
    }

    /// The record of the row.
    pub fn record(&self) -> (r: &Record<'a>)
        ensures
            *r == self.rec(),
    {
        &self.record
    }

    /// Fetches the bytes of a value that lies outside the record: pins the first page
    /// of the value, which is the page that the reference names, follows its index
    /// entries, and releases every pin it took. Where the pin of the first page is
    /// bound to fail, its error is the result.
    pub fn load_extern<B: BufferManager>(
        &self,
        extern_header: &ExternReference,
        buffer_mgr: &mut B,
    ) -> (r: Result<Vec<u8>, InnoDBError>)
        requires
            old(buffer_mgr).inv(),
        ensures
            final(buffer_mgr).inv(),
            pins_kept(old(buffer_mgr), final(buffer_mgr)),
            extern_header.length > usize::MAX ==> r == Err::<Vec<u8>, InnoDBError>(
                InnoDBError::InvalidLength,
            ),
            extern_header.length <= usize::MAX ==> (old(buffer_mgr).refusal(
                extern_header.space_id,
                extern_header.page_number,
            ) matches Some(e) ==> r == Err::<Vec<u8>, InnoDBError>(e)),
            r matches Ok(bytes) ==> bytes@.len() == extern_header.length && exists|
                deliveries: Seq<Result<Seq<u8>, InnoDBError>>,
            |
                #[trigger] extern_bytes(
                    *extern_header,
                    Ok(
                        final(buffer_mgr).page_bytes(
                            extern_header.space_id,
                            extern_header.page_number,
                        ),
                    ),
                    deliveries,
                ) == Ok::<Seq<u8>, InnoDBError>(bytes@),
            loads(old(buffer_mgr), final(buffer_mgr), *extern_header, fetched(r)),
    {
        load_value(extern_header, buffer_mgr)
    }

    /// The value of a field that lies outside the record: what the bytes that
    /// `load_extern` fetches decode to, and `Skipped` where they cannot be fetched or
    /// decoded.
    pub fn parse_extern_field<B: BufferManager>(
        &self,
        f: &Field,
        extern_header: &ExternReference,
        buffer_mgr: &mut B,
    ) -> (r: FieldValue)
        requires
            old(buffer_mgr).inv(),
            f.field_type.wf(),
        ensures
            final(buffer_mgr).inv(),
            pins_kept(old(buffer_mgr), final(buffer_mgr)),
            is_extern_value(
                old(buffer_mgr),
                final(buffer_mgr),
                r@,
                f.field_type,
                *extern_header,
            ),
            cannot_fetch(old(buffer_mgr), *extern_header) ==> r@ == FieldValueView::Skipped,
    {
        let loaded = self.load_extern(extern_header, buffer_mgr);
        assert(loads(old(buffer_mgr), buffer_mgr, *extern_header, fetched(loaded)));
        extern_value(f, loaded, extern_header.length)
    }

    /// Decodes field `idx` from the start of `buf`, and says how many bytes it takes.
    pub fn parse_single_field<B: BufferManager>(
        &self,
        f: &Field,
        buf: &[u8],
        idx: usize,
        buffer_mgr: &mut B,
    ) -> (r: Result<(FieldValue, usize), InnoDBError>)
        requires
            old(buffer_mgr).inv(),
            f.field_type.wf(),
            idx < self.nulls().len(),
            idx < self.lengths().len(),
            idx < self.externs().len(),
        ensures
            final(buffer_mgr).inv(),
            pins_kept(old(buffer_mgr), final(buffer_mgr)),
            match field_size(
                f.field_type,
                buf@,
                self.nulls()[idx as int],
                self.lengths()[idx as int],
                self.externs()[idx as int],
            ) {
                Ok(n) => {
                    &&& r is Ok
                    &&& r->Ok_0.1 == n
                    &&& if self.is_outside(idx as int) {
                        let reference = reference_in(buf@, self.lengths()[idx as int])->Ok_0;
                        &&& is_extern_value(
                            old(buffer_mgr),
                            final(buffer_mgr),
                            r->Ok_0.0@,
                            f.field_type,
                            reference,
                        )
                        &&& cannot_fetch(old(buffer_mgr), reference) ==> r->Ok_0.0@
                            == FieldValueView::Skipped
                    } else {
                        r->Ok_0.0@ == inline_outcome(
                            f.field_type,
                            buf@,
                            self.nulls()[idx as int],
                            self.lengths()[idx as int],
                        )->Ok_0.0
                    }
                },
                Err(e) => r == Err::<(FieldValue, usize), InnoDBError>(e),
            },
    {
        if self.is_null(idx) {
            return Ok((FieldValue::Null, 0));
        }
        if self.is_extern(idx) {
            match self.field_length(idx) {
                Some(20) => {},
                _ => { return Err(InnoDBError::InvalidPage); },
            }
            if buf.len() < 20 {
                return Err(InnoDBError::InvalidLength);
            }
            let extern_header = match ExternReference::from_bytes(buf) {
                Ok(header) => header,
                Err(e) => { return Err(e); },
            };
            Ok((self.parse_extern_field(f, &extern_header, buffer_mgr), 20))
        } else {
            f.parse(buf, self.field_length(idx))
        }
    }

    /// Decodes the values of all fields, in the order of the fields of the table:
    /// call this on a record of the clustering index only. There is one value for
    /// each field. A field outside the record that cannot be fetched is `Skipped`,
    /// and so is every field outside the record where no pin can succeed; any other
    /// failure ends the decoding with its error.
    pub fn parse_values<B: BufferManager>(&self, buffer_mgr: &mut B) -> (r: Result<
        Vec<FieldValue>,
        InnoDBError,
    >)
        requires
            self.wf(),
            old(buffer_mgr).inv(),
        ensures
            final(buffer_mgr).inv(),
            pins_kept(old(buffer_mgr), final(buffer_mgr)),
            match self.field_cursor(self.table().fields().len() as int) {
                Ok(_) => {
                    &&& r is Ok
                    &&& r->Ok_0@.len() == self.table().cluster_columns@.len()
                        + self.table().data_columns@.len()
                    &&& forall|i: int|
                        0 <= i < r->Ok_0@.len() ==> self.is_value_of(
                            old(buffer_mgr),
                            (#[trigger] r->Ok_0@[i])@,
                            i,
                        )
                    &&& never_pins::<B>() ==> forall|i: int|
                        0 <= i < r->Ok_0@.len() && self.is_outside(i) ==> (#[trigger] r->Ok_0@[i])@
                            == FieldValueView::Skipped
                },
                Err(e) => r == Err::<Vec<FieldValue>, InnoDBError>(e),
            },
    {
        let buf = self.record.buf;
        let count = self.td.field_count();
        let num_pk = self.td.cluster_columns.len();
        if num_pk == 0 {
            proof {
                self.lemma_field_cursor_err(0, count as int);
            }
            return Err(InnoDBError::InvalidTableDefinition);
        }
        let mut values: Vec<FieldValue> = Vec::new();
        let mut current_offset: usize = self.record.offset;
        let mut idx: usize = 0;
        while idx < count
            invariant
                self.wf(),
                buffer_mgr.inv(),
                pins_kept(old(buffer_mgr), buffer_mgr),
                buf == self.rec().buf,
                count == self.table().fields().len(),
                num_pk == self.table().cluster_columns@.len(),
                idx <= count,
                current_offset <= buf@.len(),
                self.field_cursor(idx as int) == Ok::<int, InnoDBError>(current_offset as int),
                values@.len() == idx,
                forall|i: int|
                    0 <= i < idx ==> self.is_value_of(old(buffer_mgr), (#[trigger] values@[i])@, i),
                never_pins::<B>() ==> forall|i: int|
                    0 <= i < idx && self.is_outside(i) ==> (#[trigger] values@[i])@
                        == FieldValueView::Skipped,
            decreases count - idx,
        {
            let f = self.td.field_at(idx);
            let rest = vstd::slice::slice_subrange(buf, current_offset, buf.len());
            proof {
                lemma_field_size_bound(
                    f.field_type,
                    rest@,
                    self.nulls()[idx as int],
                    self.lengths()[idx as int],
                    self.externs()[idx as int],
                );
            }
            let ghost before = *buffer_mgr;
            let (value, consumed) = match self.parse_single_field(f, rest, idx, buffer_mgr) {
                Ok(parsed) => parsed,
                Err(e) => {
                    proof {
                        self.lemma_field_cursor_err(idx as int + 1, count as int);
                    }
                    return Err(e);
                },
            };
            proof {
                if self.is_outside(idx as int) {
                    let reference = reference_in(rest@, self.lengths()[idx as int])->Ok_0;
                    assert(is_extern_value(&before, buffer_mgr, value@, f.field_type, reference));
                    assert(is_fetched_value(old(buffer_mgr), value@, f.field_type, reference));
                    if never_pins::<B>() {
                        assert(before.refusal(reference.space_id, reference.page_number) is Some);
                    }
                }
            }
            current_offset += consumed;
            values.push(value);
            idx += 1;
            if idx == num_pk {
                // the hidden columns
                if buf.len() - current_offset < HIDDEN_COLUMNS_SIZE {
                    proof {
                        self.lemma_field_cursor_err(idx as int, count as int);
                    }
                    return Err(InnoDBError::InvalidLength);
                }
                current_offset += HIDDEN_COLUMNS_SIZE;
            }
        }
        Ok(values)
    }

    /// Decodes the values of all fields without following references out of the
    /// record: every field outside the record is `Skipped`.
    pub fn values(&self) -> (r: Result<Vec<FieldValue>, InnoDBError>)
        requires
            self.wf(),
        ensures
            match self.field_cursor(self.table().fields().len() as int) {
                Ok(_) => {
                    &&& r is Ok
                    &&& r->Ok_0@.len() == self.table().cluster_columns@.len()
                        + self.table().data_columns@.len()
                    &&& forall|i: int|
                        0 <= i < r->Ok_0@.len() ==> if self.is_outside(i) {
                            (#[trigger] r->Ok_0@[i])@ == FieldValueView::Skipped
                        } else {
                            r->Ok_0@[i]@ == inline_outcome(
                                self.table().fields()[i].field_type,
                                self.rest_at(self.field_cursor(i)->Ok_0),
                                self.nulls()[i],
                                self.lengths()[i],
                            )->Ok_0.0
                        }
                },
                Err(e) => r == Err::<Vec<FieldValue>, InnoDBError>(e),
            },
    {
        let mut buffer_mgr = DummyBufferMangaer;
        let ghost start = buffer_mgr;
        let r = self.parse_values(&mut buffer_mgr);
        proof {
            assert(never_pins::<DummyBufferMangaer>());
            if r is Ok {
                let values = r->Ok_0;
                assert forall|i: int| 0 <= i < values@.len() && !self.is_outside(i) implies (
                #[trigger] values@[i])@ == inline_outcome(
                    self.table().fields()[i].field_type,
                    self.rest_at(self.field_cursor(i)->Ok_0),
                    self.nulls()[i],
                    self.lengths()[i],
                )->Ok_0.0 by {
                    assert(self.is_value_of(&start, values@[i]@, i));
                }
            }
        }
        r
    }
}

} // verus!
