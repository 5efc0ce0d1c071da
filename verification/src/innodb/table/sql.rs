//! What a `CREATE TABLE` statement says, as far as a table definition needs it, and
//! the rules by which the definition follows from it.
use vstd::prelude::*;

use crate::innodb::charset::{str_eq, InnoDBCharset};
use crate::innodb::table::field::{views_of, copy_strings, Field, FieldType, FieldTypeView, FieldView};
use crate::innodb::InnoDBError;

verus! {

/// The type of a column.
#[derive(Debug, Clone, PartialEq, Eq)]
pub enum SqlDataType {
    /// `CHAR`, with its length where one is given
    Char(Option<u64>),
    /// `VARCHAR`, with its length where one is given
    Varchar(Option<u64>),
    UnsignedTinyInt,
    UnsignedSmallInt,
    UnsignedMediumInt,
    UnsignedInt,
    UnsignedBigInt,
    TinyInt,
    SmallInt,
    MediumInt,
    Int,
    BigInt,
    /// A type that goes by a name only, such as `mediumtext`
    Custom(String),
    /// `ENUM`, with its labels
    Enum(Vec<String>),
    Date,
    Datetime,
    Timestamp,
    /// Any other type
    Other,
}

/// An option of a column.
#[derive(Debug, Clone, PartialEq, Eq)]
pub enum SqlColumnOption {
    NotNull,
    /// `CHARACTER SET`, with the name of the set
    CharacterSet(String),
    /// Any other option
    Other,
}

/// A column of a table: its name, its type, and its options.
#[derive(Debug, Clone, PartialEq, Eq)]
pub struct SqlColumn {
    pub name: String,
    pub data_type: SqlDataType,
    pub options: Vec<SqlColumnOption>,
}

/// A constraint of a table.
#[derive(Debug, Clone, PartialEq, Eq)]
pub enum SqlConstraint {
    /// `PRIMARY KEY`, with the names of its columns
    PrimaryKey(Vec<String>),
    /// `UNIQUE`, with the names of its columns
    Unique(Vec<String>),
    /// Any other constraint
    Other,
}

/// A `CREATE TABLE` statement.
#[derive(Debug, Clone, PartialEq, Eq)]
pub struct SqlCreateTable {
    /// The parts of the name of the table
    pub name: Vec<String>,
    /// The name of the character set of the table, where one is given
    pub default_charset: Option<String>,
    pub columns: Vec<SqlColumn>,
    pub constraints: Vec<SqlConstraint>,
}

/// A statement.
#[derive(Debug, Clone, PartialEq, Eq)]
pub enum SqlStatement {
    CreateTable(SqlCreateTable),
    /// Any other statement
    Other,
}

/// The character set of a column: that of the last of its `CHARACTER SET` options that
/// names a known set, or else that of the table.
pub open spec fn charset_of(options: Seq<SqlColumnOption>, table_charset: InnoDBCharset) -> InnoDBCharset
    decreases options.len(),
{
    if options.len() == 0 {
        table_charset
    } else {
        match options.last() {
            SqlColumnOption::CharacterSet(name) => match InnoDBCharset::from_name(name@) {
                Some(charset) => charset,
                None => charset_of(options.drop_last(), table_charset),
            },
            _ => charset_of(options.drop_last(), table_charset),
        }
    }
}

/// Whether a column is declared `NOT NULL`.
pub open spec fn is_not_null(options: Seq<SqlColumnOption>) -> bool {
    exists|i: int| 0 <= i < options.len() && #[trigger] options[i] is NotNull
}

/// The field type that a column type stands for, given the character set of the
/// column. `CHAR` without a length has 255 characters and `VARCHAR` 65535, and neither
/// can have more; `CHAR` in a character set of more than one byte a character is of
/// variable length.
pub open spec fn field_type_of(data_type: SqlDataType, charset: InnoDBCharset) -> Result<
    FieldTypeView,
    InnoDBError,
> {
    match data_type {
        SqlDataType::Char(len) => {
            let n = match len {
                Some(n) => n,
                None => 255,
            };
            if n > 255 {
                Err(InnoDBError::InvalidTableDefinition)
            } else if charset.max_bytes_per_char() == 1 {
                Ok(FieldTypeView::Char(n as usize, charset))
            } else {
                Ok(FieldTypeView::Text(n as usize, charset))
            }
        },
        SqlDataType::Varchar(len) => {
            let n = match len {
                Some(n) => n,
                None => 65535,
            };
            if n > 65535 {
                Err(InnoDBError::InvalidTableDefinition)
            } else {
                Ok(FieldTypeView::Text(n as usize, charset))
            }
        },
        SqlDataType::UnsignedTinyInt => Ok(FieldTypeView::TinyInt(false)),
        SqlDataType::UnsignedSmallInt => Ok(FieldTypeView::SmallInt(false)),
        SqlDataType::UnsignedMediumInt => Ok(FieldTypeView::MediumInt(false)),
        SqlDataType::UnsignedInt => Ok(FieldTypeView::Int(false)),
        SqlDataType::UnsignedBigInt => Ok(FieldTypeView::BigInt(false)),
        SqlDataType::TinyInt => Ok(FieldTypeView::TinyInt(true)),
        SqlDataType::SmallInt => Ok(FieldTypeView::SmallInt(true)),
        SqlDataType::MediumInt => Ok(FieldTypeView::MediumInt(true)),
        SqlDataType::Int => Ok(FieldTypeView::Int(true)),
        SqlDataType::BigInt => Ok(FieldTypeView::BigInt(true)),
        SqlDataType::Custom(name) => if name@ == "mediumtext"@ {
            Ok(FieldTypeView::Text(0xFF_FFFF, charset))
        } else if name@ == "longtext"@ {
            Ok(FieldTypeView::Text(0xFFFF_FFFF, charset))
        } else {
            Err(InnoDBError::UnsupportedFieldType)
        },
        SqlDataType::Enum(labels) => Ok(FieldTypeView::Enum(views_of(labels@))),
        SqlDataType::Date => Ok(FieldTypeView::Date),
        SqlDataType::Datetime => Ok(FieldTypeView::DateTime),
        SqlDataType::Timestamp => Ok(FieldTypeView::Timestamp),
        SqlDataType::Other => Err(InnoDBError::UnsupportedFieldType),
    }
}

/// The field that a column stands for.
pub open spec fn field_of(column: SqlColumn, table_charset: InnoDBCharset) -> Result<
    FieldView,
    InnoDBError,
> {
    match field_type_of(column.data_type, charset_of(column.options@, table_charset)) {
        Ok(field_type) => Ok(
            FieldView { name: column.name@, field_type, nullable: !is_not_null(column.options@) },
        ),
        Err(e) => Err(e),
    }
}

/// The fields of the first `upto` columns, or the error of the first column that
/// stands for no field.
pub open spec fn fields_of(columns: Seq<SqlColumn>, table_charset: InnoDBCharset, upto: int) -> Result<
    Seq<FieldView>,
    InnoDBError,
>
    decreases upto,
{
    if upto <= 0 {
        Ok(Seq::empty())
    } else {
        match fields_of(columns, table_charset, upto - 1) {
            Err(e) => Err(e),
            Ok(fields) => match field_of(columns[upto - 1], table_charset) {
                Err(e) => Err(e),
                Ok(field) => Ok(fields.push(field)),
            },
        }
    }
}

/// The primary key that the first `upto` constraints declare: the columns of the
/// `PRIMARY KEY` constraint, none where there is no such constraint. A second one
/// after one with columns is an error.
pub open spec fn primary_key_of(constraints: Seq<SqlConstraint>, upto: int) -> Result<
    Seq<Seq<char>>,
    InnoDBError,
>
    decreases upto,
{
    if upto <= 0 {
        Ok(Seq::empty())
    } else {
        match primary_key_of(constraints, upto - 1) {
            Err(e) => Err(e),
            Ok(key) => match constraints[upto - 1] {
                SqlConstraint::PrimaryKey(columns) => if key.len() > 0 {
                    Err(InnoDBError::InvalidTableDefinition)
                } else {
                    Ok(views_of(columns@))
                },
                _ => Ok(key),
            },
        }
    }
}

/// The position of the first field of a name, from position `from` on.
pub open spec fn first_named(fields: Seq<FieldView>, name: Seq<char>, from: int) -> Option<int>
    decreases fields.len() - from,
{
    if from < 0 || from >= fields.len() {
        None
    } else if fields[from].name == name {
        Some(from)
    } else {
        first_named(fields, name, from + 1)
    }
}

/// What `first_named` finds is the first field of the name from `from` on, and what
/// it does not find is not there.
pub proof fn lemma_first_named(fields: Seq<FieldView>, name: Seq<char>, from: int)
    requires
        0 <= from,
    ensures
        match first_named(fields, name, from) {
            Some(i) => {
                &&& from <= i < fields.len()
                &&& fields[i].name == name
                &&& forall|j: int| from <= j < i ==> (#[trigger] fields[j]).name != name
            },
            None => forall|j: int| from <= j < fields.len() ==> (#[trigger] fields[j]).name != name,
        },
    decreases fields.len() - from,
{
    if from < fields.len() && fields[from].name != name {
        lemma_first_named(fields, name, from + 1);
    }
}

/// Whether a column of a key names a field that cannot be null.
pub open spec fn names_not_null(fields: Seq<FieldView>, name: Seq<char>) -> bool {
    match first_named(fields, name, 0) {
        Some(i) => !fields[i].nullable,
        None => false,
    }
}

/// Whether a constraint is a `UNIQUE` key over nothing but fields that cannot be null.
pub open spec fn is_suitable_unique(constraint: SqlConstraint, fields: Seq<FieldView>) -> bool {
    match constraint {
        SqlConstraint::Unique(columns) => forall|k: int|
            0 <= k < columns@.len() ==> names_not_null(fields, (#[trigger] columns@[k])@),
        _ => false,
    }
}

/// The position of the first suitable `UNIQUE` key, from position `from` on.
pub open spec fn first_suitable_unique(
    constraints: Seq<SqlConstraint>,
    fields: Seq<FieldView>,
    from: int,
) -> Option<int>
    decreases constraints.len() - from,
{
    if from < 0 || from >= constraints.len() {
        None
    } else if is_suitable_unique(constraints[from], fields) {
        Some(from)
    } else {
        first_suitable_unique(constraints, fields, from + 1)
    }
}

/// The names of the columns of the clustering key: those of the primary key, or,
/// where there is none, those of the first suitable `UNIQUE` key. Where there are
/// none at all, the key is the hidden `ROWID`.
pub open spec fn cluster_names_of(
    constraints: Seq<SqlConstraint>,
    fields: Seq<FieldView>,
    primary_key: Seq<Seq<char>>,
) -> Seq<Seq<char>> {
    if primary_key.len() > 0 {
        primary_key
    } else {
        match first_suitable_unique(constraints, fields, 0) {
            Some(i) => views_of(constraints[i]->Unique_0@),
            None => Seq::empty(),
        }
    }
}

/// The hidden column that is the key of a table without one: 6 bytes, unsigned.
pub open spec fn row_id_field() -> FieldView {
    FieldView { name: "ROWID"@, field_type: FieldTypeView::Int6(false), nullable: false }
}

/// The fields of the clustering key: for each name the first field of that name. A
/// name of no field is an error.
pub open spec fn cluster_fields_of(fields: Seq<FieldView>, names: Seq<Seq<char>>) -> Result<
    Seq<FieldView>,
    InnoDBError,
> {
    if names.len() == 0 {
        Ok(seq![row_id_field()])
    } else if forall|k: int| 0 <= k < names.len() ==> first_named(fields, #[trigger] names[k], 0) is Some {
        Ok(Seq::new(names.len(), |k: int| fields[first_named(fields, names[k], 0)->Some_0]))
    } else {
        Err(InnoDBError::InvalidTableDefinition)
    }
}

/// The fields among the first `upto` that are not named in the clustering key, in
/// their order.
pub open spec fn data_fields_of(fields: Seq<FieldView>, names: Seq<Seq<char>>, upto: int) -> Seq<
    FieldView,
>
    decreases upto,
{
    if upto <= 0 {
        Seq::empty()
    } else if names.contains(fields[upto - 1].name) {
        data_fields_of(fields, names, upto - 1)
    } else {
        data_fields_of(fields, names, upto - 1).push(fields[upto - 1])
    }
}

/// A table definition with its strings as sequences of characters.
pub struct TableDefinitionView {
    pub name: Seq<char>,
    pub cluster_columns: Seq<FieldView>,
    pub data_columns: Seq<FieldView>,
}

/// The character set of a table: the one it names, ASCII where it names none.
pub open spec fn table_charset_of(default_charset: Option<String>) -> Result<
    InnoDBCharset,
    InnoDBError,
> {
    match default_charset {
        None => Ok(InnoDBCharset::Ascii),
        Some(name) => match InnoDBCharset::from_name(name@) {
            Some(charset) => Ok(charset),
            None => Err(InnoDBError::InvalidTableDefinition),
        },
    }
}

/// The definition of the table that a `CREATE TABLE` statement creates, or the reason
/// for which there is none: an unknown character set of the table, a name of more
/// than one part, a column that stands for no field, a second primary key, a key over
/// a column that the table does not have, or more fields than the machine can count.
pub open spec fn definition_of(table: SqlCreateTable) -> Result<TableDefinitionView, InnoDBError> {
    match table_charset_of(table.default_charset) {
        Err(e) => Err(e),
        Ok(table_charset) => if table.name@.len() != 1 {
            Err(InnoDBError::InvalidTableDefinition)
        } else {
            match fields_of(table.columns@, table_charset, table.columns@.len() as int) {
                Err(e) => Err(e),
                Ok(fields) => match primary_key_of(
                    table.constraints@,
                    table.constraints@.len() as int,
                ) {
                    Err(e) => Err(e),
                    Ok(primary_key) => {
                        let names = cluster_names_of(table.constraints@, fields, primary_key);
                        let data = data_fields_of(fields, names, fields.len() as int);
                        match cluster_fields_of(fields, names) {
                            Err(e) => Err(e),
                            Ok(cluster) => if cluster.len() + data.len() > usize::MAX {
                                Err(InnoDBError::InvalidTableDefinition)
                            } else {
                                Ok(
                                    TableDefinitionView {
                                        name: table.name@[0]@,
                                        cluster_columns: cluster,
                                        data_columns: data,
                                    },
                                )
                            },
                        }
                    },
                },
            }
        }
    }
}

/// The definition that a statement gives: only `CREATE TABLE` gives one.
pub open spec fn statement_definition(stmt: SqlStatement) -> Result<TableDefinitionView, InnoDBError> {
    match stmt {
        SqlStatement::CreateTable(table) => definition_of(table),
        SqlStatement::Other => Err(InnoDBError::InvalidTableDefinition),
    }
}

/// The views of the fields of a list.
pub open spec fn field_views(fields: Seq<Field>) -> Seq<FieldView> {
    fields.map_values(|f: Field| f@)
}

/// The character set of a column.
pub fn column_charset(options: &Vec<SqlColumnOption>, table_charset: InnoDBCharset) -> (r:
    InnoDBCharset)
    ensures
        r == charset_of(options@, table_charset),
{
    let mut i: usize = options.len();
    assert(options@.subrange(0, i as int) == options@);
    while i > 0
        invariant
            i <= options@.len(),
            charset_of(options@, table_charset) == charset_of(
                options@.subrange(0, i as int),
                table_charset,
            ),
        decreases i,
    {
        assert(options@.subrange(0, i as int).drop_last() == options@.subrange(0, i - 1));
        if let SqlColumnOption::CharacterSet(name) = &options[i - 1] {
            if let Ok(charset) = InnoDBCharset::with_name(name.as_str()) {
                return charset;
            }
        }
        i -= 1;
    }
    table_charset
}

/// Whether a column is declared `NOT NULL`.
pub fn column_not_null(options: &Vec<SqlColumnOption>) -> (r: bool)
    ensures
        r == is_not_null(options@),
{
    let mut i: usize = 0;
    while i < options.len()
        invariant
            i <= options@.len(),
            forall|k: int| 0 <= k < i ==> !(#[trigger] options@[k] is NotNull),
        decreases options@.len() - i,
    {
        if let SqlColumnOption::NotNull = &options[i] {
            return true;
        }
        i += 1;
    }
    false
}

/// A text of at most 2^32 - 1 characters has a greatest length that fits 64 bits.
pub proof fn lemma_text_fits(len: usize, charset: InnoDBCharset)
    requires
        len <= 0xFFFF_FFFF,
    ensures
        len * charset.max_bytes_per_char() <= u64::MAX,
{
    match charset {
        InnoDBCharset::Ascii => {},
        InnoDBCharset::Latin1 => {},
        InnoDBCharset::Utf8mb3 => {},
        InnoDBCharset::Utf8mb4 => {},
    }
}

/// The field type of a column.
pub fn column_type(data_type: &SqlDataType, charset: InnoDBCharset) -> (r: Result<
    FieldType,
    InnoDBError,
>)
    ensures
        match field_type_of(*data_type, charset) {
            Ok(t) => r is Ok && r->Ok_0@ == t && r->Ok_0.wf(),
            Err(e) => r == Err::<FieldType, InnoDBError>(e),
        },
{
    proof {
        lemma_text_fits(0xFF_FFFF, charset);
        lemma_text_fits(0xFFFF_FFFF, charset);
    }
    match data_type {
        SqlDataType::Char(len_opt) => {
            let final_len: u64 = match len_opt {
                Some(n) => *n,
                None => 255,
            };
            if final_len > 255 {
                return Err(InnoDBError::InvalidTableDefinition);
            }
            proof {
                lemma_text_fits(final_len as usize, charset);
            }
            if charset.max_len() == 1 {
                Ok(FieldType::Char(final_len as usize, charset))
            } else {
                Ok(FieldType::Text(final_len as usize, charset))
            }
        },
        SqlDataType::Varchar(len_opt) => {
            let final_len: u64 = match len_opt {
                Some(n) => *n,
                None => 65535,
            };
            if final_len > 65535 {
                return Err(InnoDBError::InvalidTableDefinition);
            }
            proof {
                lemma_text_fits(final_len as usize, charset);
            }
            Ok(FieldType::Text(final_len as usize, charset))
        },
        SqlDataType::UnsignedTinyInt => Ok(FieldType::TinyInt(false)),
        SqlDataType::UnsignedSmallInt => Ok(FieldType::SmallInt(false)),
        SqlDataType::UnsignedMediumInt => Ok(FieldType::MediumInt(false)),
        SqlDataType::UnsignedInt => Ok(FieldType::Int(false)),
        SqlDataType::UnsignedBigInt => Ok(FieldType::BigInt(false)),
        SqlDataType::TinyInt => Ok(FieldType::TinyInt(true)),
        SqlDataType::SmallInt => Ok(FieldType::SmallInt(true)),
        SqlDataType::MediumInt => Ok(FieldType::MediumInt(true)),
        SqlDataType::Int => Ok(FieldType::Int(true)),
        SqlDataType::BigInt => Ok(FieldType::BigInt(true)),
        SqlDataType::Custom(name) => {
            if str_eq(name.as_str(), "mediumtext") {
                Ok(FieldType::Text(0xFF_FFFF, charset))
            } else if str_eq(name.as_str(), "longtext") {
                Ok(FieldType::Text(0xFFFF_FFFF, charset))
            } else {
                Err(InnoDBError::UnsupportedFieldType)
            }
        },
        SqlDataType::Enum(values) => Ok(FieldType::Enum(copy_strings(values))),
        SqlDataType::Date => Ok(FieldType::Date),
        SqlDataType::Datetime => Ok(FieldType::DateTime),
        SqlDataType::Timestamp => Ok(FieldType::Timestamp),
        SqlDataType::Other => Err(InnoDBError::UnsupportedFieldType),
    }
}

/// The fields of the columns of a table.
pub fn column_fields(columns: &Vec<SqlColumn>, table_charset: InnoDBCharset) -> (r: Result<
    Vec<Field>,
    InnoDBError,
>)
    ensures
        match fields_of(columns@, table_charset, columns@.len() as int) {
            Ok(fields) => {
                &&& r is Ok
                &&& field_views(r->Ok_0@) == fields
                &&& forall|i: int| 0 <= i < r->Ok_0@.len() ==> (#[trigger] r->Ok_0@[i]).field_type.wf()
            },
            Err(e) => r == Err::<Vec<Field>, InnoDBError>(e),
        },
{
    let mut parsed_fields: Vec<Field> = Vec::new();
    let mut i: usize = 0;
    assert(field_views(parsed_fields@) =~= Seq::<FieldView>::empty());
    while i < columns.len()
        invariant
            i <= columns@.len(),
            fields_of(columns@, table_charset, i as int) == Ok::<Seq<FieldView>, InnoDBError>(
                field_views(parsed_fields@),
            ),
            parsed_fields@.len() == i,
            forall|k: int| 0 <= k < i ==> (#[trigger] parsed_fields@[k]).field_type.wf(),
        decreases columns@.len() - i,
    {
        let column = &columns[i];
        let charset = column_charset(&column.options, table_charset);
        let f_type = match column_type(&column.data_type, charset) {
            Ok(t) => t,
            Err(e) => {
                proof {
                    lemma_fields_of_err(columns@, table_charset, i as int + 1, columns@.len() as int);
                }
                return Err(e);
            },
        };
        let nullable = !column_not_null(&column.options);
        let field = Field { name: column.name.clone(), field_type: f_type, nullable };
        let ghost before = field_views(parsed_fields@);
        parsed_fields.push(field);
        assert(field_views(parsed_fields@) =~= before.push(field@));
        i += 1;
    }
    Ok(parsed_fields)
}

/// The first column that stands for no field decides.
pub proof fn lemma_fields_of_err(columns: Seq<SqlColumn>, table_charset: InnoDBCharset, a: int, b: int)
    requires
        0 <= a <= b,
        fields_of(columns, table_charset, a) is Err,
    ensures
        fields_of(columns, table_charset, b) == fields_of(columns, table_charset, a),
    decreases b - a,
{
    if a < b {
        lemma_fields_of_err(columns, table_charset, a, b - 1);
    }
}

/// The first superfluous primary key decides.
pub proof fn lemma_primary_key_err(constraints: Seq<SqlConstraint>, a: int, b: int)
    requires
        0 <= a <= b,
        primary_key_of(constraints, a) is Err,
    ensures
        primary_key_of(constraints, b) == primary_key_of(constraints, a),
    decreases b - a,
{
    if a < b {
        lemma_primary_key_err(constraints, a, b - 1);
    }
}

/// The columns of the primary key of a table; none where it has no primary key.
pub fn primary_key<'a>(constraints: &'a Vec<SqlConstraint>) -> (r: Result<
    Option<&'a Vec<String>>,
    InnoDBError,
>)
    ensures
        match primary_key_of(constraints@, constraints@.len() as int) {
            Ok(key) => r is Ok && key == match r->Ok_0 {
                Some(columns) => views_of(columns@),
                None => Seq::<Seq<char>>::empty(),
            },
            Err(e) => r == Err::<Option<&'a Vec<String>>, InnoDBError>(e),
        },
{
    let mut key: Option<&'a Vec<String>> = None;
    let mut i: usize = 0;
    while i < constraints.len()
        invariant
            i <= constraints@.len(),
            primary_key_of(constraints@, i as int) == Ok::<Seq<Seq<char>>, InnoDBError>(
                match key {
                    Some(columns) => views_of(columns@),
                    None => Seq::<Seq<char>>::empty(),
                },
            ),
        decreases constraints@.len() - i,
    {
        if let SqlConstraint::PrimaryKey(columns) = &constraints[i] {
            let taken = match key {
                Some(earlier) => earlier.len() > 0,
                None => false,
            };
            if taken {
                proof {
                    lemma_primary_key_err(constraints@, i as int + 1, constraints@.len() as int);
                }
                return Err(InnoDBError::InvalidTableDefinition);
            }
            key = Some(columns);
        }
        i += 1;
    }
    Ok(key)
}

/// The position of the first field of a name.
pub fn find_field(fields: &Vec<Field>, name: &str) -> (r: Option<usize>)
    ensures
        first_named(field_views(fields@), name@, 0) == match r {
            Some(i) => Some(i as int),
            None => None,
        },
        r matches Some(i) ==> i < fields@.len(),
{
    let mut i: usize = 0;
    while i < fields.len()
        invariant
            i <= fields@.len(),
            first_named(field_views(fields@), name@, 0) == first_named(
                field_views(fields@),
                name@,
                i as int,
            ),
        decreases fields@.len() - i,
    {
        if str_eq(fields[i].name.as_str(), name) {
            return Some(i);
        }
        i += 1;
    }
    None
}

/// Whether a key is over nothing but fields that cannot be null.
pub fn all_not_null(fields: &Vec<Field>, columns: &Vec<String>) -> (r: bool)
    ensures
        r == forall|k: int|
            0 <= k < columns@.len() ==> names_not_null(field_views(fields@), (#[trigger] columns@[k])@),
{
    let mut k: usize = 0;
    while k < columns.len()
        invariant
            k <= columns@.len(),
            forall|j: int|
                0 <= j < k ==> names_not_null(field_views(fields@), (#[trigger] columns@[j])@),
        decreases columns@.len() - k,
    {
        let ok = match find_field(fields, columns[k].as_str()) {
            Some(i) => !fields[i].nullable,
            None => false,
        };
        if !ok {
            return false;
        }
        k += 1;
    }
    true
}

/// The columns of the first suitable `UNIQUE` key of a table.
pub fn suitable_unique<'a>(constraints: &'a Vec<SqlConstraint>, fields: &Vec<Field>) -> (r: Option<
    &'a Vec<String>,
>)
    ensures
        match first_suitable_unique(constraints@, field_views(fields@), 0) {
            Some(i) => r is Some && views_of(r->Some_0@) == views_of(constraints@[i]->Unique_0@),
            None => r is None,
        },
{
    let mut i: usize = 0;
    while i < constraints.len()
        invariant
            i <= constraints@.len(),
            first_suitable_unique(constraints@, field_views(fields@), 0) == first_suitable_unique(
                constraints@,
                field_views(fields@),
                i as int,
            ),
        decreases constraints@.len() - i,
    {
        if let SqlConstraint::Unique(columns) = &constraints[i] {
            if all_not_null(fields, columns) {
                return Some(columns);
            }
        }
        i += 1;
    }
    None
}

/// Whether a name is among the names of a list.
pub fn contains_name(names: &Vec<String>, name: &str) -> (r: bool)
    ensures
        r == views_of(names@).contains(name@),
{
    let mut k: usize = 0;
    while k < names.len()
        invariant
            k <= names@.len(),
            forall|j: int| 0 <= j < k ==> (#[trigger] names@[j])@ != name@,
        decreases names@.len() - k,
    {
        if str_eq(names[k].as_str(), name) {
            assert(views_of(names@)[k as int] == name@);
            return true;
        }
        k += 1;
    }
    assert forall|j: int| 0 <= j < views_of(names@).len() implies views_of(names@)[j] != name@ by {
        assert(names@[j]@ != name@);
    }
    false
}

/// The fields of the clustering key.
pub fn cluster_columns(fields: &Vec<Field>, names: &Vec<String>) -> (r: Result<
    Vec<Field>,
    InnoDBError,
>)
    requires
        forall|i: int| 0 <= i < fields@.len() ==> (#[trigger] fields@[i]).field_type.wf(),
    ensures
        match cluster_fields_of(field_views(fields@), views_of(names@)) {
            Ok(cluster) => {
                &&& r is Ok
                &&& field_views(r->Ok_0@) == cluster
                &&& forall|i: int| 0 <= i < r->Ok_0@.len() ==> (#[trigger] r->Ok_0@[i]).field_type.wf()
            },
            Err(e) => r == Err::<Vec<Field>, InnoDBError>(e),
        },
{
    let mut cluster: Vec<Field> = Vec::new();
    if names.len() == 0 {
        proof {
            reveal_strlit("ROWID");
        }
        let row_id = Field {
            name: String::from_str("ROWID"),
            field_type: FieldType::Int6(false),
            nullable: false,
        };
        cluster.push(row_id);
        assert(field_views(cluster@) =~= seq![row_id_field()]);
        return Ok(cluster);
    }
    let ghost views = field_views(fields@);
    let ghost wanted = views_of(names@);
    let mut k: usize = 0;
    while k < names.len()
        invariant
            k <= names@.len(),
            views == field_views(fields@),
            wanted == views_of(names@),
            cluster@.len() == k,
            forall|i: int| 0 <= i < fields@.len() ==> (#[trigger] fields@[i]).field_type.wf(),
            forall|j: int| 0 <= j < k ==> first_named(views, #[trigger] wanted[j], 0) is Some,
            forall|j: int|
                0 <= j < k ==> (#[trigger] cluster@[j])@ == views[first_named(
                    views,
                    wanted[j],
                    0,
                )->Some_0],
            forall|j: int| 0 <= j < k ==> (#[trigger] cluster@[j]).field_type.wf(),
        decreases names@.len() - k,
    {
        let position = match find_field(fields, names[k].as_str()) {
            Some(i) => i,
            None => {
                assert(first_named(views, wanted[k as int], 0) is None);
                return Err(InnoDBError::InvalidTableDefinition);
            },
        };
        cluster.push(fields[position].copy_of());
        k += 1;
    }
    assert(field_views(cluster@) =~= Seq::new(
        wanted.len(),
        |j: int| views[first_named(views, wanted[j], 0)->Some_0],
    ));
    Ok(cluster)
}

/// The fields that are not in the clustering key, in their order.
pub fn data_columns(fields: Vec<Field>, names: &Vec<String>) -> (r: Vec<Field>)
    requires
        forall|i: int| 0 <= i < fields@.len() ==> (#[trigger] fields@[i]).field_type.wf(),
    ensures
        field_views(r@) == data_fields_of(
            field_views(fields@),
            views_of(names@),
            fields@.len() as int,
        ),
        r@.len() <= fields@.len(),
        forall|i: int| 0 <= i < r@.len() ==> (#[trigger] r@[i]).field_type.wf(),
{
    let mut data: Vec<Field> = Vec::new();
    let ghost views = field_views(fields@);
    let ghost wanted = views_of(names@);
    let mut i: usize = 0;
    while i < fields.len()
        invariant
            i <= fields@.len(),
            views == field_views(fields@),
            wanted == views_of(names@),
            data@.len() <= i,
            field_views(data@) == data_fields_of(views, wanted, i as int),
            forall|k: int| 0 <= k < fields@.len() ==> (#[trigger] fields@[k]).field_type.wf(),
            forall|k: int| 0 <= k < data@.len() ==> (#[trigger] data@[k]).field_type.wf(),
        decreases fields@.len() - i,
    {
        if !contains_name(names, fields[i].name.as_str()) {
            let ghost before = field_views(data@);
            let field = fields[i].copy_of();
            data.push(field);
            assert(field_views(data@) =~= before.push(field@));
        }
        i += 1;
    }
    data
}

} // verus!
