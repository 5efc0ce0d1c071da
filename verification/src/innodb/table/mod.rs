//! Table definitions: the ordered fields of the clustering key and of the rest of a row.
pub mod blob_header;
pub mod field;
pub mod lob;
pub mod row;
pub mod sql;
pub mod text;

use vstd::prelude::*;

use crate::innodb::charset::{str_eq, InnoDBCharset};
use crate::innodb::table::field::{Field, FieldType};
use crate::innodb::table::sql::{
    cluster_columns, column_fields, data_columns, field_views, find_field, lemma_first_named,
    primary_key,
    statement_definition, suitable_unique, SqlStatement, TableDefinitionView,
};
use crate::innodb::InnoDBError;

verus! {

/// The definition of a table: its name and its fields.
#[derive(Debug, Default, PartialEq, Eq)]
pub struct TableDefinition {
    pub name: String,
    /// The fields of the clustering key, in key order.
    pub cluster_columns: Vec<Field>,
    /// The other fields, in the order of the table.
    pub data_columns: Vec<Field>,
}

impl View for TableDefinition {
    type V = TableDefinitionView;

    open spec fn view(&self) -> TableDefinitionView {
        TableDefinitionView {
            name: self.name@,
            cluster_columns: field_views(self.cluster_columns@),
            data_columns: field_views(self.data_columns@),
        }
    }
}

impl TableDefinition {
    /// Derives the definition of a table from the statement that creates it. The
    /// clustering key is the primary key, or else the first `UNIQUE` key over nothing but
    /// `NOT NULL` columns, or else a hidden `ROWID`; the other columns follow in their
    /// order.
    pub fn try_from_sql_statement(stmt: &SqlStatement) -> (r: Result<TableDefinition, InnoDBError>)
        ensures
            match statement_definition(*stmt) {
                Ok(definition) => r is Ok && r->Ok_0@ == definition && r->Ok_0.wf(),
                Err(e) => r == Err::<TableDefinition, InnoDBError>(e),
            },
    {
        let table = match stmt {
            SqlStatement::CreateTable(table) => table,
            SqlStatement::Other => { return Err(InnoDBError::InvalidTableDefinition); },
        };
        let table_charset = match &table.default_charset {
            Some(name) => match InnoDBCharset::with_name(name.as_str()) {
                Ok(charset) => charset,
                Err(e) => { return Err(e); },
            },
            None => InnoDBCharset::Ascii,
        };
        if table.name.len() != 1 {
            return Err(InnoDBError::InvalidTableDefinition);
        }
        let parsed_fields = match column_fields(&table.columns, table_charset) {
            Ok(fields) => fields,
            Err(e) => { return Err(e); },
        };
        let key = match primary_key(&table.constraints) {
            Ok(key) => key,
            Err(e) => { return Err(e); },
        };
        let none: Vec<String> = Vec::new();
        let declared: &Vec<String> = match key {
            Some(columns) => columns,
            None => &none,
        };
        let names: &Vec<String> = if declared.len() > 0 {
            declared
        } else {
            match suitable_unique(&table.constraints, &parsed_fields) {
                Some(columns) => columns,
                None => &none,
            }
        };
        proof {
            assert(crate::innodb::table::field::views_of(none@) =~= Seq::<Seq<char>>::empty());
        }
        let cluster = match cluster_columns(&parsed_fields, names) {
            Ok(cluster) => cluster,
            Err(e) => { return Err(e); },
        };
        let data = data_columns(parsed_fields, names);
        if cluster.len() > usize::MAX - data.len() {
            return Err(InnoDBError::InvalidTableDefinition);
        }
        let definition = TableDefinition {
            name: table.name[0].clone(),
            cluster_columns: cluster,
            data_columns: data,
        };
        assert forall|i: int| 0 <= i < definition.fields().len() implies (
        #[trigger] definition.fields()[i]).field_type.wf() by {
            if i < definition.cluster_columns@.len() {
                assert(definition.fields()[i] == definition.cluster_columns@[i]);
            } else {
                assert(definition.fields()[i] == definition.data_columns@[i
                    - definition.cluster_columns@.len()]);
            }
        }
        Ok(definition)
    }

    /// The first field of that name, for changing it. Nothing but that field can change.
    pub fn get_field_mut(&mut self, name: &str) -> (r: Option<&mut Field>)
        ensures
            match r {
                Some(f) => exists|i: int|
                    {
                        &&& 0 <= i < old(self).fields().len()
                        &&& *f == #[trigger] old(self).fields()[i]
                        &&& f.name@ == name@
                        &&& forall|k: int|
                            0 <= k < i ==> (#[trigger] old(self).fields()[k]).name@ != name@
                        &&& final(self).name == old(self).name
                        &&& if i < old(self).cluster_columns@.len() {
                            &&& final(self).cluster_columns@ == old(self).cluster_columns@.update(
                                i,
                                *final(f),
                            )
                            &&& final(self).data_columns@ == old(self).data_columns@
                        } else {
                            &&& final(self).cluster_columns@ == old(self).cluster_columns@
                            &&& final(self).data_columns@ == old(self).data_columns@.update(
                                i - old(self).cluster_columns@.len(),
                                *final(f),
                            )
                        }
                    },
                None => *final(self) == *old(self) && forall|k: int|
                    0 <= k < old(self).fields().len() ==> (#[trigger] old(self).fields()[k]).name@
                        != name@,
            },
    {
        let in_cluster = find_field(&self.cluster_columns, name);
        let in_data = find_field(&self.data_columns, name);
        proof {
            lemma_first_named(field_views(self.cluster_columns@), name@, 0);
            lemma_first_named(field_views(self.data_columns@), name@, 0);
            assert forall|k: int| 0 <= k < self.cluster_columns@.len() implies (
            #[trigger] self.fields()[k]).name@ == field_views(self.cluster_columns@)[k].name by {}
            assert forall|k: int|
                self.cluster_columns@.len() <= k < self.fields().len() implies (
            #[trigger] self.fields()[k]).name@ == field_views(self.data_columns@)[k
                - self.cluster_columns@.len()].name by {}
        }
        match in_cluster {
            Some(i) => {
                assert(self.fields()[i as int] == self.cluster_columns@[i as int]);
                Some(&mut self.cluster_columns[i])
            },
            None => match in_data {
                Some(j) => {
                    assert(self.fields()[self.cluster_columns@.len() + j]
                        == self.data_columns@[j as int]);
                    Some(&mut self.data_columns[j])
                },
                None => None,
            },
        }
    }

    /// All fields in the order in which a record stores them: the clustering key
    /// first.
    pub open spec fn fields(&self) -> Seq<Field> {
        self.cluster_columns@ + self.data_columns@
    }

    /// The number of fields fits the machine, and so does the greatest length of each.
    pub open spec fn wf(&self) -> bool {
        &&& self.cluster_columns@.len() + self.data_columns@.len() <= usize::MAX
        &&& forall|i: int| 0 <= i < self.fields().len() ==> (#[trigger] self.fields()[i]).field_type.wf()
    }

    /// The names of all fields, in the order of `fields`.
    pub fn names(&self) -> (r: Vec<&str>)
        ensures
            r@.len() == self.fields().len(),
            forall|i: int| 0 <= i < r@.len() ==> (#[trigger] r@[i])@ == self.fields()[i].name@,
    {
        let mut names: Vec<&str> = Vec::new();
        let mut i: usize = 0;
        while i < self.cluster_columns.len()
            invariant
                i <= self.cluster_columns@.len(),
                names@.len() == i,
                forall|k: int| 0 <= k < i ==> (#[trigger] names@[k])@ == self.fields()[k].name@,
            decreases self.cluster_columns@.len() - i,
        {
            names.push(self.cluster_columns[i].name.as_str());
            i += 1;
        }
        let mut j: usize = 0;
        while j < self.data_columns.len()
            invariant
                j <= self.data_columns@.len(),
                names@.len() == self.cluster_columns@.len() + j,
                forall|k: int|
                    0 <= k < names@.len() ==> (#[trigger] names@[k])@ == self.fields()[k].name@,
            decreases self.data_columns@.len() - j,
        {
            names.push(self.data_columns[j].name.as_str());
            j += 1;
        }
        names
    }

    /// The number of fields.
    pub fn field_count(&self) -> (r: usize)
        requires
            self.cluster_columns@.len() + self.data_columns@.len() <= usize::MAX,
        ensures
            r == self.fields().len(),
    {
        self.cluster_columns.len() + self.data_columns.len()
    }

    /// The field at a position in the order of `fields`.
    pub fn field_at(&self, index: usize) -> (r: &Field)
        requires
            index < self.fields().len(),
        ensures
            *r == self.fields()[index as int],
    {
        if index < self.cluster_columns.len() {
            &self.cluster_columns[index]
        } else {
            &self.data_columns[index - self.cluster_columns.len()]
        }
    }

    /// The first field of that name, in the order of `fields`.
    pub fn get_field(&self, name: &str) -> (r: Option<&Field>)
        ensures
            match r {
                Some(f) => exists|i: int|
                    {
                        &&& 0 <= i < self.fields().len()
                        &&& *f == #[trigger] self.fields()[i]
                        &&& f.name@ == name@
                        &&& forall|k: int| 0 <= k < i ==> (#[trigger] self.fields()[k]).name@ != name@
                    },
                None => forall|k: int|
                    0 <= k < self.fields().len() ==> (#[trigger] self.fields()[k]).name@ != name@,
            },
    {
        let mut i: usize = 0;
        while i < self.cluster_columns.len()
            invariant
                i <= self.cluster_columns@.len(),
                forall|k: int| 0 <= k < i ==> (#[trigger] self.fields()[k]).name@ != name@,
            decreases self.cluster_columns@.len() - i,
        {
            if str_eq(self.cluster_columns[i].name.as_str(), name) {
                assert(self.fields()[i as int] == self.cluster_columns@[i as int]);
                return Some(&self.cluster_columns[i]);
            }
            i += 1;
        }
        let mut j: usize = 0;
        while j < self.data_columns.len()
            invariant
                j <= self.data_columns@.len(),
                forall|k: int|
                    0 <= k < self.cluster_columns@.len() + j ==> (#[trigger] self.fields()[k]).name@
                        != name@,
            decreases self.data_columns@.len() - j,
        {
            if str_eq(self.data_columns[j].name.as_str(), name) {
                assert(self.fields()[self.cluster_columns@.len() + j] == self.data_columns@[j as int]);
                return Some(&self.data_columns[j]);
            }
            j += 1;
        }
        None
    }
}

} // verus!
