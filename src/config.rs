//! A parsed configuration file and typed access to its tables.
use vstd::prelude::*;
use vstd::string::*;
use crate::coerce::CharPolicy;
use crate::scan::{lines_view, parse_lines, spec_parse, tables_view};
use crate::table::{
    lookup, shape_view, spec_materialize, values_view, FieldError, FieldFault, Table, TableModel,
};
use crate::text::str_eq;
use crate::value::{kind_of, Kind, Scalar, Value};

verus! {

/// The first table named `name`.
pub open spec fn first_table_named(tables: Seq<TableModel>, name: Seq<char>) -> Option<
    TableModel,
>
    decreases tables.len(),
{
    if tables.len() == 0 {
        None
    } else if tables[0].name == name {
        Some(tables[0])
    } else {
        first_table_named(tables.drop_first(), name)
    }
}

/// Why a table could not be turned into a record.
#[derive(Debug, Clone, PartialEq)]
pub enum TableError {
    /// No table has this name.
    NoTable(String),
    /// The table lacks a field, or holds it with another kind.
    Field(FieldError),
}

pub ghost enum TableFault {
    NoTable(Seq<char>),
    Field(FieldFault),
}

impl View for TableError {
    type V = TableFault;

    open spec fn view(&self) -> TableFault {
        match self {
            TableError::NoTable(n) => TableFault::NoTable(n@),
            TableError::Field(e) => TableFault::Field(e@),
        }
    }
}

/// A value that a field can be read as. Reading succeeds exactly when the
/// stored value is of the type's own kind, and then gives that value;
/// nothing converts across variants.
pub trait FromValue: Sized {
    /// The kind of value this type is read from.
    spec fn kind() -> Kind;

    /// `x` is what a stored value `v` reads as.
    spec fn reads_as(v: Scalar, x: Self) -> bool;

    fn from_value(v: &Value) -> (r: Option<Self>)
        ensures
            (r is Some) == (kind_of(v@) == Self::kind()),
            r is Some ==> Self::reads_as(v@, r->0),
    ;
}

impl FromValue for String {
    open spec fn kind() -> Kind {
        Kind::String
    }

    open spec fn reads_as(v: Scalar, x: String) -> bool {
        v == Scalar::Str(x@)
    }

    fn from_value(v: &Value) -> (r: Option<String>) {
        match v.as_string() {
            Some(s) => Some(String::from_str(s)),
            None => None,
        }
    }
}

impl FromValue for i32 {
    open spec fn kind() -> Kind {
        Kind::Integer
    }

    open spec fn reads_as(v: Scalar, x: i32) -> bool {
        v == Scalar::Int(x)
    }

    fn from_value(v: &Value) -> (r: Option<i32>) {
        v.as_i32()
    }
}

impl FromValue for bool {
    open spec fn kind() -> Kind {
        Kind::Boolean
    }

    open spec fn reads_as(v: Scalar, x: bool) -> bool {
        v == Scalar::Bool(x)
    }

    fn from_value(v: &Value) -> (r: Option<bool>) {
        v.as_bool()
    }
}

impl FromValue for char {
    open spec fn kind() -> Kind {
        Kind::Char
    }

    open spec fn reads_as(v: Scalar, x: char) -> bool {
        v == Scalar::Chr(x)
    }

    fn from_value(v: &Value) -> (r: Option<char>) {
        v.as_char()
    }
}

/// A record built by hand from a table, one named lookup per field.
pub trait FromTable: Sized {
    /// The record can be built from a table holding `t`.
    spec fn accepts(t: TableModel) -> bool;

    /// `x` is the record built from a table holding `t`.
    spec fn builds(t: TableModel, x: Self) -> bool;

    fn from_table(table: &Table) -> (r: Result<Self, FieldError>)
        ensures
            (r is Ok) == Self::accepts(table@),
            r is Ok ==> Self::builds(table@, r->Ok_0),
    ;
}

impl Table {
    /// The first field named `key`, read as a `T`.
    pub fn field<T: FromValue>(&self, key: &str) -> (r: Result<T, FieldError>)
        ensures
            lookup(self@.fields, key@) is None <==> (r is Err && r->Err_0@ == FieldFault::Missing(
                key@,
            )),
            r is Err && lookup(self@.fields, key@) is Some ==> r->Err_0@ == FieldFault::WrongKind(
                key@,
            ),
            match lookup(self@.fields, key@) {
                Some(v) => (r is Ok) == (kind_of(v) == T::kind()) && (r is Ok ==> T::reads_as(
                    v,
                    r->Ok_0,
                )),
                None => true,
            },
    {
        match self.get(key) {
            None => Err(FieldError::Missing(String::from_str(key))),
            Some(v) => match T::from_value(v) {
                Some(x) => Ok(x),
                None => Err(FieldError::WrongKind(String::from_str(key))),
            },
        }
    }
}

/// The tables of one configuration file, read once and never changed.
pub struct ParseConfig {
    table_l: Vec<Table>,
    file_path: String,
}

pub ghost struct ConfigModel {
    pub tables: Seq<TableModel>,
    pub path: Seq<char>,
}

impl View for ParseConfig {
    type V = ConfigModel;

    closed spec fn view(&self) -> ConfigModel {
        ConfigModel { tables: tables_view(self.table_l@), path: self.file_path@ }
    }
}

impl ParseConfig {
    /// Parses the lines of the file at `file_path`.
    pub fn from_lines(file_path: String, lines: &Vec<String>, policy: CharPolicy) -> (r: Self)
        ensures
            r@.tables == spec_parse(lines_view(lines@), policy),
            r@.path == file_path@,
    {
        let table_l = parse_lines(lines, policy);
        let r = ParseConfig { table_l, file_path };
        r
    }

    /// The path the tables were read from.
    pub fn file_path(&self) -> (r: &str)
        ensures
            r@ == self@.path,
    {
        self.file_path.as_str()
    }

    /// All tables, in header order.
    pub fn tables(&self) -> (r: &Vec<Table>)
        ensures
            tables_view(r@) == self@.tables,
    {
        &self.table_l
    }

    /// The first table named `name`.
    pub fn find_table(&self, name: &str) -> (r: Option<&Table>)
        ensures
            match r {
                Some(t) => first_table_named(self@.tables, name@) == Some(t@),
                None => first_table_named(self@.tables, name@) is None,
            },
    {
        let n = self.table_l.len();
        let ghost tv = self@.tables;
        assert(tv.subrange(0, n as int) =~= tv);
        let mut i: usize = 0;
        while i < n
            invariant
                n == self.table_l@.len(),
                tv == self@.tables,
                tv == tables_view(self.table_l@),
                i <= n,
                first_table_named(tv, name@) == first_table_named(
                    tv.subrange(i as int, n as int),
                    name@,
                ),
            decreases n - i,
        {
            let t = &self.table_l[i];
            if str_eq(t.name.as_str(), name) {
                return Some(t);
            }
            assert(tv.subrange(i as int, n as int).drop_first() =~= tv.subrange(i + 1, n as int));
            i = i + 1;
        }
        None
    }

    /// The first table named `name` as a record, or nothing when there is
    /// no such table or the record cannot be built from it.
    pub fn table<T: FromTable>(&self, name: &str) -> (r: Option<T>)
        ensures
            match first_table_named(self@.tables, name@) {
                None => r is None,
                Some(t) => (r is Some) == T::accepts(t) && (r is Some ==> T::builds(t, r->0)),
            },
    {
        match self.find_table(name) {
            None => None,
            Some(t) => match T::from_table(t) {
                Ok(x) => Some(x),
                Err(_) => None,
            },
        }
    }

    /// The first table named `name` as a record, with the reason when it
    /// cannot be had.
    pub fn table_strict<T: FromTable>(&self, name: &str) -> (r: Result<T, TableError>)
        ensures
            first_table_named(self@.tables, name@) is None <==> (r is Err && r->Err_0@
                == TableFault::NoTable(name@)),
            match first_table_named(self@.tables, name@) {
                None => true,
                Some(t) => (r is Ok) == T::accepts(t) && (r is Ok ==> T::builds(t, r->Ok_0)) && (
                r is Err ==> r->Err_0 is Field),
            },
    {
        match self.find_table(name) {
            None => Err(TableError::NoTable(String::from_str(name))),
            Some(t) => match T::from_table(t) {
                Ok(x) => Ok(x),
                Err(e) => Err(TableError::Field(e)),
            },
        }
    }

    /// The values of the record `shape` taken from the first table named
    /// `name`, or nothing when there is no such table or a field is absent
    /// or of another kind.
    pub fn record(&self, name: &str, shape: &[(&str, Kind)]) -> (r: Option<Vec<Value>>)
        ensures
            match first_table_named(self@.tables, name@) {
                None => r is None,
                Some(t) => match spec_materialize(t.fields, shape_view(shape@)) {
                    Ok(vs) => r is Some && values_view(r->0@) == vs,
                    Err(_) => r is None,
                },
            },
    {
        match self.find_table(name) {
            None => None,
            Some(t) => match t.materialize(shape) {
                Ok(vs) => Some(vs),
                Err(_) => None,
            },
        }
    }

    /// The values of the record `shape` taken from the first table named
    /// `name`, with the reason when they cannot be had.
    pub fn record_strict(&self, name: &str, shape: &[(&str, Kind)]) -> (r: Result<
        Vec<Value>,
        TableError,
    >)
        ensures
            match first_table_named(self@.tables, name@) {
                None => r is Err && r->Err_0@ == TableFault::NoTable(name@),
                Some(t) => match spec_materialize(t.fields, shape_view(shape@)) {
                    Ok(vs) => r is Ok && values_view(r->Ok_0@) == vs,
                    Err(e) => r is Err && r->Err_0@ == TableFault::Field(e),
                },
            },
    {
        match self.find_table(name) {
            None => Err(TableError::NoTable(String::from_str(name))),
            Some(t) => match t.materialize(shape) {
                Ok(vs) => Ok(vs),
                Err(e) => Err(TableError::Field(e)),
            },
        }
    }
}

} // verus!
