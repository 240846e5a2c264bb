//! Columns, rows and tables.
use vstd::prelude::*;
use vstd::string::*;
use crate::value::{DataType, Value, is_default_of};

verus! {

/// A structural option of a column; kept, not enforced.
#[derive(Debug, Clone)]
pub enum ColumnOption {
    Null,
    NotNull,
    Unique,
    PrimaryKey,
    Default(Value),
}

/// A column definition.
#[derive(Debug, Clone)]
pub struct Column {
    pub name: String,
    pub data_type: DataType,
    pub options: Vec<ColumnOption>,
    pub primary_key: bool,
}

/// A row: one value per column of its table.
#[derive(Debug, Clone)]
pub struct Row {
    pub data: Vec<Value>,
}

/// A named table: its columns, its rows in insertion order, and whether it is
/// an anonymous temporary.
#[derive(Debug, Clone)]
pub struct Table {
    pub name: String,
    pub columns: Vec<Column>,
    pub raw_data: Vec<Row>,
    pub temporary: bool,
}

/// The rows of a table as sequences of values.
pub open spec fn rows_of(rows: Seq<Row>) -> Seq<Seq<Value>> {
    rows.map_values(|r: Row| r.data@)
}

impl Table {
    pub open spec fn arity(&self) -> nat {
        self.columns@.len()
    }

    /// Every row has one value per column.
    pub open spec fn wf(&self) -> bool {
        forall|i: int| 0 <= i < self.raw_data@.len() ==> #[trigger] self.raw_data@[i].data@.len()
            == self.columns@.len()
    }

    pub open spec fn rows(&self) -> Seq<Seq<Value>> {
        rows_of(self.raw_data@)
    }

    /// A fresh temporary table, named after its handle.
    pub fn new_temp(index: usize) -> (t: Table)
        ensures
            t.name@ == temp_name_of(index),
            t.temporary,
            t.columns@.len() == 0,
            t.raw_data@.len() == 0,
            t.wf(),
    {
        Table { name: temp_name(index), columns: Vec::new(), raw_data: Vec::new(), temporary: true }
    }

    pub fn is_empty(&self) -> (r: bool)
        ensures
            r == (self.raw_data@.len() == 0),
    {
        self.raw_data.len() == 0
    }

    /// A row of the table's arity whose values are the defaults of the column types.
    pub fn sentinel_row(&self) -> (r: Row)
        ensures
            r.data@.len() == self.columns@.len(),
            forall|i: int|
                0 <= i < r.data@.len() ==> is_default_of(
                    #[trigger] r.data@[i],
                    self.columns@[i].data_type,
                ),
    {
        let mut data: Vec<Value> = Vec::new();
        let mut i: usize = 0;
        while i < self.columns.len()
            invariant
                i <= self.columns@.len(),
                data@.len() == i,
                forall|k: int|
                    0 <= k < i ==> is_default_of(#[trigger] data@[k], self.columns@[k].data_type),
            decreases self.columns@.len() - i,
        {
            data.push(Value::default_for(self.columns[i].data_type));
            i = i + 1;
        }
        Row { data }
    }

    /// Appends a column; each existing row gets `Null` in it.
    pub fn add_column(&mut self, column: Column)
        requires
            old(self).wf(),
        ensures
            final(self).wf(),
            final(self).columns@ == old(self).columns@.push(column),
            final(self).name == old(self).name,
            final(self).temporary == old(self).temporary,
            final(self).rows() == rows_of(old(self).raw_data@).map_values(
                |r: Seq<Value>| r.push(Value::Null),
            ),
    {
        let ghost old_rows = self.raw_data@;
        let mut rows: Vec<Row> = Vec::new();
        let mut i: usize = 0;
        while i < self.raw_data.len()
            invariant
                i <= self.raw_data@.len(),
                self.raw_data@ == old_rows,
                rows@.len() == i,
                forall|k: int|
                    0 <= k < i ==> (#[trigger] rows@[k]).data@ == old_rows[k].data@.push(
                        Value::Null,
                    ),
            decreases self.raw_data@.len() - i,
        {
            let mut data = copy_values(&self.raw_data[i].data);
            data.push(Value::Null);
            rows.push(Row { data });
            i = i + 1;
        }
        self.raw_data = rows;
        self.columns.push(column);
        assert(self.rows() =~= rows_of(old_rows).map_values(|r: Seq<Value>| r.push(Value::Null)));
    }
}

impl ColumnOption {
    pub fn duplicate(&self) -> (r: ColumnOption)
        ensures
            r == *self,
    {
        match self {
            ColumnOption::Null => ColumnOption::Null,
            ColumnOption::NotNull => ColumnOption::NotNull,
            ColumnOption::Unique => ColumnOption::Unique,
            ColumnOption::PrimaryKey => ColumnOption::PrimaryKey,
            ColumnOption::Default(v) => ColumnOption::Default(v.duplicate()),
        }
    }
}

/// Two column definitions that agree in every part.
pub open spec fn same_column(a: Column, b: Column) -> bool {
    a.name@ == b.name@ && a.data_type == b.data_type && a.options@ == b.options@ && a.primary_key
        == b.primary_key
}

/// Two lists of column definitions that agree column by column.
pub open spec fn same_columns(a: Seq<Column>, b: Seq<Column>) -> bool {
    a.len() == b.len() && forall|i: int| 0 <= i < a.len() ==> same_column(#[trigger] a[i], b[i])
}

impl Column {
    pub fn new(name: String, data_type: DataType, options: Vec<ColumnOption>, primary_key: bool) -> (c: Column)
        ensures
            c.name == name,
            c.data_type == data_type,
            c.options == options,
            c.primary_key == primary_key,
    {
        Column { name, data_type, options, primary_key }
    }

    /// A copy of this column definition.
    pub fn duplicate(&self) -> (r: Column)
        ensures
            same_column(r, *self),
    {
        let mut options: Vec<ColumnOption> = Vec::new();
        let mut i: usize = 0;
        while i < self.options.len()
            invariant
                i <= self.options@.len(),
                options@ == self.options@.subrange(0, i as int),
            decreases self.options@.len() - i,
        {
            options.push(self.options[i].duplicate());
            i = i + 1;
            assert(options@ == self.options@.subrange(0, i as int));
        }
        assert(options@ == self.options@);
        Column { name: self.name.clone(), data_type: self.data_type, options, primary_key: self.primary_key }
    }

    pub fn add_column_option(&mut self, option: ColumnOption)
        ensures
            final(self).options@ == old(self).options@.push(option),
            final(self).name == old(self).name,
            final(self).data_type == old(self).data_type,
            final(self).primary_key == old(self).primary_key,
    {
        self.options.push(option);
    }
}

/// A copy of a sequence of values.
pub fn copy_values(v: &Vec<Value>) -> (r: Vec<Value>)
    ensures
        r@ == v@,
{
    let mut r: Vec<Value> = Vec::new();
    let mut i: usize = 0;
    while i < v.len()
        invariant
            i <= v@.len(),
            r@ == v@.subrange(0, i as int),
        decreases v@.len() - i,
    {
        r.push(v[i].duplicate());
        i = i + 1;
        assert(r@ == v@.subrange(0, i as int));
    }
    assert(r@ == v@);
    r
}

/// A copy of a row.
pub fn copy_row(r: &Row) -> (c: Row)
    ensures
        c.data@ == r.data@,
{
    Row { data: copy_values(&r.data) }
}

/// The name a column gets when nothing names it.
pub open spec fn placeholder_column_name() -> Seq<char> {
    seq!['?', 'c', 'o', 'l', 'u', 'm', 'n', '?']
}

pub(crate) fn placeholder_name() -> (r: String)
    ensures
        r@ == placeholder_column_name(),
{
    proof {
        reveal_strlit("?column?");
    }
    let r = "?column?".to_owned();
    assert("?column?"@ == placeholder_column_name());
    r
}

/// The decimal digit `d`.
pub open spec fn digit_char(d: nat) -> char {
    if d == 0 { '0' } else if d == 1 { '1' } else if d == 2 { '2' } else if d == 3 { '3' } else if d
        == 4 { '4' } else if d == 5 { '5' } else if d == 6 { '6' } else if d == 7 { '7' } else if d
        == 8 { '8' } else { '9' }
}

/// `n` spelt in decimal, without leading zeros.
pub open spec fn decimal(n: nat) -> Seq<char>
    decreases n,
{
    if n < 10 {
        seq![digit_char(n)]
    } else {
        decimal(n / 10).push(digit_char(n % 10))
    }
}

/// The name of the temporary table with handle `k`: `temp_` and the handle in decimal.
pub open spec fn temp_name_of(k: usize) -> Seq<char> {
    seq!['t', 'e', 'm', 'p', '_'] + decimal(k as nat)
}

fn digit_str(d: usize) -> (r: &'static str)
    requires
        d < 10,
    ensures
        r@ == seq![digit_char(d as nat)],
{
    match d {
        0 => {
            proof {
                reveal_strlit("0");
            }
            "0"
        },
        1 => {
            proof {
                reveal_strlit("1");
            }
            "1"
        },
        2 => {
            proof {
                reveal_strlit("2");
            }
            "2"
        },
        3 => {
            proof {
                reveal_strlit("3");
            }
            "3"
        },
        4 => {
            proof {
                reveal_strlit("4");
            }
            "4"
        },
        5 => {
            proof {
                reveal_strlit("5");
            }
            "5"
        },
        6 => {
            proof {
                reveal_strlit("6");
            }
            "6"
        },
        7 => {
            proof {
                reveal_strlit("7");
            }
            "7"
        },
        8 => {
            proof {
                reveal_strlit("8");
            }
            "8"
        },
        _ => {
            proof {
                reveal_strlit("9");
            }
            "9"
        },
    }
}

fn append_decimal(s: &mut String, n: usize)
    ensures
        final(s)@ == old(s)@ + decimal(n as nat),
    decreases n,
{
    if n >= 10 {
        append_decimal(s, n / 10);
    }
    s.append(digit_str(n % 10));
    assert(final(s)@ =~= old(s)@ + decimal(n as nat));
}

fn temp_name(index: usize) -> (r: String)
    ensures
        r@ == temp_name_of(index),
{
    proof {
        reveal_strlit("temp_");
    }
    let mut s = String::from_str("temp_");
    assert("temp_"@ == seq!['t', 'e', 'm', 'p', '_']);
    append_decimal(&mut s, index);
    s
}

} // verus!
