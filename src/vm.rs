//! The register machine that runs lowered statements.
use vstd::prelude::*;
use crate::table::{Column, ColumnOption, Row, Table, copy_row, copy_values, same_column, same_columns, placeholder_column_name, placeholder_name, temp_name_of};
use crate::value::{Value, data_type_of};
use crate::expr::{Expr, ExprError, column_index, column_position, eval_in};
use crate::ic::{Instruction, InstructionKind, IntermediateCode, TableRef};
use crate::catalog::{Database, Schema};
use crate::store::{RegisterFile, TableStore, stored_registers, stored_tables};
use crate::ops::{is_sentinel, filter_outcome, filter_table, limit_outcome, limit_table, order_outcome, order_table, project_outcome, project_table};

verus! {

/// An index that can be used to access a specific register.
#[derive(Default, Debug, Copy, Clone, PartialEq, Eq, Hash, Structural)]
pub struct RegisterIndex(pub usize);

impl RegisterIndex {
    /// The next index in the sequence.
    pub fn next_index(&self) -> (r: RegisterIndex)
        requires
            self.0 < usize::MAX,
        ensures
            r.0 == self.0 + 1,
    {
        RegisterIndex(self.0 + 1)
    }
}

/// An index that can be used as a reference to a table.
#[derive(Default, Debug, Copy, Clone, PartialEq, Eq, Hash, Structural)]
pub struct TableIndex(pub usize);

impl TableIndex {
    /// The next index in the sequence.
    pub fn next_index(&self) -> (r: TableIndex)
        requires
            self.0 < usize::MAX,
        ensures
            r.0 == self.0 + 1,
    {
        TableIndex(self.0 + 1)
    }
}

/// An abstract definition of a create table statement.
#[derive(Debug, Clone)]
pub struct TableDef {
    pub name: String,
    pub columns: Vec<Column>,
}

/// An abstract definition of an insert statement.
#[derive(Debug, Clone)]
pub struct InsertDef {
    /// The table to insert into.
    pub table: TableIndex,
    /// The columns to insert into; empty means all columns.
    pub columns: Vec<(usize, Column)>,
    /// The values to insert.
    pub rows: Vec<Vec<Value>>,
}

impl InsertDef {
    pub fn new(table: TableIndex) -> (r: InsertDef)
        ensures
            r.table == table,
            r.columns@.len() == 0,
            r.rows@.len() == 0,
    {
        InsertDef { table, columns: Vec::new(), rows: Vec::new() }
    }
}

/// A row of values to insert.
#[derive(Debug, Clone, Copy)]
pub struct InsertRow {
    /// The register of the insert definition which this belongs to.
    pub def: RegisterIndex,
    /// Which row of the insert definition this refers to.
    pub row_index: usize,
}

/// A register of the machine.
#[derive(Debug)]
pub enum Register {
    /// A reference to a table.
    TableRef(TableIndex),
    /// A grouped table.
    GroupedTable { grouped_col: Column, other_cols: Vec<Column>, data: Vec<(Value, Vec<Row>)> },
    /// A table definition.
    TableDef(TableDef),
    /// A column definition.
    Column(Column),
    /// An insert statement.
    InsertDef(InsertDef),
    /// A row to insert.
    InsertRow(InsertRow),
    /// A value.
    Value(Value),
    /// An expression.
    Expr(Expr),
}


/// Executor of lowered SQL statements.
pub struct VirtualMachine {
    pub database: Database,
    pub registers: RegisterFile,
    pub tables: TableStore,
    pub last_table_index: TableIndex,
}

impl VirtualMachine {
    pub open spec fn tables_map(&self) -> Map<usize, Table> {
        stored_tables(self.tables)
    }

    pub open spec fn registers_map(&self) -> Map<usize, Register> {
        stored_registers(self.registers)
    }

    /// Every row of every table has one value per column of its table.
    pub open spec fn tables_wf(&self) -> bool {
        forall|k: usize| #[trigger] self.tables_map().contains_key(k) ==> self.tables_map()[k].wf()
    }

    /// Every handle that a schema holds names a stored, named table.
    pub open spec fn catalog_closed(&self) -> bool {
        forall|i: int, j: int|
            0 <= i < self.database.schemas@.len() && 0 <= j
                < self.database.schemas@[i].tables@.len() ==> {
                let k = (#[trigger] self.database.schemas@[i].tables@[j]).0;
                self.tables_map().contains_key(k) && !self.tables_map()[k].temporary
            }
    }

    /// No stored handle is above the last one handed out.
    pub open spec fn handles_fresh(&self) -> bool {
        forall|k: usize| #[trigger] self.tables_map().contains_key(k) ==> k <= self.last_table_index.0
    }

    pub open spec fn wf(&self) -> bool {
        &&& self.database.wf()
        &&& self.tables_wf()
        &&& self.catalog_closed()
        &&& self.handles_fresh()
    }

    pub fn new(name: String) -> (vm: VirtualMachine)
        ensures
            vm.wf(),
            vm.database.name@ == name@,
            vm.database.schemas@.len() == 1,
            vm.database.schemas@[0].name@ == name@,
            vm.database.schemas@[0].tables@.len() == 0,
            vm.last_table_index.0 == 0,
            forall|k: usize| !vm.tables_map().contains_key(k),
            forall|k: usize| !vm.registers_map().contains_key(k),
    {
        VirtualMachine {
            database: Database::new(name),
            registers: RegisterFile::new(),
            tables: TableStore::new(),
            last_table_index: TableIndex(0),
        }
    }

    /// Stores a register at the given index.
    pub fn insert_register(&mut self, index: RegisterIndex, reg: Register)
        ensures
            final(self).registers_map() == old(self).registers_map().insert(index.0, reg),
            final(self).database == old(self).database,
            final(self).tables == old(self).tables,
            final(self).last_table_index == old(self).last_table_index,
    {
        self.registers.insert(index.0, reg);
    }

    /// The register at the given index, if any.
    pub fn get_register(&self, index: &RegisterIndex) -> (r: Option<&Register>)
        ensures
            match r {
                Some(v) => self.registers_map().contains_key(index.0) && *v == self.registers_map()[index.0],
                None => !self.registers_map().contains_key(index.0),
            },
    {
        self.registers.get(index.0)
    }

    /// Creates a new temporary table and returns its handle.
    pub fn new_temp_table(&mut self) -> (t: TableIndex)
        requires
            old(self).wf(),
            old(self).last_table_index.0 < usize::MAX,
        ensures
            final(self).wf(),
            t.0 == old(self).last_table_index.0 + 1,
            final(self).last_table_index == t,
            !old(self).tables_map().contains_key(t.0),
            final(self).tables_map().contains_key(t.0),
            final(self).tables_map()[t.0].temporary,
            final(self).tables_map()[t.0].name@ == temp_name_of(t.0),
            final(self).tables_map() == old(self).tables_map().insert(t.0, final(self).tables_map()[t.0]),
            final(self).tables_map()[t.0].columns@.len() == 0,
            final(self).tables_map()[t.0].raw_data@.len() == 0,
            forall|k: usize| k != t.0 ==> #[trigger] final(self).tables_map().contains_key(k)
                == old(self).tables_map().contains_key(k) && (old(self).tables_map().contains_key(k) ==> final(self).tables_map()[k] == old(self).tables_map()[k]),
            final(self).database == old(self).database,
            final(self).registers == old(self).registers,
    {
        let index = self.last_table_index.next_index();
        proof {
            assert(!self.tables_map().contains_key(index.0));
        }
        let t = Table::new_temp(index.0);
        self.tables.insert(index.0, t);
        self.last_table_index = index;
        assert(self.tables_map() =~= old(self).tables_map().insert(index.0, self.tables_map()[index.0]));
        assert(self.catalog_closed()) by {
            assert forall|i: int, j: int|
                0 <= i < self.database.schemas@.len() && 0 <= j
                    < self.database.schemas@[i].tables@.len() implies {
                    let k = (#[trigger] self.database.schemas@[i].tables@[j]).0;
                    self.tables_map().contains_key(k) && !self.tables_map()[k].temporary
                } by {
                let k = self.database.schemas@[i].tables@[j].0;
                assert(old(self).tables_map().contains_key(k));
            }
        }
        index
    }

    /// The table behind a handle, if it is stored.
    pub fn table(&self, index: &TableIndex) -> (r: Option<&Table>)
        ensures
            match r {
                Some(t) => self.tables_map().contains_key(index.0) && *t == self.tables_map()[index.0],
                None => !self.tables_map().contains_key(index.0),
            },
    {
        self.tables.get(index.0)
    }

    /// Drops a table from the machine; schemas that hold its handle are left as they are.
    pub fn drop_table(&mut self, index: &TableIndex)
        ensures
            final(self).tables_map() == old(self).tables_map().remove(index.0),
            final(self).database == old(self).database,
            final(self).registers == old(self).registers,
            final(self).last_table_index == old(self).last_table_index,
            old(self).tables_wf() ==> final(self).tables_wf(),
    {
        self.tables.remove(index.0);
    }
}


/// The stored tables differ at most in the one under `k`, which stays stored.
pub open spec fn only_table_changed(b: Map<usize, Table>, a: Map<usize, Table>, k: usize) -> bool {
    if b.contains_key(k) {
        a.contains_key(k) && a == b.insert(k, a[k])
    } else {
        a == b
    }
}

/// Nothing but the registers changed.
pub open spec fn store_unchanged(b: VirtualMachine, a: VirtualMachine) -> bool {
    a.tables_map() == b.tables_map() && a.database == b.database && a.last_table_index
        == b.last_table_index
}

/// Nothing but the stored tables changed.
pub open spec fn only_tables_changed(b: VirtualMachine, a: VirtualMachine) -> bool {
    a.registers_map() == b.registers_map() && a.database == b.database && a.last_table_index
        == b.last_table_index
}

/// What a table operation on the table of register `index` does to the store:
/// it fails without change unless the register holds the handle of a stored
/// table, and then changes at most that table, as `outcome` says.
pub open spec fn on_table(
    b: VirtualMachine,
    a: VirtualMachine,
    index: RegisterIndex,
    op: Operation,
    r: Result<(), RuntimeError>,
    outcome: spec_fn(Table, Table) -> bool,
) -> bool {
    &&& only_tables_changed(b, a)
    &&& match b.registers_map().get(index.0) {
        None => r == Err::<(), RuntimeError>(RuntimeError::EmptyRegister(index)) && a.tables_map()
            == b.tables_map(),
        Some(Register::TableRef(t)) => if b.tables_map().contains_key(t.0) {
            only_table_changed(b.tables_map(), a.tables_map(), t.0) && outcome(
                b.tables_map()[t.0],
                a.tables_map()[t.0],
            )
        } else {
            r == Err::<(), RuntimeError>(RuntimeError::DanglingTable(t)) && a.tables_map()
                == b.tables_map()
        },
        Some(other) => r == Err::<(), RuntimeError>(
            RuntimeError::RegisterKindMismatch(op, kind_of(other)),
        ) && a.tables_map() == b.tables_map(),
    }
}


/// `p` is the position of the schema that `name` resolves to: the named one,
/// or the default schema for `None`.
pub open spec fn schema_named(db: Database, name: Option<String>, p: int) -> bool {
    0 <= p < db.schemas@.len() && match name {
        Some(n) => db.schemas@[p].name@ == n@,
        None => p == 0,
    }
}

/// The schema at `p` holds a stored table named `name`.
pub open spec fn schema_has_table(b: VirtualMachine, p: int, name: Seq<char>) -> bool {
    exists|j: int| 0 <= j < b.database.schemas@[p].tables@.len() && b.tables_map()[(#[trigger] b.database.schemas@[p].tables@[j]).0].name@ == name
}

/// The handle at position `j` of the schema at `p` names the first table
/// called `name` in that schema.
pub open spec fn first_named_at(b: VirtualMachine, p: int, name: Seq<char>, j: int) -> bool {
    &&& 0 <= j < b.database.schemas@[p].tables@.len()
    &&& b.tables_map()[b.database.schemas@[p].tables@[j].0].name@ == name
    &&& forall|x: int| 0 <= x < j ==> b.tables_map()[(#[trigger] b.database.schemas@[p].tables@[x]).0].name@ != name
}

/// What `Source` does: the register gets the first table of that name in the
/// resolved schema.
pub open spec fn source_outcome(b: VirtualMachine, a: VirtualMachine, index: RegisterIndex, name: TableRef, r: Result<(), RuntimeError>) -> bool {
    match name.schema_name {
        Some(n) if !b.database.has_schema(n@) => r == Err::<(), RuntimeError>(RuntimeError::SchemaNotFound(n))
            && a.registers_map() == b.registers_map(),
        _ => forall|p: int| #[trigger] schema_named(b.database, name.schema_name, p) ==> if schema_has_table(b, p, name.table_name@) {
            r is Ok && exists|j: int| #[trigger] first_named_at(b, p, name.table_name@, j)
                && sets_register(b, a, index, Register::TableRef(b.database.schemas@[p].tables@[j]))
        } else {
            r == Err::<(), RuntimeError>(RuntimeError::TableNotFound(name)) && a.registers_map() == b.registers_map()
        },
    }
}

/// What `AddColumnOption` does to the registers.
pub open spec fn column_option_outcome(b: VirtualMachine, a: VirtualMachine, index: RegisterIndex, option: ColumnOption, r: Result<(), RuntimeError>) -> bool {
    match b.registers_map().get(index.0) {
        Some(Register::Column(c)) => r is Ok && sets_register(b, a, index, a.registers_map()[index.0])
            && match a.registers_map()[index.0] {
            Register::Column(c2) => c2.name == c.name && c2.data_type == c.data_type && c2.primary_key
                == c.primary_key && c2.options@ == c.options@.push(option),
            _ => false,
        },
        _ => r is Err && a.registers_map() == b.registers_map(),
    }
}

/// What `RowDef` does to the registers: the insert gets one more, empty row,
/// and `row_index` refers to it.
pub open spec fn row_def_outcome(b: VirtualMachine, a: VirtualMachine, insert_index: RegisterIndex, row_index: RegisterIndex, r: Result<(), RuntimeError>) -> bool {
    match b.registers_map().get(insert_index.0) {
        Some(Register::InsertDef(d)) => if d.rows@.len() == usize::MAX {
            r == Err::<(), RuntimeError>(RuntimeError::TableTooLarge(d.table)) && a.registers_map() == b.registers_map()
        } else {
            r is Ok && exists|d2: InsertDef| {
            &&& #[trigger] a.registers_map() == b.registers_map().insert(insert_index.0, Register::InsertDef(d2)).insert(
                row_index.0,
                Register::InsertRow(InsertRow { def: insert_index, row_index: d.rows@.len() as usize }),
            )
            &&& d2.table == d.table && d2.columns == d.columns
            &&& d2.rows@.len() == d.rows@.len() + 1 && d2.rows@.take(d.rows@.len() as int) == d.rows@
            &&& d2.rows@.last()@.len() == 0
            }
        },
        _ => r is Err && a.registers_map() == b.registers_map(),
    }
}

/// What `ColumnInsertDef` does: the insert gets the position and definition
/// of the first column of its table named `col_name`.
pub open spec fn column_insert_outcome(b: VirtualMachine, a: VirtualMachine, insert_index: RegisterIndex, col_name: String, r: Result<(), RuntimeError>) -> bool {
    match b.registers_map().get(insert_index.0) {
        Some(Register::InsertDef(d)) if b.tables_map().contains_key(d.table.0) => {
            let cols = b.tables_map()[d.table.0].columns@;
            match column_position(cols, col_name@) {
                Some(i) => r is Ok && exists|d2: InsertDef| {
                    &&& #[trigger] a.registers_map() == b.registers_map().insert(insert_index.0, Register::InsertDef(d2))
                    &&& d2.table == d.table && d2.rows == d.rows
                    &&& d2.columns@.len() == d.columns@.len() + 1
                    &&& d2.columns@.take(d.columns@.len() as int) == d.columns@
                    &&& d2.columns@.last().0 == i && same_column(d2.columns@.last().1, cols[i as int])
                },
                None => r == Err::<(), RuntimeError>(RuntimeError::ColumnNotFound(col_name)) && a.registers_map() == b.registers_map(),
            }
        },
        _ => r is Err && a.registers_map() == b.registers_map(),
    }
}

/// Evaluating `e` on the sentinel row `s` of `t` gives `v`.
pub open spec fn probe_gives(t: Table, e: Expr, s: Seq<Value>, v: Value) -> bool {
    is_sentinel(s, t.columns@) && eval_in(e, t, s) == Ok::<Value, ExprError>(v)
}

/// The insert in register `ir.def` became `d2`: `d` with `v` appended to row `ir.row_index`.
pub open spec fn value_appended(b: VirtualMachine, a: VirtualMachine, ir: InsertRow, d: InsertDef, v: Value, d2: InsertDef) -> bool {
    &&& a.registers_map() == b.registers_map().insert(ir.def.0, Register::InsertDef(d2))
    &&& d2.table == d.table && d2.columns == d.columns && d2.rows@.len() == d.rows@.len()
    &&& forall|i: int| 0 <= i < d.rows@.len() ==> (#[trigger] d2.rows@[i])@ == if i == ir.row_index {
        d.rows@[i]@.push(v)
    } else {
        d.rows@[i]@
    }
}

/// What `AddValue` does: the value of `e` on a sentinel row of the insert's
/// table is appended to the row that register `row_reg` refers to.
pub open spec fn add_value_outcome(b: VirtualMachine, a: VirtualMachine, row_reg: RegisterIndex, e: Expr, r: Result<(), RuntimeError>) -> bool {
    match b.registers_map().get(row_reg.0) {
        Some(Register::InsertRow(ir)) => match b.registers_map().get(ir.def.0) {
            Some(Register::InsertDef(d)) => if ir.row_index < d.rows@.len() && b.tables_map().contains_key(d.table.0) {
                let t = b.tables_map()[d.table.0];
                match r {
                    Ok(_) => exists|s: Seq<Value>, v: Value, d2: InsertDef|
                        #[trigger] probe_gives(t, e, s, v) && #[trigger] value_appended(b, a, ir, d, v, d2),
                    Err(x) => a.registers_map() == b.registers_map() && x is ExprError && exists|s: Seq<Value>|
                        #[trigger] is_sentinel(s, t.columns@) && eval_in(e, t, s) == Err::<Value, ExprError>(x->ExprError_0),
                }
            } else {
                r is Err && a.registers_map() == b.registers_map()
            },
            _ => r is Err && a.registers_map() == b.registers_map(),
        },
        _ => r is Err && a.registers_map() == b.registers_map(),
    }
}

/// What `NewTable` does with the table `t` (see `execute_instr`).
pub open spec fn new_table_outcome(b: VirtualMachine, a: VirtualMachine, t: TableIndex, name: TableRef, exists_ok: bool, r: Result<(), RuntimeError>) -> bool {
    let bt = b.tables_map();
    let at = a.tables_map();
    let unchanged = at == bt && a.database == b.database;
    match name.schema_name {
        Some(n) if !b.database.has_schema(n@) => r == Err::<(), RuntimeError>(RuntimeError::SchemaNotFound(n)) && unchanged,
        _ => forall|p: int| #[trigger] schema_named(b.database, name.schema_name, p) ==> if schema_has_table(b, p, name.table_name@) {
            unchanged && if exists_ok {
                r is Ok
            } else {
                r == Err::<(), RuntimeError>(RuntimeError::TableExists(name))
            }
        } else if !bt.contains_key(t.0) {
            r == Err::<(), RuntimeError>(RuntimeError::DanglingTable(t)) && unchanged
        } else {
            &&& r is Ok
            &&& only_table_changed(bt, at, t.0)
            &&& at[t.0].name@ == name.table_name@ && !at[t.0].temporary
            &&& at[t.0].columns == bt[t.0].columns && at[t.0].raw_data == bt[t.0].raw_data
            &&& a.database.name == b.database.name
            &&& a.database.schemas@.len() == b.database.schemas@.len()
            &&& a.database.schemas@[p].name == b.database.schemas@[p].name
            &&& a.database.schemas@[p].tables@ == b.database.schemas@[p].tables@.push(t)
            &&& forall|i: int| 0 <= i < b.database.schemas@.len() && i != p ==> #[trigger] a.database.schemas@[i] == b.database.schemas@[i]
        },
    }
}

/// Schema names are unique, so a name resolves to one position at most.
proof fn lemma_schema_named_unique(db: Database, name: Option<String>, p: int, q: int)
    requires
        db.wf(),
        schema_named(db, name, p),
        schema_named(db, name, q),
    ensures
        p == q,
{
}

/// Replacing a stored table by one of the same kind keeps the machine well formed.
proof fn lemma_replace_table(a: VirtualMachine, b: VirtualMachine, k: usize, t: Table)
    requires
        a.wf(),
        a.tables_map().contains_key(k),
        t.wf(),
        t.temporary ==> a.tables_map()[k].temporary,
        b.tables_map() == a.tables_map().insert(k, t),
        b.database == a.database,
        b.last_table_index == a.last_table_index,
    ensures
        b.wf(),
{
    assert forall|i: int, j: int|
        0 <= i < b.database.schemas@.len() && 0 <= j < b.database.schemas@[i].tables@.len() implies {
        let x = (#[trigger] b.database.schemas@[i].tables@[j]).0;
        b.tables_map().contains_key(x) && !b.tables_map()[x].temporary
    } by {
        let x = b.database.schemas@[i].tables@[j].0;
        assert(a.tables_map().contains_key(x));
    }
}

impl VirtualMachine {
    /// The table handle in register `index`.
    fn table_handle(&self, index: RegisterIndex, op: Operation) -> (r: Result<usize, RuntimeError>)
        ensures
            match self.registers_map().get(index.0) {
                None => r == Err::<usize, RuntimeError>(RuntimeError::EmptyRegister(index)),
                Some(Register::TableRef(t)) => r == Ok::<usize, RuntimeError>(t.0),
                Some(other) => r == Err::<usize, RuntimeError>(
                    RuntimeError::RegisterKindMismatch(op, kind_of(other)),
                ),
            },
    {
        match self.registers.get(index.0) {
            None => Err(RuntimeError::EmptyRegister(index)),
            Some(Register::TableRef(t)) => Ok(t.0),
            Some(other) => Err(RuntimeError::RegisterKindMismatch(op, other.kind())),
        }
    }

    /// Takes the table `k` out of the store.
    fn take_table(&mut self, k: usize) -> (r: Result<Table, RuntimeError>)
        ensures
            final(self).database == old(self).database,
            final(self).registers == old(self).registers,
            final(self).last_table_index == old(self).last_table_index,
            final(self).tables_map() == old(self).tables_map().remove(k),
            match r {
                Ok(t) => old(self).tables_map().contains_key(k) && t == old(self).tables_map()[k],
                Err(e) => !old(self).tables_map().contains_key(k) && e == RuntimeError::DanglingTable(TableIndex(k)),
            },
    {
        match self.tables.remove(k) {
            Some(t) => Ok(t),
            None => Err(RuntimeError::DanglingTable(TableIndex(k))),
        }
    }

    /// Runs a filter on the table of register `index`.
    fn run_filter(&mut self, index: RegisterIndex, expr: &Expr) -> (r: Result<(), RuntimeError>)
        requires
            old(self).wf(),
        ensures
            final(self).wf(),
            on_table(*old(self), *final(self), index, Operation::Filter, r, |x: Table, y: Table| filter_outcome(*expr, x, y, r)),
    {
        let ghost before = *self;
        let k = match self.table_handle(index, Operation::Filter) {
            Ok(k) => k,
            Err(e) => { return Err(e); },
        };
        let mut t = match self.take_table(k) {
            Ok(t) => t,
            Err(e) => {
                assert(self.tables_map() =~= before.tables_map());
                return Err(e);
            },
        };
        let r = filter_table(&mut t, expr);
        self.tables.insert(k, t);
        proof {
            assert(self.tables_map() =~= before.tables_map().insert(k, t));
            lemma_replace_table(before, *self, k, t);
        }
        r
    }

    /// Runs an ordering on the table of register `index`.
    fn run_order(&mut self, index: RegisterIndex, expr: &Expr, ascending: bool) -> (r: Result<(), RuntimeError>)
        requires
            old(self).wf(),
        ensures
            final(self).wf(),
            on_table(*old(self), *final(self), index, Operation::OrderBy, r, |x: Table, y: Table| if x.raw_data@.len() <= isize::MAX {
                order_outcome(*expr, x, y, ascending, r)
            } else {
                y == x && r is Err
            }),
    {
        let ghost before = *self;
        let k = match self.table_handle(index, Operation::OrderBy) {
            Ok(k) => k,
            Err(e) => { return Err(e); },
        };
        let mut t = match self.take_table(k) {
            Ok(t) => t,
            Err(e) => {
                assert(self.tables_map() =~= before.tables_map());
                return Err(e);
            },
        };
        if t.raw_data.len() > isize::MAX as usize {
            self.tables.insert(k, t);
            proof {
                assert(self.tables_map() =~= before.tables_map().insert(k, t));
                lemma_replace_table(before, *self, k, t);
            }
            return Err(RuntimeError::TableTooLarge(TableIndex(k)));
        }
        let r = order_table(&mut t, expr, ascending);
        self.tables.insert(k, t);
        proof {
            assert(self.tables_map() =~= before.tables_map().insert(k, t));
            lemma_replace_table(before, *self, k, t);
        }
        r
    }

    /// Truncates the table of register `index`.
    fn run_limit(&mut self, index: RegisterIndex, limit: u64) -> (r: Result<(), RuntimeError>)
        requires
            old(self).wf(),
        ensures
            final(self).wf(),
            on_table(*old(self), *final(self), index, Operation::Limit, r, |x: Table, y: Table| r is Ok && limit_outcome(limit, x, y)),
    {
        let ghost before = *self;
        let k = match self.table_handle(index, Operation::Limit) {
            Ok(k) => k,
            Err(e) => { return Err(e); },
        };
        let mut t = match self.take_table(k) {
            Ok(t) => t,
            Err(e) => {
                assert(self.tables_map() =~= before.tables_map());
                return Err(e);
            },
        };
        limit_table(&mut t, limit);
        self.tables.insert(k, t);
        proof {
            assert(self.tables_map() =~= before.tables_map().insert(k, t));
            lemma_replace_table(before, *self, k, t);
        }
        Ok(())
    }

    /// Projects from the table of register `input` onto that of `output`.
    fn run_project(
        &mut self,
        input: RegisterIndex,
        output: RegisterIndex,
        expr: &Expr,
        alias: &Option<String>,
    ) -> (r: Result<(), RuntimeError>)
        requires
            old(self).wf(),
        ensures
            final(self).wf(),
            final(self).database == old(self).database,
            final(self).registers == old(self).registers,
            only_tables_changed(*old(self), *final(self)),
            match (old(self).registers_map().get(input.0), old(self).registers_map().get(output.0)) {
                (Some(Register::TableRef(i)), Some(Register::TableRef(o))) => if i == o {
                    r == Err::<(), RuntimeError>(RuntimeError::ProjectOntoInput(i)) && final(self).tables_map() == old(self).tables_map()
                } else if !old(self).tables_map().contains_key(i.0) {
                    r == Err::<(), RuntimeError>(RuntimeError::DanglingTable(i)) && final(self).tables_map() == old(self).tables_map()
                } else if !old(self).tables_map().contains_key(o.0) {
                    r == Err::<(), RuntimeError>(RuntimeError::DanglingTable(o)) && final(self).tables_map() == old(self).tables_map()
                } else {
                    only_table_changed(old(self).tables_map(), final(self).tables_map(), o.0) && project_outcome(old(self).tables_map()[i.0], old(self).tables_map()[o.0], final(self).tables_map()[o.0], *expr, *alias, r)
                },
                _ => r is Err && final(self).tables_map() == old(self).tables_map(),
            },
    {
        let ki = self.table_handle(input, Operation::Project)?;
        let ko = self.table_handle(output, Operation::Project)?;
        if ki == ko {
            return Err(RuntimeError::ProjectOntoInput(TableIndex(ki)));
        }
        if self.tables.get(ki).is_none() {
            return Err(RuntimeError::DanglingTable(TableIndex(ki)));
        }
        let ghost before = *self;
        let mut out = match self.tables.remove(ko) {
            Some(t) => t,
            None => {
                assert(self.tables_map() =~= before.tables_map());
                return Err(RuntimeError::DanglingTable(TableIndex(ko)));
            },
        };
        let alias = match alias {
            Some(a) => Some(a.clone()),
            None => None,
        };
        proof {
            assert(before.tables_map().contains_key(ki));
        }
        let inp = match self.tables.get(ki) {
            Some(t) => t,
            None => {
                // Not reached: `ki` differs from `ko` and names a stored table.
                self.tables.insert(ko, out);
                proof {
                    assert(false);
                }
                return Err(RuntimeError::DanglingTable(TableIndex(ki)));
            },
        };
        let r = project_table(inp, &mut out, expr, alias);
        self.tables.insert(ko, out);
        proof {
            assert(self.tables_map() =~= before.tables_map().insert(ko, out));
            lemma_replace_table(before, *self, ko, out);
        }
        r
    }
}


/// A copy of a table.
pub fn copy_table(t: &Table) -> (c: Table)
    ensures
        c.name@ == t.name@,
        same_columns(c.columns@, t.columns@),
        c.rows() == t.rows(),
        c.temporary == t.temporary,
        t.wf() ==> c.wf(),
{
    let mut columns: Vec<Column> = Vec::new();
    let mut i: usize = 0;
    while i < t.columns.len()
        invariant
            i <= t.columns@.len(),
            same_columns(columns@, t.columns@.take(i as int)),
        decreases t.columns@.len() - i,
    {
        columns.push(t.columns[i].duplicate());
        i = i + 1;
    }
    assert(t.columns@.take(i as int) =~= t.columns@);
    let mut rows: Vec<Row> = Vec::new();
    let mut j: usize = 0;
    while j < t.raw_data.len()
        invariant
            j <= t.raw_data@.len(),
            rows@.len() == j,
            forall|k: int| 0 <= k < j ==> (#[trigger] rows@[k]).data@ == t.raw_data@[k].data@,
        decreases t.raw_data@.len() - j,
    {
        rows.push(copy_row(&t.raw_data[j]));
        j = j + 1;
    }
    let c = Table { name: t.name.clone(), columns, raw_data: rows, temporary: t.temporary };
    assert(c.rows() =~= t.rows());
    c
}

impl VirtualMachine {
    /// Position of the named schema, or of the default schema for `None`.
    fn find_schema(&self, name: &Option<String>) -> (r: Result<usize, RuntimeError>)
        requires
            self.wf(),
        ensures
            match name {
                None => r == Ok::<usize, RuntimeError>(0),
                Some(n) => match r {
                    Ok(i) => i < self.database.schemas@.len() && self.database.schemas@[i as int].name@ == n@,
                    Err(e) => !self.database.has_schema(n@) && e == RuntimeError::SchemaNotFound(*n),
                },
            },
    {
        match name {
            None => Ok(0),
            Some(n) => match self.database.schema_position(n) {
                Some(i) => Ok(i),
                None => Err(RuntimeError::SchemaNotFound(n.clone())),
            },
        }
    }

    /// The handle of the table named `name` in the schema at `pos`, if there is one.
    fn find_table(&self, pos: usize, name: &String) -> (r: Option<usize>)
        requires
            self.wf(),
            pos < self.database.schemas@.len(),
        ensures
            match r {
                Some(k) => self.tables_map().contains_key(k) && self.tables_map()[k].name@ == name@
                    && self.database.schemas@[pos as int].tables@.contains(TableIndex(k))
                    && exists|j: int| #[trigger] first_named_at(*self, pos as int, name@, j) && self.database.schemas@[pos as int].tables@[j].0 == k,
                None => forall|j: int| 0 <= j < self.database.schemas@[pos as int].tables@.len() ==>
                    self.tables_map()[(#[trigger] self.database.schemas@[pos as int].tables@[j]).0].name@ != name@,
            },
    {
        let schema = &self.database.schemas[pos];
        let mut j: usize = 0;
        while j < schema.tables.len()
            invariant
                self.wf(),
                pos < self.database.schemas@.len(),
                *schema == self.database.schemas@[pos as int],
                j <= schema.tables@.len(),
                forall|x: int| 0 <= x < j ==>
                    self.tables_map()[(#[trigger] schema.tables@[x]).0].name@ != name@,
            decreases schema.tables@.len() - j,
        {
            let k = schema.tables[j].0;
            assert(self.tables_map().contains_key(k));
            match self.tables.get(k) {
                Some(t) => {
                    if t.name == *name {
                        assert(first_named_at(*self, pos as int, name@, j as int));
                        return Some(k);
                    }
                },
                None => {},
            }
            j = j + 1;
        }
        None
    }

    /// Creates a schema.
    fn run_new_schema(&mut self, name: &String, exists_ok: bool) -> (r: Result<(), RuntimeError>)
        requires
            old(self).wf(),
        ensures
            final(self).wf(),
            final(self).tables == old(self).tables,
            final(self).registers == old(self).registers,
            final(self).last_table_index == old(self).last_table_index,
            !old(self).database.has_schema(name@) ==> r is Ok && final(self).database.has_schema(name@)
                && final(self).database.schemas@ == old(self).database.schemas@.push(final(self).database.schemas@.last())
                && final(self).database.schemas@.last().tables@.len() == 0,
            old(self).database.has_schema(name@) ==> final(self).database == old(self).database
                && if exists_ok {
                r is Ok
            } else {
                r == Err::<(), RuntimeError>(RuntimeError::SchemaExists(*name))
            },
    {
        if self.database.schema_position(name).is_some() {
            if exists_ok {
                return Ok(());
            }
            return Err(RuntimeError::SchemaExists(name.clone()));
        }
        let ghost before = *self;
        let added = self.database.add_schema(Schema::new(name.clone()));
        assert(self.tables_map() == before.tables_map());
        proof {
            let n = before.database.schemas@.len() as int;
            assert(self.database.schemas@[n].name@ == name@);
            assert(self.database.schemas@.take(n) =~= before.database.schemas@);
            assert forall|i: int, j: int|
                0 <= i < self.database.schemas@.len() && 0 <= j < self.database.schemas@[i].tables@.len() implies {
                let x = (#[trigger] self.database.schemas@[i].tables@[j]).0;
                self.tables_map().contains_key(x) && !self.tables_map()[x].temporary
            } by {
                assert(i < n);
                assert(self.database.schemas@[i] == before.database.schemas@[i]);
            }
        }
        Ok(())
    }

    /// Names the table of register `index` and registers it in its schema.
    fn run_new_table(&mut self, index: RegisterIndex, name: &TableRef, exists_ok: bool) -> (r: Result<(), RuntimeError>)
        requires
            old(self).wf(),
        ensures
            final(self).wf(),
            final(self).registers == old(self).registers,
            final(self).last_table_index == old(self).last_table_index,
            match old(self).registers_map().get(index.0) {
                Some(Register::TableRef(t)) => new_table_outcome(*old(self), *final(self), t, *name, exists_ok, r),
                _ => r is Err && final(self).tables_map() == old(self).tables_map() && final(self).database == old(self).database,
            },
    {
        let k = self.table_handle(index, Operation::NewTable)?;
        let pos = match self.find_schema(&name.schema_name) {
            Ok(p) => p,
            Err(e) => { return Err(e); },
        };
        assert(schema_named(self.database, name.schema_name, pos as int));
        assert forall|p: int| #[trigger] schema_named(self.database, name.schema_name, p) implies p == pos as int by {
            lemma_schema_named_unique(self.database, name.schema_name, p, pos as int);
        }
        if self.find_table(pos, &name.table_name).is_some() {
            assert(schema_has_table(*self, pos as int, name.table_name@));
            if exists_ok {
                return Ok(());
            }
            return Err(RuntimeError::TableExists(name.duplicate()));
        }
        assert(!schema_has_table(*self, pos as int, name.table_name@));
        let ghost before = *self;
        let mut t = match self.take_table(k) {
            Ok(t) => t,
            Err(e) => {
                assert(self.tables_map() =~= before.tables_map());
                return Err(e);
            },
        };
        t.name = name.table_name.clone();
        t.temporary = false;
        self.tables.insert(k, t);
        proof {
            assert(self.tables_map() =~= before.tables_map().insert(k, t));
            lemma_replace_table(before, *self, k, t);
        }
        let ghost mid = *self;
        self.database.add_table_to(pos, TableIndex(k));
        assert(self.tables_map()[k].name@ == name.table_name@);
        proof {
            assert forall|i: int, j: int|
                0 <= i < self.database.schemas@.len() && 0 <= j < self.database.schemas@[i].tables@.len() implies {
                let x = (#[trigger] self.database.schemas@[i].tables@[j]).0;
                self.tables_map().contains_key(x) && !self.tables_map()[x].temporary
            } by {
                if i == pos as int {
                    if j < mid.database.schemas@[i].tables@.len() {
                        assert(self.database.schemas@[i].tables@[j] == mid.database.schemas@[i].tables@[j]);
                    }
                } else {
                    assert(self.database.schemas@[i] == mid.database.schemas@[i]);
                }
            }
        }
        Ok(())
    }

    /// Resolves a table reference into register `index`.
    fn run_source(&mut self, index: RegisterIndex, name: &TableRef) -> (r: Result<(), RuntimeError>)
        requires
            old(self).wf(),
        ensures
            final(self).wf(),
            store_unchanged(*old(self), *final(self)),
            source_outcome(*old(self), *final(self), index, *name, r),
    {
        let pos = match self.find_schema(&name.schema_name) {
            Ok(p) => p,
            Err(e) => { return Err(e); },
        };
        assert(schema_named(self.database, name.schema_name, pos as int));
        assert forall|p: int| #[trigger] schema_named(self.database, name.schema_name, p) implies p == pos as int by {
            lemma_schema_named_unique(self.database, name.schema_name, p, pos as int);
        }
        match self.find_table(pos, &name.table_name) {
            Some(k) => {
                let ghost j = choose|j: int| #[trigger] first_named_at(*self, pos as int, name.table_name@, j) && self.database.schemas@[pos as int].tables@[j].0 == k;
                assert(schema_has_table(*self, pos as int, name.table_name@));
                assert(self.database.schemas@[pos as int].tables@[j] == TableIndex(k));
                self.registers.insert(index.0, Register::TableRef(TableIndex(k)));
                assert(self.tables_map() == old(self).tables_map());
                Ok(())
            },
            None => {
                assert(!schema_has_table(*self, pos as int, name.table_name@));
                Err(RuntimeError::TableNotFound(name.duplicate()))
            },
        }
    }

    /// Adds the column of register `col_index` to the table of register `table_reg_index`.
    fn run_add_column(&mut self, table_reg_index: RegisterIndex, col_index: RegisterIndex) -> (r: Result<(), RuntimeError>)
        requires
            old(self).wf(),
        ensures
            final(self).wf(),
            only_tables_changed(*old(self), *final(self)),
            match (old(self).registers_map().get(table_reg_index.0), old(self).registers_map().get(col_index.0)) {
                (Some(Register::TableRef(t)), Some(Register::Column(c))) if old(self).tables_map().contains_key(t.0) => {
                    let bt = old(self).tables_map();
                    let at = final(self).tables_map();
                    &&& r is Ok
                    &&& only_table_changed(bt, at, t.0)
                    &&& same_frame_but_columns(bt[t.0], at[t.0])
                    &&& at[t.0].columns@.len() == bt[t.0].columns@.len() + 1
                    &&& at[t.0].columns@.take(bt[t.0].columns@.len() as int) == bt[t.0].columns@
                    &&& same_column(at[t.0].columns@.last(), c)
                    &&& at[t.0].rows() == bt[t.0].rows().map_values(|row: Seq<Value>| row.push(Value::Null))
                },
                _ => r is Err && final(self).tables_map() == old(self).tables_map(),
            },
    {
        let k = self.table_handle(table_reg_index, Operation::AddColumn)?;
        let column = match self.registers.get(col_index.0) {
            Some(Register::Column(c)) => c.duplicate(),
            Some(other) => {
                return Err(RuntimeError::RegisterKindMismatch(Operation::AddColumn, other.kind()));
            },
            None => {
                return Err(RuntimeError::EmptyRegister(col_index));
            },
        };
        let ghost before = *self;
        let mut t = match self.take_table(k) {
            Ok(t) => t,
            Err(e) => {
                assert(self.tables_map() =~= before.tables_map());
                return Err(e);
            },
        };
        let ghost t0 = t;
        t.add_column(column);
        assert(t.columns@.take(t0.columns@.len() as int) =~= t0.columns@);
        self.tables.insert(k, t);
        proof {
            assert(self.tables_map() =~= before.tables_map().insert(k, t));
            lemma_replace_table(before, *self, k, t);
        }
        Ok(())
    }

    /// Appends an option to the column of register `index`.
    fn run_add_column_option(&mut self, index: RegisterIndex, option: &ColumnOption) -> (r: Result<(), RuntimeError>)
        ensures
            final(self).tables == old(self).tables,
            final(self).database == old(self).database,
            final(self).last_table_index == old(self).last_table_index,
            column_option_outcome(*old(self), *final(self), index, *option, r),
    {
        match self.registers.get(index.0) {
            Some(Register::Column(_)) => {},
            Some(other) => {
                return Err(RuntimeError::RegisterKindMismatch(Operation::AddColumnOption, other.kind()));
            },
            None => {
                return Err(RuntimeError::EmptyRegister(index));
            },
        }
        match self.registers.remove(index.0) {
            Some(Register::Column(mut c)) => {
                c.add_column_option(option.duplicate());
                self.registers.insert(index.0, Register::Column(c));
                assert(self.registers_map() =~= old(self).registers_map().insert(index.0, self.registers_map()[index.0]));
                Ok(())
            },
            _ => Err(RuntimeError::EmptyRegister(index)),
        }
    }

    /// Declares a target column of the insert in register `insert_index`.
    fn run_column_insert_def(&mut self, insert_index: RegisterIndex, col_name: &String) -> (r: Result<(), RuntimeError>)
        ensures
            final(self).tables == old(self).tables,
            final(self).database == old(self).database,
            final(self).last_table_index == old(self).last_table_index,
            column_insert_outcome(*old(self), *final(self), insert_index, *col_name, r),
    {
        let table = match self.registers.get(insert_index.0) {
            Some(Register::InsertDef(def)) => def.table,
            Some(other) => {
                return Err(RuntimeError::RegisterKindMismatch(Operation::InsertDef, other.kind()));
            },
            None => {
                return Err(RuntimeError::EmptyRegister(insert_index));
            },
        };
        let column = match self.tables.get(table.0) {
            Some(t) => match column_index(&t.columns, col_name) {
                Some(i) => (i, t.columns[i].duplicate()),
                None => {
                    return Err(RuntimeError::ColumnNotFound(col_name.clone()));
                },
            },
            None => {
                return Err(RuntimeError::DanglingTable(table));
            },
        };
        match self.registers.remove(insert_index.0) {
            Some(Register::InsertDef(mut def)) => {
                let ghost d = def;
                def.columns.push(column);
                assert(def.columns@.take(d.columns@.len() as int) =~= d.columns@);
                let ghost d2 = def;
                self.registers.insert(insert_index.0, Register::InsertDef(def));
                assert(self.registers_map() =~= old(self).registers_map().insert(insert_index.0, Register::InsertDef(d2)));
                Ok(())
            },
            _ => Err(RuntimeError::EmptyRegister(insert_index)),
        }
    }

    /// Begins a new row of the insert in register `insert_index`.
    fn run_row_def(&mut self, insert_index: RegisterIndex, row_index: RegisterIndex) -> (r: Result<(), RuntimeError>)
        ensures
            final(self).tables == old(self).tables,
            final(self).database == old(self).database,
            final(self).last_table_index == old(self).last_table_index,
            row_def_outcome(*old(self), *final(self), insert_index, row_index, r),
    {
        match self.registers.get(insert_index.0) {
            Some(Register::InsertDef(_)) => {},
            Some(other) => {
                return Err(RuntimeError::RegisterKindMismatch(Operation::RowDef, other.kind()));
            },
            None => {
                return Err(RuntimeError::EmptyRegister(insert_index));
            },
        }
        match self.registers.remove(insert_index.0) {
            Some(Register::InsertDef(mut def)) => {
                let ghost d = def;
                if def.rows.len() == usize::MAX {
                    let table = def.table;
                    self.registers.insert(insert_index.0, Register::InsertDef(def));
                    assert(self.registers_map() =~= old(self).registers_map());
                    return Err(RuntimeError::TableTooLarge(table));
                }
                def.rows.push(Vec::new());
                let n = def.rows.len() - 1;
                assert(def.rows@.take(d.rows@.len() as int) =~= d.rows@);
                let ghost d2 = def;
                self.registers.insert(insert_index.0, Register::InsertDef(def));
                self.registers.insert(row_index.0, Register::InsertRow(InsertRow { def: insert_index, row_index: n }));
                assert(self.registers_map() =~= old(self).registers_map().insert(insert_index.0, Register::InsertDef(d2)).insert(
                    row_index.0,
                    Register::InsertRow(InsertRow { def: insert_index, row_index: d.rows@.len() as usize }),
                ));
                return Ok(());
            },
            _ => Err(RuntimeError::EmptyRegister(insert_index)),
        }
    }

    /// Evaluates `expr` on the sentinel row of the insert's table and appends
    /// the value to the row of register `row_reg`.
    fn run_add_value(&mut self, row_reg: RegisterIndex, expr: &Expr) -> (r: Result<(), RuntimeError>)
        ensures
            final(self).tables == old(self).tables,
            final(self).database == old(self).database,
            final(self).last_table_index == old(self).last_table_index,
            add_value_outcome(*old(self), *final(self), row_reg, *expr, r),
    {
        let ghost mut old_ir = InsertRow { def: RegisterIndex(0), row_index: 0 };
        let (def_index, row) = match self.registers.get(row_reg.0) {
            Some(Register::InsertRow(ir)) => {
                proof {
                    old_ir = *ir;
                }
                (ir.def, ir.row_index)
            },
            Some(other) => {
                return Err(RuntimeError::RegisterKindMismatch(Operation::AddValue, other.kind()));
            },
            None => {
                return Err(RuntimeError::EmptyRegister(row_reg));
            },
        };
        let table = match self.registers.get(def_index.0) {
            Some(Register::InsertDef(def)) => {
                if row >= def.rows.len() {
                    return Err(RuntimeError::EmptyRegister(row_reg));
                }
                def.table
            },
            Some(other) => {
                return Err(RuntimeError::RegisterKindMismatch(Operation::AddValue, other.kind()));
            },
            None => {
                return Err(RuntimeError::EmptyRegister(def_index));
            },
        };
        let ghost mut probe: Seq<Value> = Seq::empty();
        let value = match self.tables.get(table.0) {
            Some(t) => {
                let sentinel = t.sentinel_row();
                assert(is_sentinel(sentinel.data@, t.columns@));
                proof {
                    probe = sentinel.data@;
                }
                match expr.execute(t, &sentinel) {
                    Ok(v) => v,
                    Err(e) => {
                        return Err(RuntimeError::ExprError(e));
                    },
                }
            },
            None => {
                return Err(RuntimeError::DanglingTable(table));
            },
        };
        match self.registers.remove(def_index.0) {
            Some(Register::InsertDef(mut def)) => {
                let ghost d = def;
                let mut values = def.rows.remove(row);
                values.push(value);
                def.rows.insert(row, values);
                assert forall|i: int| 0 <= i < d.rows@.len() implies (#[trigger] def.rows@[i])@ == if i == row as int {
                    d.rows@[i]@.push(value)
                } else {
                    d.rows@[i]@
                } by {
                    if i < row as int {
                        assert(def.rows@[i] == d.rows@[i]);
                    } else if i > row as int {
                        assert(def.rows@[i] == d.rows@[i]);
                    }
                }
                let ghost d2 = def;
                self.registers.insert(def_index.0, Register::InsertDef(def));
                assert(self.registers_map() =~= old(self).registers_map().insert(def_index.0, Register::InsertDef(d2)));
                assert(value_appended(*old(self), *self, old_ir, d, value, d2));
                assert(probe_gives(old(self).tables_map()[table.0], *expr, probe, value));
                Ok(())
            },
            _ => Err(RuntimeError::EmptyRegister(def_index)),
        }
    }

    /// Appends the rows of the insert in register `index` to its table.
    fn run_insert(&mut self, index: RegisterIndex) -> (r: Result<(), RuntimeError>)
        requires
            old(self).wf(),
        ensures
            final(self).wf(),
            final(self).database == old(self).database,
            final(self).last_table_index == old(self).last_table_index,
            match old(self).registers_map().get(index.0) {
                Some(Register::InsertDef(d)) => {
                    let bt = old(self).tables_map();
                    let at = final(self).tables_map();
                    &&& final(self).registers_map() == old(self).registers_map().remove(index.0)
                    &&& if d.columns@.len() != 0 {
                        r == Err::<(), RuntimeError>(RuntimeError::Unsupported(InstructionKind::ColumnInsertDef)) && at == bt
                    } else if !bt.contains_key(d.table.0) {
                        r == Err::<(), RuntimeError>(RuntimeError::DanglingTable(d.table)) && at == bt
                    } else if forall|i: int| 0 <= i < d.rows@.len() ==> (#[trigger] d.rows@[i])@.len() == bt[d.table.0].columns@.len() {
                        &&& r is Ok
                        &&& only_table_changed(bt, at, d.table.0)
                        &&& same_frame_but_columns(bt[d.table.0], at[d.table.0]) && at[d.table.0].columns == bt[d.table.0].columns
                        &&& at[d.table.0].rows() == bt[d.table.0].rows() + d.rows@.map_values(|v: Vec<Value>| v@)
                    } else {
                        r matches Err(RuntimeError::InsertArityMismatch { expected, got }) && at == bt
                    }
                },
                _ => r is Err && final(self).tables_map() == old(self).tables_map()
                    && final(self).registers_map() == old(self).registers_map(),
            },
    {
        match self.registers.get(index.0) {
            Some(Register::InsertDef(_)) => {},
            Some(other) => {
                return Err(RuntimeError::RegisterKindMismatch(Operation::Insert, other.kind()));
            },
            None => {
                return Err(RuntimeError::EmptyRegister(index));
            },
        }
        let def = match self.registers.remove(index.0) {
            Some(Register::InsertDef(def)) => def,
            _ => {
                return Err(RuntimeError::EmptyRegister(index));
            },
        };
        if def.columns.len() != 0 {
            assert(self.tables == old(self).tables);
            assert(self.database == old(self).database);
            assert(self.last_table_index == old(self).last_table_index);
            assert(self.tables_map() == old(self).tables_map());
            return Err(RuntimeError::Unsupported(InstructionKind::ColumnInsertDef));
        }
        let k = def.table.0;
        assert(self.tables == old(self).tables);
        assert(self.database == old(self).database);
        assert(self.last_table_index == old(self).last_table_index);
        assert(self.tables_map() == old(self).tables_map());
        let ghost before = *self;
        let mut t = match self.take_table(k) {
            Ok(t) => t,
            Err(e) => {
                assert(self.tables_map() =~= before.tables_map());
                return Err(e);
            },
        };
        let ghost t0 = t;
        let arity = t.columns.len();
        let mut i: usize = 0;
        assert(t0.rows().take(t0.rows().len() as int) =~= t0.rows());
        while i < def.rows.len()
            invariant
                i <= def.rows@.len(),
                arity == t.columns@.len(),
                before.wf(),
                before.tables_map().contains_key(k),
                t == before.tables_map()[k],
                before.database == old(self).database,
                self.tables_map() == before.tables_map().remove(k),
                self.database == before.database,
                self.last_table_index == before.last_table_index,
                forall|x: int| 0 <= x < i ==> (#[trigger] def.rows@[x])@.len() == arity,
                before.tables_map() == old(self).tables_map(),
                before.last_table_index == old(self).last_table_index,
                before.registers_map() == old(self).registers_map().remove(index.0),
                self.registers == before.registers,
                old(self).registers_map().get(index.0) == Some(Register::InsertDef(def)),
                def.columns@.len() == 0,
                k == def.table.0,
            decreases def.rows@.len() - i,
        {
            if def.rows[i].len() != arity {
                let got = def.rows[i].len();
                self.tables.insert(k, t);
                proof {
                    assert(self.tables_map() =~= before.tables_map().insert(k, t));
                    lemma_replace_table(before, *self, k, t);
                }
                assert(self.tables_map() =~= old(self).tables_map());
                assert(def.rows@[i as int]@.len() != arity);
                assert(arity == old(self).tables_map()[k].columns@.len());
                assert(!(forall|x: int| 0 <= x < def.rows@.len() ==> (#[trigger] def.rows@[x])@.len() == old(self).tables_map()[k].columns@.len()));
                assert(self.registers_map() == old(self).registers_map().remove(index.0));
                assert(def.columns@.len() == 0);
                return Err(RuntimeError::InsertArityMismatch { expected: arity, got });
            }
            i = i + 1;
        }
        let mut j: usize = 0;
        while j < def.rows.len()
            invariant
                j <= def.rows@.len(),
                arity == t.columns@.len(),
                forall|x: int| 0 <= x < def.rows@.len() ==> (#[trigger] def.rows@[x])@.len() == arity,
                t.wf(),
                before.wf(),
                before.tables_map().contains_key(k),
                t.temporary == before.tables_map()[k].temporary,
                before.database == old(self).database,
                self.tables_map() == before.tables_map().remove(k),
                self.database == before.database,
                self.last_table_index == before.last_table_index,
                t0 == before.tables_map()[k],
                before.tables_map() == old(self).tables_map(),
                before.last_table_index == old(self).last_table_index,
                before.registers_map() == old(self).registers_map().remove(index.0),
                self.registers == before.registers,
                old(self).registers_map().get(index.0) == Some(Register::InsertDef(def)),
                t.name == t0.name && t.temporary == t0.temporary && t.columns == t0.columns,
                t.rows() == t0.rows() + def.rows@.take(j as int).map_values(|v: Vec<Value>| v@),
            decreases def.rows@.len() - j,
        {
            let ghost prev = t.rows();
            let values = copy_values(&def.rows[j]);
            t.raw_data.push(Row { data: values });
            assert(t.rows() =~= prev.push(def.rows@[j as int]@));
            assert(def.rows@.take(j + 1).map_values(|v: Vec<Value>| v@) =~= def.rows@.take(j as int).map_values(|v: Vec<Value>| v@).push(def.rows@[j as int]@));
            j = j + 1;
            assert(t.rows() =~= t0.rows() + def.rows@.take(j as int).map_values(|v: Vec<Value>| v@));
        }
        assert(def.rows@.take(j as int) =~= def.rows@);
        self.tables.insert(k, t);
        proof {
            assert(self.tables_map() =~= before.tables_map().insert(k, t));
            lemma_replace_table(before, *self, k, t);
        }
        Ok(())
    }
}


/// What `Return` hands back for the register `reg`, given the stored tables.
pub open spec fn return_ok(reg: Option<Register>, tables: Map<usize, Table>, index: RegisterIndex, r: Result<Option<Table>, RuntimeError>) -> bool {
    match reg {
        None => r == Err::<Option<Table>, RuntimeError>(RuntimeError::EmptyRegister(index)),
        Some(Register::TableRef(t)) => if tables.contains_key(t.0) {
            match r {
                Ok(Some(c)) => c.rows() == tables[t.0].rows() && same_columns(c.columns@, tables[t.0].columns@) && c.name@ == tables[t.0].name@,
                _ => false,
            }
        } else {
            r == Err::<Option<Table>, RuntimeError>(RuntimeError::DanglingTable(t))
        },
        Some(Register::Value(v)) => match r {
            Ok(Some(c)) => {
                &&& c.rows() == seq![seq![v]]
                &&& c.columns@.len() == 1
                &&& c.columns@[0].name@ == placeholder_column_name()
                &&& c.columns@[0].data_type == data_type_of(v)
                &&& c.wf()
            },
            _ => false,
        },
        Some(other) => r == Err::<Option<Table>, RuntimeError>(RuntimeError::CannotReturn(kind_of(other))),
    }
}


/// Every table handle held in a register names a stored table.
pub open spec fn handles_stored(vm: VirtualMachine) -> bool {
    forall|k: usize| #[trigger] vm.registers_map().contains_key(k) && vm.registers_map()[k] is TableRef
        ==> vm.tables_map().contains_key(vm.registers_map()[k]->TableRef_0.0)
}

/// An instruction keeps table handles in registers valid: none of them
/// removes a stored table, and each handle it stores names a stored table.
pub proof fn lemma_step_keeps_handles(b: VirtualMachine, instr: Instruction, a: VirtualMachine, r: Result<Option<Table>, RuntimeError>)
    requires
        b.wf(),
        handles_stored(b),
        step(b, instr, a, r),
    ensures
        handles_stored(a),
{
    let bt = b.tables_map();
    let at = a.tables_map();
    // No instruction drops a stored table.
    assert forall|t: usize| bt.contains_key(t) implies at.contains_key(t) by {
        match instr {
            Instruction::Filter { index, .. } | Instruction::Order { index, .. } | Instruction::Limit { index, .. } => {
                if let Some(Register::TableRef(x)) = b.registers_map().get(index.0) {
                    if bt.contains_key(x.0) {
                        assert(at == bt.insert(x.0, at[x.0]));
                    }
                }
            },
            Instruction::Project { input, output, .. } => {
                if let (Some(Register::TableRef(i)), Some(Register::TableRef(o))) = (b.registers_map().get(input.0), b.registers_map().get(output.0)) {
                    if i != o && bt.contains_key(i.0) && bt.contains_key(o.0) {
                        assert(at == bt.insert(o.0, at[o.0]));
                    }
                }
            },
            Instruction::AddColumn { table_reg_index, col_index } => {
                if let (Some(Register::TableRef(x)), Some(Register::Column(c))) = (b.registers_map().get(table_reg_index.0), b.registers_map().get(col_index.0)) {
                    if bt.contains_key(x.0) {
                        assert(at == bt.insert(x.0, at[x.0]));
                    }
                }
            },
            Instruction::Insert { index } => {
                if let Some(Register::InsertDef(d)) = b.registers_map().get(index.0) {
                    if bt.contains_key(d.table.0) && at != bt {
                        assert(at == bt.insert(d.table.0, at[d.table.0]));
                    }
                }
            },
            Instruction::NewTable { index, name, exists_ok } => {
                if let Some(Register::TableRef(x)) = b.registers_map().get(index.0) {
                    if bt.contains_key(x.0) && at != bt {
                        let p = match name.schema_name {
                            Some(n) => choose|i: int| 0 <= i < b.database.schemas@.len() && #[trigger] b.database.schemas@[i].name@ == n@,
                            None => 0,
                        };
                        assert(schema_named(b.database, name.schema_name, p));
                        assert(at == bt.insert(x.0, at[x.0]));
                    }
                }
            },
            Instruction::Empty { .. } => {
                if b.last_table_index.0 != usize::MAX {
                    let k = (b.last_table_index.0 + 1) as usize;
                    assert(at == bt.insert(k, at[k]));
                }
            },
            _ => {},
        }
    }
    assert forall|k: usize| #[trigger] a.registers_map().contains_key(k) && a.registers_map()[k] is TableRef
        implies at.contains_key(a.registers_map()[k]->TableRef_0.0) by {
        if b.registers_map().contains_key(k) && b.registers_map()[k] == a.registers_map()[k] {
            assert(bt.contains_key(b.registers_map()[k]->TableRef_0.0));
        } else {
            match instr {
                Instruction::Source { index, name } => {
                    let p = match name.schema_name {
                        Some(n) => choose|i: int| 0 <= i < b.database.schemas@.len() && #[trigger] b.database.schemas@[i].name@ == n@,
                        None => 0,
                    };
                    assert(schema_named(b.database, name.schema_name, p));
                    if schema_has_table(b, p, name.table_name@) {
                        let j = choose|j: int| #[trigger] first_named_at(b, p, name.table_name@, j)
                            && sets_register(b, a, index, Register::TableRef(b.database.schemas@[p].tables@[j]));
                        assert(bt.contains_key(b.database.schemas@[p].tables@[j].0));
                    }
                },
                Instruction::Empty { index } => {
                    if b.last_table_index.0 != usize::MAX {
                        let n = (b.last_table_index.0 + 1) as usize;
                        assert(at.contains_key(n));
                        assert(a.registers_map() == b.registers_map().insert(index.0, Register::TableRef(TableIndex(n))));
                    }
                },
                Instruction::RowDef { insert_index, row_index } => {
                    if let Some(Register::InsertDef(d)) = b.registers_map().get(insert_index.0) {
                        if d.rows@.len() != usize::MAX {
                            let d2 = choose|d2: InsertDef| #[trigger] a.registers_map() == b.registers_map().insert(insert_index.0, Register::InsertDef(d2)).insert(
                                row_index.0,
                                Register::InsertRow(InsertRow { def: insert_index, row_index: d.rows@.len() as usize }),
                            ) && d2.table == d.table && d2.columns == d.columns
                                && d2.rows@.len() == d.rows@.len() + 1 && d2.rows@.take(d.rows@.len() as int) == d.rows@
                                && d2.rows@.last()@.len() == 0;
                            assert(a.registers_map() == b.registers_map().insert(insert_index.0, Register::InsertDef(d2)).insert(
                                row_index.0,
                                Register::InsertRow(InsertRow { def: insert_index, row_index: d.rows@.len() as usize }),
                            ));
                        }
                    }
                },
                Instruction::ColumnInsertDef { insert_index, col_name } => {
                    if let Some(Register::InsertDef(d)) = b.registers_map().get(insert_index.0) {
                        if bt.contains_key(d.table.0) && r is Ok {
                            let d2 = choose|d2: InsertDef| #[trigger] a.registers_map() == b.registers_map().insert(insert_index.0, Register::InsertDef(d2))
                                && d2.table == d.table && d2.rows == d.rows
                                && d2.columns@.len() == d.columns@.len() + 1
                                && d2.columns@.take(d.columns@.len() as int) == d.columns@
                                && d2.columns@.last().0 == column_position(bt[d.table.0].columns@, col_name@)->Some_0
                                && same_column(d2.columns@.last().1, bt[d.table.0].columns@[column_position(bt[d.table.0].columns@, col_name@)->Some_0 as int]);
                            assert(a.registers_map() == b.registers_map().insert(insert_index.0, Register::InsertDef(d2)));
                        }
                    }
                },
                Instruction::AddValue { row_index, expr } => {
                    if let Some(Register::InsertRow(ir)) = b.registers_map().get(row_index.0) {
                        if let Some(Register::InsertDef(d)) = b.registers_map().get(ir.def.0) {
                            if ir.row_index < d.rows@.len() && bt.contains_key(d.table.0) && r is Ok {
                                let t = bt[d.table.0];
                                let (sv, v, d2) = choose|sv: Seq<Value>, v: Value, d2: InsertDef|
                                    #[trigger] probe_gives(t, expr, sv, v) && #[trigger] value_appended(b, a, ir, d, v, d2);
                                assert(a.registers_map() == b.registers_map().insert(ir.def.0, Register::InsertDef(d2)));
                            }
                        }
                    }
                },
                _ => {},
            }
        }
    }
}

/// A result without its table.
pub open spec fn unit(r: Result<Option<Table>, RuntimeError>) -> Result<(), RuntimeError> {
    match r {
        Ok(_) => Ok(()),
        Err(e) => Err(e),
    }
}

/// The register `index` now holds `reg`; no other register changed.
pub open spec fn sets_register(b: VirtualMachine, a: VirtualMachine, index: RegisterIndex, reg: Register) -> bool {
    a.registers_map() == b.registers_map().insert(index.0, reg)
}

/// What running `instr` on the machine `b` does: the machine `a` after it and
/// its result `r`.
pub open spec fn step(b: VirtualMachine, instr: Instruction, a: VirtualMachine, r: Result<Option<Table>, RuntimeError>) -> bool {
    let bt = b.tables_map();
    let at = a.tables_map();
    &&& a.wf()
    &&& (r matches Ok(Some(t)) ==> t.wf())
    &&& (r matches Ok(Some(_)) ==> instr is Return)
    &&& match reserved_kind(instr) {
        Some(k) => r == Err::<Option<Table>, RuntimeError>(RuntimeError::Unsupported(k)) && a == b,
        None => true,
    }
    &&& match instr {
        Instruction::Value { index, value } => r == Ok::<Option<Table>, RuntimeError>(None) && store_unchanged(b, a)
            && sets_register(b, a, index, Register::Value(value)),
        Instruction::Expr { index, expr } => r == Ok::<Option<Table>, RuntimeError>(None) && store_unchanged(b, a)
            && sets_register(b, a, index, a.registers_map()[index.0]) && a.registers_map()[index.0] is Expr,
        Instruction::ColumnDef { index, name, data_type } => r == Ok::<Option<Table>, RuntimeError>(None) && store_unchanged(b, a)
            && sets_register(b, a, index, a.registers_map()[index.0]) && match a.registers_map()[index.0] {
                Register::Column(c) => c.name@ == name@ && c.data_type == data_type && c.options@.len() == 0 && !c.primary_key,
                _ => false,
            },
        Instruction::Empty { index } => if b.last_table_index.0 == usize::MAX {
            r == Err::<Option<Table>, RuntimeError>(RuntimeError::TableIndexExhausted) && store_unchanged(b, a)
                && a.registers_map() == b.registers_map()
        } else {
            let k = (b.last_table_index.0 + 1) as usize;
            &&& r == Ok::<Option<Table>, RuntimeError>(None)
            &&& a.last_table_index.0 == k && a.database == b.database
            &&& !bt.contains_key(k) && at.contains_key(k) && at == bt.insert(k, at[k])
            &&& at[k].temporary && at[k].columns@.len() == 0 && at[k].raw_data@.len() == 0
            &&& at[k].name@ == temp_name_of(k)
            &&& sets_register(b, a, index, Register::TableRef(TableIndex(k)))
        },
        Instruction::Return { index } => return_ok(b.registers_map().get(index.0), bt, index, r)
            && store_unchanged(b, a) && a.registers_map() == b.registers_map().remove(index.0),
        Instruction::Filter { index, expr } => on_table(b, a, index, Operation::Filter, unit(r),
            |x: Table, y: Table| filter_outcome(expr, x, y, unit(r))),
        Instruction::Order { index, expr, ascending } => on_table(b, a, index, Operation::OrderBy, unit(r),
            |x: Table, y: Table| if x.raw_data@.len() <= isize::MAX {
                order_outcome(expr, x, y, ascending, unit(r))
            } else {
                y == x && r is Err
            }),
        Instruction::Limit { index, limit } => on_table(b, a, index, Operation::Limit, unit(r),
            |x: Table, y: Table| r is Ok && limit_outcome(limit, x, y)),
        Instruction::Project { input, output, expr, alias } => only_tables_changed(b, a) && match (
            b.registers_map().get(input.0),
            b.registers_map().get(output.0),
        ) {
            (Some(Register::TableRef(i)), Some(Register::TableRef(o))) => if i == o {
                r == Err::<Option<Table>, RuntimeError>(RuntimeError::ProjectOntoInput(i)) && at == bt
            } else if !bt.contains_key(i.0) {
                r == Err::<Option<Table>, RuntimeError>(RuntimeError::DanglingTable(i)) && at == bt
            } else if !bt.contains_key(o.0) {
                r == Err::<Option<Table>, RuntimeError>(RuntimeError::DanglingTable(o)) && at == bt
            } else {
                only_table_changed(bt, at, o.0) && project_outcome(bt[i.0], bt[o.0], at[o.0], expr, alias, unit(r))
            },
            _ => r is Err && at == bt,
        },
        Instruction::NewSchema { schema_name, exists_ok } => {
            &&& at == bt && a.registers_map() == b.registers_map() && a.last_table_index == b.last_table_index
            &&& !b.database.has_schema(schema_name@) ==> r == Ok::<Option<Table>, RuntimeError>(None)
                && a.database.has_schema(schema_name@)
                && a.database.schemas@ == b.database.schemas@.push(a.database.schemas@.last())
                && a.database.schemas@.last().tables@.len() == 0
            &&& b.database.has_schema(schema_name@) ==> a.database == b.database
                && if exists_ok { r == Ok::<Option<Table>, RuntimeError>(None) } else { r == Err::<Option<Table>, RuntimeError>(RuntimeError::SchemaExists(schema_name)) }
        },
        Instruction::Source { index, name } => store_unchanged(b, a) && source_outcome(b, a, index, name, unit(r)),
        Instruction::AddColumn { table_reg_index, col_index } => only_tables_changed(b, a) && match (
            b.registers_map().get(table_reg_index.0),
            b.registers_map().get(col_index.0),
        ) {
            (Some(Register::TableRef(t)), Some(Register::Column(c))) if bt.contains_key(t.0) => {
                &&& r == Ok::<Option<Table>, RuntimeError>(None)
                &&& only_table_changed(bt, at, t.0)
                &&& same_frame_but_columns(bt[t.0], at[t.0])
                &&& at[t.0].columns@.len() == bt[t.0].columns@.len() + 1
                &&& at[t.0].columns@.take(bt[t.0].columns@.len() as int) == bt[t.0].columns@
                &&& same_column(at[t.0].columns@.last(), c)
                &&& at[t.0].rows() == bt[t.0].rows().map_values(|row: Seq<Value>| row.push(Value::Null))
            },
            _ => r is Err && at == bt,
        },
        Instruction::Insert { index } => a.database == b.database && a.last_table_index == b.last_table_index
            && match b.registers_map().get(index.0) {
            Some(Register::InsertDef(d)) => {
                &&& a.registers_map() == b.registers_map().remove(index.0)
                &&& if d.columns@.len() != 0 {
                    r == Err::<Option<Table>, RuntimeError>(RuntimeError::Unsupported(InstructionKind::ColumnInsertDef)) && at == bt
                } else if !bt.contains_key(d.table.0) {
                    r == Err::<Option<Table>, RuntimeError>(RuntimeError::DanglingTable(d.table)) && at == bt
                } else if forall|i: int| 0 <= i < d.rows@.len() ==> (#[trigger] d.rows@[i])@.len() == bt[d.table.0].columns@.len() {
                    &&& r == Ok::<Option<Table>, RuntimeError>(None)
                    &&& only_table_changed(bt, at, d.table.0)
                    &&& same_frame_but_columns(bt[d.table.0], at[d.table.0]) && at[d.table.0].columns == bt[d.table.0].columns
                    &&& at[d.table.0].rows() == bt[d.table.0].rows() + d.rows@.map_values(|v: Vec<Value>| v@)
                } else {
                    r matches Err(RuntimeError::InsertArityMismatch { expected, got }) && at == bt
                }
            },
            _ => r is Err && at == bt && a.registers_map() == b.registers_map(),
        },
        Instruction::InsertDef { table_reg_index, index } => store_unchanged(b, a) && match b.registers_map().get(table_reg_index.0) {
            Some(Register::TableRef(t)) => r == Ok::<Option<Table>, RuntimeError>(None)
                && sets_register(b, a, index, a.registers_map()[index.0]) && match a.registers_map()[index.0] {
                    Register::InsertDef(d) => d.table == t && d.columns@.len() == 0 && d.rows@.len() == 0,
                    _ => false,
                },
            _ => r is Err && a.registers_map() == b.registers_map(),
        },
        Instruction::AddColumnOption { index, option } => store_unchanged(b, a) && column_option_outcome(b, a, index, option, unit(r)),
        Instruction::RowDef { insert_index, row_index } => store_unchanged(b, a) && row_def_outcome(b, a, insert_index, row_index, unit(r)),
        Instruction::AddValue { row_index, expr } => store_unchanged(b, a) && add_value_outcome(b, a, row_index, expr, unit(r)),
        Instruction::ColumnInsertDef { insert_index, col_name } => store_unchanged(b, a) && column_insert_outcome(b, a, insert_index, col_name, unit(r)),
        Instruction::NewTable { index, name, exists_ok } => a.registers_map() == b.registers_map()
            && a.last_table_index == b.last_table_index && match b.registers_map().get(index.0) {
            Some(Register::TableRef(t)) => new_table_outcome(b, a, t, name, exists_ok, unit(r)),
            _ => r is Err && at == bt && a.database == b.database,
        },
        _ => store_unchanged(b, a),
    }
}

/// Same name and kind; the rows and columns may differ.
pub open spec fn same_frame_but_columns(x: Table, y: Table) -> bool {
    x.name == y.name && x.temporary == y.temporary
}

/// The kind of a reserved instruction, which the machine does not run.
pub open spec fn reserved_kind(instr: Instruction) -> Option<InstructionKind> {
    match instr {
        Instruction::GroupBy { .. } => Some(InstructionKind::GroupBy),
        Instruction::Update { .. } => Some(InstructionKind::Update),
        Instruction::DropTable { .. } => Some(InstructionKind::DropTable),
        Instruction::RemoveColumn { .. } => Some(InstructionKind::RemoveColumn),
        Instruction::RenameColumn { .. } => Some(InstructionKind::RenameColumn),
        Instruction::Union { .. } => Some(InstructionKind::Union),
        Instruction::CrossJoin { .. } => Some(InstructionKind::CrossJoin),
        Instruction::NaturalJoin { .. } => Some(InstructionKind::NaturalJoin),
        _ => None,
    }
}

impl VirtualMachine {
    /// Ends the statement with the content of register `index`.
    fn run_return(&mut self, index: RegisterIndex) -> (r: Result<Option<Table>, RuntimeError>)
        requires
            old(self).wf(),
        ensures
            final(self).wf(),
            final(self).database == old(self).database,
            final(self).tables == old(self).tables,
            final(self).last_table_index == old(self).last_table_index,
            final(self).registers_map() == old(self).registers_map().remove(index.0),
            return_ok(old(self).registers_map().get(index.0), old(self).tables_map(), index, r),
            r matches Ok(Some(t)) ==> t.wf(),
    {
        let reg = self.registers.remove(index.0);
        assert(self.tables == old(self).tables);
        assert(self.database == old(self).database);
        assert(self.tables_map() == old(self).tables_map());
        match reg {
            None => Err(RuntimeError::EmptyRegister(index)),
            Some(Register::TableRef(t)) => match self.tables.get(t.0) {
                Some(table) => Ok(Some(copy_table(table))),
                None => Err(RuntimeError::DanglingTable(t)),
            },
            Some(Register::Value(v)) => {
                let ghost v0 = v;
                let dt = v.data_type();
                let mut columns: Vec<Column> = Vec::new();
                columns.push(Column::new(placeholder_name(), dt, Vec::new(), false));
                let mut data: Vec<Value> = Vec::new();
                data.push(v);
                let mut rows: Vec<Row> = Vec::new();
                rows.push(Row { data });
                let table = Table { name: placeholder_name(), columns, raw_data: rows, temporary: true };
                assert(table.rows() =~= seq![seq![v0]]);
                Ok(Some(table))
            },
            Some(other) => Err(RuntimeError::CannotReturn(other.kind())),
        }
    }

    /// Runs one instruction; `step` states exactly what it does.
    pub fn execute_instr(&mut self, instr: &Instruction) -> (r: Result<Option<Table>, RuntimeError>)
        requires
            old(self).wf(),
        ensures
            final(self).wf(),
            step(*old(self), *instr, *final(self), r),
    {
        match instr {
            Instruction::Value { index, value } => {
                self.registers.insert(index.0, Register::Value(value.duplicate()));
            },
            Instruction::Expr { index, expr } => {
                self.registers.insert(index.0, Register::Expr(expr.duplicate()));
            },
            Instruction::Source { index, name } => {
                let r = self.run_source(*index, name);
                return match r {
                    Ok(()) => Ok(None),
                    Err(e) => Err(e),
                };
            },
            Instruction::Empty { index } => {
                if self.last_table_index.0 == usize::MAX {
                    return Err(RuntimeError::TableIndexExhausted);
                }
                let t = self.new_temp_table();
                self.registers.insert(index.0, Register::TableRef(t));
            },
            Instruction::Return { index } => {
                return self.run_return(*index);
            },
            Instruction::Filter { index, expr } => {
                let r = self.run_filter(*index, expr);
                return match r {
                    Ok(()) => Ok(None),
                    Err(e) => Err(e),
                };
            },
            Instruction::Project { input, output, expr, alias } => {
                let r = self.run_project(*input, *output, expr, alias);
                return match r {
                    Ok(()) => Ok(None),
                    Err(e) => Err(e),
                };
            },
            Instruction::Order { index, expr, ascending } => {
                let r = self.run_order(*index, expr, *ascending);
                return match r {
                    Ok(()) => Ok(None),
                    Err(e) => Err(e),
                };
            },
            Instruction::Limit { index, limit } => {
                let r = self.run_limit(*index, *limit);
                return match r {
                    Ok(()) => Ok(None),
                    Err(e) => Err(e),
                };
            },
            Instruction::NewSchema { schema_name, exists_ok } => {
                let r = self.run_new_schema(schema_name, *exists_ok);
                return match r {
                    Ok(()) => Ok(None),
                    Err(e) => Err(e),
                };
            },
            Instruction::ColumnDef { index, name, data_type } => {
                self.registers.insert(
                    index.0,
                    Register::Column(Column::new(name.clone(), *data_type, Vec::new(), false)),
                );
            },
            Instruction::AddColumnOption { index, option } => {
                let r = self.run_add_column_option(*index, option);
                return match r {
                    Ok(()) => Ok(None),
                    Err(e) => Err(e),
                };
            },
            Instruction::AddColumn { table_reg_index, col_index } => {
                let r = self.run_add_column(*table_reg_index, *col_index);
                return match r {
                    Ok(()) => Ok(None),
                    Err(e) => Err(e),
                };
            },
            Instruction::NewTable { index, name, exists_ok } => {
                let r = self.run_new_table(*index, name, *exists_ok);
                return match r {
                    Ok(()) => Ok(None),
                    Err(e) => Err(e),
                };
            },
            Instruction::InsertDef { table_reg_index, index } => {
                let k = self.table_handle(*table_reg_index, Operation::InsertDef)?;
                self.registers.insert(index.0, Register::InsertDef(InsertDef::new(TableIndex(k))));
            },
            Instruction::ColumnInsertDef { insert_index, col_name } => {
                let r = self.run_column_insert_def(*insert_index, col_name);
                return match r {
                    Ok(()) => Ok(None),
                    Err(e) => Err(e),
                };
            },
            Instruction::RowDef { insert_index, row_index } => {
                let r = self.run_row_def(*insert_index, *row_index);
                return match r {
                    Ok(()) => Ok(None),
                    Err(e) => Err(e),
                };
            },
            Instruction::AddValue { row_index, expr } => {
                let r = self.run_add_value(*row_index, expr);
                return match r {
                    Ok(()) => Ok(None),
                    Err(e) => Err(e),
                };
            },
            Instruction::Insert { index } => {
                let r = self.run_insert(*index);
                return match r {
                    Ok(()) => Ok(None),
                    Err(e) => Err(e),
                };
            },
            Instruction::GroupBy { .. } => {
                return Err(RuntimeError::Unsupported(InstructionKind::GroupBy));
            },
            Instruction::Update { .. } => {
                return Err(RuntimeError::Unsupported(InstructionKind::Update));
            },
            Instruction::DropTable { .. } => {
                return Err(RuntimeError::Unsupported(InstructionKind::DropTable));
            },
            Instruction::RemoveColumn { .. } => {
                return Err(RuntimeError::Unsupported(InstructionKind::RemoveColumn));
            },
            Instruction::RenameColumn { .. } => {
                return Err(RuntimeError::Unsupported(InstructionKind::RenameColumn));
            },
            Instruction::Union { .. } => {
                return Err(RuntimeError::Unsupported(InstructionKind::Union));
            },
            Instruction::CrossJoin { .. } => {
                return Err(RuntimeError::Unsupported(InstructionKind::CrossJoin));
            },
            Instruction::NaturalJoin { .. } => {
                return Err(RuntimeError::Unsupported(InstructionKind::NaturalJoin));
            },
        }
        Ok(None)
    }
}


/// The instructions `ic` ran one after another from `states[0]`, each without
/// failing or returning, through the machines of `states`.
pub open spec fn runs(ic: Seq<Instruction>, states: Seq<VirtualMachine>) -> bool {
    &&& 1 <= states.len() <= ic.len() + 1
    &&& forall|i: int| 0 <= i < states.len() - 1 ==> step(
        #[trigger] states[i],
        ic[i],
        states[i + 1],
        Ok::<Option<Table>, RuntimeError>(None),
    )
}

/// The end of a statement: `a` is `b` without registers and without the
/// temporary tables whose handles are above `from`.
pub open spec fn finished(b: VirtualMachine, a: VirtualMachine, from: usize) -> bool {
    &&& a.database == b.database
    &&& a.last_table_index == b.last_table_index
    &&& forall|k: usize| !(#[trigger] a.registers_map().contains_key(k))
    &&& forall|k: usize| #[trigger] a.tables_map().contains_key(k) == (b.tables_map().contains_key(k)
        && !(k > from && b.tables_map()[k].temporary))
    &&& forall|k: usize| #[trigger] a.tables_map().contains_key(k) ==> a.tables_map()[k] == b.tables_map()[k]
}

impl VirtualMachine {
    /// Drops the temporary tables made after handle `from`.
    fn drop_temporaries(&mut self, from: usize)
        requires
            old(self).wf(),
        ensures
            final(self).wf(),
            final(self).database == old(self).database,
            final(self).last_table_index == old(self).last_table_index,
            final(self).registers == old(self).registers,
            forall|x: usize| #[trigger] final(self).tables_map().contains_key(x) == (old(self).tables_map().contains_key(x)
                && !(x > from && old(self).tables_map()[x].temporary)),
            forall|x: usize| #[trigger] final(self).tables_map().contains_key(x) ==> final(self).tables_map()[x] == old(self).tables_map()[x],
    {
        let last = self.last_table_index.0;
        let mut k: usize = if from < last {
            from
        } else {
            last
        };
        while k < last
            invariant
                self.wf(),
                old(self).wf(),
                k <= last,
                from <= k || k == last,
                last == self.last_table_index.0,
                self.database == old(self).database,
                self.last_table_index == old(self).last_table_index,
                self.registers == old(self).registers,
                forall|x: usize| #[trigger] self.tables_map().contains_key(x) == (old(self).tables_map().contains_key(x)
                    && !(from < x <= k && old(self).tables_map()[x].temporary)),
                forall|x: usize| #[trigger] self.tables_map().contains_key(x) ==> self.tables_map()[x] == old(self).tables_map()[x],
            decreases last - k,
        {
            let ghost k0 = k;
            let ghost start_of_round = *self;
            k = k + 1;
            assert(from < k);
            let temporary = match self.tables.get(k) {
                Some(t) => t.temporary,
                None => false,
            };
            assert(temporary == (start_of_round.tables_map().contains_key(k) && start_of_round.tables_map()[k].temporary));
            if temporary {
                let ghost before = *self;
                self.tables.remove(k);
                proof {
                    assert forall|i: int, j: int|
                        0 <= i < self.database.schemas@.len() && 0 <= j < self.database.schemas@[i].tables@.len() implies {
                        let x = (#[trigger] self.database.schemas@[i].tables@[j]).0;
                        self.tables_map().contains_key(x) && !self.tables_map()[x].temporary
                    } by {
                        let x = self.database.schemas@[i].tables@[j].0;
                        assert(before.tables_map().contains_key(x));
                    }
                    assert forall|x: usize| #[trigger] self.tables_map().contains_key(x) implies self.tables_map()[x].wf() && x <= self.last_table_index.0 by {
                        assert(before.tables_map().contains_key(x));
                    }
                }
            }
            proof {
                assert forall|x: usize| #[trigger] self.tables_map().contains_key(x) == (old(self).tables_map().contains_key(x)
                    && !(from < x <= k && old(self).tables_map()[x].temporary)) by {
                    if x != k {
                        assert(self.tables_map().contains_key(x) == start_of_round.tables_map().contains_key(x));
                    } else {
                        assert(start_of_round.tables_map().contains_key(x) == old(self).tables_map().contains_key(x));
                        if old(self).tables_map().contains_key(x) {
                            assert(start_of_round.tables_map()[x] == old(self).tables_map()[x]);
                        }
                        if !temporary {
                            assert(self.tables_map() == start_of_round.tables_map());
                        }
                    }
                }
                assert forall|x: usize| #[trigger] self.tables_map().contains_key(x) implies self.tables_map()[x] == old(self).tables_map()[x] by {
                    assert(start_of_round.tables_map().contains_key(x));
                }
            }
        }
        proof {
            assert forall|x: usize| #[trigger] self.tables_map().contains_key(x) == (old(self).tables_map().contains_key(x)
                && !(x > from && old(self).tables_map()[x].temporary)) by {
                if old(self).tables_map().contains_key(x) {
                    assert(x <= last);
                }
            }
        }
    }

    /// Runs a lowered statement: its instructions in order, up to the first
    /// that fails or returns. Registers and the temporary tables of the
    /// statement do not outlive it; what it did to the catalog stays, also
    /// when it fails.
    pub fn execute_ic(&mut self, ic: &IntermediateCode) -> (r: Result<Option<Table>, RuntimeError>)
        requires
            old(self).wf(),
        ensures
            final(self).wf(),
            exists|states: Seq<VirtualMachine>, last: VirtualMachine| {
                &&& #[trigger] runs(ic.instrs@, states)
                &&& states[0] == *old(self)
                &&& if states.len() - 1 == ic.instrs@.len() {
                    r == Ok::<Option<Table>, RuntimeError>(None) && last == states.last()
                } else {
                    step(states.last(), ic.instrs@[states.len() - 1], last, r)
                        && r != Ok::<Option<Table>, RuntimeError>(None)
                }
                &&& #[trigger] finished(last, *final(self), old(self).last_table_index.0)
            },
    {
        let start = self.last_table_index.0;
        let mut ret: Option<Table> = None;
        let ghost mut states: Seq<VirtualMachine> = seq![*self];
        let mut i: usize = 0;
        while i < ic.instrs.len()
            invariant
                self.wf(),
                i <= ic.instrs@.len(),
                ret is None,
                states.len() == i + 1,
                runs(ic.instrs@, states),
                states[0] == *old(self),
                states.last() == *self,
                start == old(self).last_table_index.0,
            decreases ic.instrs@.len() - i,
        {
            let ghost prev = *self;
            let r = self.execute_instr(&ic.instrs[i]);
            match r {
                Ok(None) => {},
                _ => {
                    let ghost last = *self;
                    self.drop_temporaries(start);
                    let ghost dropped = *self;
                    self.registers = RegisterFile::new();
                    assert(self.tables_map() == dropped.tables_map());
                    assert(finished(last, *self, start));
                    return r;
                },
            }
            proof {
                let old_states = states;
                states = states.push(*self);
                assert forall|j: int| 0 <= j < states.len() - 1 implies step(
                    #[trigger] states[j],
                    ic.instrs@[j],
                    states[j + 1],
                    Ok::<Option<Table>, RuntimeError>(None),
                ) by {
                    if j < old_states.len() - 1 {
                        assert(states[j] == old_states[j] && states[j + 1] == old_states[j + 1]);
                    }
                }
            }
            i = i + 1;
        }
        let ghost last = *self;
        self.drop_temporaries(start);
        let ghost dropped = *self;
        self.registers = RegisterFile::new();
        assert(self.tables_map() == dropped.tables_map());
        assert(finished(last, *self, start));
        Ok(ret)
    }
}

impl Default for VirtualMachine {
    /// A machine whose database and default schema are named `default`, with
    /// no tables and no registers.
    fn default() -> (vm: VirtualMachine)
        ensures
            vm.wf(),
            vm.database.name@ == seq!['d', 'e', 'f', 'a', 'u', 'l', 't'],
            vm.database.schemas@.len() == 1,
            vm.database.schemas@[0].name@ == seq!['d', 'e', 'f', 'a', 'u', 'l', 't'],
            vm.database.schemas@[0].tables@.len() == 0,
            vm.last_table_index.0 == 0,
            forall|k: usize| !vm.tables_map().contains_key(k),
            forall|k: usize| !vm.registers_map().contains_key(k),
    {
        proof {
            reveal_strlit("default");
        }
        let vm = VirtualMachine::new("default".to_owned());
        assert("default"@ == seq!['d', 'e', 'f', 'a', 'u', 'l', 't']);
        vm
    }
}

/// The operation that found a register of the wrong kind.
#[derive(Debug, Clone, Copy, PartialEq, Eq, Structural)]
pub enum Operation {
    Filter,
    Project,
    OrderBy,
    Limit,
    AddColumnOption,
    AddColumn,
    NewTable,
    InsertDef,
    RowDef,
    AddValue,
    Insert,
}

/// The kind of value a register holds.
#[derive(Debug, Clone, Copy, PartialEq, Eq, Structural)]
pub enum RegisterKind {
    TableRef,
    GroupedTable,
    TableDef,
    Column,
    InsertDef,
    InsertRow,
    Value,
    Expr,
}

pub open spec fn kind_of(r: Register) -> RegisterKind {
    match r {
        Register::TableRef(_) => RegisterKind::TableRef,
        Register::GroupedTable { .. } => RegisterKind::GroupedTable,
        Register::TableDef(_) => RegisterKind::TableDef,
        Register::Column(_) => RegisterKind::Column,
        Register::InsertDef(_) => RegisterKind::InsertDef,
        Register::InsertRow(_) => RegisterKind::InsertRow,
        Register::Value(_) => RegisterKind::Value,
        Register::Expr(_) => RegisterKind::Expr,
    }
}

impl Register {
    pub fn kind(&self) -> (k: RegisterKind)
        ensures
            k == kind_of(*self),
    {
        match self {
            Register::TableRef(_) => RegisterKind::TableRef,
            Register::GroupedTable { .. } => RegisterKind::GroupedTable,
            Register::TableDef(_) => RegisterKind::TableDef,
            Register::Column(_) => RegisterKind::Column,
            Register::InsertDef(_) => RegisterKind::InsertDef,
            Register::InsertRow(_) => RegisterKind::InsertRow,
            Register::Value(_) => RegisterKind::Value,
            Register::Expr(_) => RegisterKind::Expr,
        }
    }
}

/// A failure while running intermediate code.
#[derive(Debug)]
pub enum RuntimeError {
    ColumnNotFound(String),
    TableNotFound(TableRef),
    TableExists(TableRef),
    SchemaNotFound(String),
    SchemaExists(String),
    EmptyRegister(RegisterIndex),
    RegisterKindMismatch(Operation, RegisterKind),
    CannotReturn(RegisterKind),
    FilterWithNonBoolean(Value),
    ProjectTableSizeMismatch { inp_table_len: usize, out_table_len: usize },
    ProjectOntoInput(TableIndex),
    InsertArityMismatch { expected: usize, got: usize },
    DanglingTable(TableIndex),
    TableIndexExhausted,
    TableTooLarge(TableIndex),
    ExprError(ExprError),
    Unsupported(InstructionKind),
}

/// A failure of a whole statement: in parsing, in lowering, or at run time.
#[derive(Debug)]
pub enum ExecutionError {
    ParseError(String),
    CodegenError(String),
    RuntimeError(RuntimeError),
}

impl From<ExprError> for RuntimeError {
    fn from(e: ExprError) -> (r: RuntimeError)
        ensures
            r == RuntimeError::ExprError(e),
    {
        RuntimeError::ExprError(e)
    }
}

impl vstd::std_specs::convert::FromSpecImpl<ExprError> for RuntimeError {
    open spec fn obeys_from_spec() -> bool {
        true
    }

    open spec fn from_spec(e: ExprError) -> RuntimeError {
        RuntimeError::ExprError(e)
    }
}

impl From<RuntimeError> for ExecutionError {
    fn from(e: RuntimeError) -> (r: ExecutionError)
        ensures
            r == ExecutionError::RuntimeError(e),
    {
        ExecutionError::RuntimeError(e)
    }
}

impl vstd::std_specs::convert::FromSpecImpl<RuntimeError> for ExecutionError {
    open spec fn obeys_from_spec() -> bool {
        true
    }

    open spec fn from_spec(e: RuntimeError) -> ExecutionError {
        ExecutionError::RuntimeError(e)
    }
}
} // verus!
