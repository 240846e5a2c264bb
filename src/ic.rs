//! The intermediate code: a straight-line list of register instructions.
use vstd::prelude::*;
use crate::value::{DataType, Value};
use crate::table::ColumnOption;
use crate::expr::Expr;
use crate::vm::RegisterIndex;

verus! {

/// A reference to a table, optionally qualified by its schema.
#[derive(Debug, Clone)]
pub struct TableRef {
    pub schema_name: Option<String>,
    pub table_name: String,
}

impl TableRef {
    /// A copy of this reference.
    pub fn duplicate(&self) -> (r: TableRef)
        ensures
            r == *self,
    {
        let schema_name = match &self.schema_name {
            Some(n) => Some(n.clone()),
            None => None,
        };
        TableRef { schema_name, table_name: self.table_name.clone() }
    }
}

/// One instruction of the machine.
#[derive(Debug)]
pub enum Instruction {
    Value { index: RegisterIndex, value: Value },
    Expr { index: RegisterIndex, expr: Expr },
    Source { index: RegisterIndex, name: TableRef },
    Empty { index: RegisterIndex },
    Return { index: RegisterIndex },
    Filter { index: RegisterIndex, expr: Expr },
    Project { input: RegisterIndex, output: RegisterIndex, expr: Expr, alias: Option<String> },
    GroupBy { index: RegisterIndex, expr: Expr },
    Order { index: RegisterIndex, expr: Expr, ascending: bool },
    Limit { index: RegisterIndex, limit: u64 },
    NewSchema { schema_name: String, exists_ok: bool },
    ColumnDef { index: RegisterIndex, name: String, data_type: DataType },
    AddColumnOption { index: RegisterIndex, option: ColumnOption },
    AddColumn { table_reg_index: RegisterIndex, col_index: RegisterIndex },
    NewTable { index: RegisterIndex, name: TableRef, exists_ok: bool },
    DropTable { index: RegisterIndex },
    RemoveColumn { index: RegisterIndex, col_name: String },
    RenameColumn { index: RegisterIndex, old_name: String, new_name: String },
    InsertDef { table_reg_index: RegisterIndex, index: RegisterIndex },
    ColumnInsertDef { insert_index: RegisterIndex, col_name: String },
    RowDef { insert_index: RegisterIndex, row_index: RegisterIndex },
    AddValue { row_index: RegisterIndex, expr: Expr },
    Insert { index: RegisterIndex },
    Update { index: RegisterIndex, col: String, expr: Expr },
    Union { input1: RegisterIndex, input2: RegisterIndex, output: RegisterIndex },
    CrossJoin { input1: RegisterIndex, input2: RegisterIndex, output: RegisterIndex },
    NaturalJoin { input1: RegisterIndex, input2: RegisterIndex, output: RegisterIndex },
}

/// The kind of an instruction, for error reports.
#[derive(Debug, Clone, Copy, PartialEq, Eq, Structural)]
pub enum InstructionKind {
    GroupBy,
    Update,
    DropTable,
    RemoveColumn,
    RenameColumn,
    Union,
    CrossJoin,
    NaturalJoin,
    ColumnInsertDef,
}

/// A lowered statement.
#[derive(Debug)]
pub struct IntermediateCode {
    pub instrs: Vec<Instruction>,
}

} // verus!
