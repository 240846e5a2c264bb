use sqlvm::expr::{BinOp, ColumnRef, Expr, ExprError, UnOp};
use sqlvm::ic::{Instruction, InstructionKind, IntermediateCode, TableRef};
use sqlvm::table::Table;
use sqlvm::value::{DataType, Value};
use sqlvm::vm::{RegisterIndex, RuntimeError, TableIndex, VirtualMachine, InsertDef};

fn r(i: usize) -> RegisterIndex {
    RegisterIndex(i)
}

fn col(name: &str) -> Expr {
    Expr::ColumnRef(ColumnRef { table: None, name: name.to_string() })
}

fn lit(i: i64) -> Expr {
    Expr::Value(Value::Int(i))
}

fn bin(l: Expr, op: BinOp, rr: Expr) -> Expr {
    Expr::Binary { left: Box::new(l), op, right: Box::new(rr) }
}

fn t_ref(name: &str) -> TableRef {
    TableRef { schema_name: None, table_name: name.to_string() }
}

fn run(vm: &mut VirtualMachine, instrs: Vec<Instruction>) -> Result<Option<Table>, RuntimeError> {
    vm.execute_ic(&IntermediateCode { instrs })
}

fn ints(t: &Table) -> Vec<Vec<i64>> {
    t.raw_data
        .iter()
        .map(|row| {
            row.data
                .iter()
                .map(|v| match v {
                    Value::Int(i) => *i,
                    other => panic!("not an integer: {:?}", other),
                })
                .collect()
        })
        .collect()
}

/// CREATE TABLE t(a INT, b INT); INSERT INTO t VALUES (1,2),(3,4);
fn setup(vm: &mut VirtualMachine) {
    let create = vec![
        Instruction::Empty { index: r(0) },
        Instruction::ColumnDef { index: r(1), name: "a".to_string(), data_type: DataType::Int },
        Instruction::AddColumn { table_reg_index: r(0), col_index: r(1) },
        Instruction::ColumnDef { index: r(2), name: "b".to_string(), data_type: DataType::Int },
        Instruction::AddColumn { table_reg_index: r(0), col_index: r(2) },
        Instruction::NewTable { index: r(0), name: t_ref("t"), exists_ok: false },
    ];
    assert!(run(vm, create).unwrap().is_none());
    let insert = vec![
        Instruction::Source { index: r(0), name: t_ref("t") },
        Instruction::InsertDef { table_reg_index: r(0), index: r(1) },
        Instruction::RowDef { insert_index: r(1), row_index: r(2) },
        Instruction::AddValue { row_index: r(2), expr: lit(1) },
        Instruction::AddValue { row_index: r(2), expr: lit(2) },
        Instruction::RowDef { insert_index: r(1), row_index: r(3) },
        Instruction::AddValue { row_index: r(3), expr: lit(3) },
        Instruction::AddValue { row_index: r(3), expr: lit(4) },
        Instruction::Insert { index: r(1) },
    ];
    assert!(run(vm, insert).unwrap().is_none());
}

#[test]
fn create_vm() {
    let _ = VirtualMachine::default();
}

#[test]
fn select_one() {
    let mut vm = VirtualMachine::default();
    let t = run(&mut vm, vec![
        Instruction::Value { index: r(0), value: Value::Int(1) },
        Instruction::Return { index: r(0) },
    ])
    .unwrap()
    .unwrap();
    assert_eq!(t.columns.len(), 1);
    assert_eq!(t.columns[0].name, "?column?");
    assert_eq!(t.columns[0].data_type, DataType::Int);
    assert_eq!(ints(&t), vec![vec![1]]);
}

#[test]
fn select_where() {
    let mut vm = VirtualMachine::default();
    setup(&mut vm);
    let t = run(&mut vm, vec![
        Instruction::Source { index: r(0), name: t_ref("t") },
        Instruction::Empty { index: r(2) },
        Instruction::Project { input: r(0), output: r(2), expr: Expr::Wildcard, alias: None },
        Instruction::Filter { index: r(2), expr: bin(col("b"), BinOp::GreaterThan, lit(2)) },
        Instruction::Empty { index: r(1) },
        Instruction::Project { input: r(2), output: r(1), expr: col("a"), alias: None },
        Instruction::Return { index: r(1) },
    ])
    .unwrap()
    .unwrap();
    assert_eq!(t.columns.len(), 1);
    assert_eq!(ints(&t), vec![vec![3]]);
}

#[test]
fn select_sum_order_limit() {
    let mut vm = VirtualMachine::default();
    setup(&mut vm);
    let t = run(&mut vm, vec![
        Instruction::Source { index: r(0), name: t_ref("t") },
        Instruction::Empty { index: r(1) },
        Instruction::Project {
            input: r(0),
            output: r(1),
            expr: bin(col("a"), BinOp::Plus, col("b")),
            alias: Some("s".to_string()),
        },
        Instruction::Order { index: r(1), expr: col("s"), ascending: false },
        Instruction::Limit { index: r(1), limit: 1 },
        Instruction::Return { index: r(1) },
    ])
    .unwrap()
    .unwrap();
    assert_eq!(t.columns[0].name, "s");
    assert_eq!(ints(&t), vec![vec![7]]);
}

#[test]
fn select_star() {
    let mut vm = VirtualMachine::default();
    setup(&mut vm);
    let t = run(&mut vm, vec![
        Instruction::Source { index: r(0), name: t_ref("t") },
        Instruction::Empty { index: r(1) },
        Instruction::Project { input: r(0), output: r(1), expr: Expr::Wildcard, alias: None },
        Instruction::Return { index: r(1) },
    ])
    .unwrap()
    .unwrap();
    assert_eq!(t.columns.len(), 2);
    assert_eq!(t.columns[0].name, "a");
    assert_eq!(t.columns[1].name, "b");
    assert_eq!(ints(&t), vec![vec![1, 2], vec![3, 4]]);
}

#[test]
fn select_between() {
    let mut vm = VirtualMachine::default();
    setup(&mut vm);
    let between = bin(
        bin(lit(2), BinOp::LessThanOrEqual, col("a")),
        BinOp::And,
        bin(col("a"), BinOp::LessThanOrEqual, lit(10)),
    );
    let t = run(&mut vm, vec![
        Instruction::Source { index: r(0), name: t_ref("t") },
        Instruction::Empty { index: r(2) },
        Instruction::Project { input: r(0), output: r(2), expr: Expr::Wildcard, alias: None },
        Instruction::Filter { index: r(2), expr: between },
        Instruction::Empty { index: r(1) },
        Instruction::Project { input: r(2), output: r(1), expr: col("a"), alias: None },
        Instruction::Return { index: r(1) },
    ])
    .unwrap()
    .unwrap();
    assert_eq!(ints(&t), vec![vec![3]]);
}

#[test]
fn select_division_by_zero() {
    let mut vm = VirtualMachine::default();
    setup(&mut vm);
    let res = run(&mut vm, vec![
        Instruction::Source { index: r(0), name: t_ref("t") },
        Instruction::Empty { index: r(1) },
        Instruction::Project {
            input: r(0),
            output: r(1),
            expr: bin(col("a"), BinOp::Divide, lit(0)),
            alias: None,
        },
        Instruction::Return { index: r(1) },
    ]);
    assert!(matches!(res, Err(RuntimeError::ExprError(ExprError::DivisionByZero))));
    let all = run(&mut vm, vec![
        Instruction::Source { index: r(0), name: t_ref("t") },
        Instruction::Return { index: r(0) },
    ])
    .unwrap()
    .unwrap();
    assert_eq!(ints(&all), vec![vec![1, 2], vec![3, 4]]);
}

#[test]
fn where_leaves_stored_table_alone() {
    let mut vm = VirtualMachine::default();
    setup(&mut vm);
    run(&mut vm, vec![
        Instruction::Source { index: r(0), name: t_ref("t") },
        Instruction::Empty { index: r(2) },
        Instruction::Project { input: r(0), output: r(2), expr: Expr::Wildcard, alias: None },
        Instruction::Filter { index: r(2), expr: bin(col("b"), BinOp::GreaterThan, lit(2)) },
        Instruction::Return { index: r(2) },
    ])
    .unwrap();
    let all = run(&mut vm, vec![
        Instruction::Source { index: r(0), name: t_ref("t") },
        Instruction::Return { index: r(0) },
    ])
    .unwrap()
    .unwrap();
    assert_eq!(ints(&all), vec![vec![1, 2], vec![3, 4]]);
    let temp = vm.table(&TableIndex(1)).unwrap();
    assert_eq!(temp.name, "t");
}

#[test]
fn temp_names_and_registers_set_before_run() {
    let mut vm = VirtualMachine::default();
    vm.insert_register(r(5), sqlvm::vm::Register::Value(Value::Int(9)));
    let t = run(&mut vm, vec![Instruction::Return { index: r(5) }]).unwrap().unwrap();
    assert_eq!(ints(&t), vec![vec![9]]);
    assert!(vm.get_register(&r(5)).is_none());
    assert_eq!(Table::new_temp(407).name, "temp_407");
    assert_eq!(Table::new_temp(0).name, "temp_0");
}

#[test]
fn create_schema_twice() {
    let mut vm = VirtualMachine::default();
    let mk = |exists_ok| vec![Instruction::NewSchema { schema_name: "s".to_string(), exists_ok }];
    assert!(run(&mut vm, mk(false)).unwrap().is_none());
    assert!(matches!(run(&mut vm, mk(false)), Err(RuntimeError::SchemaExists(ref n)) if n == "s"));
    assert!(run(&mut vm, mk(true)).unwrap().is_none());
    assert_eq!(vm.database.schemas.len(), 2);
}

#[test]
fn reserved_instruction_is_unsupported() {
    let mut vm = VirtualMachine::default();
    let res = run(&mut vm, vec![Instruction::DropTable { index: r(0) }]);
    assert!(matches!(res, Err(RuntimeError::Unsupported(InstructionKind::DropTable))));
}

#[test]
fn next_indices() {
    assert_eq!(RegisterIndex(4).next_index(), RegisterIndex(5));
    assert_eq!(TableIndex(0).next_index(), TableIndex(1));
    let d = InsertDef::new(TableIndex(3));
    assert_eq!(d.table, TableIndex(3));
    assert!(d.columns.is_empty() && d.rows.is_empty());
}

#[test]
fn unary_and_null_logic() {
    let mut vm = VirtualMachine::default();
    let e = Expr::Unary { op: UnOp::IsNull, operand: Box::new(Expr::Value(Value::Null)) };
    let t = run(&mut vm, vec![
        Instruction::Empty { index: r(0) },
        Instruction::Empty { index: r(1) },
        Instruction::Project { input: r(0), output: r(1), expr: e, alias: None },
        Instruction::Return { index: r(1) },
    ])
    .unwrap()
    .unwrap();
    assert_eq!(t.columns[0].data_type, DataType::Boolean);
    assert!(t.raw_data.is_empty());
}

#[test]
fn runtime_error_variants() {
    let mut vm = VirtualMachine::default();
    setup(&mut vm);
    // Creating `t` again.
    let again = vec![
        Instruction::Empty { index: r(0) },
        Instruction::NewTable { index: r(0), name: t_ref("t"), exists_ok: false },
    ];
    assert!(matches!(run(&mut vm, again), Err(RuntimeError::TableExists(ref t)) if t.table_name == "t"));
    let again_ok = vec![
        Instruction::Empty { index: r(0) },
        Instruction::NewTable { index: r(0), name: t_ref("t"), exists_ok: true },
    ];
    assert!(run(&mut vm, again_ok).unwrap().is_none());
    assert!(matches!(
        run(&mut vm, vec![Instruction::Source { index: r(0), name: t_ref("nope") }]),
        Err(RuntimeError::TableNotFound(_))
    ));
    let qualified = TableRef { schema_name: Some("nope".to_string()), table_name: "t".to_string() };
    assert!(matches!(
        run(&mut vm, vec![Instruction::Source { index: r(0), name: qualified }]),
        Err(RuntimeError::SchemaNotFound(ref s)) if s == "nope"
    ));
    assert!(matches!(
        run(&mut vm, vec![Instruction::Return { index: r(3) }]),
        Err(RuntimeError::EmptyRegister(RegisterIndex(3)))
    ));
    assert!(matches!(
        run(&mut vm, vec![
            Instruction::Expr { index: r(0), expr: lit(1) },
            Instruction::Return { index: r(0) },
        ]),
        Err(RuntimeError::CannotReturn(_))
    ));
    assert!(matches!(
        run(&mut vm, vec![
            Instruction::Value { index: r(0), value: Value::Int(1) },
            Instruction::Limit { index: r(0), limit: 1 },
        ]),
        Err(RuntimeError::RegisterKindMismatch(_, _))
    ));
    assert!(matches!(
        run(&mut vm, vec![
            Instruction::Source { index: r(0), name: t_ref("t") },
            Instruction::Project { input: r(0), output: r(0), expr: col("a"), alias: None },
        ]),
        Err(RuntimeError::ProjectOntoInput(_))
    ));
    let short_row = vec![
        Instruction::Source { index: r(0), name: t_ref("t") },
        Instruction::InsertDef { table_reg_index: r(0), index: r(1) },
        Instruction::RowDef { insert_index: r(1), row_index: r(2) },
        Instruction::AddValue { row_index: r(2), expr: lit(1) },
        Instruction::Insert { index: r(1) },
    ];
    assert!(matches!(
        run(&mut vm, short_row),
        Err(RuntimeError::InsertArityMismatch { expected: 2, got: 1 })
    ));
    let named = vec![
        Instruction::Source { index: r(0), name: t_ref("t") },
        Instruction::InsertDef { table_reg_index: r(0), index: r(1) },
        Instruction::ColumnInsertDef { insert_index: r(1), col_name: "a".to_string() },
        Instruction::Insert { index: r(1) },
    ];
    assert!(matches!(
        run(&mut vm, named),
        Err(RuntimeError::Unsupported(InstructionKind::ColumnInsertDef))
    ));
    // The table still holds its two rows.
    let all = run(&mut vm, vec![
        Instruction::Source { index: r(0), name: t_ref("t") },
        Instruction::Return { index: r(0) },
    ])
    .unwrap()
    .unwrap();
    assert_eq!(ints(&all), vec![vec![1, 2], vec![3, 4]]);
}

#[test]
fn temporaries_do_not_outlive_statement() {
    let mut vm = VirtualMachine::default();
    setup(&mut vm);
    let before = vm.last_table_index;
    run(&mut vm, vec![
        Instruction::Source { index: r(0), name: t_ref("t") },
        Instruction::Empty { index: r(1) },
        Instruction::Project { input: r(0), output: r(1), expr: Expr::Wildcard, alias: None },
        Instruction::Return { index: r(1) },
    ])
    .unwrap();
    let temp = before.next_index();
    assert!(vm.table(&temp).is_none());
    // The user table `t` was made from the first temporary and is kept.
    assert!(vm.table(&TableIndex(1)).is_some());
    assert!(vm.get_register(&r(0)).is_none());
}

#[test]
fn schema_qualified_table() {
    let mut vm = VirtualMachine::default();
    let s = |t: &str| TableRef { schema_name: Some("s".to_string()), table_name: t.to_string() };
    run(&mut vm, vec![Instruction::NewSchema { schema_name: "s".to_string(), exists_ok: false }]).unwrap();
    run(&mut vm, vec![
        Instruction::Empty { index: r(0) },
        Instruction::ColumnDef { index: r(1), name: "x".to_string(), data_type: DataType::Text },
        Instruction::AddColumn { table_reg_index: r(0), col_index: r(1) },
        Instruction::NewTable { index: r(0), name: s("u"), exists_ok: false },
    ])
    .unwrap();
    run(&mut vm, vec![
        Instruction::Source { index: r(0), name: s("u") },
        Instruction::InsertDef { table_reg_index: r(0), index: r(1) },
        Instruction::RowDef { insert_index: r(1), row_index: r(2) },
        Instruction::AddValue { row_index: r(2), expr: Expr::Value(Value::Text("hi".to_string())) },
        Instruction::Insert { index: r(1) },
    ])
    .unwrap();
    assert!(matches!(
        run(&mut vm, vec![Instruction::Source { index: r(0), name: t_ref("u") }]),
        Err(RuntimeError::TableNotFound(_))
    ));
    let t = run(&mut vm, vec![
        Instruction::Source { index: r(0), name: s("u") },
        Instruction::Return { index: r(0) },
    ])
    .unwrap()
    .unwrap();
    assert_eq!(t.name, "u");
    assert!(matches!(&t.raw_data[0].data[0], Value::Text(x) if x == "hi"));
}
