use wasm_luau::ast::factory::{Factory, TypeInfo};
use wasm_luau::ast::node::{
    Align, BinOp, Block, Br, BrIf, BrTable, Call, CmpOp, Expression, FuncData, If, LabelType, LoadAt,
    Local, ResultList, SetLocal, SetTemporary, Statement, StoreAt, Temporary, Terminator, Value,
};
use wasm_luau::ast::operator::{
    BinOpKind, BinOpType, BlockType, CmpOpKind, CmpOpType, LoadType, MemArg, NumType, Operator, StoreType,
    ValType,
};

fn info() -> TypeInfo {
    // type 0: () -> (), type 1: (i32) -> (i32), type 2: (i32, i32) -> ()
    TypeInfo { type_list: vec![(0, 0), (1, 1), (2, 0)], func_list: vec![0, 1, 2] }
}

fn lift(list: &[Operator]) -> Option<FuncData> {
    let info = info();
    let mut factory = Factory::from_type_info(&info);
    factory.try_create_anonymous(list)
}

fn temp(var: usize) -> Box<Expression> {
    Box::new(Expression::GetTemporary(Temporary { var }))
}

fn constant(value: i32) -> Box<Expression> {
    Box::new(Expression::Value(Value::I32(value)))
}

fn set_temp(var: usize, value: Box<Expression>) -> Statement {
    Statement::SetTemporary(SetTemporary { var: Temporary { var }, value })
}

fn br(target: usize, new: usize, old: usize, length: usize) -> Br {
    Br { target, align: Align { new, old, length } }
}

const I32_ADD: BinOpType = BinOpType { kind: BinOpKind::Add, ty: NumType::I32 };

#[test]
fn constant_is_spilled_at_the_end() {
    let func = lift(&[Operator::I32Const { value: 7 }, Operator::End]).unwrap();
    assert_eq!(func.num_param, 0);
    assert_eq!(func.num_result, 1);
    assert_eq!(func.num_stack, 1);
    assert!(func.local_data.is_empty());
    assert_eq!(
        func.code,
        Block { label_type: None, code: vec![set_temp(0, constant(7))], last: None }
    );
}

#[test]
fn operands_keep_their_order() {
    let func = lift(&[
        Operator::I32Const { value: 1 },
        Operator::I32Const { value: 2 },
        Operator::BinOp(I32_ADD),
        Operator::End,
    ])
    .unwrap();
    let sum = Expression::BinOp(BinOp { op_type: I32_ADD, lhs: constant(1), rhs: constant(2) });
    assert_eq!(func.code.code, vec![set_temp(0, Box::new(sum))]);
}

#[test]
fn comparison_with_zero_becomes_comparison_with_constant() {
    let func = lift(&[Operator::I32Const { value: 5 }, Operator::I32Eqz, Operator::End]).unwrap();
    let test = Expression::CmpOp(CmpOp {
        op_type: CmpOpType { kind: CmpOpKind::Eq, ty: NumType::I32 },
        lhs: constant(5),
        rhs: constant(0),
    });
    assert_eq!(func.code.code, vec![set_temp(0, Box::new(test))]);
}

#[test]
fn backward_branch_labels_the_loop() {
    let func = lift(&[
        Operator::Loop { blockty: BlockType::Empty },
        Operator::Br { relative_depth: 0 },
        Operator::End,
        Operator::I32Const { value: 0 },
        Operator::End,
    ])
    .unwrap();
    let inner = Block {
        label_type: Some(LabelType::Backward),
        code: vec![],
        last: Some(Box::new(Terminator::Br(br(0, 0, 0, 0)))),
    };
    assert_eq!(func.code.label_type, None);
    assert_eq!(func.code.code, vec![Statement::Block(inner), set_temp(0, constant(0))]);
}

#[test]
fn forward_branch_labels_the_block() {
    let func = lift(&[
        Operator::Block { blockty: BlockType::Empty },
        Operator::Br { relative_depth: 0 },
        Operator::End,
        Operator::I32Const { value: 0 },
        Operator::End,
    ])
    .unwrap();
    match &func.code.code[0] {
        Statement::Block(b) => {
            assert_eq!(b.label_type, Some(LabelType::Forward));
            assert_eq!(b.last, Some(Box::new(Terminator::Br(br(0, 0, 0, 0)))));
        }
        other => panic!("unexpected statement {:?}", other),
    }
}

#[test]
fn block_without_branch_has_no_label() {
    let func = lift(&[
        Operator::Block { blockty: BlockType::Empty },
        Operator::Nop,
        Operator::End,
        Operator::I32Const { value: 0 },
        Operator::End,
    ])
    .unwrap();
    assert_eq!(
        func.code.code[0],
        Statement::Block(Block { label_type: None, code: vec![], last: None })
    );
}

#[test]
fn multi_level_branch_labels_the_outer_block() {
    let func = lift(&[
        Operator::Block { blockty: BlockType::Empty },
        Operator::Block { blockty: BlockType::Empty },
        Operator::Br { relative_depth: 1 },
        Operator::End,
        Operator::End,
        Operator::I32Const { value: 0 },
        Operator::End,
    ])
    .unwrap();
    let inner = Block {
        label_type: None,
        code: vec![],
        last: Some(Box::new(Terminator::Br(br(1, 0, 0, 0)))),
    };
    let outer = Block { label_type: Some(LabelType::Forward), code: vec![Statement::Block(inner)], last: None };
    assert_eq!(func.code.code[0], Statement::Block(outer));
}

#[test]
fn return_targets_the_outermost_block() {
    let func = lift(&[
        Operator::Block { blockty: BlockType::Empty },
        Operator::I32Const { value: 3 },
        Operator::Return,
        Operator::End,
        Operator::I32Const { value: 4 },
        Operator::End,
    ])
    .unwrap();
    assert_eq!(func.code.label_type, Some(LabelType::Forward));
    match &func.code.code[0] {
        Statement::Block(b) => {
            assert_eq!(b.label_type, None);
            assert_eq!(b.code, vec![set_temp(0, constant(3))]);
            // one value is carried from slot 0 to slot 0
            assert_eq!(b.last, Some(Box::new(Terminator::Br(br(1, 0, 0, 1)))));
        }
        other => panic!("unexpected statement {:?}", other),
    }
}

#[test]
fn if_without_else_has_one_arm() {
    let func = lift(&[
        Operator::LocalGet { local_index: 0 },
        Operator::If { blockty: BlockType::Type(ValType::I32) },
        Operator::I32Const { value: 1 },
        Operator::End,
        Operator::End,
    ])
    .unwrap();
    let then = Block { label_type: None, code: vec![set_temp(0, constant(1))], last: None };
    let expected = Statement::If(If {
        condition: Box::new(Expression::GetLocal(Local { var: 0 })),
        on_true: Box::new(then),
        on_false: None,
    });
    assert_eq!(func.code.code, vec![expected]);
    assert_eq!(func.num_stack, 1);
}

#[test]
fn both_arms_write_the_same_slot() {
    let func = lift(&[
        Operator::LocalGet { local_index: 0 },
        Operator::If { blockty: BlockType::Type(ValType::I32) },
        Operator::I32Const { value: 1 },
        Operator::Else,
        Operator::I32Const { value: 2 },
        Operator::End,
        Operator::End,
    ])
    .unwrap();
    let then = Block { label_type: None, code: vec![set_temp(0, constant(1))], last: None };
    let other = Block { label_type: None, code: vec![set_temp(0, constant(2))], last: None };
    let expected = Statement::If(If {
        condition: Box::new(Expression::GetLocal(Local { var: 0 })),
        on_true: Box::new(then),
        on_false: Some(Box::new(other)),
    });
    assert_eq!(func.code.code, vec![expected]);
}

#[test]
fn call_is_a_barrier_for_globals_but_not_for_constants() {
    // function 1 takes one value and leaves one
    let func = lift(&[
        Operator::I32Const { value: 5 },
        Operator::GlobalGet { global_index: 2 },
        Operator::LocalGet { local_index: 0 },
        Operator::Call { function_index: 1 },
        Operator::LocalGet { local_index: 0 },
        Operator::BinOp(I32_ADD),
        Operator::Drop,
        Operator::Drop,
        Operator::End,
    ])
    .unwrap();
    let call = Statement::Call(Call {
        function: 1,
        param_list: vec![Expression::GetLocal(Local { var: 0 })],
        result_list: ResultList { start: 2, end: 3 },
    });
    let global = Expression::GetGlobal(wasm_luau::ast::node::GetGlobal { var: 2 });
    assert_eq!(
        func.code.code,
        vec![set_temp(1, Box::new(global)), call, set_temp(0, constant(5))]
    );
    assert_eq!(func.num_stack, 3);
}

#[test]
fn local_read_after_call_is_fresh() {
    let func = lift(&[
        Operator::LocalGet { local_index: 0 },
        Operator::Call { function_index: 1 },
        Operator::LocalGet { local_index: 0 },
        Operator::BinOp(I32_ADD),
        Operator::End,
    ])
    .unwrap();
    let call = Statement::Call(Call {
        function: 1,
        param_list: vec![Expression::GetLocal(Local { var: 0 })],
        result_list: ResultList { start: 0, end: 1 },
    });
    let sum = Expression::BinOp(BinOp {
        op_type: I32_ADD,
        lhs: temp(0),
        rhs: Box::new(Expression::GetLocal(Local { var: 0 })),
    });
    assert_eq!(func.code.code, vec![call, set_temp(0, Box::new(sum))]);
}

#[test]
fn local_write_spills_pending_reads_of_that_local() {
    let func = lift(&[
        Operator::LocalGet { local_index: 0 },
        Operator::LocalGet { local_index: 1 },
        Operator::I32Const { value: 9 },
        Operator::LocalSet { local_index: 0 },
        Operator::BinOp(I32_ADD),
        Operator::End,
    ])
    .unwrap();
    let set = Statement::SetLocal(SetLocal { var: Local { var: 0 }, value: constant(9) });
    let sum = Expression::BinOp(BinOp {
        op_type: I32_ADD,
        lhs: temp(0),
        rhs: Box::new(Expression::GetLocal(Local { var: 1 })),
    });
    assert_eq!(
        func.code.code,
        vec![
            set_temp(0, Box::new(Expression::GetLocal(Local { var: 0 }))),
            set,
            set_temp(0, Box::new(sum)),
        ]
    );
}

#[test]
fn local_tee_keeps_a_read_on_the_stack() {
    let func = lift(&[
        Operator::I32Const { value: 4 },
        Operator::LocalTee { local_index: 3 },
        Operator::End,
    ])
    .unwrap();
    let set = Statement::SetLocal(SetLocal { var: Local { var: 3 }, value: constant(4) });
    assert_eq!(
        func.code.code,
        vec![set, set_temp(0, Box::new(Expression::GetLocal(Local { var: 3 })))]
    );
}

#[test]
fn conditional_branch_keeps_the_block_open() {
    let func = lift(&[
        Operator::Block { blockty: BlockType::Empty },
        Operator::LocalGet { local_index: 0 },
        Operator::BrIf { relative_depth: 0 },
        Operator::End,
        Operator::I32Const { value: 0 },
        Operator::End,
    ])
    .unwrap();
    let inner = Block {
        label_type: Some(LabelType::Forward),
        code: vec![Statement::BrIf(BrIf {
            condition: Box::new(Expression::GetLocal(Local { var: 0 })),
            target: br(0, 0, 0, 0),
        })],
        last: None,
    };
    assert_eq!(func.code.code[0], Statement::Block(inner));
}

#[test]
fn branch_table_collects_one_branch_per_target() {
    let func = lift(&[
        Operator::Block { blockty: BlockType::Empty },
        Operator::I32Const { value: 5 },
        Operator::LocalGet { local_index: 0 },
        Operator::BrTable { targets: vec![0, 1, 0], default: 1 },
        Operator::End,
        Operator::I32Const { value: 0 },
        Operator::End,
    ])
    .unwrap();
    let table = BrTable {
        condition: Box::new(Expression::GetLocal(Local { var: 0 })),
        data: vec![br(0, 0, 1, 0), br(1, 0, 0, 1), br(0, 0, 1, 0)],
        default: br(1, 0, 0, 1),
    };
    match &func.code.code[0] {
        Statement::Block(b) => {
            assert_eq!(b.code, vec![set_temp(0, constant(5))]);
            assert_eq!(b.label_type, Some(LabelType::Forward));
            assert_eq!(b.last, Some(Box::new(Terminator::BrTable(table))));
        }
        other => panic!("unexpected statement {:?}", other),
    }
    assert_eq!(func.code.label_type, Some(LabelType::Forward));
}

#[test]
fn code_behind_a_branch_is_dropped() {
    let func = lift(&[
        Operator::Block { blockty: BlockType::Empty },
        Operator::Br { relative_depth: 0 },
        Operator::I32Const { value: 1 },
        Operator::Block { blockty: BlockType::Empty },
        Operator::End,
        Operator::Drop,
        Operator::End,
        Operator::I32Const { value: 0 },
        Operator::End,
    ])
    .unwrap();
    match &func.code.code[0] {
        Statement::Block(b) => assert!(b.code.is_empty()),
        other => panic!("unexpected statement {:?}", other),
    }
    assert_eq!(func.code.code.len(), 2);
}

#[test]
fn malformed_bodies_are_refused() {
    // empty body
    assert!(lift(&[]).is_none());
    // stack underflow
    assert!(lift(&[Operator::Drop, Operator::End]).is_none());
    assert!(lift(&[Operator::BinOp(I32_ADD), Operator::End]).is_none());
    // branch out of range
    assert!(lift(&[Operator::Br { relative_depth: 1 }, Operator::End]).is_none());
    // unknown function and type
    assert!(lift(&[Operator::Call { function_index: 9 }, Operator::End]).is_none());
    assert!(lift(&[
        Operator::Block { blockty: BlockType::FuncType(7) },
        Operator::End,
        Operator::End
    ])
    .is_none());
    // else without if
    assert!(lift(&[Operator::Else, Operator::End]).is_none());
    // end without block
    assert!(lift(&[Operator::End, Operator::End]).is_none());
    // block left open
    assert!(lift(&[Operator::Block { blockty: BlockType::Empty }, Operator::End]).is_none());
    // unsupported operator
    assert!(lift(&[Operator::Unsupported, Operator::End]).is_none());
}

#[test]
fn indexed_function_takes_its_signature_from_the_type() {
    let info = info();
    let mut factory = Factory::from_type_info(&info);
    let func = factory
        .try_create_indexed(
            1,
            &[Operator::LocalGet { local_index: 0 }, Operator::End],
            vec![ValType::I64],
        )
        .unwrap();
    assert_eq!(func.num_param, 1);
    assert_eq!(func.num_result, 1);
    assert_eq!(func.local_data, vec![ValType::I64]);
    assert!(factory.try_create_indexed(5, &[Operator::End], vec![]).is_none());
}

#[test]
fn factory_can_be_used_again_after_a_refusal() {
    let info = info();
    let mut factory = Factory::from_type_info(&info);
    assert!(factory
        .try_create_anonymous(&[Operator::Block { blockty: BlockType::Empty }, Operator::Drop, Operator::End])
        .is_none());
    let func = factory.create_anonymous(&[Operator::I32Const { value: 1 }, Operator::End]);
    assert_eq!(func.code.code, vec![set_temp(0, constant(1))]);
}

#[test]
fn call_spills_what_loads_but_keeps_plain_reads() {
    // function 0 takes nothing and leaves nothing
    let func = lift(&[
        Operator::LocalGet { local_index: 1 },
        Operator::LocalGet { local_index: 0 },
        Operator::I32Const { value: 16 },
        Operator::Load { load_type: LoadType::I32, memarg: MemArg { memory: 0, offset: 0 } },
        Operator::BinOp(I32_ADD),
        Operator::Call { function_index: 0 },
        Operator::BinOp(I32_ADD),
        Operator::End,
    ])
    .unwrap();
    let load = Expression::LoadAt(LoadAt {
        load_type: LoadType::I32,
        memory: 0,
        offset: 0,
        pointer: constant(16),
    });
    let mixed = Expression::BinOp(BinOp {
        op_type: I32_ADD,
        lhs: Box::new(Expression::GetLocal(Local { var: 0 })),
        rhs: Box::new(load),
    });
    let call = Statement::Call(Call { function: 0, param_list: vec![], result_list: ResultList { start: 2, end: 2 } });
    let sum = Expression::BinOp(BinOp {
        op_type: I32_ADD,
        lhs: Box::new(Expression::GetLocal(Local { var: 1 })),
        rhs: temp(1),
    });
    assert_eq!(func.code.code, vec![set_temp(1, Box::new(mixed)), call, set_temp(0, Box::new(sum))]);
    assert_eq!(func.num_stack, 2);
}

#[test]
fn store_spills_loads_from_the_same_memory_only() {
    let at = |memory: u32| MemArg { memory, offset: 0 };
    let func = lift(&[
        Operator::I32Const { value: 1 },
        Operator::Load { load_type: LoadType::I32, memarg: at(0) },
        Operator::I32Const { value: 2 },
        Operator::Load { load_type: LoadType::I32, memarg: at(1) },
        Operator::I32Const { value: 3 },
        Operator::I32Const { value: 4 },
        Operator::Store { store_type: StoreType::I32, memarg: at(1) },
        Operator::BinOp(I32_ADD),
        Operator::End,
    ])
    .unwrap();
    let load = |memory: usize, pointer: i32| {
        Expression::LoadAt(LoadAt { load_type: LoadType::I32, memory, offset: 0, pointer: constant(pointer) })
    };
    let store = Statement::StoreAt(StoreAt {
        store_type: StoreType::I32,
        memory: 1,
        offset: 0,
        pointer: constant(3),
        value: constant(4),
    });
    let sum = Expression::BinOp(BinOp { op_type: I32_ADD, lhs: Box::new(load(0, 1)), rhs: temp(1) });
    assert_eq!(
        func.code.code,
        vec![set_temp(1, Box::new(load(1, 2))), store, set_temp(0, Box::new(sum))]
    );
}

#[test]
fn steps_of_the_lifter() {
    let info = info();
    let mut factory = Factory::from_type_info(&info);
    // no block is open around the body
    assert!(!factory.end_block());
    assert!(factory.get_br_terminator(1).is_none());
    assert!(factory.add_instruction(&Operator::I32Const { value: 1 }));
    assert!(factory.start_block(BlockType::Type(ValType::I32), wasm_luau::ast::factory::BlockVariant::Forward));
    assert!(factory.add_instruction(&Operator::I32Const { value: 2 }));
    // a branch out of the block carries one value from slot 1 to slot 1
    assert_eq!(factory.get_br_terminator(0), Some(br(0, 1, 1, 1)));
    // a branch to the body carries none at first: no result count is set
    assert_eq!(factory.get_br_terminator(1), Some(br(1, 0, 2, 0)));
    assert!(factory.get_br_terminator(2).is_none());
    assert!(!factory.start_else());
    assert!(factory.drop_unreachable(&Operator::Unsupported));
    assert!(factory.end_block());
    assert!(!factory.end_block());
    assert!(!factory.add_call(9));
    assert!(factory.add_call(0));
    assert!(!factory.add_call_indirect(9, 0));
}

#[test]
fn closed_block_raises_the_count_of_temporaries() {
    let func = lift(&[
        Operator::Block { blockty: BlockType::Empty },
        Operator::I32Const { value: 1 },
        Operator::I32Const { value: 2 },
        Operator::I32Const { value: 3 },
        Operator::Block { blockty: BlockType::Empty },
        Operator::End,
        Operator::Drop,
        Operator::Drop,
        Operator::Drop,
        Operator::End,
        Operator::I32Const { value: 0 },
        Operator::End,
    ])
    .unwrap();
    // three values were stored inside the outer block, one outside
    assert_eq!(func.num_stack, 3);
}

#[test]
fn unsupported_operator_in_dead_code_is_dropped() {
    let func = lift(&[
        Operator::Block { blockty: BlockType::Empty },
        Operator::Br { relative_depth: 0 },
        Operator::Unsupported,
        Operator::End,
        Operator::I32Const { value: 0 },
        Operator::End,
    ])
    .unwrap();
    assert_eq!(func.code.code.len(), 2);
    assert!(lift(&[
        Operator::Block { blockty: BlockType::Empty },
        Operator::Unsupported,
        Operator::End,
        Operator::I32Const { value: 0 },
        Operator::End,
    ])
    .is_none());
}

#[test]
fn offsets_beyond_32_bits() {
    let wide = MemArg { memory: 0, offset: 0x1_0000_0000 };
    let list = [
        Operator::I32Const { value: 1 },
        Operator::Load { load_type: LoadType::I32, memarg: wide },
        Operator::End,
    ];
    match lift(&list) {
        Some(func) => {
            assert_eq!(usize::BITS, 64);
            let load = Expression::LoadAt(LoadAt {
                load_type: LoadType::I32,
                memory: 0,
                offset: 0x1_0000_0000_u64 as usize,
                pointer: constant(1),
            });
            assert_eq!(func.code.code, vec![set_temp(0, Box::new(load))]);
            let text = wasm_luau::backend::statement::write_function(&func).unwrap();
            assert!(text.contains("reg_0 = rt_load_i32(memory_at_0, 1 + 4294967296)"), "{}", text);
        }
        None => assert!(usize::BITS < 64),
    }
}
