use wasm_luau::ast::factory::{Factory, TypeInfo};
use wasm_luau::ast::node::{Align, Br, FuncData};
use wasm_luau::ast::operator::{BinOpKind, BinOpType, BlockType, MemArg, NumType, Operator, StoreType, ValType};
use wasm_luau::ast::node::{Block, LabelType, Statement, Terminator};
use wasm_luau::backend::manager::Manager;
use wasm_luau::backend::statement::{to_ordered_table, write_function};

fn translate(list: &[Operator]) -> String {
    let info = TypeInfo { type_list: vec![(0, 0), (1, 1), (2, 0)], func_list: vec![0, 1, 2] };
    let mut factory = Factory::from_type_info(&info);
    let func: FuncData = factory.try_create_anonymous(list).unwrap();
    write_function(&func).unwrap()
}

/// Translates the body of a function with one parameter and one result.
fn translate_unary(list: &[Operator]) -> String {
    let info = TypeInfo { type_list: vec![(0, 0), (1, 1), (2, 0)], func_list: vec![0, 1, 2] };
    let mut factory = Factory::from_type_info(&info);
    let func: FuncData = factory.try_create_indexed(1, list, vec![]).unwrap();
    write_function(&func).unwrap()
}

fn br(target: usize) -> Br {
    Br { target, align: Align { new: 0, old: 0, length: 0 } }
}

#[test]
fn constant_function() {
    let text = translate(&[Operator::I32Const { value: 7 }, Operator::End]);
    let expected = "function()\n\
                    \tlocal reg_0\n\
                    \twhile true do\n\
                    \t\treg_0 = 7\n\
                    \t\tbreak\n\
                    \tend\n\
                    \treturn reg_0\n\
                    end\n";
    assert_eq!(text, expected);
}

#[test]
fn negative_and_large_numbers() {
    let text = translate(&[Operator::I32Const { value: -12 }, Operator::End]);
    assert!(text.contains("\t\treg_0 = -12\n"));
    let text = translate(&[Operator::I32Const { value: i32::MIN }, Operator::End]);
    assert!(text.contains("\t\treg_0 = -2147483648\n"));
    let text = translate(&[Operator::I64Const { value: -1 }, Operator::Drop, Operator::I32Const { value: 0 }, Operator::End]);
    assert!(text.contains("reg_0 = 0"));
    let text = translate(&[Operator::I64Const { value: 0x1_0000_0005 }, Operator::End]);
    assert!(text.contains("\t\treg_0 = rt_i64_from_u32(5, 1)\n"));
    let text = translate(&[Operator::F64Const { bits: u64::MAX }, Operator::End]);
    assert!(text.contains("\t\treg_0 = rt_f64_from_bits(4294967295, 4294967295)\n"));
    let text = translate(&[Operator::F32Const { bits: 1065353216 }, Operator::End]);
    assert!(text.contains("\t\treg_0 = rt_f32_from_bits(1065353216)\n"));
}

#[test]
fn backward_branch_becomes_continue() {
    let text = translate(&[
        Operator::Loop { blockty: BlockType::Empty },
        Operator::Br { relative_depth: 0 },
        Operator::End,
        Operator::I32Const { value: 0 },
        Operator::End,
    ]);
    let expected = "function()\n\
                    \tlocal reg_0\n\
                    \twhile true do\n\
                    \t\twhile true do\n\
                    \t\t\tcontinue\n\
                    \t\tend\n\
                    \t\treg_0 = 0\n\
                    \t\tbreak\n\
                    \tend\n\
                    \treturn reg_0\n\
                    end\n";
    assert_eq!(text, expected);
}

#[test]
fn forward_branch_becomes_break() {
    let text = translate(&[
        Operator::Block { blockty: BlockType::Empty },
        Operator::Br { relative_depth: 0 },
        Operator::End,
        Operator::I32Const { value: 0 },
        Operator::End,
    ]);
    let expected = "function()\n\
                    \tlocal reg_0\n\
                    \twhile true do\n\
                    \t\twhile true do\n\
                    \t\t\tbreak\n\
                    \t\tend\n\
                    \t\treg_0 = 0\n\
                    \t\tbreak\n\
                    \tend\n\
                    \treturn reg_0\n\
                    end\n";
    assert_eq!(text, expected);
}

#[test]
fn multi_level_branch_sets_desired_and_escapes() {
    let text = translate(&[
        Operator::Block { blockty: BlockType::Empty },
        Operator::Block { blockty: BlockType::Empty },
        Operator::Br { relative_depth: 1 },
        Operator::End,
        Operator::End,
        Operator::I32Const { value: 0 },
        Operator::End,
    ]);
    let expected = "function()\n\
                    \tlocal reg_0\n\
                    \tlocal desired\n\
                    \twhile true do\n\
                    \t\twhile true do\n\
                    \t\t\twhile true do\n\
                    \t\t\t\tdesired = 1\n\
                    \t\t\t\tbreak\n\
                    \t\t\tend\n\
                    \t\t\tif desired then\n\
                    \t\t\t\tif desired == 1 then\n\
                    \t\t\t\t\tdesired = nil\n\
                    \t\t\t\tend\n\
                    \t\t\t\tbreak\n\
                    \t\t\tend\n\
                    \t\t\tbreak\n\
                    \t\tend\n\
                    \t\treg_0 = 0\n\
                    \t\tbreak\n\
                    \tend\n\
                    \treturn reg_0\n\
                    end\n";
    assert_eq!(text, expected);
}

#[test]
fn if_without_else_prints_no_else() {
    let text = translate_unary(&[
        Operator::LocalGet { local_index: 0 },
        Operator::If { blockty: BlockType::Type(ValType::I32) },
        Operator::I32Const { value: 1 },
        Operator::End,
        Operator::End,
    ]);
    let expected = "function(loc_0)\n\
                    \tlocal reg_0\n\
                    \twhile true do\n\
                    \t\tif loc_0 ~= 0 then\n\
                    \t\t\twhile true do\n\
                    \t\t\t\treg_0 = 1\n\
                    \t\t\t\tbreak\n\
                    \t\t\tend\n\
                    \t\tend\n\
                    \t\tbreak\n\
                    \tend\n\
                    \treturn reg_0\n\
                    end\n";
    assert_eq!(text, expected);
    assert!(!text.contains("else"));
}

#[test]
fn if_with_else_prints_both_arms() {
    let text = translate_unary(&[
        Operator::LocalGet { local_index: 0 },
        Operator::If { blockty: BlockType::Type(ValType::I32) },
        Operator::I32Const { value: 1 },
        Operator::Else,
        Operator::I32Const { value: 2 },
        Operator::End,
        Operator::End,
    ]);
    assert!(text.contains("\t\tif loc_0 ~= 0 then\n"), "{}", text);
    assert!(text.contains("\t\t\t\treg_0 = 1\n"), "{}", text);
    assert!(text.contains("\t\telse\n"), "{}", text);
    assert!(text.contains("\t\t\t\treg_0 = 2\n"), "{}", text);
}

#[test]
fn empty_branch_table_is_its_default() {
    let text = translate(&[
        Operator::Block { blockty: BlockType::Empty },
        Operator::LocalGet { local_index: 0 },
        Operator::BrTable { targets: vec![], default: 0 },
        Operator::End,
        Operator::I32Const { value: 0 },
        Operator::End,
    ]);
    assert!(!text.contains("br_map"));
    assert!(!text.contains("temp"));
    let expected = "function()\n\
                    \tlocal reg_0\n\
                    \twhile true do\n\
                    \t\twhile true do\n\
                    \t\t\tbreak\n\
                    \t\tend\n\
                    \t\treg_0 = 0\n\
                    \t\tbreak\n\
                    \tend\n\
                    \treturn reg_0\n\
                    end\n";
    assert_eq!(text, expected);
}

#[test]
fn branch_table_is_searched_by_target() {
    let text = translate_unary(&[
        Operator::Block { blockty: BlockType::Empty },
        Operator::Block { blockty: BlockType::Empty },
        Operator::I32Const { value: 5 },
        Operator::LocalGet { local_index: 0 },
        Operator::BrTable { targets: vec![1, 0, 1], default: 2 },
        Operator::End,
        Operator::End,
        Operator::I32Const { value: 0 },
        Operator::End,
    ]);
    let table = "\t\t\t\tif not br_map[0] then\n\
                 \t\t\t\t\tbr_map[0] = (function()\n\
                 \t\t\t\t\t\treturn { [0] = 1, 0, 1, }\n\
                 \t\t\t\t\tend)()\n\
                 \t\t\t\tend\n\
                 \t\t\t\ttemp = br_map[0][loc_0] or 2\n";
    let search = "\t\t\t\tif temp < 1 then\n\
                  \t\t\t\t\tbreak\n\
                  \t\t\t\telseif temp > 1 then\n\
                  \t\t\t\t\tdesired = 0\n\
                  \t\t\t\t\tbreak\n\
                  \t\t\t\telse\n\
                  \t\t\t\t\tdesired = 1\n\
                  \t\t\t\t\tbreak\n\
                  \t\t\t\tend\n";
    assert!(text.contains("\tlocal desired\n\tlocal br_map = {}\n"));
    assert!(text.contains(table), "{}", text);
    assert!(text.contains(search), "{}", text);
}

#[test]
fn ordered_table_is_sorted_and_distinct() {
    let list = vec![br(3), br(1), br(3), br(0), br(1)];
    let table = to_ordered_table(&list, br(2));
    let targets: Vec<usize> = table.iter().map(|b| b.target).collect();
    assert_eq!(targets, vec![0, 1, 2, 3]);
    let table = to_ordered_table(&[], br(5));
    assert_eq!(table, vec![br(5)]);
    let table = to_ordered_table(&[br(4), br(4)], br(4));
    assert_eq!(table, vec![br(4)]);
}

#[test]
fn ordered_table_keeps_the_first_branch_of_each_target() {
    let first = Br { target: 1, align: Align { new: 7, old: 8, length: 1 } };
    let second = Br { target: 1, align: Align { new: 9, old: 8, length: 1 } };
    let table = to_ordered_table(&[first, second], second);
    assert_eq!(table, vec![first]);
}

#[test]
fn branch_with_values_moves_them_first() {
    let text = translate(&[
        Operator::Block { blockty: BlockType::Type(ValType::I32) },
        Operator::I32Const { value: 1 },
        Operator::I32Const { value: 2 },
        Operator::Br { relative_depth: 0 },
        Operator::End,
        Operator::End,
    ]);
    let inner = "\t\twhile true do\n\
                 \t\t\treg_0 = 1\n\
                 \t\t\treg_1 = 2\n\
                 \t\t\treg_0 = reg_1\n\
                 \t\t\tbreak\n\
                 \t\tend\n";
    assert!(text.contains(inner), "{}", text);
    assert!(text.contains("\tlocal reg_0\n\tlocal reg_1\n"));
}

#[test]
fn call_and_store_statements() {
    let text = translate_unary(&[
        Operator::I32Const { value: 8 },
        Operator::I32Const { value: 3 },
        Operator::Store { store_type: StoreType::I32_N8, memarg: MemArg { memory: 0, offset: 4 } },
        Operator::I32Const { value: 1 },
        Operator::I32Const { value: 2 },
        Operator::Call { function_index: 2 },
        Operator::LocalGet { local_index: 0 },
        Operator::Call { function_index: 1 },
        Operator::End,
    ]);
    assert!(text.contains("\t\trt_store_i32_n8(memory_at_0, 8 + 4, 3)\n"), "{}", text);
    assert!(text.contains("\t\tFUNC_LIST[2](1, 2)\n"), "{}", text);
    assert!(text.contains("\t\treg_0 = FUNC_LIST[1](loc_0)\n"), "{}", text);
}

#[test]
fn indirect_call_and_globals() {
    let text = translate(&[
        Operator::GlobalGet { global_index: 1 },
        Operator::GlobalSet { global_index: 2 },
        Operator::I32Const { value: 6 },
        Operator::I32Const { value: 0 },
        Operator::CallIndirect { type_index: 1, table_index: 3 },
        Operator::End,
    ]);
    assert!(text.contains("\t\tGLOBAL_LIST[2].value = GLOBAL_LIST[1].value\n"), "{}", text);
    assert!(text.contains("\t\treg_0 = TABLE_LIST[3].data[0](6)\n"), "{}", text);
}

#[test]
fn operations_call_the_runtime() {
    let text = translate_unary(&[
        Operator::LocalGet { local_index: 0 },
        Operator::I32Const { value: 2 },
        Operator::BinOp(BinOpType { kind: BinOpKind::Mul, ty: NumType::I32 }),
        Operator::End,
    ]);
    assert!(text.contains("\t\treg_0 = rt_mul_i32(loc_0, 2)\n"), "{}", text);
}

#[test]
fn memory_statements() {
    let text = translate(&[
        Operator::I32Const { value: 1 },
        Operator::MemoryGrow { mem: 0 },
        Operator::Drop,
        Operator::I32Const { value: 10 },
        Operator::I32Const { value: 20 },
        Operator::I32Const { value: 30 },
        Operator::MemoryCopy { dst_mem: 1, src_mem: 2 },
        Operator::I32Const { value: 10 },
        Operator::I32Const { value: 0 },
        Operator::I32Const { value: 30 },
        Operator::MemoryFill { mem: 0 },
        Operator::MemorySize { mem: 0 },
        Operator::End,
    ]);
    assert!(text.contains("\t\treg_0 = rt_allocator_grow(memory_at_0, 1)\n"), "{}", text);
    assert!(text.contains("\t\trt_store_copy(memory_at_1, 10, memory_at_2, 20, 30)\n"), "{}", text);
    assert!(text.contains("\t\trt_store_fill(memory_at_0, 10, 30, 0)\n"), "{}", text);
    assert!(text.contains("\t\treg_0 = rt_allocator_size(memory_at_0)\n"), "{}", text);
}

#[test]
fn unreachable_is_an_error_call() {
    let text = translate(&[Operator::Unreachable, Operator::End]);
    assert!(text.contains("\t\terror(\"out of code bounds\")\n"), "{}", text);
}

#[test]
fn locals_are_declared_with_the_zero_of_their_type() {
    let info = TypeInfo { type_list: vec![(2, 0)], func_list: vec![0] };
    let mut factory = Factory::from_type_info(&info);
    let func = factory
        .try_create_indexed(0, &[Operator::End], vec![ValType::I32, ValType::I64, ValType::F32, ValType::F64])
        .unwrap();
    let text = write_function(&func).unwrap();
    let expected = "function(loc_0, loc_1)\n\
                    \tlocal loc_2 = 0\n\
                    \tlocal loc_3 = rt_i64_ZERO\n\
                    \tlocal loc_4 = 0.0\n\
                    \tlocal loc_5 = 0.0\n\
                    \twhile true do\n\
                    \t\tbreak\n\
                    \tend\n\
                    end\n";
    assert_eq!(text, expected);
}

#[test]
fn locals_and_temporaries_beyond_the_budget_are_spilled() {
    let info = TypeInfo { type_list: vec![(1, 0)], func_list: vec![0] };
    let mut factory = Factory::from_type_info(&info);
    let mut list = Vec::new();
    for i in 0..52 {
        list.push(Operator::I32Const { value: i });
    }
    list.push(Operator::LocalGet { local_index: 101 });
    list.push(Operator::LocalSet { local_index: 102 });
    for _ in 0..52 {
        list.push(Operator::Drop);
    }
    list.push(Operator::End);
    let mut locals = vec![ValType::I32; 101];
    locals.push(ValType::I64);
    let func = factory.try_create_indexed(0, &list, locals).unwrap();
    assert_eq!(func.num_stack, 0);
    let text = write_function(&func).unwrap();
    assert!(text.contains("\tlocal loc_100 = 0\n"), "{}", text);
    assert!(!text.contains("local loc_101"), "{}", text);
    assert!(text.contains("\tlocal loc_spill = { 0, rt_i64_ZERO, }\n"), "{}", text);
    assert!(text.contains("\t\tloc_spill[2] = loc_spill[1]\n"), "{}", text);
}

#[test]
fn temporaries_beyond_the_budget_are_spilled() {
    let info = TypeInfo { type_list: vec![(0, 0)], func_list: vec![0] };
    let mut factory = Factory::from_type_info(&info);
    let mut list = Vec::new();
    for i in 0..52 {
        list.push(Operator::I32Const { value: i });
    }
    list.push(Operator::Block { blockty: BlockType::Empty });
    list.push(Operator::End);
    for _ in 0..52 {
        list.push(Operator::Drop);
    }
    list.push(Operator::End);
    let func = factory.try_create_indexed(0, &list, vec![]).unwrap();
    assert_eq!(func.num_stack, 52);
    let text = write_function(&func).unwrap();
    assert!(text.contains("\tlocal reg_49\n\tlocal reg_spill = table.create(2)\n"), "{}", text);
    assert!(text.contains("\t\treg_49 = 49\n\t\treg_spill[1] = 50\n\t\treg_spill[2] = 51\n"), "{}", text);
}

#[test]
fn branch_out_of_two_blocks_names_the_outer_one() {
    let inner = Block { label_type: None, code: vec![], last: Some(Box::new(Terminator::Br(br(1)))) };
    let outer = Block { label_type: Some(LabelType::Forward), code: vec![Statement::Block(inner)], last: None };
    let mut mng = Manager::empty();
    mng.has_branch = true;
    let mut text = String::new();
    assert!(outer.write(&mut mng, &mut text));
    let expected = "while true do\n\
                    \twhile true do\n\
                    \t\tdesired = 0\n\
                    \t\tbreak\n\
                    \tend\n\
                    \tif desired then\n\
                    \t\tif desired == 0 then\n\
                    \t\t\tdesired = nil\n\
                    \t\tend\n\
                    \t\tbreak\n\
                    \tend\n\
                    \tbreak\n\
                    end\n";
    assert_eq!(text, expected);
    assert!(mng.label_list.is_empty());
    assert_eq!(mng.indentation, 0);
}

#[test]
fn escape_of_a_loop_continues() {
    let inner = Block { label_type: None, code: vec![], last: Some(Box::new(Terminator::Br(br(1)))) };
    let outer = Block { label_type: Some(LabelType::Backward), code: vec![Statement::Block(inner)], last: None };
    let mut mng = Manager::empty();
    mng.has_branch = true;
    let mut text = String::new();
    assert!(outer.write(&mut mng, &mut text));
    assert!(text.contains("\t\tif desired == 0 then\n\t\t\tdesired = nil\n\t\t\tcontinue\n\t\tend\n"), "{}", text);
}

#[test]
fn branch_without_target_block_is_refused() {
    let block = Block { label_type: None, code: vec![], last: Some(Box::new(Terminator::Br(br(1)))) };
    let mut mng = Manager::empty();
    let mut text = String::new();
    assert!(!block.write(&mut mng, &mut text));
    let block = Block { label_type: None, code: vec![], last: Some(Box::new(Terminator::Br(br(0)))) };
    let mut mng = Manager::empty();
    let mut text = String::new();
    assert!(block.write(&mut mng, &mut text));
}
