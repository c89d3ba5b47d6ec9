use wasm_luau::ast::node::{Align, Block, Br, FuncData, Terminator};
use wasm_luau::backend::manager::Manager;
use wasm_luau::backend::statement::write_function;
use wasm_luau::text::{push_decimal, push_index, push_line, push_signed, push_successor, push_tabs};

fn decimal(n: u64) -> String {
    let mut s = String::new();
    push_decimal(&mut s, n);
    s
}

fn signed(n: i64) -> String {
    let mut s = String::new();
    push_signed(&mut s, n);
    s
}

#[test]
fn decimal_numbers() {
    assert_eq!(decimal(0), "0");
    assert_eq!(decimal(7), "7");
    assert_eq!(decimal(10), "10");
    assert_eq!(decimal(909), "909");
    assert_eq!(decimal(1234567890), "1234567890");
    assert_eq!(decimal(u64::MAX), "18446744073709551615");
}

#[test]
fn signed_numbers() {
    assert_eq!(signed(0), "0");
    assert_eq!(signed(-1), "-1");
    assert_eq!(signed(42), "42");
    assert_eq!(signed(i64::MAX), "9223372036854775807");
    assert_eq!(signed(i64::MIN), "-9223372036854775808");
}

#[test]
fn successor_of_the_largest_index() {
    let mut s = String::new();
    push_successor(&mut s, 0);
    s.push(' ');
    push_successor(&mut s, 9);
    s.push(' ');
    push_successor(&mut s, usize::MAX);
    let expected = format!("1 10 {}", usize::MAX as u128 + 1);
    assert_eq!(s, expected);
}

#[test]
fn text_is_appended() {
    let mut s = String::from("x");
    push_index(&mut s, 12);
    push_tabs(&mut s, 2);
    push_line(&mut s, 1, "end");
    push_line(&mut s, 0, "");
    assert_eq!(s, "x12\t\t\tend\n\n");
}

fn body(last: Terminator) -> FuncData {
    FuncData {
        local_data: vec![],
        num_result: 0,
        num_param: 0,
        num_stack: 0,
        code: Block { label_type: None, code: vec![], last: Some(Box::new(last)) },
    }
}

#[test]
fn function_with_a_branch_without_target_is_not_printed() {
    let lost = Br { target: 1, align: Align { new: 0, old: 0, length: 0 } };
    assert!(write_function(&body(Terminator::Br(lost))).is_none());
    let near = Br { target: 0, align: Align { new: 0, old: 0, length: 0 } };
    let text = write_function(&body(Terminator::Br(near))).unwrap();
    assert_eq!(text, "function()\n\twhile true do\n\t\tbreak\n\tend\nend\n");
}

#[test]
fn function_with_a_move_beyond_the_integers_is_not_printed() {
    let wide = Br { target: 0, align: Align { new: usize::MAX, old: 0, length: 1 } };
    assert!(write_function(&body(Terminator::Br(wide))).is_none());
}

#[test]
fn state_of_a_function() {
    let far = Br { target: 1, align: Align { new: 0, old: 0, length: 0 } };
    let mut func = body(Terminator::Br(far));
    func.num_param = 2;
    func.num_stack = 60;
    func.local_data = vec![wasm_luau::ast::operator::ValType::I32; 120];
    let mng = Manager::function(&func);
    assert!(mng.has_branch());
    assert!(!mng.has_table());
    assert_eq!(mng.num_local(), 102);
    assert_eq!(mng.num_temp(), 50);
    assert_eq!(mng.indentation, 0);
    assert!(mng.label_list().is_empty());

    let near = Br { target: 0, align: Align { new: 0, old: 0, length: 0 } };
    let func = body(Terminator::Br(near));
    let mng = Manager::function(&func);
    assert!(!mng.has_branch());
    assert_eq!(mng.num_local(), 0);
    assert_eq!(mng.num_temp(), 0);
}
