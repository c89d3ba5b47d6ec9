use std::collections::HashMap;

use wasm_luau::ast::operator::{BlockType, Operator};
use wasm_luau::passes::boundary_tracking::{BoundaryTracking, BoundaryType};
use wasm_luau::passes::dead_code_elimination::DeadCodeElimination;
use wasm_luau::passes::demand_annotation::DemandAnnotation;
use wasm_luau::passes::read_write_annotation::{ReadWriteAnnotation, ReadWriteLabel, Var, VarSet};

fn block() -> Operator {
    Operator::Block { blockty: BlockType::Empty }
}

fn looping() -> Operator {
    Operator::Loop { blockty: BlockType::Empty }
}

fn branching() -> Operator {
    Operator::If { blockty: BlockType::Empty }
}

fn get(local_index: u32) -> Operator {
    Operator::LocalGet { local_index }
}

fn set(local_index: u32) -> Operator {
    Operator::LocalSet { local_index }
}

fn sorted(set: &VarSet) -> Vec<String> {
    let mut list: Vec<String> = set.to_vec().iter().map(|v| format!("{:?}", v)).collect();
    list.sort();
    list
}

fn names(list: &[&str]) -> Vec<String> {
    list.iter().map(|s| s.to_string()).collect()
}

#[test]
fn dead_code_behind_a_branch_is_removed() {
    let list = vec![
        block(),
        Operator::Br { relative_depth: 0 },
        Operator::Nop,
        block(),
        Operator::Nop,
        Operator::End,
        Operator::Drop,
        Operator::End,
        Operator::Nop,
        Operator::End,
    ];
    let expected = vec![
        block(),
        Operator::Br { relative_depth: 0 },
        Operator::End,
        Operator::Nop,
        Operator::End,
    ];
    assert_eq!(DeadCodeElimination::run(list), expected);
}

#[test]
fn else_makes_code_reachable_again() {
    let list = vec![
        branching(),
        Operator::Return,
        Operator::Nop,
        Operator::Else,
        Operator::Nop,
        Operator::Unreachable,
        Operator::Drop,
        Operator::End,
        Operator::End,
    ];
    let expected = vec![
        branching(),
        Operator::Return,
        Operator::Else,
        Operator::Nop,
        Operator::Unreachable,
        Operator::End,
        Operator::End,
    ];
    assert_eq!(DeadCodeElimination::run(list), expected);
}

#[test]
fn nested_else_in_dead_code_is_removed() {
    let list = vec![
        block(),
        Operator::BrTable { targets: vec![0], default: 0 },
        branching(),
        Operator::Else,
        Operator::End,
        Operator::End,
        Operator::End,
    ];
    let expected = vec![block(), Operator::BrTable { targets: vec![0], default: 0 }, Operator::End, Operator::End];
    assert_eq!(DeadCodeElimination::run(list), expected);
}

#[test]
fn reachable_code_is_kept() {
    let list = vec![get(0), block(), Operator::Nop, Operator::End, Operator::End];
    let same = vec![get(0), block(), Operator::Nop, Operator::End, Operator::End];
    assert_eq!(DeadCodeElimination::run(list), same);
    assert_eq!(DeadCodeElimination::run(vec![]), vec![]);
}

#[test]
fn second_elimination_changes_nothing() {
    let list = vec![
        looping(),
        Operator::Br { relative_depth: 0 },
        branching(),
        Operator::Else,
        Operator::End,
        Operator::Nop,
        Operator::End,
        Operator::Unreachable,
        Operator::Nop,
        Operator::End,
    ];
    let once = DeadCodeElimination::run(list);
    let copy: Vec<Operator> = vec![
        looping(),
        Operator::Br { relative_depth: 0 },
        Operator::End,
        Operator::Unreachable,
        Operator::End,
    ];
    assert_eq!(once, copy);
    let twice = DeadCodeElimination::run(once);
    assert_eq!(twice, copy);
}

#[test]
fn boundaries_of_loops_and_two_armed_ifs() {
    let code = vec![
        block(),     // 0
        looping(),   // 1
        Operator::End, // 2: loop
        branching(), // 3
        Operator::Else, // 4
        Operator::End, // 5: else
        branching(), // 6
        Operator::End, // 7: nothing
        Operator::End, // 8: nothing
    ];
    let mut pass = BoundaryTracking::default();
    let map = pass.try_run(&code).unwrap();
    let mut expected = HashMap::new();
    expected.insert(2, BoundaryType::Loop { start: 1 });
    expected.insert(5, BoundaryType::Else);
    assert_eq!(map, expected);
    // the pass can be used again
    assert!(pass.run(&[block(), Operator::End]).is_empty());
}

#[test]
fn boundaries_need_matching_blocks() {
    let mut pass = BoundaryTracking::default();
    assert!(pass.try_run(&[Operator::End]).is_none());
    assert!(pass.try_run(&[Operator::Else]).is_none());
    assert!(pass.try_run(&[block(), Operator::End, Operator::End]).is_none());
    // an open block at the end is accepted
    assert!(pass.try_run(&[looping()]).unwrap().is_empty());
}

#[test]
fn var_set_operations() {
    let mut a = VarSet::new();
    assert!(a.insert(Var::Local(1)));
    assert!(!a.insert(Var::Local(1)));
    assert!(a.insert(Var::Global(1)));
    assert!(a.contains(Var::Local(1)));
    assert!(!a.contains(Var::Local(2)));
    let mut b = VarSet::new();
    b.insert(Var::Global(1));
    b.insert(Var::Local(7));
    let mut union = a.clone();
    union.extend(&b);
    assert_eq!(sorted(&union), names(&["Global(1)", "Local(1)", "Local(7)"]));
    let mut common = a.clone();
    common.keep_common(&b);
    assert_eq!(sorted(&common), names(&["Global(1)"]));
    let mut rest = a.clone();
    rest.remove_all(&b);
    assert_eq!(sorted(&rest), names(&["Local(1)"]));
    rest.clear();
    assert!(rest.to_vec().is_empty());
}

fn annotate(code: &[Operator]) -> HashMap<usize, ReadWriteLabel> {
    let mut pass = ReadWriteAnnotation::default();
    pass.try_run(code).unwrap()
}

#[test]
fn write_kills_later_read() {
    // set 0; get 0; get 1
    let map = annotate(&[set(0), get(0), get(1), Operator::End]);
    let label = &map[&usize::MAX];
    assert_eq!(sorted(label.read_set()), names(&["Local(1)"]));
    assert_eq!(sorted(label.write_set()), names(&["Local(0)"]));
    assert_eq!(map.len(), 1);
}

#[test]
fn read_before_write_stays_a_read() {
    let map = annotate(&[get(0), set(0), Operator::GlobalGet { global_index: 0 }, Operator::End]);
    let label = &map[&usize::MAX];
    assert_eq!(sorted(label.read_set()), names(&["Global(0)", "Local(0)"]));
    assert_eq!(sorted(label.write_set()), names(&["Local(0)"]));
}

#[test]
fn tee_reads_and_writes() {
    let map = annotate(&[Operator::LocalTee { local_index: 3 }, Operator::End]);
    let label = &map[&usize::MAX];
    assert_eq!(sorted(label.read_set()), names(&["Local(3)"]));
    assert_eq!(sorted(label.write_set()), names(&["Local(3)"]));
}

#[test]
fn arms_are_merged_as_a_choice() {
    let code = vec![
        branching(), // 0
        set(0),
        set(1),
        get(2),
        Operator::Else, // 4
        set(1),
        Operator::GlobalSet { global_index: 5 },
        get(3),
        Operator::End, // 8
        Operator::End, // 9
    ];
    let map = annotate(&code);
    let label = &map[&0];
    assert_eq!(sorted(label.read_set()), names(&["Local(2)", "Local(3)"]));
    assert_eq!(sorted(label.write_set()), names(&["Local(1)"]));
    // the code outside the `if` has no reads or writes of its own
    let outer = &map[&usize::MAX];
    assert!(outer.read_set().to_vec().is_empty());
    assert!(outer.write_set().to_vec().is_empty());
}

#[test]
fn if_without_else_keeps_its_label() {
    let code = vec![branching(), set(0), get(1), Operator::End, Operator::End];
    let map = annotate(&code);
    let label = &map[&0];
    assert_eq!(sorted(label.read_set()), names(&["Local(1)"]));
    assert_eq!(sorted(label.write_set()), names(&["Local(0)"]));
}

#[test]
fn blocks_and_loops_get_labels() {
    let code = vec![
        get(9),
        block(), // 1
        looping(), // 2
        get(0),
        Operator::End,
        set(1),
        Operator::End,
        Operator::End,
    ];
    let map = annotate(&code);
    assert_eq!(map.len(), 3);
    assert_eq!(sorted(map[&2].read_set()), names(&["Local(0)"]));
    assert_eq!(sorted(map[&1].write_set()), names(&["Local(1)"]));
    assert!(map[&1].read_set().to_vec().is_empty());
    assert_eq!(sorted(map[&usize::MAX].read_set()), names(&["Local(9)"]));
}

#[test]
fn annotation_needs_matching_blocks() {
    let mut pass = ReadWriteAnnotation::default();
    assert!(pass.try_run(&[]).is_none());
    assert!(pass.try_run(&[get(0)]).is_none());
    assert!(pass.try_run(&[block(), Operator::End]).is_none());
    assert!(pass.try_run(&[Operator::Else]).is_none());
    assert!(pass.try_run(&[Operator::End]).is_some());
}

#[test]
fn linear_merge_with_empty_label_is_identity() {
    let map = annotate(&[get(0), set(1), Operator::End]);
    let label = &map[&usize::MAX];
    let mut merged = label.clone();
    merged.linear_merge(&ReadWriteLabel::default());
    assert_eq!(sorted(merged.read_set()), sorted(label.read_set()));
    assert_eq!(sorted(merged.write_set()), sorted(label.write_set()));
    let mut fresh = ReadWriteLabel::default();
    fresh.linear_merge(label);
    assert_eq!(sorted(fresh.read_set()), sorted(label.read_set()));
    assert_eq!(sorted(fresh.write_set()), sorted(label.write_set()));
}

/// The demands of a function body; its last operator is the `end` of the
/// body, which closes no block.
fn demand(code: &[Operator]) -> HashMap<usize, VarSet> {
    let boundary = BoundaryTracking::default().try_run(&code[..code.len() - 1]).unwrap();
    let labels = annotate(code);
    DemandAnnotation::default().try_run(code, &boundary, &labels).unwrap()
}

#[test]
fn demand_at_block_heads() {
    let code = vec![
        block(), // 0
        set(0),
        get(1),
        Operator::End, // 3
        get(0),
        get(2),
        Operator::End,
    ];
    let map = demand(&code);
    // behind the block nothing of the body is needed: reads outside blocks belong to no label
    assert_eq!(sorted(&map[&0]), names(&["Local(1)"]));
    assert_eq!(sorted(&map[&usize::MAX]), names(&["Local(0)", "Local(1)", "Local(2)"]));
}

#[test]
fn loop_reads_are_needed_again_at_its_end() {
    let code = vec![
        looping(), // 0
        get(4),
        Operator::End, // 2
        block(),   // 3
        set(4),
        Operator::End,
        Operator::End,
    ];
    let map = demand(&code);
    assert!(map[&3].to_vec().is_empty());
    assert_eq!(sorted(&map[&0]), names(&["Local(4)"]));
}

#[test]
fn both_arms_start_from_what_is_needed_behind_the_if() {
    let code = vec![
        branching(), // 0
        block(),     // 1
        get(1),
        Operator::End,
        Operator::Else, // 4
        block(),     // 5
        get(2),
        Operator::End,
        Operator::End, // 8
        block(),     // 9
        get(3),
        Operator::End,
        Operator::End,
    ];
    let map = demand(&code);
    assert_eq!(sorted(&map[&9]), names(&["Local(3)"]));
    assert_eq!(sorted(&map[&5]), names(&["Local(2)", "Local(3)"]));
    assert_eq!(sorted(&map[&1]), names(&["Local(1)", "Local(3)"]));
}

#[test]
fn demand_needs_the_labels_of_the_code() {
    let code = vec![block(), Operator::End, Operator::End];
    let boundary = BoundaryTracking::default().try_run(&code[..2]).unwrap();
    let labels: HashMap<usize, ReadWriteLabel> = HashMap::new();
    assert!(DemandAnnotation::default().try_run(&code, &boundary, &labels).is_none());
    let labels = annotate(&[Operator::End]);
    assert!(DemandAnnotation::default().try_run(&code, &boundary, &labels).is_none());
    assert!(DemandAnnotation::default().try_run(&[Operator::Else], &boundary, &labels).is_none());
}
