//! Expressions, statements and terminators, and their mathematical views.

use vstd::prelude::*;

use super::operator::{BinOpType, CmpOpType, LoadType, StoreType, UnOpType, ValType};

verus! {

/// A slot introduced by the lifter to hold a value of the operand stack.
#[derive(Clone, Copy, Debug, PartialEq, Eq, Structural)]
pub struct Temporary {
    pub var: usize,
}

/// A local variable of the function.
#[derive(Clone, Copy, Debug, PartialEq, Eq, Structural)]
pub struct Local {
    pub var: usize,
}

/// A read of a global variable.
#[derive(Clone, Copy, Debug, PartialEq, Eq, Structural)]
pub struct GetGlobal {
    pub var: usize,
}

/// The size of a memory, in pages.
#[derive(Clone, Copy, Debug, PartialEq, Eq, Structural)]
pub struct MemorySize {
    pub memory: usize,
}

/// A constant. Floating-point constants are kept as their bit patterns.
#[derive(Clone, Copy, Debug, PartialEq, Eq, Structural)]
pub enum Value {
    I32(i32),
    I64(i64),
    F32(u32),
    F64(u64),
}

#[derive(Debug, PartialEq)]
pub struct Select {
    pub condition: Box<Expression>,
    pub on_true: Box<Expression>,
    pub on_false: Box<Expression>,
}

#[derive(Debug, PartialEq)]
pub struct LoadAt {
    pub load_type: LoadType,
    pub memory: usize,
    pub offset: usize,
    pub pointer: Box<Expression>,
}

#[derive(Debug, PartialEq)]
pub struct UnOp {
    pub op_type: UnOpType,
    pub rhs: Box<Expression>,
}

#[derive(Debug, PartialEq)]
pub struct BinOp {
    pub op_type: BinOpType,
    pub lhs: Box<Expression>,
    pub rhs: Box<Expression>,
}

#[derive(Debug, PartialEq)]
pub struct CmpOp {
    pub op_type: CmpOpType,
    pub lhs: Box<Expression>,
    pub rhs: Box<Expression>,
}

/// A value under construction: a tree whose leaves are constants and reads.
#[derive(Debug, PartialEq)]
pub enum Expression {
    Select(Select),
    GetTemporary(Temporary),
    GetLocal(Local),
    GetGlobal(GetGlobal),
    LoadAt(LoadAt),
    MemorySize(MemorySize),
    Value(Value),
    UnOp(UnOp),
    BinOp(BinOp),
    CmpOp(CmpOp),
}

impl Expression {
    /// Whether the expression is exactly the read of temporary `id`.
    pub open spec fn is_temporary_spec(&self, id: int) -> bool {
        self matches Expression::GetTemporary(t) && t.var == id
    }

    /// Whether the expression is exactly the read of temporary `id`.
    #[verifier::when_used_as_spec(is_temporary_spec_usize)]
    pub fn is_temporary(&self, id: usize) -> (r: bool)
        ensures
            r == self.is_temporary_spec(id as int),
    {
        match self {
            Expression::GetTemporary(t) => t.var == id,
            _ => false,
        }
    }

    pub open spec fn is_temporary_spec_usize(&self, id: usize) -> bool {
        self.is_temporary_spec(id as int)
    }
}

/// The temporaries `start..end`.
#[derive(Clone, Copy, Debug, PartialEq, Eq, Structural)]
pub struct ResultList {
    pub start: usize,
    pub end: usize,
}

impl ResultList {
    pub fn new(start: usize, end: usize) -> (list: ResultList)
        ensures
            list.start == start,
            list.end == end,
    {
        ResultList { start, end }
    }

    /// The number of temporaries in the list.
    pub open spec fn count(self) -> int {
        if self.start <= self.end {
            self.end - self.start
        } else {
            0
        }
    }

    pub fn is_empty(self) -> (r: bool)
        ensures
            r == (self.count() == 0),
    {
        self.start >= self.end
    }
}

/// How the values that a branch carries are moved: `length` temporaries
/// from `old` on are copied to the temporaries from `new` on.
#[derive(Clone, Copy, Debug, PartialEq, Eq, Structural)]
pub struct Align {
    pub new: usize,
    pub old: usize,
    pub length: usize,
}

impl Align {
    /// Whether nothing has to be moved.
    pub open spec fn aligned(self) -> bool {
        self.length == 0 || self.new == self.old
    }

    pub fn is_aligned(self) -> (r: bool)
        ensures
            r == self.aligned(),
    {
        self.length == 0 || self.new == self.old
    }

    /// Whether both ends of both ranges are machine integers.
    pub open spec fn in_bounds(self) -> bool {
        self.new + self.length <= usize::MAX && self.old + self.length <= usize::MAX
    }

    /// The temporaries that receive the values.
    pub fn new_range(self) -> (list: ResultList)
        requires
            self.in_bounds(),
        ensures
            list.start == self.new,
            list.end == self.new + self.length,
    {
        ResultList::new(self.new, self.new + self.length)
    }

    /// The temporaries that hold the values.
    pub fn old_range(self) -> (list: ResultList)
        requires
            self.in_bounds(),
        ensures
            list.start == self.old,
            list.end == self.old + self.length,
    {
        ResultList::new(self.old, self.old + self.length)
    }
}

/// A branch out of `target` enclosing blocks into the next one.
#[derive(Clone, Copy, Debug, PartialEq, Eq, Structural)]
pub struct Br {
    pub target: usize,
    pub align: Align,
}

/// A branch chosen by an index, with a default for indices out of range.
#[derive(Debug, PartialEq)]
pub struct BrTable {
    pub condition: Box<Expression>,
    pub data: Vec<Br>,
    pub default: Br,
}

/// The way control leaves a block.
#[derive(Debug, PartialEq)]
pub enum Terminator {
    Unreachable,
    Br(Br),
    BrTable(BrTable),
}

/// Where a branch to a block continues: behind it, or at its head.
#[derive(Clone, Copy, Debug, PartialEq, Eq, Structural)]
pub enum LabelType {
    Forward,
    Backward,
}

/// A sequence of statements that a branch can leave or restart. The label
/// is absent when no branch targets the block.
#[derive(Debug, PartialEq)]
pub struct Block {
    pub label_type: Option<LabelType>,
    pub code: Vec<Statement>,
    pub last: Option<Box<Terminator>>,
}

#[derive(Debug, PartialEq)]
pub struct BrIf {
    pub condition: Box<Expression>,
    pub target: Br,
}

#[derive(Debug, PartialEq)]
pub struct If {
    pub condition: Box<Expression>,
    pub on_true: Box<Block>,
    pub on_false: Option<Box<Block>>,
}

#[derive(Debug, PartialEq)]
pub struct Call {
    pub function: usize,
    pub param_list: Vec<Expression>,
    pub result_list: ResultList,
}

#[derive(Debug, PartialEq)]
pub struct CallIndirect {
    pub table: usize,
    pub index: Box<Expression>,
    pub param_list: Vec<Expression>,
    pub result_list: ResultList,
}

#[derive(Debug, PartialEq)]
pub struct SetTemporary {
    pub var: Temporary,
    pub value: Box<Expression>,
}

#[derive(Debug, PartialEq)]
pub struct SetLocal {
    pub var: Local,
    pub value: Box<Expression>,
}

#[derive(Debug, PartialEq)]
pub struct SetGlobal {
    pub var: usize,
    pub value: Box<Expression>,
}

#[derive(Debug, PartialEq)]
pub struct StoreAt {
    pub store_type: StoreType,
    pub memory: usize,
    pub offset: usize,
    pub pointer: Box<Expression>,
    pub value: Box<Expression>,
}

#[derive(Debug, PartialEq)]
pub struct MemoryGrow {
    pub memory: usize,
    pub result: Temporary,
    pub size: Box<Expression>,
}

#[derive(Debug, PartialEq)]
pub struct MemoryArgument {
    pub memory: usize,
    pub pointer: Box<Expression>,
}

#[derive(Debug, PartialEq)]
pub struct MemoryCopy {
    pub destination: MemoryArgument,
    pub source: MemoryArgument,
    pub size: Box<Expression>,
}

#[derive(Debug, PartialEq)]
pub struct MemoryFill {
    pub destination: MemoryArgument,
    pub size: Box<Expression>,
    pub value: Box<Expression>,
}

#[derive(Debug, PartialEq)]
pub enum Statement {
    Block(Block),
    BrIf(BrIf),
    If(If),
    Call(Call),
    CallIndirect(CallIndirect),
    SetTemporary(SetTemporary),
    SetLocal(SetLocal),
    SetGlobal(SetGlobal),
    StoreAt(StoreAt),
    MemoryGrow(MemoryGrow),
    MemoryCopy(MemoryCopy),
    MemoryFill(MemoryFill),
}

/// A lifted function.
#[derive(Debug, PartialEq)]
pub struct FuncData {
    pub local_data: Vec<ValType>,
    pub num_result: usize,
    pub num_param: usize,
    pub num_stack: usize,
    pub code: Block,
}

/// The view of a `BrTable`.
pub struct BrTableView {
    pub condition: Expression,
    pub data: Seq<Br>,
    pub default: Br,
}

/// The view of a `Terminator`.
pub enum TerminatorView {
    Unreachable,
    Br(Br),
    BrTable(BrTableView),
}

/// The view of a `Block`.
pub struct BlockView {
    pub label_type: Option<LabelType>,
    pub code: Seq<StatementView>,
    pub last: Option<TerminatorView>,
}

/// The view of an `If`.
pub struct IfView {
    pub condition: Expression,
    pub on_true: BlockView,
    pub on_false: Option<BlockView>,
}

/// The view of a `Call`.
pub struct CallView {
    pub function: usize,
    pub param_list: Seq<Expression>,
    pub result_list: ResultList,
}

/// The view of a `CallIndirect`.
pub struct CallIndirectView {
    pub table: usize,
    pub index: Expression,
    pub param_list: Seq<Expression>,
    pub result_list: ResultList,
}

/// The view of a `Statement`: the same tree with sequences in place of
/// vectors.
pub enum StatementView {
    Block(BlockView),
    BrIf(BrIf),
    If(IfView),
    Call(CallView),
    CallIndirect(CallIndirectView),
    SetTemporary(SetTemporary),
    SetLocal(SetLocal),
    SetGlobal(SetGlobal),
    StoreAt(StoreAt),
    MemoryGrow(MemoryGrow),
    MemoryCopy(MemoryCopy),
    MemoryFill(MemoryFill),
}

/// The view of a `FuncData`.
pub struct FuncDataView {
    pub local_data: Seq<ValType>,
    pub num_result: usize,
    pub num_param: usize,
    pub num_stack: usize,
    pub code: BlockView,
}

pub open spec fn terminator_view(t: Terminator) -> TerminatorView {
    match t {
        Terminator::Unreachable => TerminatorView::Unreachable,
        Terminator::Br(br) => TerminatorView::Br(br),
        Terminator::BrTable(table) => TerminatorView::BrTable(
            BrTableView { condition: *table.condition, data: table.data@, default: table.default },
        ),
    }
}

pub open spec fn statement_view(s: Statement) -> StatementView
    decreases s,
{
    match s {
        Statement::Block(b) => StatementView::Block(block_view(b)),
        Statement::BrIf(s) => StatementView::BrIf(s),
        Statement::If(s) => StatementView::If(
            IfView {
                condition: *s.condition,
                on_true: block_view(*s.on_true),
                on_false: match s.on_false {
                    Some(b) => Some(block_view(*b)),
                    None => None,
                },
            },
        ),
        Statement::Call(s) => StatementView::Call(
            CallView { function: s.function, param_list: s.param_list@, result_list: s.result_list },
        ),
        Statement::CallIndirect(s) => StatementView::CallIndirect(
            CallIndirectView {
                table: s.table,
                index: *s.index,
                param_list: s.param_list@,
                result_list: s.result_list,
            },
        ),
        Statement::SetTemporary(s) => StatementView::SetTemporary(s),
        Statement::SetLocal(s) => StatementView::SetLocal(s),
        Statement::SetGlobal(s) => StatementView::SetGlobal(s),
        Statement::StoreAt(s) => StatementView::StoreAt(s),
        Statement::MemoryGrow(s) => StatementView::MemoryGrow(s),
        Statement::MemoryCopy(s) => StatementView::MemoryCopy(s),
        Statement::MemoryFill(s) => StatementView::MemoryFill(s),
    }
}

pub open spec fn block_view(b: Block) -> BlockView
    decreases b,
{
    BlockView {
        label_type: b.label_type,
        code: code_view(b.code@),
        last: match b.last {
            Some(t) => Some(terminator_view(*t)),
            None => None,
        },
    }
}

/// The views of a sequence of statements, in order.
pub open spec fn code_view(code: Seq<Statement>) -> Seq<StatementView>
    decreases code,
{
    if code.len() == 0 {
        Seq::empty()
    } else {
        code_view(code.drop_last()).push(statement_view(code.last()))
    }
}

impl View for Terminator {
    type V = TerminatorView;

    open spec fn view(&self) -> TerminatorView {
        terminator_view(*self)
    }
}

impl View for Statement {
    type V = StatementView;

    open spec fn view(&self) -> StatementView {
        statement_view(*self)
    }
}

impl View for Block {
    type V = BlockView;

    open spec fn view(&self) -> BlockView {
        block_view(*self)
    }
}

impl View for FuncData {
    type V = FuncDataView;

    open spec fn view(&self) -> FuncDataView {
        FuncDataView {
            local_data: self.local_data@,
            num_result: self.num_result,
            num_param: self.num_param,
            num_stack: self.num_stack,
            code: self.code@,
        }
    }
}

/// The view of a sequence has the length of the sequence, and holds at
/// each position the view of the statement at that position.
pub proof fn lemma_code_view(code: Seq<Statement>)
    ensures
        code_view(code).len() == code.len(),
        forall|i: int| 0 <= i < code.len() ==> #[trigger] code_view(code)[i] == statement_view(code[i]),
    decreases code.len(),
{
    if code.len() > 0 {
        lemma_code_view(code.drop_last());
    }
}

/// The view of an extended sequence is the extended view.
pub proof fn lemma_code_view_push(code: Seq<Statement>, s: Statement)
    ensures
        code_view(code.push(s)) == code_view(code).push(statement_view(s)),
{
    assert(code.push(s).drop_last() =~= code);
}

} // verus!
