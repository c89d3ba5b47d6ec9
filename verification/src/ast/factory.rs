//! The lifter: rebuilds a tree of statements from stack machine code.

use vstd::prelude::*;

use super::node::{
    block_view, code_view, lemma_code_view_push, terminator_view, BinOp, Block, BlockView, Br, BrIf,
    BrTable, BrTableView, Call, CallIndirect, CallIndirectView, CallView, CmpOp, Expression, FuncData,
    FuncDataView, GetGlobal, If, IfView, LabelType, LoadAt, Local, MemoryArgument, MemoryCopy, MemoryFill,
    MemoryGrow, MemorySize, Select, SetGlobal, SetLocal, Statement, StatementView, StoreAt, Terminator,
    TerminatorView, UnOp, Value,
};
use super::operator::{
    to_index, index_of, BinOpType, BlockType, CmpOpKind, CmpOpType, LoadType, MemArg, NumType, Operator, StoreType, UnOpType,
    ValType,
};
use super::stack::{Hazard, Stack, StackView};

verus! {

/// The numbers of parameters and results of the types and functions of a
/// module.
#[derive(Debug)]
pub struct TypeInfo {
    /// For each type, its numbers of parameters and results.
    pub type_list: Vec<(usize, usize)>,
    /// For each function, the index of its type.
    pub func_list: Vec<usize>,
}

/// The mathematical content of a `TypeInfo`.
pub struct TypeInfoView {
    pub type_list: Seq<(usize, usize)>,
    pub func_list: Seq<usize>,
}

impl View for TypeInfo {
    type V = TypeInfoView;

    open spec fn view(&self) -> TypeInfoView {
        TypeInfoView { type_list: self.type_list@, func_list: self.func_list@ }
    }
}

impl TypeInfoView {
    /// The numbers of parameters and results of a type, if it exists.
    pub open spec fn by_type_index(self, index: int) -> Option<(usize, usize)> {
        if 0 <= index < self.type_list.len() {
            Some(self.type_list[index])
        } else {
            None
        }
    }

    /// The numbers of parameters and results of a function, if it and its
    /// type exist.
    pub open spec fn by_func_index(self, index: int) -> Option<(usize, usize)> {
        if 0 <= index < self.func_list.len() {
            self.by_type_index(self.func_list[index] as int)
        } else {
            None
        }
    }

    /// The numbers of parameters and results of a block.
    pub open spec fn by_block_type(self, ty: BlockType) -> Option<(usize, usize)> {
        match ty {
            BlockType::Empty => Some((0usize, 0usize)),
            BlockType::Type(_) => Some((0usize, 1usize)),
            BlockType::FuncType(i) => self.by_type_index(i as int),
        }
    }
}

impl TypeInfo {
    pub fn by_type_index(&self, index: usize) -> (r: Option<(usize, usize)>)
        ensures
            r == self@.by_type_index(index as int),
    {
        if index < self.type_list.len() {
            Some(self.type_list[index])
        } else {
            None
        }
    }

    pub fn by_func_index(&self, index: usize) -> (r: Option<(usize, usize)>)
        ensures
            r == self@.by_func_index(index as int),
    {
        if index < self.func_list.len() {
            self.by_type_index(self.func_list[index])
        } else {
            None
        }
    }

    pub fn by_block_type(&self, ty: BlockType) -> (r: Option<(usize, usize)>)
        ensures
            r == self@.by_block_type(ty),
    {
        match ty {
            BlockType::Empty => Some((0, 0)),
            BlockType::Type(_) => Some((0, 1)),
            BlockType::FuncType(i) => self.by_type_index(i as usize),
        }
    }
}

/// The kinds of block that an operator opens.
#[derive(Clone, Copy, Debug, PartialEq, Eq, Structural)]
pub enum BlockVariant {
    Forward,
    Backward,
    If,
    Else,
}

/// What the lifter remembers of an open block: its kind and the number of
/// values that a branch to it carries.
#[derive(Clone, Copy, Debug, PartialEq, Eq, Structural)]
pub enum BlockData {
    Forward { num_result: usize },
    Backward { num_param: usize },
    If { num_result: usize, ty: BlockType },
    Else { num_result: usize },
}

impl BlockData {
    /// The label of a block of this kind, if it needs one.
    pub open spec fn label(self) -> LabelType {
        match self {
            BlockData::Backward { .. } => LabelType::Backward,
            _ => LabelType::Forward,
        }
    }

    /// The number of values that a branch to the block carries.
    pub open spec fn carried(self) -> usize {
        match self {
            BlockData::Forward { num_result } => num_result,
            BlockData::If { num_result, .. } => num_result,
            BlockData::Else { num_result } => num_result,
            BlockData::Backward { num_param } => num_param,
        }
    }

    pub fn get_label(self) -> (label: LabelType)
        ensures
            label == self.label(),
    {
        match self {
            BlockData::Backward { .. } => LabelType::Backward,
            _ => LabelType::Forward,
        }
    }

    pub fn get_carried(self) -> (n: usize)
        ensures
            n == self.carried(),
    {
        match self {
            BlockData::Forward { num_result } => num_result,
            BlockData::If { num_result, .. } => num_result,
            BlockData::Else { num_result } => num_result,
            BlockData::Backward { num_param } => num_param,
        }
    }
}

impl Default for BlockData {
    fn default() -> (data: BlockData)
        ensures
            data == (BlockData::Forward { num_result: 0 }),
    {
        BlockData::Forward { num_result: 0 }
    }
}

/// The mathematical content of a `StatList`.
pub struct StatListView {
    pub stack: StackView,
    pub code: Seq<StatementView>,
    pub last: Option<TerminatorView>,
    pub block_data: BlockData,
    pub has_reference: bool,
}

/// The store of `value` to memory, as a statement.
pub open spec fn store_at(store_type: StoreType, memory: usize, offset: usize, pointer: Expression, value: Expression) -> StatementView {
    StatementView::StoreAt(
        StoreAt { store_type, memory, offset, pointer: Box::new(pointer), value: Box::new(value) },
    )
}

impl StatListView {
    /// The list of a block that has not been entered.
    pub open spec fn empty() -> StatListView {
        StatListView {
            stack: StackView { var_list: Seq::empty(), capacity: 0, previous: 0 },
            code: Seq::empty(),
            last: None,
            block_data: BlockData::Forward { num_result: 0 },
            has_reference: false,
        }
    }

    pub open spec fn wf(self) -> bool {
        self.stack.wf()
    }

    pub open spec fn push(self, e: Expression) -> Option<StatListView> {
        match self.stack.push(e) {
            Some(stack) => Some(StatListView { stack, ..self }),
            None => None,
        }
    }

    pub open spec fn pop(self) -> Option<(Expression, StatListView)> {
        match self.stack.pop() {
            Some(r) => Some((r.0, StatListView { stack: r.1, ..self })),
            None => None,
        }
    }

    /// Appends a statement.
    pub open spec fn emit(self, s: StatementView) -> StatListView {
        StatListView { code: self.code.push(s), ..self }
    }

    /// Evaluates the pending values that `h` hits.
    pub open spec fn leak(self, h: Hazard) -> StatListView {
        let r = self.stack.leak(self.code, h);
        StatListView { stack: r.0, code: r.1, ..self }
    }

    pub open spec fn push_load(self, load_type: LoadType, memarg: MemArg) -> Option<StatListView> {
        if memarg.offset > usize::MAX {
            None
        } else {
            match self.pop() {
                Some(r) => r.1.push(
                    Expression::LoadAt(
                        LoadAt {
                            load_type,
                            memory: memarg.memory as usize,
                            offset: memarg.offset as usize,
                            pointer: Box::new(r.0),
                        },
                    ),
                ),
                None => None,
            }
        }
    }

    pub open spec fn add_store(self, store_type: StoreType, memarg: MemArg) -> Option<StatListView> {
        if memarg.offset > usize::MAX {
            None
        } else {
            match self.pop() {
                Some(value) => match value.1.pop() {
                    Some(pointer) => Some(
                        pointer.1.leak(Hazard::Memory(memarg.memory as usize)).emit(
                            store_at(
                                store_type,
                                memarg.memory as usize,
                                memarg.offset as usize,
                                pointer.0,
                                value.0,
                            ),
                        ),
                    ),
                    None => None,
                },
                None => None,
            }
        }
    }

    pub open spec fn push_constant(self, value: Value) -> Option<StatListView> {
        self.push(Expression::Value(value))
    }

    pub open spec fn push_un_op(self, op_type: UnOpType) -> Option<StatListView> {
        match self.pop() {
            Some(rhs) => rhs.1.push(Expression::UnOp(UnOp { op_type, rhs: Box::new(rhs.0) })),
            None => None,
        }
    }

    pub open spec fn push_bin_op(self, op_type: BinOpType) -> Option<StatListView> {
        match self.pop() {
            Some(rhs) => match rhs.1.pop() {
                Some(lhs) => lhs.1.push(
                    Expression::BinOp(BinOp { op_type, lhs: Box::new(lhs.0), rhs: Box::new(rhs.0) }),
                ),
                None => None,
            },
            None => None,
        }
    }

    pub open spec fn push_cmp_op(self, op_type: CmpOpType) -> Option<StatListView> {
        match self.pop() {
            Some(rhs) => match rhs.1.pop() {
                Some(lhs) => lhs.1.push(
                    Expression::CmpOp(CmpOp { op_type, lhs: Box::new(lhs.0), rhs: Box::new(rhs.0) }),
                ),
                None => None,
            },
            None => None,
        }
    }

    /// The comparison with zero: a comparison for equality with a
    /// constant zero.
    pub open spec fn push_equal_zero(self, value: Value, ty: NumType) -> Option<StatListView> {
        match self.push_constant(value) {
            Some(list) => list.push_cmp_op(CmpOpType { kind: CmpOpKind::Eq, ty }),
            None => None,
        }
    }

    /// `drop`: forgets the topmost value.
    pub open spec fn drop_top(self) -> Option<StatListView> {
        match self.pop() {
            Some(r) => Some(r.1),
            None => None,
        }
    }

    /// `select`: replaces the three topmost values by a choice between
    /// the lower two.
    pub open spec fn push_select(self) -> Option<StatListView> {
        match self.pop() {
            Some(condition) => match condition.1.pop() {
                Some(on_false) => match on_false.1.pop() {
                    Some(on_true) => on_true.1.push(
                        Expression::Select(
                            Select {
                                condition: Box::new(condition.0),
                                on_true: Box::new(on_true.0),
                                on_false: Box::new(on_false.0),
                            },
                        ),
                    ),
                    None => None,
                },
                None => None,
            },
            None => None,
        }
    }

    /// `local.set`: evaluates what reads the local, then stores the
    /// topmost value in it.
    pub open spec fn set_local(self, var: usize) -> Option<StatListView> {
        match self.pop() {
            Some(r) => Some(
                r.1.leak(Hazard::Local(var)).emit(
                    StatementView::SetLocal(SetLocal { var: Local { var }, value: Box::new(r.0) }),
                ),
            ),
            None => None,
        }
    }

    /// `local.tee`: as `local.set`, and the value stays on the stack as a
    /// read of the local.
    pub open spec fn tee_local(self, var: usize) -> Option<StatListView> {
        match self.pop() {
            Some(r) => match r.1.leak(Hazard::Local(var)).push(Expression::GetLocal(Local { var })) {
                Some(list) => Some(
                    list.emit(StatementView::SetLocal(SetLocal { var: Local { var }, value: Box::new(r.0) })),
                ),
                None => None,
            },
            None => None,
        }
    }

    /// `global.set`: evaluates what reads the global, then stores the
    /// topmost value in it.
    pub open spec fn set_global(self, var: usize) -> Option<StatListView> {
        match self.pop() {
            Some(r) => Some(
                r.1.leak(Hazard::Global(var)).emit(
                    StatementView::SetGlobal(SetGlobal { var, value: Box::new(r.0) }),
                ),
            ),
            None => None,
        }
    }

    /// `memory.grow`: the result goes to a fresh temporary.
    pub open spec fn grow_memory(self, memory: usize) -> Option<StatListView> {
        match self.pop() {
            Some(size) => match size.1.stack.push_temporaries(1) {
                Some(r) => Some(
                    StatListView { stack: r.1, ..size.1 }.leak(Hazard::Memory(memory)).emit(
                        StatementView::MemoryGrow(
                            MemoryGrow {
                                memory,
                                result: super::node::Temporary { var: r.0.start },
                                size: Box::new(size.0),
                            },
                        ),
                    ),
                ),
                None => None,
            },
            None => None,
        }
    }

    /// `memory.copy`
    pub open spec fn copy_memory(self, dst_mem: usize, src_mem: usize) -> Option<StatListView> {
        match self.pop() {
            Some(size) => match size.1.pop() {
                Some(source) => match source.1.pop() {
                    Some(destination) => Some(
                        destination.1.leak(Hazard::Memory(src_mem)).leak(Hazard::Memory(dst_mem)).emit(
                            StatementView::MemoryCopy(
                                MemoryCopy {
                                    destination: MemoryArgument {
                                        memory: dst_mem,
                                        pointer: Box::new(destination.0),
                                    },
                                    source: MemoryArgument { memory: src_mem, pointer: Box::new(source.0) },
                                    size: Box::new(size.0),
                                },
                            ),
                        ),
                    ),
                    None => None,
                },
                None => None,
            },
            None => None,
        }
    }

    /// `memory.fill`
    pub open spec fn fill_memory(self, memory: usize) -> Option<StatListView> {
        match self.pop() {
            Some(size) => match size.1.pop() {
                Some(value) => match value.1.pop() {
                    Some(destination) => Some(
                        destination.1.leak(Hazard::Memory(memory)).emit(
                            StatementView::MemoryFill(
                                MemoryFill {
                                    destination: MemoryArgument { memory, pointer: Box::new(destination.0) },
                                    size: Box::new(size.0),
                                    value: Box::new(value.0),
                                },
                            ),
                        ),
                    ),
                    None => None,
                },
                None => None,
            },
            None => None,
        }
    }

    /// A call of `function`, which takes `num_param` values and leaves
    /// `num_result`: the arguments are popped, what the call could change
    /// is evaluated, and the results go to fresh temporaries.
    pub open spec fn call(self, function: usize, num_param: usize, num_result: usize) -> Option<StatListView> {
        match self.stack.pop_len(num_param as int) {
            Some(params) => {
                let leaked = StatListView { stack: params.1, ..self }.leak(Hazard::Call);
                match leaked.stack.push_temporaries(num_result as int) {
                    Some(results) => Some(
                        StatListView { stack: results.1, ..leaked }.emit(
                            StatementView::Call(
                                CallView { function, param_list: params.0, result_list: results.0 },
                            ),
                        ),
                    ),
                    None => None,
                }
            },
            None => None,
        }
    }

    /// A call through `table`: as a call, with the index into the table
    /// popped first.
    pub open spec fn call_indirect(self, table: usize, num_param: usize, num_result: usize) -> Option<StatListView> {
        match self.pop() {
            Some(index) => match index.1.stack.pop_len(num_param as int) {
                Some(params) => {
                    let leaked = StatListView { stack: params.1, ..index.1 }.leak(Hazard::Call);
                    match leaked.stack.push_temporaries(num_result as int) {
                        Some(results) => Some(
                            StatListView { stack: results.1, ..leaked }.emit(
                                StatementView::CallIndirect(
                                    CallIndirectView {
                                        table,
                                        index: index.0,
                                        param_list: params.0,
                                        result_list: results.0,
                                    },
                                ),
                            ),
                        ),
                        None => None,
                    }
                },
                None => None,
            },
            None => None,
        }
    }

    /// A conditional branch: the condition is popped, everything else is
    /// evaluated, and the branch is appended.
    pub open spec fn branch_if(self, condition: Expression, target: Br) -> StatListView {
        self.leak(Hazard::All).emit(StatementView::BrIf(BrIf { condition: Box::new(condition), target }))
    }

    /// Evaluates everything and ends the list with `term`.
    pub open spec fn set_terminator(self, term: TerminatorView) -> StatListView {
        StatListView { last: Some(term), ..self.leak(Hazard::All) }
    }

    /// The finished block: labelled if and only if a branch targets it.
    pub open spec fn to_block(self) -> BlockView {
        BlockView {
            label_type: if self.has_reference {
                Some(self.block_data.label())
            } else {
                None
            },
            code: self.code,
            last: self.last,
        }
    }
}

/// The statements of an open block, with its operand stack.
#[derive(Debug)]
pub struct StatList {
    pub stack: Stack,
    pub code: Vec<Statement>,
    pub last: Option<Box<Terminator>>,
    pub block_data: BlockData,
    pub has_reference: bool,
}

impl View for StatList {
    type V = StatListView;

    open spec fn view(&self) -> StatListView {
        StatListView {
            stack: self.stack@,
            code: code_view(self.code@),
            last: match self.last {
                Some(t) => Some(terminator_view(*t)),
                None => None,
            },
            block_data: self.block_data,
            has_reference: self.has_reference,
        }
    }
}

/// Whether a fallible step did what its model says: it succeeded exactly
/// when the model is defined, and then reached the model's state.
pub open spec fn agrees<T>(ok: bool, after: T, model: Option<T>) -> bool {
    ok == model.is_some() && (ok ==> after == model.unwrap())
}

impl StatList {
    pub fn new() -> (list: StatList)
        ensures
            list@ == StatListView::empty(),
            list@.wf(),
    {
        StatList {
            stack: Stack::default(),
            code: Vec::new(),
            last: None,
            block_data: BlockData::default(),
            has_reference: false,
        }
    }

    fn push(&mut self, data: Expression) -> (ok: bool)
        requires
            old(self)@.wf(),
        ensures
            agrees(ok, final(self)@, old(self)@.push(data)),
            final(self)@.wf(),
    {
        self.stack.push(data)
    }

    fn pop(&mut self) -> (top: Option<Expression>)
        requires
            old(self)@.wf(),
        ensures
            match old(self)@.pop() {
                Some(r) => top == Some(r.0) && final(self)@ == r.1,
                None => top.is_none(),
            },
            final(self)@.wf(),
    {
        self.stack.pop()
    }

    fn emit(&mut self, s: Statement)
        ensures
            final(self)@ == old(self)@.emit(s@),
    {
        proof {
            lemma_code_view_push(self.code@, s);
        }
        self.code.push(s);
    }

    fn leak(&mut self, hazard: Hazard)
        requires
            old(self)@.wf(),
        ensures
            final(self)@ == old(self)@.leak(hazard),
            final(self)@.wf(),
    {
        self.stack.leak_into(&mut self.code, hazard);
    }

    /// Evaluates every pending value.
    pub fn leak_all(&mut self)
        requires
            old(self)@.wf(),
        ensures
            final(self)@ == old(self)@.leak(Hazard::All),
            final(self)@.wf(),
    {
        self.leak(Hazard::All);
    }

    /// Evaluates the pending values that a call could change.
    pub fn leak_pre_call(&mut self)
        requires
            old(self)@.wf(),
        ensures
            final(self)@ == old(self)@.leak(Hazard::Call),
            super::laws::quiet(final(self)@, Hazard::Call, final(self)@.stack.var_list.len() as int),
            final(self)@.stack.var_list.len() == old(self)@.stack.var_list.len(),
            final(self)@.wf(),
    {
        proof {
            super::laws::lemma_leak_quiet(self@, Hazard::Call, Hazard::All);
            self@.stack.lemma_leak_from(self@.code, Hazard::Call, 0);
        }
        self.leak(Hazard::Call);
    }

    /// Evaluates the pending values that read local `id`.
    pub fn leak_local_write(&mut self, id: usize)
        requires
            old(self)@.wf(),
        ensures
            final(self)@ == old(self)@.leak(Hazard::Local(id)),
            super::laws::quiet(final(self)@, Hazard::Local(id), final(self)@.stack.var_list.len() as int),
            final(self)@.stack.var_list.len() == old(self)@.stack.var_list.len(),
            final(self)@.wf(),
    {
        proof {
            super::laws::lemma_leak_quiet(self@, Hazard::Local(id), Hazard::All);
            self@.stack.lemma_leak_from(self@.code, Hazard::Local(id), 0);
        }
        self.leak(Hazard::Local(id));
    }

    /// Evaluates the pending values that read global `id`.
    pub fn leak_global_write(&mut self, id: usize)
        requires
            old(self)@.wf(),
        ensures
            final(self)@ == old(self)@.leak(Hazard::Global(id)),
            super::laws::quiet(final(self)@, Hazard::Global(id), final(self)@.stack.var_list.len() as int),
            final(self)@.stack.var_list.len() == old(self)@.stack.var_list.len(),
            final(self)@.wf(),
    {
        proof {
            super::laws::lemma_leak_quiet(self@, Hazard::Global(id), Hazard::All);
            self@.stack.lemma_leak_from(self@.code, Hazard::Global(id), 0);
        }
        self.leak(Hazard::Global(id));
    }

    /// Evaluates the pending values that load from memory `id`.
    pub fn leak_memory_write(&mut self, id: usize)
        requires
            old(self)@.wf(),
        ensures
            final(self)@ == old(self)@.leak(Hazard::Memory(id)),
            super::laws::quiet(final(self)@, Hazard::Memory(id), final(self)@.stack.var_list.len() as int),
            final(self)@.stack.var_list.len() == old(self)@.stack.var_list.len(),
            final(self)@.wf(),
    {
        proof {
            super::laws::lemma_leak_quiet(self@, Hazard::Memory(id), Hazard::All);
            self@.stack.lemma_leak_from(self@.code, Hazard::Memory(id), 0);
        }
        self.leak(Hazard::Memory(id));
    }

    pub fn push_load(&mut self, load_type: LoadType, memarg: MemArg) -> (ok: bool)
        requires
            old(self)@.wf(),
        ensures
            agrees(ok, final(self)@, old(self)@.push_load(load_type, memarg)),
            final(self)@.wf(),
    {
        if memarg.offset > usize::MAX as u64 {
            return false;
        }
        let memory = memarg.memory as usize;
        let offset = memarg.offset as usize;
        let pointer = match self.pop() {
            Some(v) => v,
            None => return false,
        };
        self.push(Expression::LoadAt(LoadAt { load_type, memory, offset, pointer: Box::new(pointer) }))
    }

    pub fn add_store(&mut self, store_type: StoreType, memarg: MemArg) -> (ok: bool)
        requires
            old(self)@.wf(),
        ensures
            agrees(ok, final(self)@, old(self)@.add_store(store_type, memarg)),
            ok == (memarg.offset <= usize::MAX && old(self)@.stack.var_list.len() >= 2),
            ok ==> super::laws::quiet(
                final(self)@,
                Hazard::Memory(memarg.memory as usize),
                final(self)@.stack.var_list.len() as int,
            ),
            ok ==> final(self)@.stack.var_list.len() + 2 == old(self)@.stack.var_list.len(),
            ok ==> final(self)@.code.len() > old(self)@.code.len() && final(self)@.code.subrange(
                0,
                old(self)@.code.len() as int,
            ) == old(self)@.code,
            ok ==> final(self)@.code.last() == store_at(
                store_type,
                memarg.memory as usize,
                memarg.offset as usize,
                old(self)@.stack.var_list[old(self)@.stack.var_list.len() - 2],
                old(self)@.stack.var_list[old(self)@.stack.var_list.len() - 1],
            ),
            ok ==> forall|j: int|
                0 <= j < final(self)@.stack.var_list.len() && !super::stack::reads(
                    old(self)@.stack.var_list[j],
                    Hazard::Memory(memarg.memory as usize),
                ) ==> #[trigger] final(self)@.stack.var_list[j] == old(self)@.stack.var_list[j],
            final(self)@.wf(),
    {
        proof {
            super::laws::lemma_memory_write_sound(self@, store_type, memarg, 0, 0);
            super::laws::lemma_add_store_shape(self@, store_type, memarg);
        }
        if memarg.offset > usize::MAX as u64 {
            return false;
        }
        let memory = memarg.memory as usize;
        let offset = memarg.offset as usize;
        let value = match self.pop() {
            Some(v) => v,
            None => return false,
        };
        let pointer = match self.pop() {
            Some(v) => v,
            None => return false,
        };
        self.leak_memory_write(memory);
        self.emit(
            Statement::StoreAt(
                StoreAt { store_type, memory, offset, pointer: Box::new(pointer), value: Box::new(value) },
            ),
        );
        true
    }

    pub fn push_constant(&mut self, value: Value) -> (ok: bool)
        requires
            old(self)@.wf(),
        ensures
            agrees(ok, final(self)@, old(self)@.push_constant(value)),
            final(self)@.wf(),
    {
        self.push(Expression::Value(value))
    }

    pub fn push_un_op(&mut self, op_type: UnOpType) -> (ok: bool)
        requires
            old(self)@.wf(),
        ensures
            agrees(ok, final(self)@, old(self)@.push_un_op(op_type)),
            final(self)@.wf(),
    {
        let rhs = match self.pop() {
            Some(v) => v,
            None => return false,
        };
        self.push(Expression::UnOp(UnOp { op_type, rhs: Box::new(rhs) }))
    }

    pub fn push_bin_op(&mut self, op_type: BinOpType) -> (ok: bool)
        requires
            old(self)@.wf(),
        ensures
            agrees(ok, final(self)@, old(self)@.push_bin_op(op_type)),
            final(self)@.wf(),
    {
        let rhs = match self.pop() {
            Some(v) => v,
            None => return false,
        };
        let lhs = match self.pop() {
            Some(v) => v,
            None => return false,
        };
        self.push(Expression::BinOp(BinOp { op_type, lhs: Box::new(lhs), rhs: Box::new(rhs) }))
    }

    pub fn push_cmp_op(&mut self, op_type: CmpOpType) -> (ok: bool)
        requires
            old(self)@.wf(),
        ensures
            agrees(ok, final(self)@, old(self)@.push_cmp_op(op_type)),
            final(self)@.wf(),
    {
        let rhs = match self.pop() {
            Some(v) => v,
            None => return false,
        };
        let lhs = match self.pop() {
            Some(v) => v,
            None => return false,
        };
        self.push(Expression::CmpOp(CmpOp { op_type, lhs: Box::new(lhs), rhs: Box::new(rhs) }))
    }

    pub fn set_terminator(&mut self, term: Terminator)
        requires
            old(self)@.wf(),
        ensures
            final(self)@ == old(self)@.set_terminator(term@),
            final(self)@.wf(),
    {
        self.leak_all();
        self.last = Some(Box::new(term));
    }

    /// The finished block.
    pub fn into_block(self) -> (block: Block)
        ensures
            block@ == self@.to_block(),
    {
        let label_type = if self.has_reference {
            Some(self.block_data.get_label())
        } else {
            None
        };
        Block { label_type, code: self.code, last: self.last }
    }
}


impl StatList {
    fn drop_top(&mut self) -> (ok: bool)
        requires
            old(self)@.wf(),
        ensures
            agrees(ok, final(self)@, old(self)@.drop_top()),
            final(self)@.wf(),
    {
        self.pop().is_some()
    }

    fn push_select(&mut self) -> (ok: bool)
        requires
            old(self)@.wf(),
        ensures
            agrees(ok, final(self)@, old(self)@.push_select()),
            final(self)@.wf(),
    {
        let condition = match self.pop() {
            Some(v) => v,
            None => return false,
        };
        let on_false = match self.pop() {
            Some(v) => v,
            None => return false,
        };
        let on_true = match self.pop() {
            Some(v) => v,
            None => return false,
        };
        self.push(
            Expression::Select(
                Select {
                    condition: Box::new(condition),
                    on_true: Box::new(on_true),
                    on_false: Box::new(on_false),
                },
            ),
        )
    }

    fn set_local(&mut self, var: usize) -> (ok: bool)
        requires
            old(self)@.wf(),
        ensures
            agrees(ok, final(self)@, old(self)@.set_local(var)),
            final(self)@.wf(),
    {
        let value = match self.pop() {
            Some(v) => v,
            None => return false,
        };
        self.leak_local_write(var);
        self.emit(Statement::SetLocal(SetLocal { var: Local { var }, value: Box::new(value) }));
        true
    }

    fn tee_local(&mut self, var: usize) -> (ok: bool)
        requires
            old(self)@.wf(),
        ensures
            agrees(ok, final(self)@, old(self)@.tee_local(var)),
            final(self)@.wf(),
    {
        let value = match self.pop() {
            Some(v) => v,
            None => return false,
        };
        self.leak_local_write(var);
        if !self.push(Expression::GetLocal(Local { var })) {
            return false;
        }
        self.emit(Statement::SetLocal(SetLocal { var: Local { var }, value: Box::new(value) }));
        true
    }

    fn set_global(&mut self, var: usize) -> (ok: bool)
        requires
            old(self)@.wf(),
        ensures
            agrees(ok, final(self)@, old(self)@.set_global(var)),
            final(self)@.wf(),
    {
        let value = match self.pop() {
            Some(v) => v,
            None => return false,
        };
        self.leak_global_write(var);
        self.emit(Statement::SetGlobal(SetGlobal { var, value: Box::new(value) }));
        true
    }

    fn grow_memory(&mut self, memory: usize) -> (ok: bool)
        requires
            old(self)@.wf(),
        ensures
            agrees(ok, final(self)@, old(self)@.grow_memory(memory)),
            final(self)@.wf(),
    {
        let size = match self.pop() {
            Some(v) => v,
            None => return false,
        };
        let result = match self.stack.push_temporary() {
            Some(v) => v,
            None => return false,
        };
        self.leak_memory_write(memory);
        self.emit(Statement::MemoryGrow(MemoryGrow { memory, result, size: Box::new(size) }));
        true
    }

    fn copy_memory(&mut self, dst_mem: usize, src_mem: usize) -> (ok: bool)
        requires
            old(self)@.wf(),
        ensures
            agrees(ok, final(self)@, old(self)@.copy_memory(dst_mem, src_mem)),
            final(self)@.wf(),
    {
        let size = match self.pop() {
            Some(v) => v,
            None => return false,
        };
        let source = match self.pop() {
            Some(v) => v,
            None => return false,
        };
        let destination = match self.pop() {
            Some(v) => v,
            None => return false,
        };
        self.leak_memory_write(src_mem);
        self.leak_memory_write(dst_mem);
        self.emit(
            Statement::MemoryCopy(
                MemoryCopy {
                    destination: MemoryArgument { memory: dst_mem, pointer: Box::new(destination) },
                    source: MemoryArgument { memory: src_mem, pointer: Box::new(source) },
                    size: Box::new(size),
                },
            ),
        );
        true
    }

    fn fill_memory(&mut self, memory: usize) -> (ok: bool)
        requires
            old(self)@.wf(),
        ensures
            agrees(ok, final(self)@, old(self)@.fill_memory(memory)),
            final(self)@.wf(),
    {
        let size = match self.pop() {
            Some(v) => v,
            None => return false,
        };
        let value = match self.pop() {
            Some(v) => v,
            None => return false,
        };
        let destination = match self.pop() {
            Some(v) => v,
            None => return false,
        };
        self.leak_memory_write(memory);
        self.emit(
            Statement::MemoryFill(
                MemoryFill {
                    destination: MemoryArgument { memory, pointer: Box::new(destination) },
                    size: Box::new(size),
                    value: Box::new(value),
                },
            ),
        );
        true
    }

    fn call(&mut self, function: usize, num_param: usize, num_result: usize) -> (ok: bool)
        requires
            old(self)@.wf(),
        ensures
            agrees(ok, final(self)@, old(self)@.call(function, num_param, num_result)),
            final(self)@.wf(),
    {
        let param_list = match self.stack.pop_len(num_param) {
            Some(v) => v,
            None => return false,
        };
        self.leak_pre_call();
        let result_list = match self.stack.push_temporaries(num_result) {
            Some(v) => v,
            None => return false,
        };
        self.emit(Statement::Call(Call { function, param_list, result_list }));
        true
    }

    fn call_indirect(&mut self, table: usize, num_param: usize, num_result: usize) -> (ok: bool)
        requires
            old(self)@.wf(),
        ensures
            agrees(ok, final(self)@, old(self)@.call_indirect(table, num_param, num_result)),
            final(self)@.wf(),
    {
        let index = match self.pop() {
            Some(v) => v,
            None => return false,
        };
        let param_list = match self.stack.pop_len(num_param) {
            Some(v) => v,
            None => return false,
        };
        self.leak_pre_call();
        let result_list = match self.stack.push_temporaries(num_result) {
            Some(v) => v,
            None => return false,
        };
        self.emit(
            Statement::CallIndirect(CallIndirect { table, index: Box::new(index), param_list, result_list }),
        );
        true
    }

    fn branch_if(&mut self, condition: Expression, target: Br)
        requires
            old(self)@.wf(),
        ensures
            final(self)@ == old(self)@.branch_if(condition, target),
            final(self)@.wf(),
    {
        self.leak_all();
        self.emit(Statement::BrIf(BrIf { condition: Box::new(condition), target }));
    }

    /// Rewrites a comparison with zero as a comparison with a constant.
    pub fn try_add_equal_zero(&mut self, op: &Operator) -> (ok: bool)
        requires
            old(self)@.wf(),
            *op is I32Eqz || *op is I64Eqz,
        ensures
            agrees(
                ok,
                final(self)@,
                if *op is I32Eqz {
                    old(self)@.push_equal_zero(Value::I32(0), NumType::I32)
                } else {
                    old(self)@.push_equal_zero(Value::I64(0), NumType::I64)
                },
            ),
            final(self)@.wf(),
    {
        match op {
            Operator::I32Eqz => {
                if !self.push_constant(Value::I32(0)) {
                    return false;
                }
                self.push_cmp_op(CmpOpType { kind: CmpOpKind::Eq, ty: NumType::I32 })
            },
            _ => {
                if !self.push_constant(Value::I64(0)) {
                    return false;
                }
                self.push_cmp_op(CmpOpType { kind: CmpOpKind::Eq, ty: NumType::I64 })
            },
        }
    }
}


/// The mathematical content of a `Factory`.
pub struct FactoryView {
    /// The enclosing open blocks, outermost first.
    pub pending: Seq<StatListView>,
    /// The innermost open block.
    pub target: StatListView,
    /// The depth of unreachable code: zero where code is reachable.
    pub nested_unreachable: usize,
}

impl FactoryView {
    pub open spec fn wf(self) -> bool {
        &&& self.target.wf()
        &&& forall|i: int| 0 <= i < self.pending.len() ==> (#[trigger] self.pending[i]).wf()
    }

    /// The state before the first operator of a function with
    /// `num_result` results.
    pub open spec fn start(num_result: usize) -> FactoryView {
        FactoryView {
            pending: Seq::empty(),
            target: StatListView { block_data: BlockData::Forward { num_result }, ..StatListView::empty() },
            nested_unreachable: 0,
        }
    }

    pub open spec fn with_target(self, target: Option<StatListView>) -> Option<FactoryView> {
        match target {
            Some(target) => Some(FactoryView { target, ..self }),
            None => None,
        }
    }

    /// Opens a block: everything pending is evaluated, the block takes its
    /// parameters from the stack, and the enclosing block gets the
    /// temporaries that will hold its results. For the second arm of an
    /// `if`, the results of the first arm are first replaced by the
    /// parameters again.
    pub open spec fn start_block(self, info: TypeInfoView, ty: BlockType, variant: BlockVariant) -> Option<FactoryView> {
        match info.by_block_type(ty) {
            Some(sig) => {
                let old = self.target.leak(Hazard::All);
                let prepared = match variant {
                    BlockVariant::Else => match old.stack.pop_len(sig.1 as int) {
                        Some(r) => match r.1.push_temporaries(sig.0 as int) {
                            Some(t) => Some(t.1),
                            None => None,
                        },
                        None => None,
                    },
                    _ => Some(old.stack),
                };
                let block_data = match variant {
                    BlockVariant::Forward => BlockData::Forward { num_result: sig.1 },
                    BlockVariant::Backward => BlockData::Backward { num_param: sig.0 },
                    BlockVariant::If => BlockData::If { num_result: sig.1, ty },
                    BlockVariant::Else => BlockData::Else { num_result: sig.1 },
                };
                match prepared {
                    Some(stack) => match stack.split_last(sig.0 as int, sig.1 as int) {
                        Some(split) => match split.1.push_temporaries(sig.1 as int) {
                            Some(rest) => Some(
                                FactoryView {
                                    pending: self.pending.push(StatListView { stack: rest.1, ..old }),
                                    target: StatListView { stack: split.0, block_data, ..StatListView::empty() },
                                    nested_unreachable: self.nested_unreachable,
                                },
                            ),
                            None => None,
                        },
                        None => None,
                    },
                    None => None,
                }
            },
            None => None,
        }
    }

    /// Closes the innermost block and appends it to the enclosing one: as
    /// a block, as an `if` whose condition is on the enclosing stack, or
    /// as the second arm of the `if` that the enclosing block ends with.
    /// The count of temporaries of the enclosing block is raised to that of
    /// the closed block, where it is lower.
    pub open spec fn end_block(self) -> Option<FactoryView> {
        if self.pending.len() == 0 {
            None
        } else {
            let now = self.target;
            let old = self.pending.last();
            let parent = StatListView {
                stack: StackView {
                    capacity: if old.stack.capacity >= now.stack.capacity {
                        old.stack.capacity
                    } else {
                        now.stack.capacity
                    },
                    ..old.stack
                },
                ..old
            };
            let pending = self.pending.drop_last();
            match now.block_data {
                BlockData::If { .. } => match parent.pop() {
                    Some(r) => Some(
                        FactoryView {
                            pending,
                            target: r.1.emit(
                                StatementView::If(
                                    IfView { condition: r.0, on_true: now.to_block(), on_false: None },
                                ),
                            ),
                            nested_unreachable: self.nested_unreachable,
                        },
                    ),
                    None => None,
                },
                BlockData::Else { .. } => {
                    if parent.code.len() > 0 && parent.code.last() is If {
                        let first = parent.code.last()->If_0;
                        Some(
                            FactoryView {
                                pending,
                                target: StatListView {
                                    code: parent.code.drop_last().push(
                                        StatementView::If(IfView { on_false: Some(now.to_block()), ..first }),
                                    ),
                                    ..parent
                                },
                                nested_unreachable: self.nested_unreachable,
                            },
                        )
                    } else {
                        None
                    }
                },
                _ => Some(
                    FactoryView {
                        pending,
                        target: parent.emit(StatementView::Block(now.to_block())),
                        nested_unreachable: self.nested_unreachable,
                    },
                ),
            }
        }
    }

    /// Ends the first arm of an `if` and opens the second.
    pub open spec fn start_else(self, info: TypeInfoView) -> Option<FactoryView> {
        match self.target.block_data {
            BlockData::If { ty, .. } => match (FactoryView {
                target: self.target.leak(Hazard::All),
                ..self
            }).end_block() {
                Some(f) => f.start_block(info, ty, BlockVariant::Else),
                None => None,
            },
            _ => None,
        }
    }

    /// The open block that is `index` levels out of the innermost one.
    pub open spec fn relative(self, index: int) -> Option<StatListView> {
        if index == 0 {
            Some(self.target)
        } else if 0 < index <= self.pending.len() {
            Some(self.pending[self.pending.len() - index])
        } else {
            None
        }
    }

    /// Records that a branch targets the block `index` levels out.
    pub open spec fn mark_reference(self, index: int) -> FactoryView {
        if index == 0 {
            FactoryView { target: StatListView { has_reference: true, ..self.target }, ..self }
        } else {
            let at = self.pending.len() - index;
            FactoryView {
                pending: self.pending.update(at, StatListView { has_reference: true, ..self.pending[at] }),
                ..self
            }
        }
    }

    /// The branch to the block `target` levels out: the block is marked
    /// as referenced, and the branch moves the values it carries from the
    /// top of the stack to the slots where the block expects them.
    pub open spec fn br_terminator(self, target: int) -> Option<(Br, FactoryView)> {
        match self.relative(target) {
            Some(block) => match self.target.stack.br_alignment(
                block.stack.previous as int,
                block.block_data.carried() as int,
            ) {
                Some(align) => Some((Br { target: target as usize, align }, self.mark_reference(target))),
                None => None,
            },
            None => None,
        }
    }

    /// The branches of a table, one for each target in order.
    pub open spec fn br_terminators(self, targets: Seq<u32>) -> Option<(Seq<Br>, FactoryView)>
        decreases targets.len(),
    {
        if targets.len() == 0 {
            Some((Seq::empty(), self))
        } else {
            match self.br_terminators(targets.drop_last()) {
                Some(r) => match r.1.br_terminator(targets.last() as int) {
                    Some(t) => Some((r.0.push(t.0), t.1)),
                    None => None,
                },
                None => None,
            }
        }
    }

    /// Ends the target with a terminator and enters unreachable code.
    pub open spec fn terminate(self, term: TerminatorView) -> FactoryView {
        FactoryView {
            pending: self.pending,
            target: self.target.set_terminator(term),
            nested_unreachable: 1,
        }
    }

    /// `return`: a branch to the outermost block.
    pub open spec fn add_return(self) -> Option<FactoryView> {
        if self.pending.len() <= usize::MAX {
            match self.br_terminator(self.pending.len() as int) {
                Some(r) => Some(r.1.terminate(TerminatorView::Br(r.0))),
                None => None,
            }
        } else {
            None
        }
    }

    pub open spec fn add_br(self, depth: usize) -> Option<FactoryView> {
        match self.br_terminator(depth as int) {
            Some(r) => Some(r.1.terminate(TerminatorView::Br(r.0))),
            None => None,
        }
    }

    pub open spec fn add_br_if(self, depth: usize) -> Option<FactoryView> {
        match self.target.pop() {
            Some(condition) => match (FactoryView { target: condition.1, ..self }).br_terminator(depth as int) {
                Some(r) => Some(FactoryView { target: r.1.target.branch_if(condition.0, r.0), ..r.1 }),
                None => None,
            },
            None => None,
        }
    }

    pub open spec fn add_br_table(self, targets: Seq<u32>, default: u32) -> Option<FactoryView> {
        match self.target.pop() {
            Some(condition) => match (FactoryView { target: condition.1, ..self }).br_terminators(targets) {
                Some(data) => match data.1.br_terminator(default as int) {
                    Some(last) => Some(
                        last.1.terminate(
                            TerminatorView::BrTable(
                                BrTableView { condition: condition.0, data: data.0, default: last.0 },
                            ),
                        ),
                    ),
                    None => None,
                },
                None => None,
            },
            None => None,
        }
    }

    pub open spec fn add_if(self, info: TypeInfoView, blockty: BlockType) -> Option<FactoryView> {
        match self.target.pop() {
            Some(condition) => match (FactoryView { target: condition.1, ..self }).start_block(
                info,
                blockty,
                BlockVariant::If,
            ) {
                Some(f) => match f.pending.last().push(condition.0) {
                    Some(parent) => Some(FactoryView { pending: f.pending.drop_last().push(parent), ..f }),
                    None => None,
                },
                None => None,
            },
            None => None,
        }
    }

    pub open spec fn add_call(self, info: TypeInfoView, function: usize) -> Option<FactoryView> {
        match info.by_func_index(function as int) {
            Some(sig) => self.with_target(self.target.call(function, sig.0, sig.1)),
            None => None,
        }
    }

    pub open spec fn add_call_indirect(self, info: TypeInfoView, ty: usize, table: usize) -> Option<FactoryView> {
        match info.by_type_index(ty as int) {
            Some(sig) => self.with_target(self.target.call_indirect(table, sig.0, sig.1)),
            None => None,
        }
    }

    /// What a reachable operator does to the state; `None` where the
    /// operator is unsupported, an index is out of range, the stack holds
    /// too few values, or a count leaves the machine's integers.
    #[verifier::opaque]
    pub open spec fn add_instruction(self, info: TypeInfoView, op: Operator) -> Option<FactoryView> {
        match op {
            Operator::UnOp(op_type) => self.with_target(self.target.push_un_op(op_type)),
            Operator::BinOp(op_type) => self.with_target(self.target.push_bin_op(op_type)),
            Operator::CmpOp(op_type) => self.with_target(self.target.push_cmp_op(op_type)),
            Operator::I32Eqz => self.with_target(self.target.push_equal_zero(Value::I32(0), NumType::I32)),
            Operator::I64Eqz => self.with_target(self.target.push_equal_zero(Value::I64(0), NumType::I64)),
            Operator::Unreachable => Some(self.terminate(TerminatorView::Unreachable)),
            Operator::Nop => Some(self),
            Operator::Block { blockty } => self.start_block(info, blockty, BlockVariant::Forward),
            Operator::Loop { blockty } => self.start_block(info, blockty, BlockVariant::Backward),
            Operator::If { blockty } => self.add_if(info, blockty),
            Operator::Else => self.start_else(info),
            Operator::End => (FactoryView { target: self.target.leak(Hazard::All), ..self }).end_block(),
            Operator::Br { relative_depth } => self.add_br(to_index(relative_depth)),
            Operator::BrIf { relative_depth } => self.add_br_if(to_index(relative_depth)),
            Operator::BrTable { targets, default } => self.add_br_table(targets@, default),
            Operator::Return => self.add_return(),
            Operator::Call { function_index } => self.add_call(info, to_index(function_index)),
            Operator::CallIndirect { type_index, table_index } => self.add_call_indirect(
                info,
                to_index(type_index),
                to_index(table_index),
            ),
            Operator::Drop => self.with_target(self.target.drop_top()),
            Operator::Select => self.with_target(self.target.push_select()),
            Operator::LocalGet { local_index } => self.with_target(
                self.target.push(Expression::GetLocal(Local { var: to_index(local_index) })),
            ),
            Operator::LocalSet { local_index } => self.with_target(self.target.set_local(to_index(local_index))),
            Operator::LocalTee { local_index } => self.with_target(self.target.tee_local(to_index(local_index))),
            Operator::GlobalGet { global_index } => self.with_target(
                self.target.push(Expression::GetGlobal(GetGlobal { var: to_index(global_index) })),
            ),
            Operator::GlobalSet { global_index } => self.with_target(
                self.target.set_global(to_index(global_index)),
            ),
            Operator::Load { load_type, memarg } => self.with_target(self.target.push_load(load_type, memarg)),
            Operator::Store { store_type, memarg } => self.with_target(
                self.target.add_store(store_type, memarg),
            ),
            Operator::MemorySize { mem } => self.with_target(
                self.target.push(Expression::MemorySize(MemorySize { memory: to_index(mem) })),
            ),
            Operator::MemoryGrow { mem } => self.with_target(self.target.grow_memory(to_index(mem))),
            Operator::MemoryCopy { dst_mem, src_mem } => self.with_target(
                self.target.copy_memory(to_index(dst_mem), to_index(src_mem)),
            ),
            Operator::MemoryFill { mem } => self.with_target(self.target.fill_memory(to_index(mem))),
            Operator::I32Const { value } => self.with_target(self.target.push_constant(Value::I32(value))),
            Operator::I64Const { value } => self.with_target(self.target.push_constant(Value::I64(value))),
            Operator::F32Const { bits } => self.with_target(self.target.push_constant(Value::F32(bits))),
            Operator::F64Const { bits } => self.with_target(self.target.push_constant(Value::F64(bits))),
            Operator::Unsupported => None,
        }
    }

    /// What an unreachable operator does to the state: it is dropped,
    /// but blocks are counted, and the `else` or `end` that closes the
    /// unreachable code takes effect.
    #[verifier::opaque]
    pub open spec fn drop_unreachable(self, info: TypeInfoView, op: Operator) -> Option<FactoryView> {
        match op {
            Operator::Block { .. } | Operator::Loop { .. } | Operator::If { .. } => {
                if self.nested_unreachable < usize::MAX {
                    Some(FactoryView { nested_unreachable: (self.nested_unreachable + 1) as usize, ..self })
                } else {
                    None
                }
            },
            Operator::Else => {
                if self.nested_unreachable == 1 {
                    (FactoryView { nested_unreachable: 0, ..self }).start_else(info)
                } else {
                    Some(self)
                }
            },
            Operator::End => {
                if self.nested_unreachable == 1 {
                    (FactoryView { nested_unreachable: 0, ..self }).end_block()
                } else if self.nested_unreachable > 1 {
                    Some(FactoryView { nested_unreachable: (self.nested_unreachable - 1) as usize, ..self })
                } else {
                    None
                }
            },
            _ => Some(self),
        }
    }

    /// One operator.
    pub open spec fn step(self, info: TypeInfoView, op: Operator) -> Option<FactoryView> {
        if self.nested_unreachable == 0 {
            self.add_instruction(info, op)
        } else {
            self.drop_unreachable(info, op)
        }
    }

    /// The operators of `list`, in order.
    pub open spec fn run(self, info: TypeInfoView, list: Seq<Operator>) -> Option<FactoryView>
        decreases list.len(),
    {
        if list.len() == 0 {
            Some(self)
        } else {
            match self.run(info, list.drop_last()) {
                Some(f) => f.step(info, list.last()),
                None => None,
            }
        }
    }
}

/// The statements of a function body with `num_result` results, whose
/// operators are `list` with the `end` that closes the body as the last
/// one. `None` where the body is malformed: it is empty, a step is
/// undefined, or a block is still open where the body ends.
pub open spec fn lift(info: TypeInfoView, list: Seq<Operator>, num_result: usize) -> Option<StatListView> {
    if list.len() == 0 {
        None
    } else {
        match FactoryView::start(num_result).run(info, list.drop_last()) {
            Some(f) => if f.pending.len() != 0 {
                None
            } else if f.nested_unreachable == 0 {
                Some(f.target.leak(Hazard::All))
            } else {
                Some(f.target)
            },
            None => None,
        }
    }
}

/// The function without parameters and with one result whose body is
/// `list`.
pub open spec fn lift_anonymous(info: TypeInfoView, list: Seq<Operator>) -> Option<FuncDataView> {
    match lift(info, list, 1) {
        Some(data) => Some(
            FuncDataView {
                local_data: Seq::empty(),
                num_result: 1,
                num_param: 0,
                num_stack: data.stack.capacity,
                code: data.to_block(),
            },
        ),
        None => None,
    }
}

/// The function of index `index` with body `list` and locals
/// `local_data`.
pub open spec fn lift_indexed(info: TypeInfoView, index: usize, list: Seq<Operator>, local_data: Seq<ValType>) -> Option<FuncDataView> {
    match info.by_func_index(index as int) {
        Some(sig) => match lift(info, list, sig.1) {
            Some(data) => Some(
                FuncDataView {
                    local_data,
                    num_result: sig.1,
                    num_param: sig.0,
                    num_stack: data.stack.capacity,
                    code: data.to_block(),
                },
            ),
            None => None,
        },
        None => None,
    }
}


/// The views of the open blocks in `pending`, outermost first.
pub open spec fn pending_view(pending: Seq<StatList>) -> Seq<StatListView> {
    Seq::new(pending.len(), |i: int| pending[i]@)
}

/// A reachable operator that the lifter has no case for is refused.
pub proof fn lemma_unsupported(f: FactoryView, info: TypeInfoView)
    ensures
        f.add_instruction(info, Operator::Unsupported) is None,
{
    reveal(FactoryView::add_instruction);
}

/// Once a step is undefined, so is every longer run.
pub proof fn lemma_run_stays_undefined(start: FactoryView, info: TypeInfoView, list: Seq<Operator>, k: int, m: int)
    requires
        0 <= k <= m <= list.len(),
        start.run(info, list.take(k)) is None,
    ensures
        start.run(info, list.take(m)) is None,
    decreases m - k,
{
    if k < m {
        lemma_run_stays_undefined(start, info, list, k, m - 1);
        assert(list.take(m).drop_last() =~= list.take(m - 1));
    }
}

/// The lifter. It turns the operators of a function body into a tree of
/// blocks, statements and expressions, and puts pending values into
/// temporaries wherever an operator could otherwise overtake them.
pub struct Factory<'a> {
    type_info: &'a TypeInfo,
    pending: Vec<StatList>,
    target: StatList,
    nested_unreachable: usize,
}

impl<'a> View for Factory<'a> {
    type V = FactoryView;

    closed spec fn view(&self) -> FactoryView {
        FactoryView {
            pending: pending_view(self.pending@),
            target: self.target@,
            nested_unreachable: self.nested_unreachable,
        }
    }
}

impl<'a> Factory<'a> {
    /// The type information that the lifter works with.
    pub closed spec fn info(&self) -> TypeInfoView {
        self.type_info@
    }

    #[must_use]
    pub fn from_type_info(type_info: &'a TypeInfo) -> (factory: Factory<'a>)
        ensures
            factory.info() == type_info@,
            factory@ == FactoryView::start(0),
            factory@.wf(),
    {
        let factory = Factory { type_info, pending: Vec::new(), target: StatList::new(), nested_unreachable: 0 };
        assert(factory@.pending =~= Seq::empty());
        factory
    }

    pub fn start_block(&mut self, ty: BlockType, variant: BlockVariant) -> (ok: bool)
        requires
            old(self)@.wf(),
        ensures
            agrees(ok, final(self)@, old(self)@.start_block(old(self).info(), ty, variant)),
            final(self).info() == old(self).info(),
            final(self)@.wf(),
    {
        let (num_param, num_result) = match self.type_info.by_block_type(ty) {
            Some(v) => v,
            None => return false,
        };
        let mut old = StatList::new();
        core::mem::swap(&mut self.target, &mut old);
        old.leak_all();
        let block_data = match variant {
            BlockVariant::Forward => BlockData::Forward { num_result },
            BlockVariant::Backward => BlockData::Backward { num_param },
            BlockVariant::If => BlockData::If { num_result, ty },
            BlockVariant::Else => {
                if old.stack.pop_len(num_result).is_none() {
                    return false;
                }
                if old.stack.push_temporaries(num_param).is_none() {
                    return false;
                }
                BlockData::Else { num_result }
            },
        };
        let child = match old.stack.split_last(num_param, num_result) {
            Some(v) => v,
            None => return false,
        };
        if old.stack.push_temporaries(num_result).is_none() {
            return false;
        }
        self.target.block_data = block_data;
        self.target.stack = child;
        let ghost before = self.pending@;
        self.pending.push(old);
        assert(pending_view(self.pending@) =~= pending_view(before).push(old@));
        true
    }

    pub fn start_else(&mut self) -> (ok: bool)
        requires
            old(self)@.wf(),
        ensures
            agrees(ok, final(self)@, old(self)@.start_else(old(self).info())),
            final(self).info() == old(self).info(),
            final(self)@.wf(),
    {
        let ty = match self.target.block_data {
            BlockData::If { ty, .. } => ty,
            _ => return false,
        };
        self.target.leak_all();
        if !self.end_block() {
            return false;
        }
        self.start_block(ty, BlockVariant::Else)
    }

    pub fn end_block(&mut self) -> (ok: bool)
        requires
            old(self)@.wf(),
        ensures
            agrees(ok, final(self)@, old(self)@.end_block()),
            ok ==> final(self)@.pending == old(self)@.pending.drop_last(),
            ok ==> final(self)@.target.stack.capacity >= old(self)@.pending.last().stack.capacity,
            ok ==> final(self)@.target.stack.capacity >= old(self)@.target.stack.capacity,
            ok ==> final(self)@.target.stack.capacity == old(self)@.pending.last().stack.capacity
                || final(self)@.target.stack.capacity == old(self)@.target.stack.capacity,
            final(self).info() == old(self).info(),
            final(self)@.wf(),
    {
        let ghost before = self.pending@;
        let mut now = match self.pending.pop() {
            Some(v) => v,
            None => return false,
        };
        assert(pending_view(self.pending@) =~= pending_view(before).drop_last());
        assert(pending_view(before).last() == now@);
        core::mem::swap(&mut self.target, &mut now);
        if self.target.stack.capacity < now.stack.capacity {
            self.target.stack.capacity = now.stack.capacity;
        }
        match now.block_data {
            BlockData::If { .. } => {
                let condition = match self.target.pop() {
                    Some(v) => v,
                    None => return false,
                };
                let block = now.into_block();
                self.target.emit(
                    Statement::If(If { condition: Box::new(condition), on_true: Box::new(block), on_false: None }),
                );
                true
            },
            BlockData::Else { .. } => {
                let ghost code = self.target.code@;
                proof {
                    if code.len() > 0 {
                        assert(code_view(code) == code_view(code.drop_last()).push(code.last()@));
                        assert(code_view(code).drop_last() =~= code_view(code.drop_last()));
                    }
                }
                match self.target.code.pop() {
                    Some(Statement::If(mut node)) => {
                        node.on_false = Some(Box::new(now.into_block()));
                        let ghost rest = self.target.code@;
                        let renewed = Statement::If(node);
                        proof {
                            lemma_code_view_push(rest, renewed);
                        }
                        self.target.code.push(renewed);
                        true
                    },
                    _ => false,
                }
            },
            _ => {
                let block = now.into_block();
                self.target.emit(Statement::Block(block));
                true
            },
        }
    }

    /// Makes the branch to the block `target` levels out and marks the
    /// block as referenced.
    pub fn get_br_terminator(&mut self, target: usize) -> (br: Option<Br>)
        requires
            old(self)@.wf(),
        ensures
            match old(self)@.br_terminator(target as int) {
                Some(r) => br == Some(r.0) && final(self)@ == r.1,
                None => br.is_none(),
            },
            br matches Some(made) ==> {
                &&& made.target == target
                &&& target <= old(self)@.pending.len()
                &&& final(self)@.relative(target as int) matches Some(block) && block.has_reference
                &&& final(self)@ == old(self)@.mark_reference(target as int)
            },
            final(self).info() == old(self).info(),
            final(self)@.wf(),
    {
        let n = self.pending.len();
        if target > n {
            return None;
        }
        let (previous, carried) = if target == 0 {
            (self.target.stack.previous, self.target.block_data.get_carried())
        } else {
            let block = &self.pending[n - target];
            (block.stack.previous, block.block_data.get_carried())
        };
        let align = match self.target.stack.get_br_alignment(previous, carried) {
            Some(v) => v,
            None => return None,
        };
        if target == 0 {
            self.target.has_reference = true;
        } else {
            let ghost before = self.pending@;
            self.pending[n - target].has_reference = true;
            assert(pending_view(self.pending@) =~= pending_view(before).update(
                n - target,
                StatListView { has_reference: true, ..before[n - target]@ },
            ));
        }
        Some(Br { target, align })
    }

    fn terminate(&mut self, term: Terminator)
        requires
            old(self)@.wf(),
        ensures
            final(self)@ == old(self)@.terminate(term@),
            final(self).info() == old(self).info(),
            final(self)@.wf(),
    {
        self.target.set_terminator(term);
        self.nested_unreachable = 1;
    }

    fn add_br(&mut self, depth: usize) -> (ok: bool)
        requires
            old(self)@.wf(),
        ensures
            agrees(ok, final(self)@, old(self)@.add_br(depth)),
            final(self).info() == old(self).info(),
            final(self)@.wf(),
    {
        let br = match self.get_br_terminator(depth) {
            Some(v) => v,
            None => return false,
        };
        self.terminate(Terminator::Br(br));
        true
    }

    fn add_return(&mut self) -> (ok: bool)
        requires
            old(self)@.wf(),
        ensures
            agrees(ok, final(self)@, old(self)@.add_return()),
            final(self).info() == old(self).info(),
            final(self)@.wf(),
    {
        let depth = self.pending.len();
        let br = match self.get_br_terminator(depth) {
            Some(v) => v,
            None => return false,
        };
        self.terminate(Terminator::Br(br));
        true
    }

    fn add_br_if(&mut self, depth: usize) -> (ok: bool)
        requires
            old(self)@.wf(),
        ensures
            agrees(ok, final(self)@, old(self)@.add_br_if(depth)),
            final(self).info() == old(self).info(),
            final(self)@.wf(),
    {
        let condition = match self.target.pop() {
            Some(v) => v,
            None => return false,
        };
        let br = match self.get_br_terminator(depth) {
            Some(v) => v,
            None => return false,
        };
        self.target.branch_if(condition, br);
        true
    }

    fn add_br_table(&mut self, targets: &Vec<u32>, default: u32) -> (ok: bool)
        requires
            old(self)@.wf(),
        ensures
            agrees(ok, final(self)@, old(self)@.add_br_table(targets@, default)),
            final(self).info() == old(self).info(),
            final(self)@.wf(),
    {
        let condition = match self.target.pop() {
            Some(v) => v,
            None => return false,
        };
        let ghost first = self@;
        let mut data: Vec<Br> = Vec::new();
        let mut i: usize = 0;
        assert(targets@.take(0) =~= Seq::empty());
        while i < targets.len()
            invariant
                i <= targets.len(),
                self@.wf(),
                self.info() == old(self).info(),
                old(self)@.target.pop() is Some,
                old(self)@.target.pop().unwrap().0 == condition,
                first == (FactoryView { target: old(self)@.target.pop().unwrap().1, ..old(self)@ }),
                first.br_terminators(targets@.take(i as int)) == Some((data@, self@)),
            decreases targets.len() - i,
        {
            assert(targets@.take(i + 1).drop_last() =~= targets@.take(i as int));
            assert(targets@.take(i + 1).last() == targets@[i as int]);
            let br = match self.get_br_terminator(index_of(targets[i])) {
                Some(v) => v,
                None => {
                    proof {
                        lemma_br_terminators_stay_undefined(first, targets@, i + 1, targets@.len() as int);
                        assert(targets@.take(targets@.len() as int) =~= targets@);
                    }
                    return false;
                },
            };
            data.push(br);
            i += 1;
        }
        assert(targets@.take(i as int) =~= targets@);
        let last = match self.get_br_terminator(index_of(default)) {
            Some(v) => v,
            None => return false,
        };
        self.terminate(Terminator::BrTable(BrTable { condition: Box::new(condition), data, default: last }));
        true
    }

    fn add_if(&mut self, blockty: BlockType) -> (ok: bool)
        requires
            old(self)@.wf(),
        ensures
            agrees(ok, final(self)@, old(self)@.add_if(old(self).info(), blockty)),
            final(self).info() == old(self).info(),
            final(self)@.wf(),
    {
        let condition = match self.target.pop() {
            Some(v) => v,
            None => return false,
        };
        if !self.start_block(blockty, BlockVariant::If) {
            return false;
        }
        let n = self.pending.len();
        let ghost before = self.pending@;
        let ok = self.pending[n - 1].push(condition);
        proof {
            if ok {
                assert(pending_view(self.pending@) =~= pending_view(before).drop_last().push(
                    self.pending@[n - 1]@,
                ));
            }
            assert forall|i: int| 0 <= i < self@.pending.len() implies (#[trigger] self@.pending[i]).wf() by {
                if i < n - 1 {
                    assert(self@.pending[i] == pending_view(before)[i]);
                }
            }
        }
        ok
    }

    pub fn add_call(&mut self, function: usize) -> (ok: bool)
        requires
            old(self)@.wf(),
        ensures
            agrees(ok, final(self)@, old(self)@.add_call(old(self).info(), function)),
            final(self).info() == old(self).info(),
            final(self)@.wf(),
    {
        let (num_param, num_result) = match self.type_info.by_func_index(function) {
            Some(v) => v,
            None => return false,
        };
        self.target.call(function, num_param, num_result)
    }

    pub fn add_call_indirect(&mut self, ty: usize, table: usize) -> (ok: bool)
        requires
            old(self)@.wf(),
        ensures
            agrees(ok, final(self)@, old(self)@.add_call_indirect(old(self).info(), ty, table)),
            final(self).info() == old(self).info(),
            final(self)@.wf(),
    {
        let (num_param, num_result) = match self.type_info.by_type_index(ty) {
            Some(v) => v,
            None => return false,
        };
        self.target.call_indirect(table, num_param, num_result)
    }

    /// Handles an operator in unreachable code.
    pub fn drop_unreachable(&mut self, op: &Operator) -> (ok: bool)
        requires
            old(self)@.wf(),
        ensures
            agrees(ok, final(self)@, old(self)@.drop_unreachable(old(self).info(), *op)),
            final(self).info() == old(self).info(),
            final(self)@.wf(),
    {
        reveal(FactoryView::drop_unreachable);
        match op {
            Operator::Block { .. } | Operator::Loop { .. } | Operator::If { .. } => {
                if self.nested_unreachable == usize::MAX {
                    return false;
                }
                self.nested_unreachable += 1;
                true
            },
            Operator::Else => {
                if self.nested_unreachable == 1 {
                    self.nested_unreachable -= 1;
                    self.start_else()
                } else {
                    true
                }
            },
            Operator::End => {
                if self.nested_unreachable == 1 {
                    self.nested_unreachable -= 1;
                    self.end_block()
                } else if self.nested_unreachable > 1 {
                    self.nested_unreachable -= 1;
                    true
                } else {
                    false
                }
            },
            _ => true,
        }
    }

    /// Handles an operator in reachable code. An operator that the lifter
    /// has no case for is left out: the caller tests for it first.
    pub fn add_instruction(&mut self, op: &Operator) -> (ok: bool)
        requires
            old(self)@.wf(),
            !(*op is Unsupported),
        ensures
            agrees(ok, final(self)@, old(self)@.add_instruction(old(self).info(), *op)),
            final(self).info() == old(self).info(),
            final(self)@.wf(),
    {
        reveal(FactoryView::add_instruction);
        match op {
            Operator::UnOp(op_type) => self.target.push_un_op(*op_type),
            Operator::BinOp(op_type) => self.target.push_bin_op(*op_type),
            Operator::CmpOp(op_type) => self.target.push_cmp_op(*op_type),
            Operator::I32Eqz => self.target.try_add_equal_zero(op),
            Operator::I64Eqz => self.target.try_add_equal_zero(op),
            Operator::Unreachable => {
                self.terminate(Terminator::Unreachable);
                true
            },
            Operator::Nop => true,
            Operator::Block { blockty } => self.start_block(*blockty, BlockVariant::Forward),
            Operator::Loop { blockty } => self.start_block(*blockty, BlockVariant::Backward),
            Operator::If { blockty } => self.add_if(*blockty),
            Operator::Else => self.start_else(),
            Operator::End => {
                self.target.leak_all();
                self.end_block()
            },
            Operator::Br { relative_depth } => self.add_br(index_of(*relative_depth)),
            Operator::BrIf { relative_depth } => self.add_br_if(index_of(*relative_depth)),
            Operator::BrTable { targets, default } => self.add_br_table(targets, *default),
            Operator::Return => self.add_return(),
            Operator::Call { function_index } => self.add_call(index_of(*function_index)),
            Operator::CallIndirect { type_index, table_index } => self.add_call_indirect(
                index_of(*type_index),
                index_of(*table_index),
            ),
            Operator::Drop => self.target.drop_top(),
            Operator::Select => self.target.push_select(),
            Operator::LocalGet { local_index } => self.target.push(
                Expression::GetLocal(Local { var: index_of(*local_index) }),
            ),
            Operator::LocalSet { local_index } => self.target.set_local(index_of(*local_index)),
            Operator::LocalTee { local_index } => self.target.tee_local(index_of(*local_index)),
            Operator::GlobalGet { global_index } => self.target.push(
                Expression::GetGlobal(GetGlobal { var: index_of(*global_index) }),
            ),
            Operator::GlobalSet { global_index } => self.target.set_global(index_of(*global_index)),
            Operator::Load { load_type, memarg } => self.target.push_load(*load_type, *memarg),
            Operator::Store { store_type, memarg } => self.target.add_store(*store_type, *memarg),
            Operator::MemorySize { mem } => self.target.push(
                Expression::MemorySize(MemorySize { memory: index_of(*mem) }),
            ),
            Operator::MemoryGrow { mem } => self.target.grow_memory(index_of(*mem)),
            Operator::MemoryCopy { dst_mem, src_mem } => self.target.copy_memory(
                index_of(*dst_mem),
                index_of(*src_mem),
            ),
            Operator::MemoryFill { mem } => self.target.fill_memory(index_of(*mem)),
            Operator::I32Const { value } => self.target.push_constant(Value::I32(*value)),
            Operator::I64Const { value } => self.target.push_constant(Value::I64(*value)),
            Operator::F32Const { bits } => self.target.push_constant(Value::F32(*bits)),
            Operator::F64Const { bits } => self.target.push_constant(Value::F64(*bits)),
            Operator::Unsupported => vstd::pervasive::unreached(),
        }
    }

    /// Lifts a function body with `num_result` results.
    pub fn build_stat_list(&mut self, list: &[Operator], num_result: usize) -> (data: Option<StatList>)
        ensures
            match lift(old(self).info(), list@, num_result) {
                Some(model) => data.is_some() && data.unwrap()@ == model,
                None => data.is_none(),
            },
            final(self).info() == old(self).info(),
    {
        self.pending = Vec::new();
        self.target = StatList::new();
        self.target.block_data = BlockData::Forward { num_result };
        self.nested_unreachable = 0;
        if list.len() == 0 {
            return None;
        }
        let ghost start = FactoryView::start(num_result);
        let ghost info = self.info();
        let ghost body = list@.drop_last();
        let n = list.len() - 1;
        let mut i: usize = 0;
        assert(self@.pending =~= Seq::empty());
        assert(body.take(0) =~= Seq::empty());
        while i < n
            invariant
                i <= n,
                n == list.len() - 1,
                body == list@.drop_last(),
                self.info() == info,
                info == old(self).info(),
                start == FactoryView::start(num_result),
                self@.wf(),
                start.run(info, body.take(i as int)) == Some(self@),
            decreases n - i,
        {
            assert(body.take(i + 1).drop_last() =~= body.take(i as int));
            assert(body.take(i + 1).last() == list@[i as int]);
            let ok = if self.nested_unreachable == 0 {
                match &list[i] {
                    Operator::Unsupported => {
                        proof {
                            lemma_unsupported(self@, info);
                        }
                        false
                    },
                    op => self.add_instruction(op),
                }
            } else {
                self.drop_unreachable(&list[i])
            };
            if !ok {
                proof {
                    lemma_run_stays_undefined(start, info, body, i + 1, n as int);
                    assert(body.take(n as int) =~= body);
                }
                return None;
            }
            i += 1;
        }
        assert(body.take(n as int) =~= body);
        if self.pending.len() != 0 {
            return None;
        }
        if self.nested_unreachable == 0 {
            self.target.leak_all();
        }
        let mut data = StatList::new();
        core::mem::swap(&mut self.target, &mut data);
        Some(data)
    }

    /// Lifts the body `list` of a function without parameters and with
    /// one result, if the body is well formed.
    pub fn try_create_anonymous(&mut self, list: &[Operator]) -> (func: Option<FuncData>)
        ensures
            match lift_anonymous(old(self).info(), list@) {
                Some(model) => func.is_some() && func.unwrap()@ == model,
                None => func.is_none(),
            },
            func matches Some(made) ==> super::laws::block_sound(made@.code, made@.num_stack as int, Seq::empty()),
            final(self).info() == old(self).info(),
    {
        proof {
            if lift_anonymous(self.info(), list@) is Some {
                super::laws::lemma_lift_anonymous_sound(self.info(), list@);
            }
        }
        match self.build_stat_list(list, 1) {
            Some(data) => {
                let num_stack = data.stack.capacity;
                Some(
                    FuncData {
                        local_data: Vec::new(),
                        num_result: 1,
                        num_param: 0,
                        num_stack,
                        code: data.into_block(),
                    },
                )
            },
            None => None,
        }
    }

    /// Lifts the body `list` of a function without parameters and with
    /// one result.
    #[must_use]
    pub fn create_anonymous(&mut self, list: &[Operator]) -> (func: FuncData)
        requires
            lift_anonymous(old(self).info(), list@) is Some,
        ensures
            Some(func@) == lift_anonymous(old(self).info(), list@),
            super::laws::block_sound(func@.code, func@.num_stack as int, Seq::empty()),
            final(self).info() == old(self).info(),
    {
        self.try_create_anonymous(list).unwrap()
    }

    /// Lifts the body `list` of the function of index `index`, whose
    /// locals are `local_data`, if the function exists and the body is
    /// well formed.
    pub fn try_create_indexed(&mut self, index: usize, list: &[Operator], local_data: Vec<ValType>) -> (func: Option<FuncData>)
        ensures
            match lift_indexed(old(self).info(), index, list@, local_data@) {
                Some(model) => func.is_some() && func.unwrap()@ == model,
                None => func.is_none(),
            },
            func matches Some(made) ==> super::laws::block_sound(made@.code, made@.num_stack as int, Seq::empty()),
            final(self).info() == old(self).info(),
    {
        proof {
            if lift_indexed(self.info(), index, list@, local_data@) is Some {
                super::laws::lemma_lift_indexed_sound(self.info(), index, list@, local_data@);
            }
        }
        let (num_param, num_result) = match self.type_info.by_func_index(index) {
            Some(v) => v,
            None => return None,
        };
        match self.build_stat_list(list, num_result) {
            Some(data) => {
                let num_stack = data.stack.capacity;
                Some(FuncData { local_data, num_result, num_param, num_stack, code: data.into_block() })
            },
            None => None,
        }
    }

    /// Lifts the body `list` of the function of index `index`, whose
    /// locals are `local_data`.
    pub fn create_indexed(&mut self, index: usize, list: &[Operator], local_data: Vec<ValType>) -> (func: FuncData)
        requires
            lift_indexed(old(self).info(), index, list@, local_data@) is Some,
        ensures
            Some(func@) == lift_indexed(old(self).info(), index, list@, local_data@),
            super::laws::block_sound(func@.code, func@.num_stack as int, Seq::empty()),
            final(self).info() == old(self).info(),
    {
        self.try_create_indexed(index, list, local_data).unwrap()
    }
}

/// Once a branch of a table is undefined, so are the branches of every
/// longer table.
pub proof fn lemma_br_terminators_stay_undefined(start: FactoryView, targets: Seq<u32>, k: int, m: int)
    requires
        0 <= k <= m <= targets.len(),
        start.br_terminators(targets.take(k)) is None,
    ensures
        start.br_terminators(targets.take(m)) is None,
    decreases m - k,
{
    if k < m {
        lemma_br_terminators_stay_undefined(start, targets, k, m - 1);
        assert(targets.take(m).drop_last() =~= targets.take(m - 1));
    }
}

} // verus!
