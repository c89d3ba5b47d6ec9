//! The state of the emitter while it prints one function.

use vstd::prelude::*;

use crate::ast::node::{
    lemma_code_view, Block, BlockView, Br, FuncData, FuncDataView, LabelType, Statement, StatementView,
    Terminator, TerminatorView,
};

verus! {

/// The number of declared locals that get a variable of their own.
pub const LOCAL_BUDGET: usize = 100;

/// The number of temporaries that get a variable of their own.
pub const TEMP_BUDGET: usize = 50;

/// The mathematical content of a `Manager`.
pub struct ManagerView {
    /// The labels of the enclosing blocks, outermost first.
    pub labels: Seq<Option<LabelType>>,
    /// The number of tabs at the start of a line.
    pub indentation: usize,
    /// Whether the function has a branch out of more than one block.
    pub has_branch: bool,
    /// Whether the function has a branch table with targets.
    pub has_table: bool,
    /// The number that the next dispatch table gets.
    pub table_next: usize,
    /// The number of locals, parameters included, that are variables.
    pub num_local: usize,
    /// The number of temporaries that are variables.
    pub num_temp: usize,
}

impl ManagerView {
    pub open spec fn indent(self) -> ManagerView {
        ManagerView { indentation: (self.indentation + 1) as usize, ..self }
    }

    pub open spec fn push_label(self, label: Option<LabelType>) -> ManagerView {
        ManagerView { labels: self.labels.push(label), ..self }
    }

    /// The state after `count` more dispatch tables.
    pub open spec fn skip_tables(self, count: nat) -> ManagerView {
        ManagerView { table_next: (self.table_next + count) as usize, ..self }
    }
}

/// Whether a branch leaves more than one block.
pub open spec fn br_is_far(br: Br) -> bool {
    br.target != 0
}

/// Whether one of the branches leaves more than one block.
pub open spec fn any_far(list: Seq<Br>) -> bool {
    exists|i: int| 0 <= i < list.len() && br_is_far(#[trigger] list[i])
}

/// Whether a terminator branches out of more than one block.
pub open spec fn terminator_has_branch(t: TerminatorView) -> bool {
    match t {
        TerminatorView::Unreachable => false,
        TerminatorView::Br(br) => br_is_far(br),
        TerminatorView::BrTable(table) => br_is_far(table.default) || any_far(table.data),
    }
}

/// Whether a statement holds a branch out of more than one block.
pub open spec fn statement_has_branch(s: StatementView) -> bool
    decreases s,
{
    match s {
        StatementView::Block(b) => block_has_branch(b),
        StatementView::BrIf(s) => br_is_far(s.target),
        StatementView::If(s) => block_has_branch(s.on_true) || match s.on_false {
            Some(b) => block_has_branch(b),
            None => false,
        },
        _ => false,
    }
}

pub open spec fn block_has_branch(b: BlockView) -> bool
    decreases b,
{
    code_has_branch(b.code) || match b.last {
        Some(t) => terminator_has_branch(t),
        None => false,
    }
}

pub open spec fn code_has_branch(code: Seq<StatementView>) -> bool
    decreases code,
{
    if code.len() == 0 {
        false
    } else {
        code_has_branch(code.drop_last()) || statement_has_branch(code.last())
    }
}

/// The number of dispatch tables that printing a terminator takes.
pub open spec fn terminator_tables(t: TerminatorView) -> nat {
    match t {
        TerminatorView::BrTable(table) => if table.data.len() > 0 {
            1
        } else {
            0
        },
        _ => 0,
    }
}

/// The number of dispatch tables that printing a statement takes.
pub open spec fn statement_tables(s: StatementView) -> nat
    decreases s,
{
    match s {
        StatementView::Block(b) => block_tables(b),
        StatementView::If(s) => block_tables(s.on_true) + match s.on_false {
            Some(b) => block_tables(b),
            None => 0,
        },
        _ => 0,
    }
}

pub open spec fn block_tables(b: BlockView) -> nat
    decreases b,
{
    code_tables(b.code) + match b.last {
        Some(t) => terminator_tables(t),
        None => 0,
    }
}

pub open spec fn code_tables(code: Seq<StatementView>) -> nat
    decreases code,
{
    if code.len() == 0 {
        0
    } else {
        code_tables(code.drop_last()) + statement_tables(code.last())
    }
}

/// The smaller of two numbers.
pub open spec fn least(a: int, b: int) -> int {
    if a <= b {
        a
    } else {
        b
    }
}

/// The state in which a function is printed: its parameters and the
/// first `LOCAL_BUDGET` of its locals are variables, as far as their
/// number is a machine integer, and so are the first `TEMP_BUDGET` of its
/// temporaries.
pub open spec fn function_state(func: FuncDataView) -> ManagerView {
    ManagerView {
        labels: Seq::empty(),
        indentation: 0,
        has_branch: block_has_branch(func.code),
        has_table: block_tables(func.code) > 0,
        table_next: 0,
        num_local: least(
            func.num_param + least(func.local_data.len() as int, LOCAL_BUDGET as int),
            usize::MAX as int,
        ) as usize,
        num_temp: least(func.num_stack as int, TEMP_BUDGET as int) as usize,
    }
}

fn terminator_far(t: &Terminator) -> (r: bool)
    ensures
        r == terminator_has_branch(t@),
{
    match t {
        Terminator::Unreachable => false,
        Terminator::Br(br) => br.target != 0,
        Terminator::BrTable(table) => {
            let mut found = false;
            let mut i: usize = 0;
            while i < table.data.len()
                invariant
                    i <= table.data.len(),
                    found == any_far(table.data@.take(i as int)),
                decreases table.data.len() - i,
            {
                proof {
                    let shorter = table.data@.take(i as int);
                    let longer = table.data@.take(i + 1);
                    if any_far(shorter) {
                        let k = choose|k: int| 0 <= k < shorter.len() && br_is_far(#[trigger] shorter[k]);
                        assert(br_is_far(longer[k]));
                    }
                    if br_is_far(table.data@[i as int]) {
                        assert(br_is_far(longer[i as int]));
                    }
                    if any_far(longer) {
                        let k = choose|k: int| 0 <= k < longer.len() && br_is_far(#[trigger] longer[k]);
                        if k < i {
                            assert(br_is_far(shorter[k]));
                        }
                    }
                }
                if table.data[i].target != 0 {
                    found = true;
                }
                i += 1;
            }
            assert(table.data@.take(i as int) =~= table.data@);
            table.default.target != 0 || found
        },
    }
}

fn statement_far(s: &Statement) -> (r: bool)
    ensures
        r == statement_has_branch(s@),
    decreases s,
{
    match s {
        Statement::Block(b) => block_far(b),
        Statement::BrIf(s) => s.target.target != 0,
        Statement::If(s) => {
            let first = block_far(&s.on_true);
            let second = match &s.on_false {
                Some(b) => block_far(b),
                None => false,
            };
            first || second
        },
        _ => false,
    }
}

fn block_far(b: &Block) -> (r: bool)
    ensures
        r == block_has_branch(b@),
    decreases b,
{
    let ghost code = b@.code;
    proof {
        lemma_code_view(b.code@);
    }
    let mut found = false;
    let mut i: usize = 0;
    assert(code.take(0) =~= Seq::empty());
    while i < b.code.len()
        invariant
            i <= b.code.len(),
            code == b@.code,
            code.len() == b.code.len(),
            forall|j: int| 0 <= j < code.len() ==> #[trigger] code[j] == b.code@[j]@,
            found == code_has_branch(code.take(i as int)),
        decreases b.code.len() - i,
    {
        assert(code.take(i + 1).drop_last() =~= code.take(i as int));
        assert(code.take(i + 1).last() == code[i as int]);
        if statement_far(&b.code[i]) {
            found = true;
        }
        i += 1;
    }
    assert(code.take(i as int) =~= code);
    let last = match &b.last {
        Some(t) => terminator_far(t),
        None => false,
    };
    found || last
}

fn statement_has_table(s: &Statement) -> (r: bool)
    ensures
        r == (statement_tables(s@) > 0),
    decreases s,
{
    match s {
        Statement::Block(b) => block_has_table(b),
        Statement::If(s) => {
            let first = block_has_table(&s.on_true);
            let second = match &s.on_false {
                Some(b) => block_has_table(b),
                None => false,
            };
            first || second
        },
        _ => false,
    }
}

fn block_has_table(b: &Block) -> (r: bool)
    ensures
        r == (block_tables(b@) > 0),
    decreases b,
{
    let ghost code = b@.code;
    proof {
        lemma_code_view(b.code@);
    }
    let mut found = false;
    let mut i: usize = 0;
    assert(code.take(0) =~= Seq::empty());
    while i < b.code.len()
        invariant
            i <= b.code.len(),
            code == b@.code,
            code.len() == b.code.len(),
            forall|j: int| 0 <= j < code.len() ==> #[trigger] code[j] == b.code@[j]@,
            found == (code_tables(code.take(i as int)) > 0),
        decreases b.code.len() - i,
    {
        assert(code.take(i + 1).drop_last() =~= code.take(i as int));
        assert(code.take(i + 1).last() == code[i as int]);
        if statement_has_table(&b.code[i]) {
            found = true;
        }
        i += 1;
    }
    assert(code.take(i as int) =~= code);
    let last = match &b.last {
        Some(t) => match &**t {
            Terminator::BrTable(table) => table.data.len() > 0,
            _ => false,
        },
        None => false,
    };
    found || last
}

/// The state of the emitter: where it is in the nesting of blocks, and
/// what it found out about the function before printing it.
#[derive(Debug)]
pub struct Manager {
    pub label_list: Vec<Option<LabelType>>,
    pub indentation: usize,
    pub has_branch: bool,
    pub has_table: bool,
    pub table_next: usize,
    pub num_local: usize,
    pub num_temp: usize,
}

impl View for Manager {
    type V = ManagerView;

    open spec fn view(&self) -> ManagerView {
        ManagerView {
            labels: self.label_list@,
            indentation: self.indentation,
            has_branch: self.has_branch,
            has_table: self.has_table,
            table_next: self.table_next,
            num_local: self.num_local,
            num_temp: self.num_temp,
        }
    }
}

impl Manager {
    /// A state outside any function: no labels, no branches, and every
    /// local and temporary a variable.
    pub fn empty() -> (mng: Manager)
        ensures
            mng@ == (ManagerView {
                labels: Seq::empty(),
                indentation: 0,
                has_branch: false,
                has_table: false,
                table_next: 0,
                num_local: usize::MAX,
                num_temp: usize::MAX,
            }),
    {
        Manager {
            label_list: Vec::new(),
            indentation: 0,
            has_branch: false,
            has_table: false,
            table_next: 0,
            num_local: usize::MAX,
            num_temp: usize::MAX,
        }
    }

    /// The state in which `ast` is printed.
    pub fn function(ast: &FuncData) -> (mng: Manager)
        ensures
            mng@ == function_state(ast@),
    {
        let locals = if ast.local_data.len() <= LOCAL_BUDGET {
            ast.local_data.len()
        } else {
            LOCAL_BUDGET
        };
        let num_local = if locals <= usize::MAX - ast.num_param {
            ast.num_param + locals
        } else {
            usize::MAX
        };
        let num_temp = if ast.num_stack <= TEMP_BUDGET {
            ast.num_stack
        } else {
            TEMP_BUDGET
        };
        Manager {
            label_list: Vec::new(),
            indentation: 0,
            has_branch: block_far(&ast.code),
            has_table: block_has_table(&ast.code),
            table_next: 0,
            num_local,
            num_temp,
        }
    }

    pub fn has_branch(&self) -> (r: bool)
        ensures
            r == self@.has_branch,
    {
        self.has_branch
    }

    pub fn has_table(&self) -> (r: bool)
        ensures
            r == self@.has_table,
    {
        self.has_table
    }

    pub fn num_local(&self) -> (r: usize)
        ensures
            r == self@.num_local,
    {
        self.num_local
    }

    pub fn num_temp(&self) -> (r: usize)
        ensures
            r == self@.num_temp,
    {
        self.num_temp
    }

    pub fn label_list(&self) -> (r: &Vec<Option<LabelType>>)
        ensures
            r@ == self@.labels,
    {
        &self.label_list
    }

    pub fn push_label(&mut self, label: Option<LabelType>)
        ensures
            final(self)@ == old(self)@.push_label(label),
    {
        self.label_list.push(label);
    }

    pub fn pop_label(&mut self)
        requires
            old(self)@.labels.len() > 0,
        ensures
            final(self)@ == (ManagerView { labels: old(self)@.labels.drop_last(), ..old(self)@ }),
    {
        self.label_list.pop();
    }

    /// One more tab at the start of a line, unless the count is at its
    /// limit.
    pub fn indent(&mut self) -> (ok: bool)
        ensures
            ok == (old(self)@.indentation < usize::MAX),
            ok ==> final(self)@ == old(self)@.indent(),
            !ok ==> final(self)@ == old(self)@,
    {
        if self.indentation == usize::MAX {
            return false;
        }
        self.indentation += 1;
        true
    }

    /// One tab less at the start of a line.
    pub fn dedent(&mut self)
        requires
            old(self)@.indentation > 0,
        ensures
            final(self)@ == (ManagerView {
                indentation: (old(self)@.indentation - 1) as usize,
                ..old(self)@
            }),
    {
        self.indentation -= 1;
    }

    /// The number of the next dispatch table, if there is a number left.
    pub fn get_table_index(&mut self) -> (id: Option<usize>)
        ensures
            match id {
                Some(i) => i == old(self)@.table_next && old(self)@.table_next < usize::MAX && final(self)@
                    == old(self)@.skip_tables(1),
                None => old(self)@.table_next == usize::MAX && final(self)@ == old(self)@,
            },
    {
        if self.table_next == usize::MAX {
            return None;
        }
        let id = self.table_next;
        self.table_next += 1;
        Some(id)
    }
}

} // verus!
