//! The operand stack of the lifter.

use vstd::prelude::*;

use super::node::{
    code_view, lemma_code_view_push, Align, Expression, ResultList, SetTemporary, Statement, StatementView,
    Temporary,
};

verus! {

/// What an operation is about to change, so that pending expressions that
/// depend on it have to be evaluated first.
#[derive(Clone, Copy, Debug, PartialEq, Eq, Structural)]
pub enum Hazard {
    /// Everything: the pending expressions are all evaluated.
    All,
    /// A call, which may change every global and every memory.
    Call,
    /// A write to one local.
    Local(usize),
    /// A write to one global.
    Global(usize),
    /// A write to one memory.
    Memory(usize),
}

/// Whether evaluating `e` reads what `h` changes: a leaf of `e` is a read
/// of the local or global that `h` names, or a load from the memory that it
/// names; a call changes every global and memory.
pub open spec fn reads(e: Expression, h: Hazard) -> bool
    decreases e,
{
    match e {
        Expression::Select(s) => reads(*s.condition, h) || reads(*s.on_true, h) || reads(*s.on_false, h),
        Expression::GetTemporary(_) => false,
        Expression::GetLocal(l) => h == Hazard::Local(l.var),
        Expression::GetGlobal(g) => h == Hazard::Call || h == Hazard::Global(g.var),
        Expression::LoadAt(l) => h == Hazard::Call || h == Hazard::Memory(l.memory) || reads(*l.pointer, h),
        Expression::MemorySize(_) => false,
        Expression::Value(_) => false,
        Expression::UnOp(o) => reads(*o.rhs, h),
        Expression::BinOp(o) => reads(*o.lhs, h) || reads(*o.rhs, h),
        Expression::CmpOp(o) => reads(*o.lhs, h) || reads(*o.rhs, h),
    }
}

impl Hazard {
    /// Whether `e` has to be evaluated before the change happens.
    pub open spec fn hits(self, e: Expression) -> bool {
        self == Hazard::All || reads(e, self)
    }
}

/// The traversal that looks for reads in an expression.
pub struct ReadGet;

impl ReadGet {
    /// Whether `node` reads what `hazard` changes. The traversal stops at
    /// the first read it finds.
    pub fn run(node: &Expression, hazard: Hazard) -> (found: bool)
        ensures
            found == reads(*node, hazard),
        decreases node,
    {
        match node {
            Expression::Select(s) => {
                ReadGet::run(&s.condition, hazard) || ReadGet::run(&s.on_true, hazard) || ReadGet::run(
                    &s.on_false,
                    hazard,
                )
            },
            Expression::GetTemporary(_) => false,
            Expression::GetLocal(l) => match hazard {
                Hazard::Local(id) => l.var == id,
                _ => false,
            },
            Expression::GetGlobal(g) => match hazard {
                Hazard::Call => true,
                Hazard::Global(id) => g.var == id,
                _ => false,
            },
            Expression::LoadAt(l) => {
                let direct = match hazard {
                    Hazard::Call => true,
                    Hazard::Memory(id) => l.memory == id,
                    _ => false,
                };
                direct || ReadGet::run(&l.pointer, hazard)
            },
            Expression::MemorySize(_) => false,
            Expression::Value(_) => false,
            Expression::UnOp(o) => ReadGet::run(&o.rhs, hazard),
            Expression::BinOp(o) => ReadGet::run(&o.lhs, hazard) || ReadGet::run(&o.rhs, hazard),
            Expression::CmpOp(o) => ReadGet::run(&o.lhs, hazard) || ReadGet::run(&o.rhs, hazard),
        }
    }

    /// Whether `node` has to be evaluated before `hazard` happens.
    pub fn hits(node: &Expression, hazard: Hazard) -> (found: bool)
        ensures
            found == hazard.hits(*node),
    {
        match hazard {
            Hazard::All => true,
            _ => ReadGet::run(node, hazard),
        }
    }
}

/// The reads of the temporaries `start`, `start + 1`, ... , `count` of them.
pub open spec fn temporaries(start: int, count: int) -> Seq<Expression> {
    Seq::new(count as nat, |i: int| Expression::GetTemporary(Temporary { var: (start + i) as usize }))
}

/// The statement that stores `value` in temporary `var`.
pub open spec fn spill(var: int, value: Expression) -> StatementView {
    StatementView::SetTemporary(SetTemporary { var: Temporary { var: var as usize }, value: Box::new(value) })
}

/// The mathematical content of a `Stack`.
pub struct StackView {
    /// The pending values, bottom first.
    pub var_list: Seq<Expression>,
    /// One more than the largest temporary in use so far.
    pub capacity: usize,
    /// The number of values on the stacks of the enclosing blocks: value
    /// `i` of this stack belongs in temporary `previous + i`.
    pub previous: usize,
}

impl StackView {
    /// The slot of every value is a machine integer.
    pub open spec fn wf(self) -> bool {
        self.previous + self.var_list.len() <= usize::MAX
    }

    /// The slot behind the top of the stack.
    pub open spec fn top(self) -> int {
        self.previous + self.var_list.len()
    }

    pub open spec fn push(self, e: Expression) -> Option<StackView> {
        if self.top() < usize::MAX {
            Some(StackView { var_list: self.var_list.push(e), ..self })
        } else {
            None
        }
    }

    pub open spec fn pop(self) -> Option<(Expression, StackView)> {
        if self.var_list.len() > 0 {
            Some((self.var_list.last(), StackView { var_list: self.var_list.drop_last(), ..self }))
        } else {
            None
        }
    }

    /// Takes the `n` topmost values, bottom first.
    pub open spec fn pop_len(self, n: int) -> Option<(Seq<Expression>, StackView)> {
        if 0 <= n <= self.var_list.len() {
            let at = self.var_list.len() - n;
            Some(
                (
                    self.var_list.subrange(at, self.var_list.len() as int),
                    StackView { var_list: self.var_list.subrange(0, at), ..self },
                ),
            )
        } else {
            None
        }
    }

    /// Pushes reads of the next `n` temporaries.
    pub open spec fn push_temporaries(self, n: int) -> Option<(ResultList, StackView)> {
        if 0 <= n && self.top() + n <= usize::MAX {
            Some(
                (
                    ResultList { start: self.top() as usize, end: (self.top() + n) as usize },
                    StackView {
                        var_list: self.var_list + temporaries(self.top(), n),
                        capacity: if self.capacity >= self.top() + n {
                            self.capacity
                        } else {
                            (self.top() + n) as usize
                        },
                        previous: self.previous,
                    },
                ),
            )
        } else {
            None
        }
    }

    /// Splits off the stack of a nested block that takes `num_param`
    /// values and leaves `num_result`: the second stack is what remains.
    pub open spec fn split_last(self, num_param: int, num_result: int) -> Option<(StackView, StackView)> {
        if 0 <= num_param <= self.var_list.len() && 0 <= num_result && self.top() - num_param + num_result
            <= usize::MAX {
            let at = self.var_list.len() - num_param;
            let base = self.previous + at;
            Some(
                (
                    StackView {
                        var_list: self.var_list.subrange(at, self.var_list.len() as int),
                        capacity: if self.capacity >= base + num_result {
                            self.capacity
                        } else {
                            (base + num_result) as usize
                        },
                        previous: base as usize,
                    },
                    StackView { var_list: self.var_list.subrange(0, at), ..self },
                ),
            )
        } else {
            None
        }
    }

    /// The move of the `par_result` topmost slots to the slots from
    /// `par_start` on.
    pub open spec fn br_alignment(self, par_start: int, par_result: int) -> Option<Align> {
        if 0 <= par_result <= self.top() && 0 <= par_start && par_start + par_result <= usize::MAX {
            Some(
                Align {
                    new: par_start as usize,
                    old: (self.top() - par_result) as usize,
                    length: par_result as usize,
                },
            )
        } else {
            None
        }
    }

    /// Whether value `i` is evaluated when `h` is about to happen: it
    /// depends on what `h` changes and is not already in its slot.
    pub open spec fn leaks(self, h: Hazard, i: int) -> bool {
        h.hits(self.var_list[i]) && !self.var_list[i].is_temporary_spec(self.previous + i)
    }

    /// Evaluates, from value `i` on and bottom first, each value that `h`
    /// hits: the value is stored in its slot by a statement appended to
    /// `code`, and replaced on the stack by a read of the slot.
    pub open spec fn leak_from(self, code: Seq<StatementView>, h: Hazard, i: int) -> (StackView, Seq<StatementView>)
        decreases self.var_list.len() - i,
    {
        if 0 <= i < self.var_list.len() {
            if self.leaks(h, i) {
                let var = self.previous + i;
                StackView {
                    var_list: self.var_list.update(
                        i,
                        Expression::GetTemporary(Temporary { var: var as usize }),
                    ),
                    capacity: if self.capacity > var {
                        self.capacity
                    } else {
                        (var + 1) as usize
                    },
                    previous: self.previous,
                }.leak_from(code.push(spill(var, self.var_list[i])), h, i + 1)
            } else {
                self.leak_from(code, h, i + 1)
            }
        } else {
            (self, code)
        }
    }

    /// Evaluates every value that `h` hits.
    pub open spec fn leak(self, code: Seq<StatementView>, h: Hazard) -> (StackView, Seq<StatementView>) {
        self.leak_from(code, h, 0)
    }

    /// What evaluating does to the stack: its height and base stay, its
    /// capacity does not shrink, and afterwards no value depends on what
    /// `h` changes: each value from `i` on is either the one from before,
    /// which `h` does not hit or which already is the read of its slot, or
    /// the read of its slot.
    pub proof fn lemma_leak_from(self, code: Seq<StatementView>, h: Hazard, i: int)
        requires
            0 <= i,
            self.wf(),
        ensures
            ({
                let r = self.leak_from(code, h, i);
                &&& r.0.wf()
                &&& r.0.var_list.len() == self.var_list.len()
                &&& r.0.previous == self.previous
                &&& r.0.capacity >= self.capacity
                &&& r.1.len() >= code.len()
                &&& r.1.subrange(0, code.len() as int) == code
                &&& forall|j: int| 0 <= j < i && j < self.var_list.len() ==> r.0.var_list[j] == self.var_list[j]
                &&& forall|j: int|
                    #![trigger r.0.var_list[j]]
                    i <= j < self.var_list.len() ==> {
                        ||| r.0.var_list[j] == self.var_list[j] && !self.leaks(h, j)
                        ||| r.0.var_list[j] == Expression::GetTemporary(
                            Temporary { var: (self.previous + j) as usize },
                        ) && self.leaks(h, j) && r.0.capacity > self.previous + j
                    }
                &&& forall|j: int|
                    #![trigger r.1[j]]
                    code.len() <= j < r.1.len() ==> exists|k: int|
                        i <= k < self.var_list.len() && self.leaks(h, k) && r.0.capacity > self.previous + k
                            && r.1[j] == #[trigger] spill(self.previous + k, self.var_list[k])
            }),
        decreases self.var_list.len() - i,
    {
        if i < self.var_list.len() {
            if self.leaks(h, i) {
                let var = self.previous + i;
                let next = StackView {
                    var_list: self.var_list.update(
                        i,
                        Expression::GetTemporary(Temporary { var: var as usize }),
                    ),
                    capacity: if self.capacity > var {
                        self.capacity
                    } else {
                        (var + 1) as usize
                    },
                    previous: self.previous,
                };
                let longer = code.push(spill(var, self.var_list[i]));
                next.lemma_leak_from(longer, h, i + 1);
                let r = next.leak_from(longer, h, i + 1);
                assert(r.1.subrange(0, code.len() as int) =~= r.1.subrange(0, longer.len() as int).subrange(
                    0,
                    code.len() as int,
                ));
                assert(longer.subrange(0, code.len() as int) =~= code);
                assert forall|j: int| #![trigger r.0.var_list[j]] i <= j < self.var_list.len() implies {
                    ||| r.0.var_list[j] == self.var_list[j] && !self.leaks(h, j)
                    ||| r.0.var_list[j] == Expression::GetTemporary(
                        Temporary { var: (self.previous + j) as usize },
                    ) && self.leaks(h, j) && r.0.capacity > self.previous + j
                } by {
                    if j > i {
                        assert(next.var_list[j] == self.var_list[j]);
                        assert(next.leaks(h, j) == self.leaks(h, j));
                    } else {
                        assert(r.0.var_list[i] == next.var_list[i]);
                    }
                }
                assert forall|j: int| 0 <= j < i && j < self.var_list.len() implies r.0.var_list[j]
                    == self.var_list[j] by {
                    assert(r.0.var_list[j] == next.var_list[j]);
                }
                assert forall|j: int| #![trigger r.1[j]] code.len() <= j < r.1.len() implies exists|k: int|
                    i <= k < self.var_list.len() && self.leaks(h, k) && r.0.capacity > self.previous + k
                        && r.1[j] == #[trigger] spill(self.previous + k, self.var_list[k]) by {
                    if j == code.len() {
                        assert(r.1.subrange(0, longer.len() as int)[j] == longer[j]);
                        assert(r.1[j] == spill(self.previous + i, self.var_list[i]));
                    } else {
                        let k = choose|k: int|
                            i + 1 <= k < next.var_list.len() && next.leaks(h, k) && r.0.capacity > next.previous
                                + k && r.1[j] == #[trigger] spill(next.previous + k, next.var_list[k]);
                        assert(next.var_list[k] == self.var_list[k]);
                        assert(self.leaks(h, k));
                        assert(r.1[j] == spill(self.previous + k, self.var_list[k]));
                    }
                }
            } else {
                self.lemma_leak_from(code, h, i + 1);
            }
        } else {
            assert(code.subrange(0, code.len() as int) =~= code);
        }
    }

    /// After evaluating for `h`, no pending value reads what `h` changes;
    /// after evaluating for everything, each pending value is the read of
    /// its own slot.
    pub proof fn lemma_leak_sound(self, code: Seq<StatementView>, h: Hazard)
        requires
            self.wf(),
        ensures
            self.leak(code, h).0.wf(),
            forall|j: int|
                0 <= j < self.var_list.len() ==> !reads(#[trigger] self.leak(code, h).0.var_list[j], h),
            h == Hazard::All ==> self.leak(code, h).0.var_list == temporaries(
                self.previous as int,
                self.var_list.len() as int,
            ),
    {
        self.lemma_leak_from(code, h, 0);
        let r = self.leak(code, h);
        assert forall|j: int| 0 <= j < self.var_list.len() implies !reads(#[trigger] r.0.var_list[j], h) by {
            if r.0.var_list[j] == self.var_list[j] && !self.leaks(h, j) {
            }
        }
        if h == Hazard::All {
            assert(r.0.var_list =~= temporaries(self.previous as int, self.var_list.len() as int));
        }
    }
}

/// The operand stack of one block.
#[derive(Debug)]
pub struct Stack {
    pub var_list: Vec<Expression>,
    pub capacity: usize,
    pub previous: usize,
}

impl View for Stack {
    type V = StackView;

    open spec fn view(&self) -> StackView {
        StackView { var_list: self.var_list@, capacity: self.capacity, previous: self.previous }
    }
}

impl Default for Stack {
    fn default() -> (stack: Stack)
        ensures
            stack@.var_list == Seq::<Expression>::empty(),
            stack@.capacity == 0,
            stack@.previous == 0,
    {
        Stack { var_list: Vec::new(), capacity: 0, previous: 0 }
    }
}

impl Stack {
    pub fn len(&self) -> (n: usize)
        ensures
            n == self@.var_list.len(),
    {
        self.var_list.len()
    }

    /// Pushes `data`, unless the stack cannot grow.
    pub fn push(&mut self, data: Expression) -> (ok: bool)
        requires
            old(self)@.wf(),
        ensures
            ok == old(self)@.push(data).is_some(),
            ok ==> final(self)@ == old(self)@.push(data).unwrap(),
            final(self)@.wf(),
    {
        if self.var_list.len() >= usize::MAX - self.previous {
            return false;
        }
        self.var_list.push(data);
        true
    }

    /// Pops the topmost value, if there is one.
    pub fn pop(&mut self) -> (top: Option<Expression>)
        requires
            old(self)@.wf(),
        ensures
            match old(self)@.pop() {
                Some(r) => top == Some(r.0) && final(self)@ == r.1,
                None => top.is_none(),
            },
            final(self)@.wf(),
    {
        self.var_list.pop()
    }

    /// Pops the `len` topmost values, bottom first, if there are as many.
    pub fn pop_len(&mut self, len: usize) -> (list: Option<Vec<Expression>>)
        requires
            old(self)@.wf(),
        ensures
            match old(self)@.pop_len(len as int) {
                Some(r) => list.is_some() && list.unwrap()@ == r.0 && final(self)@ == r.1,
                None => list.is_none(),
            },
            final(self)@.wf(),
    {
        if len > self.var_list.len() {
            return None;
        }
        let at = self.var_list.len() - len;
        Some(self.var_list.split_off(at))
    }

    /// Pushes reads of the next `num` temporaries and returns their range.
    pub fn push_temporaries(&mut self, num: usize) -> (list: Option<ResultList>)
        requires
            old(self)@.wf(),
        ensures
            match old(self)@.push_temporaries(num as int) {
                Some(r) => list == Some(r.0) && final(self)@ == r.1,
                None => list.is_none(),
            },
            final(self)@.wf(),
    {
        let start = self.previous + self.var_list.len();
        if num > usize::MAX - start {
            return None;
        }
        let end = start + num;
        if self.capacity < end {
            self.capacity = end;
        }
        let mut var = start;
        assert(self.var_list@ =~= old(self).var_list@ + temporaries(start as int, 0));
        while var < end
            invariant
                start <= var <= end,
                self.previous == old(self).previous,
                self.capacity == if old(self).capacity >= end {
                    old(self).capacity
                } else {
                    end
                },
                start == self.previous + old(self).var_list.len(),
                self.var_list@ == old(self).var_list@ + temporaries(start as int, var - start),
            decreases end - var,
        {
            self.var_list.push(Expression::GetTemporary(Temporary { var }));
            assert(self.var_list@ =~= old(self).var_list@ + temporaries(start as int, var + 1 - start));
            var += 1;
        }
        Some(ResultList::new(start, end))
    }

    /// Pushes a read of the next temporary and returns it.
    pub fn push_temporary(&mut self) -> (temp: Option<Temporary>)
        requires
            old(self)@.wf(),
        ensures
            match old(self)@.push_temporaries(1) {
                Some(r) => temp == Some(Temporary { var: r.0.start }) && final(self)@ == r.1,
                None => temp.is_none(),
            },
            final(self)@.wf(),
    {
        match self.push_temporaries(1) {
            Some(list) => Some(Temporary { var: list.start }),
            None => None,
        }
    }

    /// Splits off the stack of a nested block.
    pub fn split_last(&mut self, num_param: usize, num_result: usize) -> (child: Option<Stack>)
        requires
            old(self)@.wf(),
        ensures
            match old(self)@.split_last(num_param as int, num_result as int) {
                Some(r) => child.is_some() && child.unwrap()@ == r.0 && final(self)@ == r.1,
                None => child.is_none(),
            },
            final(self)@.wf(),
            child.is_some() ==> child.unwrap()@.wf(),
    {
        if num_param > self.var_list.len() {
            return None;
        }
        let desired = self.var_list.len() - num_param;
        let base = self.previous + desired;
        if num_result > usize::MAX - base {
            return None;
        }
        let var_list = self.var_list.split_off(desired);
        let wanted = base + num_result;
        Some(
            Stack {
                var_list,
                capacity: if self.capacity >= wanted {
                    self.capacity
                } else {
                    wanted
                },
                previous: base,
            },
        )
    }

    /// The move that a branch from this stack to a block makes, where the
    /// block's slots start at `par_start` and the branch carries
    /// `par_result` values.
    pub fn get_br_alignment(&self, par_start: usize, par_result: usize) -> (align: Option<Align>)
        requires
            self@.wf(),
        ensures
            align == self@.br_alignment(par_start as int, par_result as int),
    {
        let top = self.previous + self.var_list.len();
        if par_result > top || par_result > usize::MAX - par_start {
            return None;
        }
        Some(Align { new: par_start, old: top - par_result, length: par_result })
    }

    /// Evaluates every pending value that `hazard` hits: the value is
    /// stored in its slot by a statement appended to `code` and replaced by
    /// a read of the slot.
    pub fn leak_into(&mut self, code: &mut Vec<Statement>, hazard: Hazard)
        requires
            old(self)@.wf(),
        ensures
            final(self)@ == old(self)@.leak(code_view(old(code)@), hazard).0,
            code_view(final(code)@) == old(self)@.leak(code_view(old(code)@), hazard).1,
            final(self)@.wf(),
    {
        let ghost goal = self@.leak(code_view(code@), hazard);
        let n = self.var_list.len();
        let mut i: usize = 0;
        proof {
            self@.lemma_leak_from(code_view(code@), hazard, 0);
        }
        while i < n
            invariant
                i <= n,
                n == self.var_list.len(),
                self@.wf(),
                self@.leak_from(code_view(code@), hazard, i as int) == goal,
            decreases n - i,
        {
            let var = self.previous + i;
            if ReadGet::hits(&self.var_list[i], hazard) && !self.var_list[i].is_temporary(var) {
                let mut held = Expression::GetTemporary(Temporary { var });
                core::mem::swap(&mut self.var_list[i], &mut held);
                let ghost before = code@;
                let set = Statement::SetTemporary(SetTemporary { var: Temporary { var }, value: Box::new(held) });
                code.push(set);
                proof {
                    lemma_code_view_push(before, set);
                }
                if self.capacity <= var {
                    self.capacity = var + 1;
                }
            }
            i += 1;
        }
    }
}

} // verus!
