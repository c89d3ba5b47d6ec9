//! What holds of every lifted function: its temporaries are counted and
//! its branches have targets.

use vstd::prelude::*;

use super::factory::{
    lift, lift_anonymous, lift_indexed, BlockData, BlockVariant, FactoryView, StatListView, TypeInfoView,
};
use super::node::{
    BinOp, BlockView, Br, BrIf, CallIndirectView, CallView, CmpOp, Expression, GetGlobal, IfView, LoadAt,
    Local, MemoryArgument, MemoryCopy, MemoryFill, MemoryGrow, MemorySize, ResultList, Select, SetGlobal,
    BrTableView, SetLocal, StatementView, Temporary, TerminatorView, UnOp, Value,
};
use super::operator::{
    to_index, BinOpType, BlockType, CmpOpKind, CmpOpType, LoadType, MemArg, NumType, Operator, StoreType,
    UnOpType, ValType,
};
use super::stack::{reads, spill, temporaries, Hazard, StackView};

verus! {

/// Whether every temporary that `e` reads is below `cap`.
pub open spec fn expr_below(e: Expression, cap: int) -> bool
    decreases e,
{
    match e {
        Expression::Select(s) => expr_below(*s.condition, cap) && expr_below(*s.on_true, cap) && expr_below(
            *s.on_false,
            cap,
        ),
        Expression::GetTemporary(t) => t.var < cap,
        Expression::LoadAt(l) => expr_below(*l.pointer, cap),
        Expression::UnOp(o) => expr_below(*o.rhs, cap),
        Expression::BinOp(o) => expr_below(*o.lhs, cap) && expr_below(*o.rhs, cap),
        Expression::CmpOp(o) => expr_below(*o.lhs, cap) && expr_below(*o.rhs, cap),
        _ => true,
    }
}

/// Whether every temporary that the expressions of `list` read is below
/// `cap`.
pub open spec fn exprs_below(list: Seq<Expression>, cap: int) -> bool {
    forall|i: int| 0 <= i < list.len() ==> expr_below(#[trigger] list[i], cap)
}

/// Whether the temporaries of a range, if it has any, are below `cap`.
pub open spec fn results_below(list: ResultList, cap: int) -> bool {
    list.count() == 0 || list.end <= cap
}

/// Whether a branch has a target: among the enclosing blocks, of which
/// `labels` says outermost first whether they have a label, the one that
/// the branch leads to has one. And whether the temporaries that it moves
/// are below `cap`.
pub open spec fn br_sound(br: Br, cap: int, labels: Seq<bool>) -> bool {
    &&& br.target < labels.len()
    &&& labels[labels.len() - 1 - br.target]
    &&& br.align.aligned() || (br.align.new + br.align.length <= cap && br.align.old + br.align.length
        <= cap)
}

pub open spec fn terminator_sound(t: TerminatorView, cap: int, labels: Seq<bool>) -> bool {
    match t {
        TerminatorView::Unreachable => true,
        TerminatorView::Br(br) => br_sound(br, cap, labels),
        TerminatorView::BrTable(table) => {
            &&& expr_below(table.condition, cap)
            &&& br_sound(table.default, cap, labels)
            &&& forall|i: int| 0 <= i < table.data.len() ==> br_sound(#[trigger] table.data[i], cap, labels)
        },
    }
}

/// Whether a statement is sound inside blocks with the labels `labels`:
/// every temporary that it names is below `cap`, and every branch in it
/// leads to an enclosing block that has a label.
pub open spec fn statement_sound(s: StatementView, cap: int, labels: Seq<bool>) -> bool
    decreases s,
{
    match s {
        StatementView::Block(b) => block_sound(b, cap, labels),
        StatementView::BrIf(s) => expr_below(*s.condition, cap) && br_sound(s.target, cap, labels),
        StatementView::If(s) => {
            &&& expr_below(s.condition, cap)
            &&& block_sound(s.on_true, cap, labels)
            &&& match s.on_false {
                Some(b) => block_sound(b, cap, labels),
                None => true,
            }
        },
        StatementView::Call(c) => exprs_below(c.param_list, cap) && results_below(c.result_list, cap),
        StatementView::CallIndirect(c) => expr_below(c.index, cap) && exprs_below(c.param_list, cap)
            && results_below(c.result_list, cap),
        StatementView::SetTemporary(s) => s.var.var < cap && expr_below(*s.value, cap),
        StatementView::SetLocal(s) => expr_below(*s.value, cap),
        StatementView::SetGlobal(s) => expr_below(*s.value, cap),
        StatementView::StoreAt(s) => expr_below(*s.pointer, cap) && expr_below(*s.value, cap),
        StatementView::MemoryGrow(s) => s.result.var < cap && expr_below(*s.size, cap),
        StatementView::MemoryCopy(s) => expr_below(*s.destination.pointer, cap) && expr_below(
            *s.source.pointer,
            cap,
        ) && expr_below(*s.size, cap),
        StatementView::MemoryFill(s) => expr_below(*s.destination.pointer, cap) && expr_below(*s.size, cap)
            && expr_below(*s.value, cap),
    }
}

/// Whether a block is sound inside blocks with the labels `labels`: its
/// statements and its terminator are sound inside the block.
pub open spec fn block_sound(b: BlockView, cap: int, labels: Seq<bool>) -> bool
    decreases b,
{
    &&& code_sound(b.code, cap, labels.push(b.label_type is Some))
    &&& match b.last {
        Some(t) => terminator_sound(t, cap, labels.push(b.label_type is Some)),
        None => true,
    }
}

pub open spec fn code_sound(code: Seq<StatementView>, cap: int, labels: Seq<bool>) -> bool
    decreases code,
{
    if code.len() == 0 {
        true
    } else {
        code_sound(code.drop_last(), cap, labels) && statement_sound(code.last(), cap, labels)
    }
}

/// Whether every block that has a label in `a` has one in `b`.
pub open spec fn labels_grow(a: Seq<bool>, b: Seq<bool>) -> bool {
    &&& a.len() == b.len()
    &&& forall|i: int| 0 <= i < a.len() ==> a[i] ==> b[i]
}

pub proof fn lemma_expr_below_grows(e: Expression, cap: int, more: int)
    requires
        expr_below(e, cap),
        cap <= more,
    ensures
        expr_below(e, more),
    decreases e,
{
    match e {
        Expression::Select(s) => {
            lemma_expr_below_grows(*s.condition, cap, more);
            lemma_expr_below_grows(*s.on_true, cap, more);
            lemma_expr_below_grows(*s.on_false, cap, more);
        },
        Expression::LoadAt(l) => {
            lemma_expr_below_grows(*l.pointer, cap, more);
        },
        Expression::UnOp(o) => {
            lemma_expr_below_grows(*o.rhs, cap, more);
        },
        Expression::BinOp(o) => {
            lemma_expr_below_grows(*o.lhs, cap, more);
            lemma_expr_below_grows(*o.rhs, cap, more);
        },
        Expression::CmpOp(o) => {
            lemma_expr_below_grows(*o.lhs, cap, more);
            lemma_expr_below_grows(*o.rhs, cap, more);
        },
        _ => {},
    }
}

pub proof fn lemma_exprs_below_grow(list: Seq<Expression>, cap: int, more: int)
    requires
        exprs_below(list, cap),
        cap <= more,
    ensures
        exprs_below(list, more),
{
    assert forall|i: int| 0 <= i < list.len() implies expr_below(#[trigger] list[i], more) by {
        lemma_expr_below_grows(list[i], cap, more);
    }
}

pub proof fn lemma_br_sound_grows(br: Br, cap: int, labels: Seq<bool>, more: int, later: Seq<bool>)
    requires
        br_sound(br, cap, labels),
        cap <= more,
        labels_grow(labels, later),
    ensures
        br_sound(br, more, later),
{
}

pub proof fn lemma_terminator_sound_grows(t: TerminatorView, cap: int, labels: Seq<bool>, more: int, later: Seq<bool>)
    requires
        terminator_sound(t, cap, labels),
        cap <= more,
        labels_grow(labels, later),
    ensures
        terminator_sound(t, more, later),
{
    match t {
        TerminatorView::BrTable(table) => {
            lemma_expr_below_grows(table.condition, cap, more);
            assert forall|i: int| 0 <= i < table.data.len() implies br_sound(
                #[trigger] table.data[i],
                more,
                later,
            ) by {
                lemma_br_sound_grows(table.data[i], cap, labels, more, later);
            }
        },
        _ => {},
    }
}

/// A sound statement stays sound when the bound grows and blocks get
/// labels.
pub proof fn lemma_statement_sound_grows(s: StatementView, cap: int, labels: Seq<bool>, more: int, later: Seq<bool>)
    requires
        statement_sound(s, cap, labels),
        cap <= more,
        labels_grow(labels, later),
    ensures
        statement_sound(s, more, later),
    decreases s,
{
    match s {
        StatementView::Block(b) => {
            lemma_block_sound_grows(b, cap, labels, more, later);
        },
        StatementView::BrIf(s) => {
            lemma_expr_below_grows(*s.condition, cap, more);
        },
        StatementView::If(s) => {
            lemma_expr_below_grows(s.condition, cap, more);
            lemma_block_sound_grows(s.on_true, cap, labels, more, later);
            match s.on_false {
                Some(b) => {
                    lemma_block_sound_grows(b, cap, labels, more, later);
                },
                None => {},
            }
        },
        StatementView::Call(c) => {
            lemma_exprs_below_grow(c.param_list, cap, more);
        },
        StatementView::CallIndirect(c) => {
            lemma_expr_below_grows(c.index, cap, more);
            lemma_exprs_below_grow(c.param_list, cap, more);
        },
        StatementView::SetTemporary(s) => {
            lemma_expr_below_grows(*s.value, cap, more);
        },
        StatementView::SetLocal(s) => {
            lemma_expr_below_grows(*s.value, cap, more);
        },
        StatementView::SetGlobal(s) => {
            lemma_expr_below_grows(*s.value, cap, more);
        },
        StatementView::StoreAt(s) => {
            lemma_expr_below_grows(*s.pointer, cap, more);
            lemma_expr_below_grows(*s.value, cap, more);
        },
        StatementView::MemoryGrow(s) => {
            lemma_expr_below_grows(*s.size, cap, more);
        },
        StatementView::MemoryCopy(s) => {
            lemma_expr_below_grows(*s.destination.pointer, cap, more);
            lemma_expr_below_grows(*s.source.pointer, cap, more);
            lemma_expr_below_grows(*s.size, cap, more);
        },
        StatementView::MemoryFill(s) => {
            lemma_expr_below_grows(*s.destination.pointer, cap, more);
            lemma_expr_below_grows(*s.size, cap, more);
            lemma_expr_below_grows(*s.value, cap, more);
        },
    }
}

pub proof fn lemma_block_sound_grows(b: BlockView, cap: int, labels: Seq<bool>, more: int, later: Seq<bool>)
    requires
        block_sound(b, cap, labels),
        cap <= more,
        labels_grow(labels, later),
    ensures
        block_sound(b, more, later),
    decreases b,
{
    let inner = labels.push(b.label_type is Some);
    let after = later.push(b.label_type is Some);
    assert(labels_grow(inner, after));
    lemma_code_sound_grows(b.code, cap, inner, more, after);
    match b.last {
        Some(t) => {
            lemma_terminator_sound_grows(t, cap, inner, more, after);
        },
        None => {},
    }
}

pub proof fn lemma_code_sound_grows(code: Seq<StatementView>, cap: int, labels: Seq<bool>, more: int, later: Seq<bool>)
    requires
        code_sound(code, cap, labels),
        cap <= more,
        labels_grow(labels, later),
    ensures
        code_sound(code, more, later),
    decreases code,
{
    if code.len() > 0 {
        lemma_code_sound_grows(code.drop_last(), cap, labels, more, later);
        lemma_statement_sound_grows(code.last(), cap, labels, more, later);
    }
}

/// Sound code with a sound statement behind it is sound.
pub proof fn lemma_code_sound_push(code: Seq<StatementView>, s: StatementView, cap: int, labels: Seq<bool>)
    requires
        code_sound(code, cap, labels),
        statement_sound(s, cap, labels),
    ensures
        code_sound(code.push(s), cap, labels),
{
    assert(code.push(s).drop_last() =~= code);
}


/// Code is sound if a prefix of it is and every statement behind the
/// prefix is.
pub proof fn lemma_code_sound_suffix(code: Seq<StatementView>, k: int, cap: int, labels: Seq<bool>)
    requires
        0 <= k <= code.len(),
        code_sound(code.subrange(0, k), cap, labels),
        forall|j: int| k <= j < code.len() ==> statement_sound(#[trigger] code[j], cap, labels),
    ensures
        code_sound(code, cap, labels),
    decreases code.len(),
{
    if code.len() > k {
        assert(code.drop_last().subrange(0, k) =~= code.subrange(0, k));
        lemma_code_sound_suffix(code.drop_last(), k, cap, labels);
    } else {
        assert(code.subrange(0, k) =~= code);
    }
}

/// What holds of the statements of an open block, where `cap` bounds
/// the temporaries and `labels` are the labels of the open blocks up to
/// this one: its pending values, its statements and its terminator name
/// temporaries below `cap` only, its branches have targets, and the slots
/// for the values that a branch to the block carries are below `cap`,
/// unless the block is the outermost one.
pub open spec fn list_inv(l: StatListView, cap: int, labels: Seq<bool>) -> bool {
    &&& l.stack.wf()
    &&& l.stack.capacity <= cap
    &&& l.stack.previous <= cap
    &&& exprs_below(l.stack.var_list, cap)
    &&& code_sound(l.code, cap, labels)
    &&& match l.last {
        Some(t) => terminator_sound(t, cap, labels),
        None => true,
    }
    &&& l.stack.previous + l.block_data.carried() <= cap || l.stack.previous == 0
}

/// `list_inv` with the block's own count of temporaries as the bound.
pub open spec fn own_inv(l: StatListView, labels: Seq<bool>) -> bool {
    list_inv(l, l.stack.capacity as int, labels)
}

/// Whether `b` is a later state of the block `a`: nothing but its stack
/// and its code differs, and its count of temporaries has not shrunk.
pub open spec fn same_block(a: StatListView, b: StatListView) -> bool {
    &&& b.block_data == a.block_data
    &&& b.has_reference == a.has_reference
    &&& b.last == a.last
    &&& b.stack.previous == a.stack.previous
    &&& b.stack.capacity >= a.stack.capacity
}

pub proof fn lemma_list_inv_grows(l: StatListView, cap: int, labels: Seq<bool>, more: int, later: Seq<bool>)
    requires
        list_inv(l, cap, labels),
        cap <= more,
        labels_grow(labels, later),
    ensures
        list_inv(l, more, later),
{
    lemma_exprs_below_grow(l.stack.var_list, cap, more);
    lemma_code_sound_grows(l.code, cap, labels, more, later);
    match l.last {
        Some(t) => {
            lemma_terminator_sound_grows(t, cap, labels, more, later);
        },
        None => {},
    }
}

pub proof fn lemma_pop(l: StatListView, labels: Seq<bool>)
    requires
        own_inv(l, labels),
        l.pop() is Some,
    ensures
        own_inv(l.pop().unwrap().1, labels),
        same_block(l, l.pop().unwrap().1),
        l.pop().unwrap().1.code == l.code,
        expr_below(l.pop().unwrap().0, l.stack.capacity as int),
        l.pop().unwrap().1.stack.capacity == l.stack.capacity,
{
    let r = l.pop().unwrap();
    assert(r.0 == l.stack.var_list[l.stack.var_list.len() - 1]);
    assert forall|i: int| 0 <= i < r.1.stack.var_list.len() implies expr_below(
        #[trigger] r.1.stack.var_list[i],
        l.stack.capacity as int,
    ) by {
        assert(r.1.stack.var_list[i] == l.stack.var_list[i]);
    }
}

pub proof fn lemma_push(l: StatListView, e: Expression, labels: Seq<bool>)
    requires
        own_inv(l, labels),
        expr_below(e, l.stack.capacity as int),
        l.push(e) is Some,
    ensures
        own_inv(l.push(e).unwrap(), labels),
        same_block(l, l.push(e).unwrap()),
        l.push(e).unwrap().code == l.code,
        l.push(e).unwrap().stack.capacity == l.stack.capacity,
{
    let r = l.push(e).unwrap();
    assert forall|i: int| 0 <= i < r.stack.var_list.len() implies expr_below(
        #[trigger] r.stack.var_list[i],
        l.stack.capacity as int,
    ) by {
        if i < l.stack.var_list.len() {
            assert(r.stack.var_list[i] == l.stack.var_list[i]);
        }
    }
}

pub proof fn lemma_emit(l: StatListView, s: StatementView, labels: Seq<bool>)
    requires
        own_inv(l, labels),
        statement_sound(s, l.stack.capacity as int, labels),
    ensures
        own_inv(l.emit(s), labels),
        same_block(l, l.emit(s)),
        l.emit(s).stack == l.stack,
{
    lemma_code_sound_push(l.code, s, l.stack.capacity as int, labels);
}

/// Evaluating keeps a block sound; and after evaluating everything, all
/// slots up to the top of the stack are counted.
pub proof fn lemma_leak(l: StatListView, h: Hazard, labels: Seq<bool>)
    requires
        own_inv(l, labels),
    ensures
        own_inv(l.leak(h), labels),
        same_block(l, l.leak(h)),
        l.leak(h).stack.var_list.len() == l.stack.var_list.len(),
        h == Hazard::All ==> l.leak(h).stack.top() <= l.leak(h).stack.capacity,
{
    let cap = l.stack.capacity as int;
    let r = l.stack.leak(l.code, h);
    let after = l.leak(h);
    let more = r.0.capacity as int;
    l.stack.lemma_leak_from(l.code, h, 0);
    lemma_code_sound_grows(l.code, cap, labels, more, labels);
    assert forall|j: int| 0 <= j < r.0.var_list.len() implies expr_below(#[trigger] r.0.var_list[j], more) by {
        if r.0.var_list[j] == l.stack.var_list[j] {
            lemma_expr_below_grows(l.stack.var_list[j], cap, more);
        }
    }
    assert forall|j: int| l.code.len() <= j < r.1.len() implies statement_sound(
        #[trigger] r.1[j],
        more,
        labels,
    ) by {
        let k = choose|k: int|
            0 <= k < l.stack.var_list.len() && l.stack.leaks(h, k) && r.0.capacity > l.stack.previous + k
                && r.1[j] == #[trigger] spill(l.stack.previous + k, l.stack.var_list[k]);
        lemma_expr_below_grows(l.stack.var_list[k], cap, more);
    }
    lemma_code_sound_suffix(r.1, l.code.len() as int, more, labels);
    match l.last {
        Some(t) => {
            lemma_terminator_sound_grows(t, cap, labels, more, labels);
        },
        None => {},
    }
    if h == Hazard::All && l.stack.var_list.len() > 0 {
        let j = l.stack.var_list.len() - 1;
        let e = r.0.var_list[j];
        if e == l.stack.var_list[j] && !l.stack.leaks(h, j) {
            assert(h.hits(l.stack.var_list[j]));
            assert(l.stack.var_list[j].is_temporary_spec(l.stack.previous + j));
            assert(expr_below(l.stack.var_list[j], cap));
            assert(l.stack.previous + j < cap);
        } else {
            assert(r.0.capacity > l.stack.previous + j);
        }
        assert(after.stack.top() == l.stack.previous + j + 1);
    }
}

/// Pushing fresh temporaries keeps a block sound, and the temporaries
/// are counted.
pub proof fn lemma_push_temporaries(l: StatListView, n: int, labels: Seq<bool>)
    requires
        own_inv(l, labels),
        l.stack.push_temporaries(n) is Some,
    ensures
        own_inv(StatListView { stack: l.stack.push_temporaries(n).unwrap().1, ..l }, labels),
        same_block(l, StatListView { stack: l.stack.push_temporaries(n).unwrap().1, ..l }),
        results_below(
            l.stack.push_temporaries(n).unwrap().0,
            l.stack.push_temporaries(n).unwrap().1.capacity as int,
        ),
        l.stack.push_temporaries(n).unwrap().1.capacity >= l.stack.top() + n,
{
    let cap = l.stack.capacity as int;
    let r = l.stack.push_temporaries(n).unwrap();
    let more = r.1.capacity as int;
    let after = StatListView { stack: r.1, ..l };
    lemma_list_inv_grows(l, cap, labels, more, labels);
    assert forall|j: int| 0 <= j < r.1.var_list.len() implies expr_below(#[trigger] r.1.var_list[j], more) by {
        if j < l.stack.var_list.len() {
            assert(r.1.var_list[j] == l.stack.var_list[j]);
        } else {
            assert(r.1.var_list[j] == temporaries(l.stack.top(), n)[j - l.stack.var_list.len()]);
        }
    }
}

pub proof fn lemma_pop_len(l: StatListView, n: int, labels: Seq<bool>)
    requires
        own_inv(l, labels),
        l.stack.pop_len(n) is Some,
    ensures
        own_inv(StatListView { stack: l.stack.pop_len(n).unwrap().1, ..l }, labels),
        same_block(l, StatListView { stack: l.stack.pop_len(n).unwrap().1, ..l }),
        exprs_below(l.stack.pop_len(n).unwrap().0, l.stack.capacity as int),
        l.stack.pop_len(n).unwrap().1.capacity == l.stack.capacity,
{
    let r = l.stack.pop_len(n).unwrap();
    let at = l.stack.var_list.len() - n;
    assert forall|j: int| 0 <= j < r.1.var_list.len() implies expr_below(
        #[trigger] r.1.var_list[j],
        l.stack.capacity as int,
    ) by {
        assert(r.1.var_list[j] == l.stack.var_list[j]);
    }
    assert forall|j: int| 0 <= j < r.0.len() implies expr_below(#[trigger] r.0[j], l.stack.capacity as int) by {
        assert(r.0[j] == l.stack.var_list[at + j]);
    }
}


pub proof fn lemma_push_load(l: StatListView, load_type: LoadType, memarg: MemArg, labels: Seq<bool>)
    requires
        own_inv(l, labels),
        l.push_load(load_type, memarg) is Some,
    ensures
        own_inv(l.push_load(load_type, memarg).unwrap(), labels),
        same_block(l, l.push_load(load_type, memarg).unwrap()),
{
    lemma_pop(l, labels);
    let a = l.pop().unwrap();
    lemma_push(
        a.1,
        Expression::LoadAt(
            LoadAt {
                load_type,
                memory: memarg.memory as usize,
                offset: memarg.offset as usize,
                pointer: Box::new(a.0),
            },
        ),
        labels,
    );
}

pub proof fn lemma_add_store(l: StatListView, store_type: StoreType, memarg: MemArg, labels: Seq<bool>)
    requires
        own_inv(l, labels),
        l.add_store(store_type, memarg) is Some,
    ensures
        own_inv(l.add_store(store_type, memarg).unwrap(), labels),
        same_block(l, l.add_store(store_type, memarg).unwrap()),
{
    lemma_pop(l, labels);
    let value = l.pop().unwrap();
    lemma_pop(value.1, labels);
    let pointer = value.1.pop().unwrap();
    let h = Hazard::Memory(memarg.memory as usize);
    lemma_leak(pointer.1, h, labels);
    let leaked = pointer.1.leak(h);
    lemma_expr_below_grows(value.0, l.stack.capacity as int, leaked.stack.capacity as int);
    lemma_expr_below_grows(pointer.0, l.stack.capacity as int, leaked.stack.capacity as int);
    lemma_emit(
        leaked,
        super::factory::store_at(
            store_type,
            memarg.memory as usize,
            memarg.offset as usize,
            pointer.0,
            value.0,
        ),
        labels,
    );
}

pub proof fn lemma_push_constant(l: StatListView, value: Value, labels: Seq<bool>)
    requires
        own_inv(l, labels),
        l.push_constant(value) is Some,
    ensures
        own_inv(l.push_constant(value).unwrap(), labels),
        same_block(l, l.push_constant(value).unwrap()),
{
    lemma_push(l, Expression::Value(value), labels);
}

pub proof fn lemma_push_un_op(l: StatListView, op_type: UnOpType, labels: Seq<bool>)
    requires
        own_inv(l, labels),
        l.push_un_op(op_type) is Some,
    ensures
        own_inv(l.push_un_op(op_type).unwrap(), labels),
        same_block(l, l.push_un_op(op_type).unwrap()),
{
    lemma_pop(l, labels);
    let a = l.pop().unwrap();
    lemma_push(a.1, Expression::UnOp(UnOp { op_type, rhs: Box::new(a.0) }), labels);
}

pub proof fn lemma_push_bin_op(l: StatListView, op_type: BinOpType, labels: Seq<bool>)
    requires
        own_inv(l, labels),
        l.push_bin_op(op_type) is Some,
    ensures
        own_inv(l.push_bin_op(op_type).unwrap(), labels),
        same_block(l, l.push_bin_op(op_type).unwrap()),
{
    lemma_pop(l, labels);
    let rhs = l.pop().unwrap();
    lemma_pop(rhs.1, labels);
    let lhs = rhs.1.pop().unwrap();
    lemma_push(
        lhs.1,
        Expression::BinOp(BinOp { op_type, lhs: Box::new(lhs.0), rhs: Box::new(rhs.0) }),
        labels,
    );
}

pub proof fn lemma_push_compare(l: StatListView, op_type: CmpOpType, labels: Seq<bool>)
    requires
        own_inv(l, labels),
        l.push_cmp_op(op_type) is Some,
    ensures
        own_inv(l.push_cmp_op(op_type).unwrap(), labels),
        same_block(l, l.push_cmp_op(op_type).unwrap()),
{
    lemma_pop(l, labels);
    let rhs = l.pop().unwrap();
    lemma_pop(rhs.1, labels);
    let lhs = rhs.1.pop().unwrap();
    lemma_push(
        lhs.1,
        Expression::CmpOp(CmpOp { op_type, lhs: Box::new(lhs.0), rhs: Box::new(rhs.0) }),
        labels,
    );
}

pub proof fn lemma_push_equal_zero(l: StatListView, value: Value, ty: NumType, labels: Seq<bool>)
    requires
        own_inv(l, labels),
        l.push_equal_zero(value, ty) is Some,
    ensures
        own_inv(l.push_equal_zero(value, ty).unwrap(), labels),
        same_block(l, l.push_equal_zero(value, ty).unwrap()),
{
    lemma_push_constant(l, value, labels);
    lemma_push_compare(l.push_constant(value).unwrap(), CmpOpType { kind: CmpOpKind::Eq, ty }, labels);
}

pub proof fn lemma_drop_top(l: StatListView, labels: Seq<bool>)
    requires
        own_inv(l, labels),
        l.drop_top() is Some,
    ensures
        own_inv(l.drop_top().unwrap(), labels),
        same_block(l, l.drop_top().unwrap()),
{
    lemma_pop(l, labels);
}

pub proof fn lemma_push_select(l: StatListView, labels: Seq<bool>)
    requires
        own_inv(l, labels),
        l.push_select() is Some,
    ensures
        own_inv(l.push_select().unwrap(), labels),
        same_block(l, l.push_select().unwrap()),
{
    lemma_pop(l, labels);
    let condition = l.pop().unwrap();
    lemma_pop(condition.1, labels);
    let on_false = condition.1.pop().unwrap();
    lemma_pop(on_false.1, labels);
    let on_true = on_false.1.pop().unwrap();
    lemma_push(
        on_true.1,
        Expression::Select(
            Select {
                condition: Box::new(condition.0),
                on_true: Box::new(on_true.0),
                on_false: Box::new(on_false.0),
            },
        ),
        labels,
    );
}

pub proof fn lemma_set_local(l: StatListView, var: usize, labels: Seq<bool>)
    requires
        own_inv(l, labels),
        l.set_local(var) is Some,
    ensures
        own_inv(l.set_local(var).unwrap(), labels),
        same_block(l, l.set_local(var).unwrap()),
{
    lemma_pop(l, labels);
    let r = l.pop().unwrap();
    lemma_leak(r.1, Hazard::Local(var), labels);
    let leaked = r.1.leak(Hazard::Local(var));
    lemma_expr_below_grows(r.0, l.stack.capacity as int, leaked.stack.capacity as int);
    lemma_emit(
        leaked,
        StatementView::SetLocal(SetLocal { var: Local { var }, value: Box::new(r.0) }),
        labels,
    );
}

pub proof fn lemma_tee_local(l: StatListView, var: usize, labels: Seq<bool>)
    requires
        own_inv(l, labels),
        l.tee_local(var) is Some,
    ensures
        own_inv(l.tee_local(var).unwrap(), labels),
        same_block(l, l.tee_local(var).unwrap()),
{
    lemma_pop(l, labels);
    let r = l.pop().unwrap();
    lemma_leak(r.1, Hazard::Local(var), labels);
    let leaked = r.1.leak(Hazard::Local(var));
    lemma_push(leaked, Expression::GetLocal(Local { var }), labels);
    let pushed = leaked.push(Expression::GetLocal(Local { var })).unwrap();
    lemma_expr_below_grows(r.0, l.stack.capacity as int, pushed.stack.capacity as int);
    lemma_emit(
        pushed,
        StatementView::SetLocal(SetLocal { var: Local { var }, value: Box::new(r.0) }),
        labels,
    );
}

pub proof fn lemma_set_global(l: StatListView, var: usize, labels: Seq<bool>)
    requires
        own_inv(l, labels),
        l.set_global(var) is Some,
    ensures
        own_inv(l.set_global(var).unwrap(), labels),
        same_block(l, l.set_global(var).unwrap()),
{
    lemma_pop(l, labels);
    let r = l.pop().unwrap();
    lemma_leak(r.1, Hazard::Global(var), labels);
    let leaked = r.1.leak(Hazard::Global(var));
    lemma_expr_below_grows(r.0, l.stack.capacity as int, leaked.stack.capacity as int);
    lemma_emit(leaked, StatementView::SetGlobal(SetGlobal { var, value: Box::new(r.0) }), labels);
}

pub proof fn lemma_grow_memory(l: StatListView, memory: usize, labels: Seq<bool>)
    requires
        own_inv(l, labels),
        l.grow_memory(memory) is Some,
    ensures
        own_inv(l.grow_memory(memory).unwrap(), labels),
        same_block(l, l.grow_memory(memory).unwrap()),
{
    lemma_pop(l, labels);
    let size = l.pop().unwrap();
    lemma_push_temporaries(size.1, 1, labels);
    let r = size.1.stack.push_temporaries(1).unwrap();
    let pushed = StatListView { stack: r.1, ..size.1 };
    lemma_leak(pushed, Hazard::Memory(memory), labels);
    let leaked = pushed.leak(Hazard::Memory(memory));
    lemma_expr_below_grows(size.0, l.stack.capacity as int, leaked.stack.capacity as int);
    lemma_emit(
        leaked,
        StatementView::MemoryGrow(
            MemoryGrow { memory, result: Temporary { var: r.0.start }, size: Box::new(size.0) },
        ),
        labels,
    );
}

pub proof fn lemma_copy_memory(l: StatListView, dst_mem: usize, src_mem: usize, labels: Seq<bool>)
    requires
        own_inv(l, labels),
        l.copy_memory(dst_mem, src_mem) is Some,
    ensures
        own_inv(l.copy_memory(dst_mem, src_mem).unwrap(), labels),
        same_block(l, l.copy_memory(dst_mem, src_mem).unwrap()),
{
    lemma_pop(l, labels);
    let size = l.pop().unwrap();
    lemma_pop(size.1, labels);
    let source = size.1.pop().unwrap();
    lemma_pop(source.1, labels);
    let destination = source.1.pop().unwrap();
    lemma_leak(destination.1, Hazard::Memory(src_mem), labels);
    let first = destination.1.leak(Hazard::Memory(src_mem));
    lemma_leak(first, Hazard::Memory(dst_mem), labels);
    let leaked = first.leak(Hazard::Memory(dst_mem));
    lemma_expr_below_grows(size.0, l.stack.capacity as int, leaked.stack.capacity as int);
    lemma_expr_below_grows(source.0, l.stack.capacity as int, leaked.stack.capacity as int);
    lemma_expr_below_grows(destination.0, l.stack.capacity as int, leaked.stack.capacity as int);
    lemma_emit(
        leaked,
        StatementView::MemoryCopy(
            MemoryCopy {
                destination: MemoryArgument { memory: dst_mem, pointer: Box::new(destination.0) },
                source: MemoryArgument { memory: src_mem, pointer: Box::new(source.0) },
                size: Box::new(size.0),
            },
        ),
        labels,
    );
}

pub proof fn lemma_fill_memory(l: StatListView, memory: usize, labels: Seq<bool>)
    requires
        own_inv(l, labels),
        l.fill_memory(memory) is Some,
    ensures
        own_inv(l.fill_memory(memory).unwrap(), labels),
        same_block(l, l.fill_memory(memory).unwrap()),
{
    lemma_pop(l, labels);
    let size = l.pop().unwrap();
    lemma_pop(size.1, labels);
    let value = size.1.pop().unwrap();
    lemma_pop(value.1, labels);
    let destination = value.1.pop().unwrap();
    lemma_leak(destination.1, Hazard::Memory(memory), labels);
    let leaked = destination.1.leak(Hazard::Memory(memory));
    lemma_expr_below_grows(size.0, l.stack.capacity as int, leaked.stack.capacity as int);
    lemma_expr_below_grows(value.0, l.stack.capacity as int, leaked.stack.capacity as int);
    lemma_expr_below_grows(destination.0, l.stack.capacity as int, leaked.stack.capacity as int);
    lemma_emit(
        leaked,
        StatementView::MemoryFill(
            MemoryFill {
                destination: MemoryArgument { memory, pointer: Box::new(destination.0) },
                size: Box::new(size.0),
                value: Box::new(value.0),
            },
        ),
        labels,
    );
}

pub proof fn lemma_call(l: StatListView, function: usize, num_param: usize, num_result: usize, labels: Seq<bool>)
    requires
        own_inv(l, labels),
        l.call(function, num_param, num_result) is Some,
    ensures
        own_inv(l.call(function, num_param, num_result).unwrap(), labels),
        same_block(l, l.call(function, num_param, num_result).unwrap()),
{
    lemma_pop_len(l, num_param as int, labels);
    let params = l.stack.pop_len(num_param as int).unwrap();
    let popped = StatListView { stack: params.1, ..l };
    lemma_leak(popped, Hazard::Call, labels);
    let leaked = popped.leak(Hazard::Call);
    lemma_push_temporaries(leaked, num_result as int, labels);
    let results = leaked.stack.push_temporaries(num_result as int).unwrap();
    let pushed = StatListView { stack: results.1, ..leaked };
    lemma_exprs_below_grow(params.0, l.stack.capacity as int, pushed.stack.capacity as int);
    lemma_emit(
        pushed,
        StatementView::Call(CallView { function, param_list: params.0, result_list: results.0 }),
        labels,
    );
}

pub proof fn lemma_call_indirect(l: StatListView, table: usize, num_param: usize, num_result: usize, labels: Seq<bool>)
    requires
        own_inv(l, labels),
        l.call_indirect(table, num_param, num_result) is Some,
    ensures
        own_inv(l.call_indirect(table, num_param, num_result).unwrap(), labels),
        same_block(l, l.call_indirect(table, num_param, num_result).unwrap()),
{
    lemma_pop(l, labels);
    let index = l.pop().unwrap();
    lemma_pop_len(index.1, num_param as int, labels);
    let params = index.1.stack.pop_len(num_param as int).unwrap();
    let popped = StatListView { stack: params.1, ..index.1 };
    lemma_leak(popped, Hazard::Call, labels);
    let leaked = popped.leak(Hazard::Call);
    lemma_push_temporaries(leaked, num_result as int, labels);
    let results = leaked.stack.push_temporaries(num_result as int).unwrap();
    let pushed = StatListView { stack: results.1, ..leaked };
    lemma_exprs_below_grow(params.0, l.stack.capacity as int, pushed.stack.capacity as int);
    lemma_expr_below_grows(index.0, l.stack.capacity as int, pushed.stack.capacity as int);
    lemma_emit(
        pushed,
        StatementView::CallIndirect(
            CallIndirectView { table, index: index.0, param_list: params.0, result_list: results.0 },
        ),
        labels,
    );
}


/// For each open block, outermost first, whether a branch targets it.
pub open spec fn flags(f: FactoryView) -> Seq<bool> {
    Seq::new(
        f.pending.len() + 1,
        |i: int|
            if i < f.pending.len() {
                f.pending[i].has_reference
            } else {
                f.target.has_reference
            },
    )
}

/// What holds of the lifter between operators: every open block is
/// sound, with the innermost block's count of temporaries as the bound
/// and the flags of the open blocks in place of their labels.
pub open spec fn inv(f: FactoryView) -> bool {
    &&& own_inv(f.target, flags(f))
    &&& forall|i: int|
        0 <= i < f.pending.len() ==> list_inv(
            #[trigger] f.pending[i],
            f.target.stack.capacity as int,
            flags(f).take(i + 1),
        )
}

/// A step that changes the innermost block only, and keeps it sound,
/// keeps the lifter sound.
pub proof fn lemma_with_target(f: FactoryView, t: StatListView)
    requires
        inv(f),
        own_inv(t, flags(f)),
        same_block(f.target, t),
    ensures
        inv(FactoryView { target: t, ..f }),
        flags(FactoryView { target: t, ..f }) == flags(f),
{
    let g = FactoryView { target: t, ..f };
    assert(flags(g) =~= flags(f));
    assert forall|i: int| 0 <= i < g.pending.len() implies list_inv(
        #[trigger] g.pending[i],
        g.target.stack.capacity as int,
        flags(g).take(i + 1),
    ) by {
        lemma_list_inv_grows(
            f.pending[i],
            f.target.stack.capacity as int,
            flags(f).take(i + 1),
            t.stack.capacity as int,
            flags(f).take(i + 1),
        );
    }
}

pub proof fn lemma_start_block(f: FactoryView, info: TypeInfoView, ty: BlockType, variant: BlockVariant)
    requires
        inv(f),
        f.start_block(info, ty, variant) is Some,
    ensures
        inv(f.start_block(info, ty, variant).unwrap()),
        f.start_block(info, ty, variant).unwrap().target.stack.capacity >= f.target.stack.capacity,
        f.start_block(info, ty, variant).unwrap().pending.len() == f.pending.len() + 1,
{
    let g = f.start_block(info, ty, variant).unwrap();
    let labels = flags(f);
    let n = f.pending.len() as int;
    let sig = info.by_block_type(ty).unwrap();
    lemma_leak(f.target, Hazard::All, labels);
    let old = f.target.leak(Hazard::All);
    // the block with the stack from which the new block is split off
    let prepared = match variant {
        BlockVariant::Else => {
            lemma_pop_len(old, sig.1 as int, labels);
            let popped = StatListView { stack: old.stack.pop_len(sig.1 as int).unwrap().1, ..old };
            lemma_push_temporaries(popped, sig.0 as int, labels);
            StatListView { stack: popped.stack.push_temporaries(sig.0 as int).unwrap().1, ..popped }
        },
        _ => old,
    };
    assert(own_inv(prepared, labels));
    assert(prepared.stack.top() <= prepared.stack.capacity);
    let split = prepared.stack.split_last(sig.0 as int, sig.1 as int).unwrap();
    lemma_pop_len(prepared, sig.0 as int, labels);
    let rest = StatListView { stack: split.1, ..prepared };
    assert(rest.stack == prepared.stack.pop_len(sig.0 as int).unwrap().1);
    lemma_push_temporaries(rest, sig.1 as int, labels);
    let parent = g.pending[n];
    assert(parent == StatListView { stack: rest.stack.push_temporaries(sig.1 as int).unwrap().1, ..old });
    let child = g.target;
    let cap = child.stack.capacity as int;
    assert(parent.stack.capacity == child.stack.capacity);
    assert(flags(g) =~= labels.push(false));
    assert(flags(g).take(n + 1) =~= labels);
    // the new block
    assert forall|i: int| 0 <= i < child.stack.var_list.len() implies expr_below(
        #[trigger] child.stack.var_list[i],
        cap,
    ) by {
        let at = prepared.stack.var_list.len() - sig.0;
        assert(child.stack.var_list[i] == prepared.stack.var_list[at + i]);
        lemma_expr_below_grows(prepared.stack.var_list[at + i], prepared.stack.capacity as int, cap);
    }
    assert(own_inv(child, flags(g)));
    // the enclosing blocks
    assert forall|i: int| 0 <= i < g.pending.len() implies list_inv(
        #[trigger] g.pending[i],
        cap,
        flags(g).take(i + 1),
    ) by {
        if i < n {
            assert(g.pending[i] == f.pending[i]);
            assert(flags(g).take(i + 1) =~= labels.take(i + 1));
            lemma_list_inv_grows(
                f.pending[i],
                f.target.stack.capacity as int,
                labels.take(i + 1),
                cap,
                labels.take(i + 1),
            );
        }
    }
}

pub proof fn lemma_end_block(f: FactoryView)
    requires
        inv(f),
        f.end_block() is Some,
    ensures
        inv(f.end_block().unwrap()),
{
    let g = f.end_block().unwrap();
    let labels = flags(f);
    let n = f.pending.len() as int;
    let cap = f.target.stack.capacity as int;
    let now = f.target;
    let old = f.pending[n - 1];
    assert(old.stack.capacity <= now.stack.capacity);
    let parent = StatListView { stack: StackView { capacity: now.stack.capacity, ..old.stack }, ..old };
    let outer = labels.take(n);
    let block = now.to_block();
    assert(outer.push(now.has_reference) =~= labels);
    assert(block_sound(block, cap, outer));
    assert(own_inv(parent, outer));
    assert(flags(g) =~= outer);
    match now.block_data {
        BlockData::If { .. } => {
            lemma_pop(parent, outer);
            let r = parent.pop().unwrap();
            lemma_emit(
                r.1,
                StatementView::If(IfView { condition: r.0, on_true: block, on_false: None }),
                outer,
            );
        },
        BlockData::Else { .. } => {
            let first = parent.code.last()->If_0;
            let renewed = StatementView::If(IfView { on_false: Some(block), ..first });
            assert(statement_sound(parent.code.last(), cap, outer));
            assert(statement_sound(renewed, cap, outer));
            lemma_code_sound_push(parent.code.drop_last(), renewed, cap, outer);
        },
        _ => {
            lemma_emit(parent, StatementView::Block(block), outer);
        },
    }
    assert(own_inv(g.target, flags(g)));
    assert forall|i: int| 0 <= i < g.pending.len() implies list_inv(
        #[trigger] g.pending[i],
        g.target.stack.capacity as int,
        flags(g).take(i + 1),
    ) by {
        assert(g.pending[i] == f.pending[i]);
        assert(flags(g).take(i + 1) =~= labels.take(i + 1));
    }
}

pub proof fn lemma_leak_target(f: FactoryView, h: Hazard)
    requires
        inv(f),
    ensures
        inv(FactoryView { target: f.target.leak(h), ..f }),
        flags(FactoryView { target: f.target.leak(h), ..f }) == flags(f),
{
    lemma_leak(f.target, h, flags(f));
    lemma_with_target(f, f.target.leak(h));
}

pub proof fn lemma_start_else(f: FactoryView, info: TypeInfoView)
    requires
        inv(f),
        f.start_else(info) is Some,
    ensures
        inv(f.start_else(info).unwrap()),
{
    match f.target.block_data {
        BlockData::If { ty, .. } => {
            lemma_leak_target(f, Hazard::All);
            let leaked = FactoryView { target: f.target.leak(Hazard::All), ..f };
            lemma_end_block(leaked);
            lemma_start_block(leaked.end_block().unwrap(), info, ty, BlockVariant::Else);
        },
        _ => {},
    }
}

/// Whether a branch that is not yet part of the code will be sound once
/// everything pending is evaluated: its target has a label, and what it
/// moves lies below the top of the stack or is counted already.
pub open spec fn br_ready(br: Br, top: int, cap: int, labels: Seq<bool>) -> bool {
    &&& br.target < labels.len()
    &&& labels[labels.len() - 1 - br.target]
    &&& br.align.aligned() || ((br.align.new + br.align.length <= cap || br.align.new + br.align.length
        <= top) && br.align.old + br.align.length <= top)
}

pub proof fn lemma_br_terminator(f: FactoryView, target: int)
    requires
        inv(f),
        target <= usize::MAX,
        f.br_terminator(target) is Some,
    ensures
        inv(f.br_terminator(target).unwrap().1),
        br_ready(
            f.br_terminator(target).unwrap().0,
            f.target.stack.top(),
            f.target.stack.capacity as int,
            flags(f.br_terminator(target).unwrap().1),
        ),
        labels_grow(flags(f), flags(f.br_terminator(target).unwrap().1)),
        same_block(
            StatListView { has_reference: f.br_terminator(target).unwrap().1.target.has_reference, ..f.target },
            f.br_terminator(target).unwrap().1.target,
        ),
        f.br_terminator(target).unwrap().1.target.stack == f.target.stack,
        f.br_terminator(target).unwrap().1.target.code == f.target.code,
        f.br_terminator(target).unwrap().1.pending.len() == f.pending.len(),
        f.br_terminator(target).unwrap().1.nested_unreachable == f.nested_unreachable,
{
    let r = f.br_terminator(target).unwrap();
    let g = r.1;
    let n = f.pending.len() as int;
    let cap = f.target.stack.capacity as int;
    let block = f.relative(target).unwrap();
    assert(flags(g) =~= flags(f).update(n - target, true));
    assert(labels_grow(flags(f), flags(g)));
    lemma_list_inv_grows(f.target, cap, flags(f), cap, flags(g));
    assert forall|i: int| 0 <= i < g.pending.len() implies list_inv(
        #[trigger] g.pending[i],
        g.target.stack.capacity as int,
        flags(g).take(i + 1),
    ) by {
        assert(labels_grow(flags(f).take(i + 1), flags(g).take(i + 1)));
        lemma_list_inv_grows(f.pending[i], cap, flags(f).take(i + 1), cap, flags(g).take(i + 1));
    }
    // the slots of the target block
    if target == 0 {
        assert(block == f.target);
    } else {
        assert(block == f.pending[n - target]);
    }
    assert(block.stack.previous + block.block_data.carried() <= cap || block.stack.previous == 0);
    assert(r.0.target == target);
    assert(flags(g)[flags(g).len() - 1 - target]);
    let align = r.0.align;
    assert(align.new == block.stack.previous);
    assert(align.length == block.block_data.carried());
    assert(align.old + align.length == f.target.stack.top());
}

/// A branch that is ready is sound once the top of the stack is counted.
pub proof fn lemma_br_ready_sound(br: Br, top: int, cap: int, labels: Seq<bool>, more: int, later: Seq<bool>)
    requires
        br_ready(br, top, cap, labels),
        cap <= more,
        top <= more,
        labels_grow(labels, later),
    ensures
        br_sound(br, more, later),
{
}

pub proof fn lemma_br_ready_grows(br: Br, top: int, cap: int, labels: Seq<bool>, later: Seq<bool>)
    requires
        br_ready(br, top, cap, labels),
        labels_grow(labels, later),
    ensures
        br_ready(br, top, cap, later),
{
}

/// Whether a terminator that is not yet part of the code will be sound
/// once everything pending is evaluated.
pub open spec fn terminator_ready(t: TerminatorView, top: int, cap: int, labels: Seq<bool>) -> bool {
    match t {
        TerminatorView::Unreachable => true,
        TerminatorView::Br(br) => br_ready(br, top, cap, labels),
        TerminatorView::BrTable(table) => {
            &&& expr_below(table.condition, cap)
            &&& br_ready(table.default, top, cap, labels)
            &&& forall|i: int| 0 <= i < table.data.len() ==> br_ready(#[trigger] table.data[i], top, cap, labels)
        },
    }
}

pub proof fn lemma_terminate(f: FactoryView, term: TerminatorView)
    requires
        inv(f),
        terminator_ready(term, f.target.stack.top(), f.target.stack.capacity as int, flags(f)),
    ensures
        inv(f.terminate(term)),
{
    let labels = flags(f);
    let cap = f.target.stack.capacity as int;
    let top = f.target.stack.top();
    lemma_leak(f.target, Hazard::All, labels);
    let leaked = f.target.leak(Hazard::All);
    let more = leaked.stack.capacity as int;
    let done = f.target.set_terminator(term);
    assert(leaked.stack.top() == top);
    match term {
        TerminatorView::Unreachable => {},
        TerminatorView::Br(br) => {
            lemma_br_ready_sound(br, top, cap, labels, more, labels);
        },
        TerminatorView::BrTable(table) => {
            lemma_expr_below_grows(table.condition, cap, more);
            lemma_br_ready_sound(table.default, top, cap, labels, more, labels);
            assert forall|i: int| 0 <= i < table.data.len() implies br_sound(
                #[trigger] table.data[i],
                more,
                labels,
            ) by {
                lemma_br_ready_sound(table.data[i], top, cap, labels, more, labels);
            }
        },
    }
    assert(own_inv(done, labels));
    let g = f.terminate(term);
    assert(flags(g) =~= labels);
    assert forall|i: int| 0 <= i < g.pending.len() implies list_inv(
        #[trigger] g.pending[i],
        g.target.stack.capacity as int,
        flags(g).take(i + 1),
    ) by {
        lemma_list_inv_grows(f.pending[i], cap, labels.take(i + 1), more, labels.take(i + 1));
    }
}


pub proof fn lemma_add_br(f: FactoryView, depth: usize)
    requires
        inv(f),
        f.add_br(depth) is Some,
    ensures
        inv(f.add_br(depth).unwrap()),
{
    lemma_br_terminator(f, depth as int);
    let r = f.br_terminator(depth as int).unwrap();
    lemma_terminate(r.1, TerminatorView::Br(r.0));
}

pub proof fn lemma_add_return(f: FactoryView)
    requires
        inv(f),
        f.add_return() is Some,
    ensures
        inv(f.add_return().unwrap()),
{
    lemma_br_terminator(f, f.pending.len() as int);
    let r = f.br_terminator(f.pending.len() as int).unwrap();
    lemma_terminate(r.1, TerminatorView::Br(r.0));
}

pub proof fn lemma_add_br_if(f: FactoryView, depth: usize)
    requires
        inv(f),
        f.add_br_if(depth) is Some,
    ensures
        inv(f.add_br_if(depth).unwrap()),
{
    let labels = flags(f);
    lemma_pop(f.target, labels);
    let condition = f.target.pop().unwrap();
    lemma_with_target(f, condition.1);
    let popped = FactoryView { target: condition.1, ..f };
    lemma_br_terminator(popped, depth as int);
    let r = popped.br_terminator(depth as int).unwrap();
    let g = r.1;
    let cap = g.target.stack.capacity as int;
    let top = g.target.stack.top();
    lemma_leak(g.target, Hazard::All, flags(g));
    let leaked = g.target.leak(Hazard::All);
    let more = leaked.stack.capacity as int;
    lemma_br_ready_sound(r.0, top, cap, flags(g), more, flags(g));
    lemma_expr_below_grows(condition.0, cap, more);
    lemma_emit(
        leaked,
        StatementView::BrIf(BrIf { condition: Box::new(condition.0), target: r.0 }),
        flags(g),
    );
    lemma_with_target(g, g.target.branch_if(condition.0, r.0));
}

/// The branches of a table are all ready in the state behind the last
/// of them, which differs from the state before the first in the flags
/// of the open blocks only.
pub proof fn lemma_br_terminators(f: FactoryView, targets: Seq<u32>)
    requires
        inv(f),
        f.br_terminators(targets) is Some,
    ensures
        inv(f.br_terminators(targets).unwrap().1),
        labels_grow(flags(f), flags(f.br_terminators(targets).unwrap().1)),
        f.br_terminators(targets).unwrap().1.target.stack == f.target.stack,
        f.br_terminators(targets).unwrap().1.pending.len() == f.pending.len(),
        forall|i: int|
            0 <= i < f.br_terminators(targets).unwrap().0.len() ==> br_ready(
                #[trigger] f.br_terminators(targets).unwrap().0[i],
                f.target.stack.top(),
                f.target.stack.capacity as int,
                flags(f.br_terminators(targets).unwrap().1),
            ),
    decreases targets.len(),
{
    if targets.len() > 0 {
        lemma_br_terminators(f, targets.drop_last());
        let r = f.br_terminators(targets.drop_last()).unwrap();
        lemma_br_terminator(r.1, targets.last() as int);
        let t = r.1.br_terminator(targets.last() as int).unwrap();
        let list = f.br_terminators(targets).unwrap().0;
        let top = f.target.stack.top();
        let cap = f.target.stack.capacity as int;
        assert forall|i: int| 0 <= i < list.len() implies br_ready(#[trigger] list[i], top, cap, flags(t.1)) by {
            if i < r.0.len() {
                assert(list[i] == r.0[i]);
                lemma_br_ready_grows(r.0[i], top, cap, flags(r.1), flags(t.1));
            }
        }
    }
}

pub proof fn lemma_add_br_table(f: FactoryView, targets: Seq<u32>, default: u32)
    requires
        inv(f),
        f.add_br_table(targets, default) is Some,
    ensures
        inv(f.add_br_table(targets, default).unwrap()),
{
    lemma_pop(f.target, flags(f));
    let condition = f.target.pop().unwrap();
    lemma_with_target(f, condition.1);
    let popped = FactoryView { target: condition.1, ..f };
    lemma_br_terminators(popped, targets);
    let data = popped.br_terminators(targets).unwrap();
    lemma_br_terminator(data.1, default as int);
    let last = data.1.br_terminator(default as int).unwrap();
    let top = popped.target.stack.top();
    let cap = popped.target.stack.capacity as int;
    assert forall|i: int| 0 <= i < data.0.len() implies br_ready(#[trigger] data.0[i], top, cap, flags(last.1)) by {
        lemma_br_ready_grows(data.0[i], top, cap, flags(data.1), flags(last.1));
    }
    lemma_terminate(
        last.1,
        TerminatorView::BrTable(BrTableView { condition: condition.0, data: data.0, default: last.0 }),
    );
}

pub proof fn lemma_add_if(f: FactoryView, info: TypeInfoView, blockty: BlockType)
    requires
        inv(f),
        f.add_if(info, blockty) is Some,
    ensures
        inv(f.add_if(info, blockty).unwrap()),
{
    lemma_pop(f.target, flags(f));
    let condition = f.target.pop().unwrap();
    lemma_with_target(f, condition.1);
    let popped = FactoryView { target: condition.1, ..f };
    lemma_start_block(popped, info, blockty, BlockVariant::If);
    let g = popped.start_block(info, blockty, BlockVariant::If).unwrap();
    let h = f.add_if(info, blockty).unwrap();
    let n = g.pending.len() - 1;
    let cap = g.target.stack.capacity as int;
    let parent = g.pending[n].push(condition.0).unwrap();
    assert(flags(h) =~= flags(g));
    lemma_expr_below_grows(condition.0, f.target.stack.capacity as int, cap);
    assert forall|i: int| 0 <= i < parent.stack.var_list.len() implies expr_below(
        #[trigger] parent.stack.var_list[i],
        cap,
    ) by {
        if i < g.pending[n].stack.var_list.len() {
            assert(parent.stack.var_list[i] == g.pending[n].stack.var_list[i]);
        }
    }
    assert forall|i: int| 0 <= i < h.pending.len() implies list_inv(
        #[trigger] h.pending[i],
        cap,
        flags(h).take(i + 1),
    ) by {
        if i < n {
            assert(h.pending[i] == g.pending[i]);
        }
    }
}

pub proof fn lemma_add_call(f: FactoryView, info: TypeInfoView, function: usize)
    requires
        inv(f),
        f.add_call(info, function) is Some,
    ensures
        inv(f.add_call(info, function).unwrap()),
{
    let sig = info.by_func_index(function as int).unwrap();
    lemma_call(f.target, function, sig.0, sig.1, flags(f));
    lemma_with_target(f, f.target.call(function, sig.0, sig.1).unwrap());
}

pub proof fn lemma_add_call_indirect(f: FactoryView, info: TypeInfoView, ty: usize, table: usize)
    requires
        inv(f),
        f.add_call_indirect(info, ty, table) is Some,
    ensures
        inv(f.add_call_indirect(info, ty, table).unwrap()),
{
    let sig = info.by_type_index(ty as int).unwrap();
    lemma_call_indirect(f.target, table, sig.0, sig.1, flags(f));
    lemma_with_target(f, f.target.call_indirect(table, sig.0, sig.1).unwrap());
}

/// Every reachable operator keeps the lifter sound.
pub proof fn lemma_add_instruction(f: FactoryView, info: TypeInfoView, op: Operator)
    requires
        inv(f),
        f.add_instruction(info, op) is Some,
    ensures
        inv(f.add_instruction(info, op).unwrap()),
{
    reveal(FactoryView::add_instruction);
    let labels = flags(f);
    let t = f.target;
    match op {
        Operator::UnOp(op_type) => {
            lemma_push_un_op(t, op_type, labels);
            lemma_with_target(f, t.push_un_op(op_type).unwrap());
        },
        Operator::BinOp(op_type) => {
            lemma_push_bin_op(t, op_type, labels);
            lemma_with_target(f, t.push_bin_op(op_type).unwrap());
        },
        Operator::CmpOp(op_type) => {
            lemma_push_compare(t, op_type, labels);
            lemma_with_target(f, t.push_cmp_op(op_type).unwrap());
        },
        Operator::I32Eqz => {
            lemma_push_equal_zero(t, Value::I32(0), NumType::I32, labels);
            lemma_with_target(f, t.push_equal_zero(Value::I32(0), NumType::I32).unwrap());
        },
        Operator::I64Eqz => {
            lemma_push_equal_zero(t, Value::I64(0), NumType::I64, labels);
            lemma_with_target(f, t.push_equal_zero(Value::I64(0), NumType::I64).unwrap());
        },
        Operator::Unreachable => {
            lemma_terminate(f, TerminatorView::Unreachable);
        },
        Operator::Nop => {},
        Operator::Block { blockty } => {
            lemma_start_block(f, info, blockty, BlockVariant::Forward);
        },
        Operator::Loop { blockty } => {
            lemma_start_block(f, info, blockty, BlockVariant::Backward);
        },
        Operator::If { blockty } => {
            lemma_add_if(f, info, blockty);
        },
        Operator::Else => {
            lemma_start_else(f, info);
        },
        Operator::End => {
            lemma_leak_target(f, Hazard::All);
            lemma_end_block(FactoryView { target: f.target.leak(Hazard::All), ..f });
        },
        Operator::Br { relative_depth } => {
            lemma_add_br(f, to_index(relative_depth));
        },
        Operator::BrIf { relative_depth } => {
            lemma_add_br_if(f, to_index(relative_depth));
        },
        Operator::BrTable { targets, default } => {
            lemma_add_br_table(f, targets@, default);
        },
        Operator::Return => {
            lemma_add_return(f);
        },
        Operator::Call { function_index } => {
            lemma_add_call(f, info, to_index(function_index));
        },
        Operator::CallIndirect { type_index, table_index } => {
            lemma_add_call_indirect(f, info, to_index(type_index), to_index(table_index));
        },
        Operator::Drop => {
            lemma_drop_top(t, labels);
            lemma_with_target(f, t.drop_top().unwrap());
        },
        Operator::Select => {
            lemma_push_select(t, labels);
            lemma_with_target(f, t.push_select().unwrap());
        },
        Operator::LocalGet { local_index } => {
            let e = Expression::GetLocal(Local { var: to_index(local_index) });
            lemma_push(t, e, labels);
            lemma_with_target(f, t.push(e).unwrap());
        },
        Operator::LocalSet { local_index } => {
            lemma_set_local(t, to_index(local_index), labels);
            lemma_with_target(f, t.set_local(to_index(local_index)).unwrap());
        },
        Operator::LocalTee { local_index } => {
            lemma_tee_local(t, to_index(local_index), labels);
            lemma_with_target(f, t.tee_local(to_index(local_index)).unwrap());
        },
        Operator::GlobalGet { global_index } => {
            let e = Expression::GetGlobal(GetGlobal { var: to_index(global_index) });
            lemma_push(t, e, labels);
            lemma_with_target(f, t.push(e).unwrap());
        },
        Operator::GlobalSet { global_index } => {
            lemma_set_global(t, to_index(global_index), labels);
            lemma_with_target(f, t.set_global(to_index(global_index)).unwrap());
        },
        Operator::Load { load_type, memarg } => {
            lemma_push_load(t, load_type, memarg, labels);
            lemma_with_target(f, t.push_load(load_type, memarg).unwrap());
        },
        Operator::Store { store_type, memarg } => {
            lemma_add_store(t, store_type, memarg, labels);
            lemma_with_target(f, t.add_store(store_type, memarg).unwrap());
        },
        Operator::MemorySize { mem } => {
            let e = Expression::MemorySize(MemorySize { memory: to_index(mem) });
            lemma_push(t, e, labels);
            lemma_with_target(f, t.push(e).unwrap());
        },
        Operator::MemoryGrow { mem } => {
            lemma_grow_memory(t, to_index(mem), labels);
            lemma_with_target(f, t.grow_memory(to_index(mem)).unwrap());
        },
        Operator::MemoryCopy { dst_mem, src_mem } => {
            lemma_copy_memory(t, to_index(dst_mem), to_index(src_mem), labels);
            lemma_with_target(f, t.copy_memory(to_index(dst_mem), to_index(src_mem)).unwrap());
        },
        Operator::MemoryFill { mem } => {
            lemma_fill_memory(t, to_index(mem), labels);
            lemma_with_target(f, t.fill_memory(to_index(mem)).unwrap());
        },
        Operator::I32Const { value } => {
            lemma_push_constant(t, Value::I32(value), labels);
            lemma_with_target(f, t.push_constant(Value::I32(value)).unwrap());
        },
        Operator::I64Const { value } => {
            lemma_push_constant(t, Value::I64(value), labels);
            lemma_with_target(f, t.push_constant(Value::I64(value)).unwrap());
        },
        Operator::F32Const { bits } => {
            lemma_push_constant(t, Value::F32(bits), labels);
            lemma_with_target(f, t.push_constant(Value::F32(bits)).unwrap());
        },
        Operator::F64Const { bits } => {
            lemma_push_constant(t, Value::F64(bits), labels);
            lemma_with_target(f, t.push_constant(Value::F64(bits)).unwrap());
        },
        Operator::Unsupported => {},
    }
}

/// A change of the depth of unreachable code keeps the lifter sound.
pub proof fn lemma_set_depth(f: FactoryView, depth: usize)
    requires
        inv(f),
    ensures
        inv(FactoryView { nested_unreachable: depth, ..f }),
{
    let g = FactoryView { nested_unreachable: depth, ..f };
    assert(flags(g) =~= flags(f));
}

/// Every unreachable operator keeps the lifter sound.
pub proof fn lemma_drop_unreachable(f: FactoryView, info: TypeInfoView, op: Operator)
    requires
        inv(f),
        f.drop_unreachable(info, op) is Some,
    ensures
        inv(f.drop_unreachable(info, op).unwrap()),
{
    reveal(FactoryView::drop_unreachable);
    match op {
        Operator::Block { .. } | Operator::Loop { .. } | Operator::If { .. } => {
            lemma_set_depth(f, (f.nested_unreachable + 1) as usize);
        },
        Operator::Else => {
            if f.nested_unreachable == 1 {
                lemma_set_depth(f, 0);
                lemma_start_else(FactoryView { nested_unreachable: 0, ..f }, info);
            }
        },
        Operator::End => {
            if f.nested_unreachable == 1 {
                lemma_set_depth(f, 0);
                lemma_end_block(FactoryView { nested_unreachable: 0, ..f });
            } else {
                lemma_set_depth(f, (f.nested_unreachable - 1) as usize);
            }
        },
        _ => {},
    }
}

/// Every run of operators keeps the lifter sound.
pub proof fn lemma_run(f: FactoryView, info: TypeInfoView, list: Seq<Operator>)
    requires
        inv(f),
        f.run(info, list) is Some,
    ensures
        inv(f.run(info, list).unwrap()),
    decreases list.len(),
{
    if list.len() > 0 {
        lemma_run(f, info, list.drop_last());
        let g = f.run(info, list.drop_last()).unwrap();
        if g.nested_unreachable == 0 {
            lemma_add_instruction(g, info, list.last());
        } else {
            lemma_drop_unreachable(g, info, list.last());
        }
    }
}

/// In the statements of a lifted function body, every temporary is below
/// the count of temporaries of the body, and every branch out of `k`
/// blocks stands inside more than `k` blocks, of which the one that it
/// leads to has a label.
pub proof fn lemma_lift_sound(info: TypeInfoView, list: Seq<Operator>, num_result: usize)
    requires
        lift(info, list, num_result) is Some,
    ensures
        block_sound(
            lift(info, list, num_result).unwrap().to_block(),
            lift(info, list, num_result).unwrap().stack.capacity as int,
            Seq::empty(),
        ),
{
    let start = FactoryView::start(num_result);
    assert(flags(start) =~= seq![false]);
    assert(inv(start));
    lemma_run(start, info, list.drop_last());
    let f = start.run(info, list.drop_last()).unwrap();
    let data = lift(info, list, num_result).unwrap();
    if f.nested_unreachable == 0 {
        lemma_leak(f.target, Hazard::All, flags(f));
    }
    assert(own_inv(data, flags(f)));
    assert(flags(f) =~= Seq::<bool>::empty().push(data.has_reference));
}

/// A function that was lifted from a body without a name is sound: its
/// temporaries are all below `num_stack`, and its branches all lead to
/// blocks with labels.
pub proof fn lemma_lift_anonymous_sound(info: TypeInfoView, list: Seq<Operator>)
    requires
        lift_anonymous(info, list) is Some,
    ensures
        block_sound(
            lift_anonymous(info, list).unwrap().code,
            lift_anonymous(info, list).unwrap().num_stack as int,
            Seq::empty(),
        ),
{
    lemma_lift_sound(info, list, 1);
}

/// A function that was lifted by its index is sound: its temporaries are
/// all below `num_stack`, and its branches all lead to blocks with
/// labels.
pub proof fn lemma_lift_indexed_sound(info: TypeInfoView, index: usize, list: Seq<Operator>, local_data: Seq<ValType>)
    requires
        lift_indexed(info, index, list, local_data) is Some,
    ensures
        block_sound(
            lift_indexed(info, index, list, local_data).unwrap().code,
            lift_indexed(info, index, list, local_data).unwrap().num_stack as int,
            Seq::empty(),
        ),
{
    let sig = info.by_func_index(index as int).unwrap();
    lemma_lift_sound(info, list, sig.1);
}


/// Whether none of the `upto` lowest pending values of `l` reads what `h`
/// changes.
pub open spec fn quiet(l: StatListView, h: Hazard, upto: int) -> bool {
    forall|i: int| 0 <= i < upto && i < l.stack.var_list.len() ==> !reads(#[trigger] l.stack.var_list[i], h)
}

/// After evaluating for `h`, no pending value reads what `h` changes, and
/// whatever no pending value read before, none reads now.
pub proof fn lemma_leak_quiet(l: StatListView, h: Hazard, other: Hazard)
    requires
        l.wf(),
    ensures
        l.leak(h).wf(),
        quiet(l.leak(h), h, l.leak(h).stack.var_list.len() as int),
        quiet(l, other, l.stack.var_list.len() as int) ==> quiet(
            l.leak(h),
            other,
            l.leak(h).stack.var_list.len() as int,
        ),
{
    l.stack.lemma_leak_sound(l.code, h);
    l.stack.lemma_leak_from(l.code, h, 0);
    let r = l.leak(h);
    if quiet(l, other, l.stack.var_list.len() as int) {
        assert forall|i: int| 0 <= i < r.stack.var_list.len() implies !reads(
            #[trigger] r.stack.var_list[i],
            other,
        ) by {
            if r.stack.var_list[i] == l.stack.var_list[i] {
            }
        }
    }
}

/// Spill soundness for locals: where a write to a local is appended, no
/// value that was pending before reads that local.
pub proof fn lemma_local_write_sound(l: StatListView, var: usize)
    requires
        l.wf(),
    ensures
        l.set_local(var) matches Some(r) ==> quiet(r, Hazard::Local(var), r.stack.var_list.len() as int),
        l.tee_local(var) matches Some(r) ==> quiet(r, Hazard::Local(var), r.stack.var_list.len() - 1),
{
    if l.pop() is Some {
        let popped = l.pop().unwrap().1;
        lemma_leak_quiet(popped, Hazard::Local(var), Hazard::All);
        let leaked = popped.leak(Hazard::Local(var));
        if l.tee_local(var) is Some {
            let r = l.tee_local(var).unwrap();
            assert forall|i: int| 0 <= i < r.stack.var_list.len() - 1 implies !reads(
                #[trigger] r.stack.var_list[i],
                Hazard::Local(var),
            ) by {
                assert(r.stack.var_list[i] == leaked.stack.var_list[i]);
            }
        }
    }
}

/// Spill soundness for globals: where a write to a global is appended, no
/// pending value reads that global.
pub proof fn lemma_global_write_sound(l: StatListView, var: usize)
    requires
        l.wf(),
    ensures
        l.set_global(var) matches Some(r) ==> quiet(r, Hazard::Global(var), r.stack.var_list.len() as int),
{
    if l.pop() is Some {
        lemma_leak_quiet(l.pop().unwrap().1, Hazard::Global(var), Hazard::All);
    }
}

/// Spill soundness for memories: where a store to a memory, its growth,
/// a fill or a copy is appended, no pending value loads from a memory
/// that is written.
pub proof fn lemma_memory_write_sound(l: StatListView, store_type: StoreType, memarg: MemArg, memory: usize, other: usize)
    requires
        l.wf(),
    ensures
        l.add_store(store_type, memarg) matches Some(r) ==> quiet(
            r,
            Hazard::Memory(memarg.memory as usize),
            r.stack.var_list.len() as int,
        ),
        l.grow_memory(memory) matches Some(r) ==> quiet(r, Hazard::Memory(memory), r.stack.var_list.len() as int),
        l.fill_memory(memory) matches Some(r) ==> quiet(r, Hazard::Memory(memory), r.stack.var_list.len() as int),
        l.copy_memory(memory, other) matches Some(r) ==> quiet(
            r,
            Hazard::Memory(memory),
            r.stack.var_list.len() as int,
        ) && quiet(r, Hazard::Memory(other), r.stack.var_list.len() as int),
{
    if l.add_store(store_type, memarg) is Some {
        let a = l.pop().unwrap().1;
        let b = a.pop().unwrap().1;
        lemma_leak_quiet(b, Hazard::Memory(memarg.memory as usize), Hazard::All);
    }
    if l.grow_memory(memory) is Some {
        let a = l.pop().unwrap().1;
        let pushed = StatListView { stack: a.stack.push_temporaries(1).unwrap().1, ..a };
        lemma_leak_quiet(pushed, Hazard::Memory(memory), Hazard::All);
    }
    if l.fill_memory(memory) is Some {
        let a = l.pop().unwrap().1;
        let b = a.pop().unwrap().1;
        let c = b.pop().unwrap().1;
        lemma_leak_quiet(c, Hazard::Memory(memory), Hazard::All);
    }
    if l.copy_memory(memory, other) is Some {
        let a = l.pop().unwrap().1;
        let b = a.pop().unwrap().1;
        let c = b.pop().unwrap().1;
        lemma_leak_quiet(c, Hazard::Memory(other), Hazard::All);
        lemma_leak_quiet(c.leak(Hazard::Memory(other)), Hazard::Memory(memory), Hazard::Memory(other));
    }
}

/// Spill soundness for calls: where a call is appended, no pending value
/// reads a global or loads from a memory.
pub proof fn lemma_call_sound(l: StatListView, callee: usize, num_param: usize, num_result: usize)
    requires
        l.wf(),
    ensures
        l.call(callee, num_param, num_result) matches Some(r) ==> quiet(
            r,
            Hazard::Call,
            r.stack.var_list.len() as int,
        ),
        l.call_indirect(callee, num_param, num_result) matches Some(r) ==> quiet(
            r,
            Hazard::Call,
            r.stack.var_list.len() as int,
        ),
{
    if l.call(callee, num_param, num_result) is Some {
        let popped = StatListView { stack: l.stack.pop_len(num_param as int).unwrap().1, ..l };
        lemma_leak_quiet(popped, Hazard::Call, Hazard::All);
        let leaked = popped.leak(Hazard::Call);
        let r = l.call(callee, num_param, num_result).unwrap();
        assert forall|i: int| 0 <= i < r.stack.var_list.len() implies !reads(
            #[trigger] r.stack.var_list[i],
            Hazard::Call,
        ) by {
            if i < leaked.stack.var_list.len() {
                assert(r.stack.var_list[i] == leaked.stack.var_list[i]);
            } else {
                assert(r.stack.var_list[i] == temporaries(leaked.stack.top(), num_result as int)[i
                    - leaked.stack.var_list.len()]);
            }
        }
    }
    if l.call_indirect(callee, num_param, num_result) is Some {
        let index = l.pop().unwrap().1;
        let popped = StatListView { stack: index.stack.pop_len(num_param as int).unwrap().1, ..index };
        lemma_leak_quiet(popped, Hazard::Call, Hazard::All);
        let leaked = popped.leak(Hazard::Call);
        let r = l.call_indirect(callee, num_param, num_result).unwrap();
        assert forall|i: int| 0 <= i < r.stack.var_list.len() implies !reads(
            #[trigger] r.stack.var_list[i],
            Hazard::Call,
        ) by {
            if i < leaked.stack.var_list.len() {
                assert(r.stack.var_list[i] == leaked.stack.var_list[i]);
            } else {
                assert(r.stack.var_list[i] == temporaries(leaked.stack.top(), num_result as int)[i
                    - leaked.stack.var_list.len()]);
            }
        }
    }
}

/// Spill soundness at the joins of control flow: where a block is
/// opened or closed, or a branch or terminator is appended, every pending
/// value has been stored in the temporary of its slot.
pub proof fn lemma_join_sound(l: StatListView)
    requires
        l.wf(),
    ensures
        l.leak(Hazard::All).stack.var_list == temporaries(
            l.stack.previous as int,
            l.stack.var_list.len() as int,
        ),
{
    l.stack.lemma_leak_sound(l.code, Hazard::All);
}


/// What a store leaves: the two topmost values are gone, the values
/// below that do not load from the memory are still pending, the
/// statements from before are still there, and the store is the last
/// statement.
pub proof fn lemma_add_store_shape(l: StatListView, store_type: StoreType, memarg: MemArg)
    requires
        l.wf(),
    ensures
        l.add_store(store_type, memarg) matches Some(r) ==> {
            &&& r.stack.var_list.len() + 2 == l.stack.var_list.len()
            &&& forall|j: int|
                0 <= j < r.stack.var_list.len() && !reads(
                    l.stack.var_list[j],
                    Hazard::Memory(memarg.memory as usize),
                ) ==> #[trigger] r.stack.var_list[j] == l.stack.var_list[j]
            &&& r.code.len() > l.code.len()
            &&& r.code.subrange(0, l.code.len() as int) == l.code
            &&& r.code.last() == super::factory::store_at(
                store_type,
                memarg.memory as usize,
                memarg.offset as usize,
                l.stack.var_list[l.stack.var_list.len() - 2],
                l.stack.var_list[l.stack.var_list.len() - 1],
            )
        },
{
    if l.add_store(store_type, memarg) is Some {
        let value = l.pop().unwrap();
        let pointer = value.1.pop().unwrap();
        let h = Hazard::Memory(memarg.memory as usize);
        let rest = pointer.1;
        rest.stack.lemma_leak_from(rest.code, h, 0);
        let leaked = rest.leak(h);
        let r = l.add_store(store_type, memarg).unwrap();
        assert(r.stack == leaked.stack);
        assert(r.code == leaked.code.push(r.code.last()));
        assert(r.code.subrange(0, l.code.len() as int) =~= leaked.code.subrange(0, l.code.len() as int));
        assert forall|j: int|
            0 <= j < r.stack.var_list.len() && !reads(l.stack.var_list[j], h) implies #[trigger] r.stack.var_list[j]
            == l.stack.var_list[j] by {
            assert(rest.stack.var_list[j] == l.stack.var_list[j]);
            assert(!rest.stack.leaks(h, j));
        }
    }
}

} // verus!
