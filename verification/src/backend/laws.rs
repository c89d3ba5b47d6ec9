//! A sound function can be printed, unless it is nested deeper or holds
//! more branch tables than the machine can count.

use vstd::prelude::*;

use crate::ast::laws::{block_sound, br_sound, code_sound, statement_sound, terminator_sound};
use crate::ast::node::{BlockView, Br, FuncDataView, StatementView, TerminatorView};
use crate::backend::manager::{
    block_tables, code_tables, function_state, ManagerView,
};
use crate::backend::statement::{
    block_ok, br_ok, br_parent_ok, code_ok, function_ok, lemma_ordered_table, ordered_table, search_ok,
    statement_ok, table_setup_ok, terminator_ok,
};

verus! {

/// For each enclosing block of a state, outermost first, whether it has
/// a label.
pub open spec fn has_labels(m: ManagerView) -> Seq<bool> {
    Seq::new(m.labels.len(), |i: int| m.labels[i] is Some)
}

/// Whether the count of tabs stays a machine integer while the search
/// among `hi - lo` branches is printed.
pub open spec fn search_fits(lo: int, hi: int, m: ManagerView) -> bool
    decreases hi - lo,
{
    if hi - lo <= 1 {
        true
    } else {
        let center = lo + (hi - lo) / 2;
        &&& m.indentation < usize::MAX
        &&& search_fits(lo, center, m.indent())
        &&& hi != center + 1 ==> search_fits(center + 1, hi, m.indent())
    }
}

pub open spec fn terminator_fits(t: TerminatorView, m: ManagerView) -> bool {
    match t {
        TerminatorView::BrTable(table) => table.data.len() == 0 || (table_setup_ok(m) && search_fits(
            0,
            ordered_table(table.data.push(table.default)).len() as int,
            m.skip_tables(1),
        )),
        _ => true,
    }
}

/// Whether the counts of tabs and of dispatch tables stay machine
/// integers while a statement is printed in state `m`.
pub open spec fn statement_fits(s: StatementView, m: ManagerView) -> bool
    decreases s,
{
    match s {
        StatementView::Block(b) => block_fits(b, m),
        StatementView::BrIf(_) => m.indentation < usize::MAX,
        StatementView::If(s) => {
            &&& m.indentation < usize::MAX
            &&& block_fits(s.on_true, m.indent())
            &&& match s.on_false {
                Some(b) => block_fits(b, m.indent().skip_tables(block_tables(s.on_true))),
                None => true,
            }
        },
        _ => true,
    }
}

pub open spec fn block_fits(b: BlockView, m: ManagerView) -> bool
    decreases b,
{
    let inner = m.push_label(b.label_type).indent();
    &&& m.indentation < usize::MAX
    &&& code_fits(b.code, inner)
    &&& match b.last {
        Some(t) => terminator_fits(t, inner.skip_tables(code_tables(b.code))),
        None => true,
    }
    &&& br_parent_ok(m)
}

pub open spec fn code_fits(code: Seq<StatementView>, m: ManagerView) -> bool
    decreases code,
{
    if code.len() == 0 {
        true
    } else {
        code_fits(code.drop_last(), m) && statement_fits(
            code.last(),
            m.skip_tables(code_tables(code.drop_last())),
        )
    }
}

/// A sound branch can be printed inside the blocks it was lifted in.
pub proof fn lemma_br_printable(br: Br, cap: int, m: ManagerView)
    requires
        br_sound(br, cap, has_labels(m)),
        cap <= usize::MAX,
    ensures
        br_ok(br, m),
{
}

pub proof fn lemma_search_printable(list: Seq<Br>, lo: int, hi: int, cap: int, m: ManagerView)
    requires
        0 <= lo < hi <= list.len(),
        cap <= usize::MAX,
        search_fits(lo, hi, m),
        forall|i: int| lo <= i < hi ==> br_sound(#[trigger] list[i], cap, has_labels(m)),
    ensures
        search_ok(list, lo, hi, m),
    decreases hi - lo,
{
    if hi - lo <= 1 {
        lemma_br_printable(list[lo], cap, m);
    } else {
        let center = lo + (hi - lo) / 2;
        assert(has_labels(m.indent()) =~= has_labels(m));
        lemma_search_printable(list, lo, center, cap, m.indent());
        if hi != center + 1 {
            lemma_search_printable(list, center + 1, hi, cap, m.indent());
        }
        lemma_br_printable(list[center], cap, m.indent());
    }
}

pub proof fn lemma_terminator_printable(t: TerminatorView, cap: int, m: ManagerView)
    requires
        terminator_sound(t, cap, has_labels(m)),
        cap <= usize::MAX,
        terminator_fits(t, m),
    ensures
        terminator_ok(t, m),
{
    match t {
        TerminatorView::Unreachable => {},
        TerminatorView::Br(br) => {
            lemma_br_printable(br, cap, m);
        },
        TerminatorView::BrTable(table) => {
            if table.data.len() == 0 {
                lemma_br_printable(table.default, cap, m);
            } else {
                let all = table.data.push(table.default);
                let list = ordered_table(all);
                lemma_ordered_table(all);
                assert(has_labels(m.skip_tables(1)) =~= has_labels(m));
                assert forall|i: int| 0 <= i < list.len() implies br_sound(
                    #[trigger] list[i],
                    cap,
                    has_labels(m.skip_tables(1)),
                ) by {
                    assert(all.contains(list[i]));
                    let j = choose|j: int| 0 <= j < all.len() && all[j] == list[i];
                    if j < table.data.len() {
                        assert(all[j] == table.data[j]);
                    }
                }
                lemma_search_printable(list, 0, list.len() as int, cap, m.skip_tables(1));
            }
        },
    }
}

/// A sound statement can be printed in a state that has the labels it
/// was lifted with, if the counts of tabs and tables stay machine
/// integers.
pub proof fn lemma_statement_printable(s: StatementView, cap: int, m: ManagerView)
    requires
        statement_sound(s, cap, has_labels(m)),
        cap <= usize::MAX,
        statement_fits(s, m),
    ensures
        statement_ok(s, m),
    decreases s,
{
    match s {
        StatementView::Block(b) => {
            lemma_block_printable(b, cap, m);
        },
        StatementView::BrIf(s) => {
            assert(has_labels(m.indent()) =~= has_labels(m));
            lemma_br_printable(s.target, cap, m.indent());
        },
        StatementView::If(s) => {
            assert(has_labels(m.indent()) =~= has_labels(m));
            lemma_block_printable(s.on_true, cap, m.indent());
            match s.on_false {
                Some(b) => {
                    let next = m.indent().skip_tables(block_tables(s.on_true));
                    assert(has_labels(next) =~= has_labels(m));
                    lemma_block_printable(b, cap, next);
                },
                None => {},
            }
        },
        _ => {},
    }
}

pub proof fn lemma_block_printable(b: BlockView, cap: int, m: ManagerView)
    requires
        block_sound(b, cap, has_labels(m)),
        cap <= usize::MAX,
        block_fits(b, m),
    ensures
        block_ok(b, m),
    decreases b,
{
    let inner = m.push_label(b.label_type).indent();
    assert(has_labels(inner) =~= has_labels(m).push(b.label_type is Some));
    lemma_code_printable(b.code, cap, inner);
    match b.last {
        Some(t) => {
            let last = inner.skip_tables(code_tables(b.code));
            assert(has_labels(last) =~= has_labels(inner));
            lemma_terminator_printable(t, cap, last);
        },
        None => {},
    }
}

pub proof fn lemma_code_printable(code: Seq<StatementView>, cap: int, m: ManagerView)
    requires
        code_sound(code, cap, has_labels(m)),
        cap <= usize::MAX,
        code_fits(code, m),
    ensures
        code_ok(code, m),
    decreases code,
{
    if code.len() > 0 {
        lemma_code_printable(code.drop_last(), cap, m);
        let next = m.skip_tables(code_tables(code.drop_last()));
        assert(has_labels(next) =~= has_labels(m));
        lemma_statement_printable(code.last(), cap, next);
    }
}

/// A function whose body is sound, as every lifted function is, can be
/// printed on its own if the counts of tabs and tables stay machine
/// integers: no branch of it lacks a target.
pub proof fn lemma_function_printable(f: FuncDataView)
    requires
        block_sound(f.code, f.num_stack as int, Seq::empty()),
        block_fits(f.code, function_state(f).indent()),
    ensures
        function_ok(f, function_state(f)),
{
    let m = function_state(f).indent();
    assert(has_labels(m) =~= Seq::<bool>::empty());
    lemma_block_printable(f.code, f.num_stack as int, m);
}

} // verus!
