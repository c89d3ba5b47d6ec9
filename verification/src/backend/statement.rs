//! The text of statements, terminators, blocks and functions.

use vstd::prelude::*;
use vstd::string::*;

use crate::ast::node::{
    block_view, code_view, lemma_code_view, statement_view, terminator_view, Block, BlockView, Br, BrIf,
    BrTable, BrTableView, Call, CallIndirect, CallIndirectView, CallView, FuncData, FuncDataView, If,
    IfView, LabelType, MemoryCopy, MemoryFill, MemoryGrow, ResultList, SetGlobal, SetLocal, SetTemporary,
    Statement, StatementView, StoreAt, Terminator, TerminatorView,
};
use crate::ast::operator::ValType;
use crate::backend::expression::{
    condition_out, expression_out, list_out, local_out, offset_out, results_out, temporary_out,
    write_condition, write_expression, write_list, write_local, write_offset, write_temporary,
};
use crate::backend::manager::{
    block_tables, code_tables, statement_tables, terminator_tables, Manager, ManagerView,
};
use crate::text::{decimal, line_out, push_index, push_line, push_tabs, tabs};

verus! {

/// Whether a branch can be printed in state `m`: a branch out of more
/// than one block needs its target among the enclosing blocks, and a
/// branch that moves values needs the ends of both ranges to be machine
/// integers.
pub open spec fn br_ok(br: Br, m: ManagerView) -> bool {
    &&& br.align.aligned() || br.align.in_bounds()
    &&& br.target == 0 || br.target < m.labels.len()
}

/// `w` followed by the text of a branch: the move of the values it
/// carries, if there is one, and then `continue` or `break` for the
/// innermost block, or the number of the target block in `desired` and
/// `break`.
pub open spec fn br_out(w: Seq<char>, br: Br, m: ManagerView) -> Seq<char> {
    let w = if br.align.aligned() {
        w
    } else {
        let w = results_out(
            w + tabs(m.indentation as nat),
            br.align.new as int,
            br.align.new + br.align.length,
            m,
        );
        results_out(w + " = "@, br.align.old as int, br.align.old + br.align.length, m) + "\n"@
    };
    if br.target == 0 {
        if m.labels.len() > 0 && m.labels.last() == Some(LabelType::Backward) {
            line_out(w, m.indentation as nat, "continue"@)
        } else {
            line_out(w, m.indentation as nat, "break"@)
        }
    } else {
        let w = w + tabs(m.indentation as nat) + "desired = "@ + decimal(
            (m.labels.len() - 1 - br.target) as nat,
        ) + "\n"@;
        line_out(w, m.indentation as nat, "break"@)
    }
}

/// The table with `br` put in its place by target, unless the table
/// already holds a branch to that target. The table is read from its end.
pub open spec fn insert_target(list: Seq<Br>, br: Br) -> Seq<Br>
    decreases list.len(),
{
    if list.len() == 0 {
        seq![br]
    } else if list.last().target < br.target {
        list.push(br)
    } else if list.last().target == br.target {
        list
    } else {
        insert_target(list.drop_last(), br).push(list.last())
    }
}

/// The branches of `data` in the order of their targets, with the first
/// of `data` for each target.
pub open spec fn ordered_table(data: Seq<Br>) -> Seq<Br>
    decreases data.len(),
{
    if data.len() == 0 {
        Seq::empty()
    } else {
        insert_target(ordered_table(data.drop_last()), data.last())
    }
}

/// Whether the targets of `list` ascend strictly.
pub open spec fn ascending(list: Seq<Br>) -> bool {
    forall|i: int, j: int| 0 <= i < j < list.len() ==> list[i].target < list[j].target
}

/// Whether `list` holds a branch to `target`.
pub open spec fn has_target(list: Seq<Br>, target: usize) -> bool {
    exists|i: int| 0 <= i < list.len() && (#[trigger] list[i]).target == target
}

/// Where `br` belongs in a table: `i` is the position behind the
/// branches with smaller or equal targets.
pub proof fn lemma_insert_target(list: Seq<Br>, br: Br, i: int)
    requires
        0 <= i <= list.len(),
        forall|j: int| i <= j < list.len() ==> list[j].target > br.target,
        i > 0 ==> list[i - 1].target <= br.target,
    ensures
        insert_target(list, br) == if i > 0 && list[i - 1].target == br.target {
            list
        } else {
            list.insert(i, br)
        },
    decreases list.len() - i,
{
    if list.len() == 0 {
        assert(list.insert(0, br) =~= seq![br]);
    } else if i == list.len() {
        if list.last().target < br.target {
            assert(list.insert(i, br) =~= list.push(br));
        }
    } else {
        lemma_insert_target(list.drop_last(), br, i);
        if i > 0 && list[i - 1].target == br.target {
            assert(list.drop_last().push(list.last()) =~= list);
        } else {
            assert(list.drop_last().insert(i, br).push(list.last()) =~= list.insert(i, br));
        }
    }
}

/// Putting a branch into an ascending table keeps it ascending, keeps
/// what it held, and adds exactly the target of the branch.
pub proof fn lemma_insert_ascending(list: Seq<Br>, br: Br)
    requires
        ascending(list),
    ensures
        ascending(insert_target(list, br)),
        has_target(insert_target(list, br), br.target),
        forall|t: usize| has_target(list, t) ==> has_target(insert_target(list, br), t),
        forall|t: usize| has_target(insert_target(list, br), t) ==> has_target(list, t) || t == br.target,
        forall|i: int|
            0 <= i < insert_target(list, br).len() ==> (#[trigger] insert_target(list, br)[i]) == br
                || list.contains(insert_target(list, br)[i]),
        !has_target(list, br.target) ==> insert_target(list, br).contains(br),
        forall|i: int| 0 <= i < list.len() ==> insert_target(list, br).contains(#[trigger] list[i]),
    decreases list.len(),
{
    let r = insert_target(list, br);
    if list.len() == 0 {
        assert(r[0].target == br.target);
        assert(r[0] == br);
    } else if list.last().target < br.target {
        assert(r[r.len() - 1].target == br.target);
        assert(r.last() == br);
        assert forall|t: usize| has_target(list, t) implies has_target(r, t) by {
            let i = choose|i: int| 0 <= i < list.len() && (#[trigger] list[i]).target == t;
            assert(r[i].target == t);
        }
        assert forall|t: usize| has_target(r, t) implies has_target(list, t) || t == br.target by {
            let i = choose|i: int| 0 <= i < r.len() && (#[trigger] r[i]).target == t;
            if i < list.len() {
                assert(list[i].target == t);
            }
        }
        assert forall|i: int| 0 <= i < r.len() implies (#[trigger] r[i]) == br || list.contains(r[i]) by {
            if i < list.len() {
                assert(list[i] == r[i]);
            }
        }
        assert forall|i: int| 0 <= i < list.len() implies r.contains(#[trigger] list[i]) by {
            assert(r[i] == list[i]);
        }
    } else if list.last().target == br.target {
        assert(list[list.len() - 1].target == br.target);
        assert forall|i: int| 0 <= i < r.len() implies (#[trigger] r[i]) == br || list.contains(r[i]) by {
            assert(list[i] == r[i]);
        }
        assert forall|i: int| 0 <= i < list.len() implies r.contains(#[trigger] list[i]) by {
            assert(r[i] == list[i]);
        }
    } else {
        let rest = list.drop_last();
        let inner = insert_target(rest, br);
        assert forall|i: int, j: int| 0 <= i < j < rest.len() implies rest[i].target < rest[j].target by {
            assert(rest[i] == list[i] && rest[j] == list[j]);
        }
        lemma_insert_ascending(rest, br);
        assert forall|i: int, j: int| 0 <= i < j < r.len() implies r[i].target < r[j].target by {
            if j == r.len() - 1 {
                assert(r[i] == inner[i]);
                assert(has_target(inner, inner[i].target));
                if has_target(rest, inner[i].target) {
                    let k = choose|k: int| 0 <= k < rest.len() && (#[trigger] rest[k]).target == inner[i].target;
                    assert(list[k].target < list[list.len() - 1].target);
                }
            } else {
                assert(r[i] == inner[i] && r[j] == inner[j]);
            }
        }
        let k = choose|k: int| 0 <= k < inner.len() && (#[trigger] inner[k]).target == br.target;
        assert(r[k].target == br.target);
        assert forall|t: usize| has_target(list, t) implies has_target(r, t) by {
            let i = choose|i: int| 0 <= i < list.len() && (#[trigger] list[i]).target == t;
            if i < rest.len() {
                assert(rest[i].target == t);
                assert(has_target(rest, t));
                let j = choose|j: int| 0 <= j < inner.len() && (#[trigger] inner[j]).target == t;
                assert(r[j].target == t);
            } else {
                assert(r[r.len() - 1].target == t);
            }
        }
        assert forall|t: usize| has_target(r, t) implies has_target(list, t) || t == br.target by {
            let i = choose|i: int| 0 <= i < r.len() && (#[trigger] r[i]).target == t;
            if i < inner.len() {
                assert(inner[i].target == t);
                assert(has_target(inner, t));
                if has_target(rest, t) {
                    let j = choose|j: int| 0 <= j < rest.len() && (#[trigger] rest[j]).target == t;
                    assert(list[j].target == t);
                }
            } else {
                assert(list[list.len() - 1].target == t);
            }
        }
        assert forall|i: int| 0 <= i < r.len() implies (#[trigger] r[i]) == br || list.contains(r[i]) by {
            if i < inner.len() {
                assert(r[i] == inner[i]);
                if inner[i] != br {
                    assert(rest.contains(inner[i]));
                    let j = choose|j: int| 0 <= j < rest.len() && rest[j] == inner[i];
                    assert(list[j] == inner[i]);
                }
            } else {
                assert(r[i] == list[list.len() - 1]);
            }
        }
        if !has_target(list, br.target) {
            assert forall|j: int| 0 <= j < rest.len() implies (#[trigger] rest[j]).target != br.target by {
                assert(list[j].target != br.target);
            }
            assert(inner.contains(br));
            let j = choose|j: int| 0 <= j < inner.len() && inner[j] == br;
            assert(r[j] == br);
        }
        assert forall|i: int| 0 <= i < list.len() implies r.contains(#[trigger] list[i]) by {
            if i < rest.len() {
                assert(rest[i] == list[i]);
                assert(inner.contains(rest[i]));
                let j = choose|j: int| 0 <= j < inner.len() && inner[j] == rest[i];
                assert(r[j] == list[i]);
            } else {
                assert(r[r.len() - 1] == list[i]);
            }
        }
    }
}

/// The table that is searched holds exactly the distinct targets of the
/// branches it was made from, in strictly ascending order, and each of
/// its branches is one of them.
pub proof fn lemma_ordered_table(data: Seq<Br>)
    ensures
        ascending(ordered_table(data)),
        forall|t: usize| has_target(data, t) <==> has_target(ordered_table(data), t),
        forall|i: int| 0 <= i < ordered_table(data).len() ==> data.contains(#[trigger] ordered_table(data)[i]),
        data.len() > 0 ==> ordered_table(data).len() > 0,
        ordered_table(data).len() <= data.len(),
    decreases data.len(),
{
    if data.len() > 0 {
        let rest = data.drop_last();
        let inner = ordered_table(rest);
        let r = ordered_table(data);
        lemma_ordered_table(rest);
        lemma_insert_ascending(inner, data.last());
        lemma_insert_len(inner, data.last());
        assert forall|t: usize| has_target(data, t) implies has_target(r, t) by {
            let i = choose|i: int| 0 <= i < data.len() && (#[trigger] data[i]).target == t;
            if i < rest.len() {
                assert(rest[i].target == t);
                assert(has_target(rest, t));
            }
        }
        assert forall|t: usize| has_target(r, t) implies has_target(data, t) by {
            if has_target(inner, t) {
                assert(has_target(rest, t));
                let i = choose|i: int| 0 <= i < rest.len() && (#[trigger] rest[i]).target == t;
                assert(data[i].target == t);
            } else {
                assert(data[data.len() - 1].target == t);
            }
        }
        assert forall|i: int| 0 <= i < r.len() implies data.contains(#[trigger] r[i]) by {
            if r[i] == data.last() {
                assert(data[data.len() - 1] == r[i]);
            } else {
                assert(inner.contains(r[i]));
                let j = choose|j: int| 0 <= j < inner.len() && inner[j] == r[i];
                assert(rest.contains(inner[j]));
                let k = choose|k: int| 0 <= k < rest.len() && rest[k] == inner[j];
                assert(data[k] == r[i]);
            }
        }
    }
}

/// Putting a branch into a table adds at most one branch and removes
/// none.
pub proof fn lemma_insert_len(list: Seq<Br>, br: Br)
    ensures
        list.len() <= insert_target(list, br).len() <= list.len() + 1,
        insert_target(list, br).len() > 0,
    decreases list.len(),
{
    if list.len() > 0 && list.last().target > br.target {
        lemma_insert_len(list.drop_last(), br);
    }
}

/// Puts `br` in its place in `data`, unless `data` holds a branch to the
/// same target.
fn put_target(data: &mut Vec<Br>, br: Br)
    ensures
        final(data)@ == insert_target(old(data)@, br),
{
    let mut i = data.len();
    while i > 0 && data[i - 1].target > br.target
        invariant
            i <= data.len(),
            data@ == old(data)@,
            forall|j: int| i <= j < data.len() ==> data[j].target > br.target,
        decreases i,
    {
        i -= 1;
    }
    proof {
        lemma_insert_target(data@, br, i as int);
    }
    if i > 0 && data[i - 1].target == br.target {
        return ;
    }
    data.insert(i, br);
}

/// The branches of `list` and `default` in the order of their targets,
/// with one branch for each target: the first among `list` and then
/// `default`.
pub fn to_ordered_table(list: &[Br], default: Br) -> (table: Vec<Br>)
    ensures
        table@ == ordered_table(list@.push(default)),
        ascending(table@),
        forall|t: usize| has_target(list@.push(default), t) <==> has_target(table@, t),
        0 < table.len() <= list.len() + 1,
{
    let mut data: Vec<Br> = Vec::new();
    let mut i: usize = 0;
    assert(list@.take(0) =~= Seq::empty());
    while i < list.len()
        invariant
            i <= list.len(),
            data@ == ordered_table(list@.take(i as int)),
        decreases list.len() - i,
    {
        put_target(&mut data, list[i]);
        assert(list@.take(i + 1).drop_last() =~= list@.take(i as int));
        assert(list@.take(i + 1).last() == list@[i as int]);
        i += 1;
    }
    assert(list@.take(i as int) =~= list@);
    put_target(&mut data, default);
    assert(list@.push(default).drop_last() =~= list@);
    proof {
        lemma_ordered_table(list@.push(default));
    }
    data
}

impl Br {
    /// Appends the text of the branch.
    pub fn write(&self, mng: &Manager, w: &mut String) -> (ok: bool)
        ensures
            ok == br_ok(*self, mng@),
            ok ==> final(w)@ == br_out(old(w)@, *self, mng@),
    {
        if !self.align.is_aligned() {
            if self.align.length > usize::MAX - self.align.new || self.align.length > usize::MAX
                - self.align.old {
                return false;
            }
            push_tabs(w, mng.indentation);
            self.align.new_range().write(mng, w);
            w.append(" = ");
            self.align.old_range().write(mng, w);
            w.append("\n");
        }
        if self.target == 0 {
            let n = mng.label_list.len();
            let backward = n > 0 && match mng.label_list[n - 1] {
                Some(LabelType::Backward) => true,
                _ => false,
            };
            if backward {
                push_line(w, mng.indentation, "continue");
            } else {
                push_line(w, mng.indentation, "break");
            }
            true
        } else {
            if self.target >= mng.label_list.len() {
                return false;
            }
            let level = mng.label_list.len() - 1 - self.target;
            push_tabs(w, mng.indentation);
            w.append("desired = ");
            push_index(w, level);
            w.append("\n");
            push_line(w, mng.indentation, "break");
            true
        }
    }
}


/// Whether the search for the branch among `list[lo..hi]` can be printed.
pub open spec fn search_ok(list: Seq<Br>, lo: int, hi: int, m: ManagerView) -> bool
    decreases hi - lo,
{
    if hi - lo <= 1 {
        br_ok(list[lo], m)
    } else {
        let center = lo + (hi - lo) / 2;
        &&& m.indentation < usize::MAX
        &&& search_ok(list, lo, center, m.indent())
        &&& hi != center + 1 ==> search_ok(list, center + 1, hi, m.indent())
        &&& br_ok(list[center], m.indent())
    }
}

/// `w` followed by the binary search for the branch whose target is in
/// `temp`, among `list[lo..hi]`: a single branch is printed as it is;
/// otherwise the branch in the middle splits the range into the branches
/// with smaller targets, those with larger targets, and itself.
pub open spec fn search_out(w: Seq<char>, list: Seq<Br>, lo: int, hi: int, m: ManagerView) -> Seq<char>
    decreases hi - lo,
{
    if hi - lo <= 1 {
        br_out(w, list[lo], m)
    } else {
        let center = lo + (hi - lo) / 2;
        let br = list[center];
        let w = w + tabs(m.indentation as nat) + "if temp < "@ + decimal(br.target as nat) + " then\n"@;
        let w = search_out(w, list, lo, center, m.indent());
        let w = w + tabs(m.indentation as nat) + "else"@;
        let w = if hi != center + 1 {
            let w = w + "if temp > "@ + decimal(br.target as nat) + " then\n"@;
            let w = search_out(w, list, center + 1, hi, m.indent());
            w + tabs(m.indentation as nat) + "else"@
        } else {
            w
        };
        let w = br_out(w + "\n"@, br, m.indent());
        line_out(w, m.indentation as nat, "end"@)
    }
}

/// Appends the binary search for the branch whose target is in `temp`,
/// among the branches of `list` in `range`.
pub fn write_search_layer(range: core::ops::Range<usize>, list: &Vec<Br>, mng: &mut Manager, w: &mut String) -> (ok: bool)
    requires
        range.start < range.end <= list.len(),
    ensures
        ok == search_ok(list@, range.start as int, range.end as int, old(mng)@),
        ok ==> final(w)@ == search_out(old(w)@, list@, range.start as int, range.end as int, old(mng)@),
        ok ==> final(mng)@ == old(mng)@,
    decreases range.end - range.start,
{
    let lo = range.start;
    let hi = range.end;
    if hi - lo == 1 {
        return list[lo].write(mng, w);
    }
    let center = lo + (hi - lo) / 2;
    let br = list[center];
    if lo != center {
        push_tabs(w, mng.indentation);
        w.append("if temp < ");
        push_index(w, br.target);
        w.append(" then\n");
        if !mng.indent() {
            return false;
        }
        if !write_search_layer(lo..center, list, mng, w) {
            return false;
        }
        mng.dedent();
        push_tabs(w, mng.indentation);
        w.append("else");
    }
    if hi != center + 1 {
        w.append("if temp > ");
        push_index(w, br.target);
        w.append(" then\n");
        if !mng.indent() {
            return false;
        }
        if !write_search_layer(center + 1..hi, list, mng, w) {
            return false;
        }
        mng.dedent();
        push_tabs(w, mng.indentation);
        w.append("else");
    }
    w.append("\n");
    if !mng.indent() {
        return false;
    }
    if !br.write(mng, w) {
        return false;
    }
    mng.dedent();
    push_line(w, mng.indentation, "end");
    true
}

/// `w` followed by the targets of `data`, each with a comma behind it.
pub open spec fn targets_out(w: Seq<char>, data: Seq<Br>) -> Seq<char>
    decreases data.len(),
{
    if data.len() == 0 {
        w
    } else {
        targets_out(w, data.drop_last()) + decimal(data.last().target as nat) + ", "@
    }
}

/// Whether the set-up of a dispatch table can be printed.
pub open spec fn table_setup_ok(m: ManagerView) -> bool {
    m.table_next < usize::MAX && m.indentation + 2 <= usize::MAX
}

/// `w` followed by the set-up of dispatch table `m.table_next`: on first
/// use the table is built, with the target for each index from 0 on;
/// then `temp` gets the target for the value of the condition, or the
/// default target where the table has none.
pub open spec fn table_setup_out(w: Seq<char>, table: BrTableView, m: ManagerView) -> Seq<char> {
    let id = decimal(m.table_next as nat);
    let ind = m.indentation as nat;
    let w = w + tabs(ind) + "if not br_map["@ + id + "] then\n"@;
    let w = w + tabs(ind + 1) + "br_map["@ + id + "] = (function()\n"@;
    let w = targets_out(w + tabs(ind + 2) + "return { [0] = "@, table.data) + "}\n"@;
    let w = line_out(w, ind + 1, "end)()"@);
    let w = line_out(w, ind, "end"@);
    let w = expression_out(w + tabs(ind) + "temp = br_map["@ + id + "]["@, table.condition, m.skip_tables(1));
    w + "] or "@ + decimal(table.default.target as nat) + "\n"@
}

/// The view of a branch table.
pub open spec fn table_view(table: BrTable) -> BrTableView {
    BrTableView { condition: *table.condition, data: table.data@, default: table.default }
}

/// Appends the set-up of the next dispatch table.
pub fn write_table_setup(table: &BrTable, mng: &mut Manager, w: &mut String) -> (ok: bool)
    ensures
        ok == table_setup_ok(old(mng)@),
        ok ==> final(w)@ == table_setup_out(old(w)@, table_view(*table), old(mng)@),
        ok ==> final(mng)@ == old(mng)@.skip_tables(1),
{
    let id = match mng.get_table_index() {
        Some(v) => v,
        None => return false,
    };
    if mng.indentation > usize::MAX - 2 {
        return false;
    }
    push_tabs(w, mng.indentation);
    w.append("if not br_map[");
    push_index(w, id);
    w.append("] then\n");
    mng.indent();
    push_tabs(w, mng.indentation);
    w.append("br_map[");
    push_index(w, id);
    w.append("] = (function()\n");
    mng.indent();
    push_tabs(w, mng.indentation);
    w.append("return { [0] = ");
    let mut i: usize = 0;
    let ghost start = w@;
    assert(table.data@.take(0) =~= Seq::empty());
    while i < table.data.len()
        invariant
            i <= table.data.len(),
            w@ == targets_out(start, table.data@.take(i as int)),
        decreases table.data.len() - i,
    {
        push_index(w, table.data[i].target);
        w.append(", ");
        assert(table.data@.take(i + 1).drop_last() =~= table.data@.take(i as int));
        assert(table.data@.take(i + 1).last() == table.data@[i as int]);
        i += 1;
    }
    assert(table.data@.take(i as int) =~= table.data@);
    w.append("}\n");
    mng.dedent();
    push_line(w, mng.indentation, "end)()");
    mng.dedent();
    push_line(w, mng.indentation, "end");
    push_tabs(w, mng.indentation);
    w.append("temp = br_map[");
    push_index(w, id);
    w.append("][");
    write_expression(&table.condition, mng, w);
    w.append("] or ");
    push_index(w, table.default.target);
    w.append("\n");
    true
}

/// Whether a terminator can be printed.
pub open spec fn terminator_ok(t: TerminatorView, m: ManagerView) -> bool {
    match t {
        TerminatorView::Unreachable => true,
        TerminatorView::Br(br) => br_ok(br, m),
        TerminatorView::BrTable(table) => if table.data.len() == 0 {
            br_ok(table.default, m)
        } else {
            table_setup_ok(m) && search_ok(
                ordered_table(table.data.push(table.default)),
                0,
                ordered_table(table.data.push(table.default)).len() as int,
                m.skip_tables(1),
            )
        },
    }
}

/// `w` followed by the text of a terminator. A branch table without
/// targets is its default branch; one with targets sets up its dispatch
/// table and searches the distinct targets for the one to branch to.
pub open spec fn terminator_out(w: Seq<char>, t: TerminatorView, m: ManagerView) -> Seq<char> {
    match t {
        TerminatorView::Unreachable => line_out(w, m.indentation as nat, "error(\"out of code bounds\")"@),
        TerminatorView::Br(br) => br_out(w, br, m),
        TerminatorView::BrTable(table) => if table.data.len() == 0 {
            br_out(w, table.default, m)
        } else {
            search_out(
                table_setup_out(w, table, m),
                ordered_table(table.data.push(table.default)),
                0,
                ordered_table(table.data.push(table.default)).len() as int,
                m.skip_tables(1),
            )
        },
    }
}

impl BrTable {
    /// Appends the text of the branch table.
    pub fn write(&self, mng: &mut Manager, w: &mut String) -> (ok: bool)
        ensures
            ok == terminator_ok(TerminatorView::BrTable(table_view(*self)), old(mng)@),
            ok ==> final(w)@ == terminator_out(
                old(w)@,
                TerminatorView::BrTable(table_view(*self)),
                old(mng)@,
            ),
            ok ==> final(mng)@ == old(mng)@.skip_tables(
                terminator_tables(TerminatorView::BrTable(table_view(*self))),
            ),
            ok ==> old(mng)@.table_next + terminator_tables(TerminatorView::BrTable(table_view(*self)))
                <= usize::MAX,
    {
        if self.data.len() == 0 {
            return self.default.write(mng, w);
        }
        let list = to_ordered_table(self.data.as_slice(), self.default);
        if !write_table_setup(self, mng, w) {
            return false;
        }
        write_search_layer(0..list.len(), &list, mng, w)
    }
}

impl Terminator {
    /// Appends the text of the terminator.
    pub fn write(&self, mng: &mut Manager, w: &mut String) -> (ok: bool)
        ensures
            ok == terminator_ok(self@, old(mng)@),
            ok ==> final(w)@ == terminator_out(old(w)@, self@, old(mng)@),
            ok ==> final(mng)@ == old(mng)@.skip_tables(terminator_tables(self@)),
            ok ==> old(mng)@.table_next + terminator_tables(self@) <= usize::MAX,
    {
        match self {
            Terminator::Unreachable => {
                push_line(w, mng.indentation, "error(\"out of code bounds\")");
                true
            },
            Terminator::Br(s) => s.write(mng, w),
            Terminator::BrTable(s) => s.write(mng, w),
        }
    }
}

/// Whether none of the blocks has a label.
pub open spec fn all_none(labels: Seq<Option<LabelType>>) -> bool {
    forall|i: int| 0 <= i < labels.len() ==> (#[trigger] labels[i]) is None
}

/// Whether a block is followed by the escape for branches that pass
/// through it: the function has such branches, and an enclosing block
/// can be their target.
pub open spec fn escapes(m: ManagerView) -> bool {
    m.has_branch && !all_none(m.labels)
}

pub open spec fn br_parent_ok(m: ManagerView) -> bool {
    escapes(m) ==> m.indentation < usize::MAX && (m.labels.last() is Some ==> m.indentation + 2
        <= usize::MAX)
}

/// `w` followed by the escape behind a block, where there is one: if a
/// branch is under way, it ends here where the innermost enclosing block
/// is its target, by continuing a loop or by going on behind a block;
/// otherwise it leaves that block too.
pub open spec fn br_parent_out(w: Seq<char>, m: ManagerView) -> Seq<char> {
    if !escapes(m) {
        w
    } else {
        let ind = m.indentation as nat;
        let w = line_out(w, ind, "if desired then"@);
        let w = match m.labels.last() {
            Some(last) => {
                let w = w + tabs(ind + 1) + "if desired == "@ + decimal((m.labels.len() - 1) as nat)
                    + " then\n"@;
                let w = line_out(w, ind + 2, "desired = nil"@);
                let w = if last == LabelType::Backward {
                    line_out(w, ind + 2, "continue"@)
                } else {
                    w
                };
                line_out(w, ind + 1, "end"@)
            },
            None => w,
        };
        let w = line_out(w, ind + 1, "break"@);
        line_out(w, ind, "end"@)
    }
}

/// Whether none of the enclosing blocks has a label.
fn no_labels(mng: &Manager) -> (r: bool)
    ensures
        r == all_none(mng@.labels),
{
    let mut i: usize = 0;
    while i < mng.label_list.len()
        invariant
            i <= mng.label_list.len(),
            forall|j: int| 0 <= j < i ==> (#[trigger] mng.label_list@[j]) is None,
        decreases mng.label_list.len() - i,
    {
        if mng.label_list[i].is_some() {
            return false;
        }
        i += 1;
    }
    true
}

/// Appends the escape behind a block, where there is one.
pub fn write_br_parent(mng: &mut Manager, w: &mut String) -> (ok: bool)
    ensures
        ok == br_parent_ok(old(mng)@),
        ok ==> final(w)@ == br_parent_out(old(w)@, old(mng)@),
        ok ==> final(mng)@ == old(mng)@,
{
    if !mng.has_branch() || no_labels(mng) {
        return true;
    }
    push_line(w, mng.indentation, "if desired then");
    if !mng.indent() {
        return false;
    }
    let n = mng.label_list.len();
    assert(n > 0) by {
        if n == 0 {
            assert(all_none(mng@.labels));
        }
    }
    if let Some(last) = mng.label_list[n - 1] {
        let level = n - 1;
        push_tabs(w, mng.indentation);
        w.append("if desired == ");
        push_index(w, level);
        w.append(" then\n");
        if !mng.indent() {
            return false;
        }
        push_line(w, mng.indentation, "desired = nil");
        match last {
            LabelType::Backward => {
                push_line(w, mng.indentation, "continue");
            },
            LabelType::Forward => {},
        }
        mng.dedent();
        push_line(w, mng.indentation, "end");
    }
    push_line(w, mng.indentation, "break");
    mng.dedent();
    push_line(w, mng.indentation, "end");
    true
}


/// `w` followed by the results of a call and the sign that assigns to
/// them, where the call has results.
pub open spec fn assign_out(w: Seq<char>, list: ResultList, m: ManagerView) -> Seq<char> {
    if list.count() != 0 {
        results_out(w, list.start as int, list.end as int, m) + " = "@
    } else {
        w
    }
}

pub open spec fn call_out(w: Seq<char>, c: CallView, m: ManagerView) -> Seq<char> {
    let w = assign_out(w, c.result_list, m);
    list_out(w + "FUNC_LIST["@ + decimal(c.function as nat) + "]("@, c.param_list, m) + ")"@
}

pub open spec fn call_indirect_out(w: Seq<char>, c: CallIndirectView, m: ManagerView) -> Seq<char> {
    let w = assign_out(w, c.result_list, m);
    let w = expression_out(w + "TABLE_LIST["@ + decimal(c.table as nat) + "].data["@, c.index, m);
    list_out(w + "]("@, c.param_list, m) + ")"@
}

pub open spec fn set_temporary_out(w: Seq<char>, s: SetTemporary, m: ManagerView) -> Seq<char> {
    expression_out(temporary_out(w, s.var.var, m) + " = "@, *s.value, m)
}

pub open spec fn set_local_out(w: Seq<char>, s: SetLocal, m: ManagerView) -> Seq<char> {
    expression_out(local_out(w, s.var.var, m) + " = "@, *s.value, m)
}

pub open spec fn set_global_out(w: Seq<char>, s: SetGlobal, m: ManagerView) -> Seq<char> {
    expression_out(w + "GLOBAL_LIST["@ + decimal(s.var as nat) + "].value = "@, *s.value, m)
}

pub open spec fn store_out(w: Seq<char>, s: StoreAt, m: ManagerView) -> Seq<char> {
    let w = w + "rt_store_"@ + s.store_type.name_text() + "(memory_at_"@ + decimal(s.memory as nat) + ", "@;
    let w = offset_out(expression_out(w, *s.pointer, m), s.offset);
    expression_out(w + ", "@, *s.value, m) + ")"@
}

pub open spec fn memory_grow_out(w: Seq<char>, s: MemoryGrow, m: ManagerView) -> Seq<char> {
    let w = temporary_out(w, s.result.var, m) + " = rt_allocator_grow(memory_at_"@ + decimal(
        s.memory as nat,
    ) + ", "@;
    expression_out(w, *s.size, m) + ")"@
}

pub open spec fn memory_copy_out(w: Seq<char>, s: MemoryCopy, m: ManagerView) -> Seq<char> {
    let w = w + "rt_store_copy(memory_at_"@ + decimal(s.destination.memory as nat) + ", "@;
    let w = expression_out(w, *s.destination.pointer, m);
    let w = w + ", memory_at_"@ + decimal(s.source.memory as nat) + ", "@;
    let w = expression_out(w, *s.source.pointer, m);
    expression_out(w + ", "@, *s.size, m) + ")"@
}

pub open spec fn memory_fill_out(w: Seq<char>, s: MemoryFill, m: ManagerView) -> Seq<char> {
    let w = w + "rt_store_fill(memory_at_"@ + decimal(s.destination.memory as nat) + ", "@;
    let w = expression_out(w, *s.destination.pointer, m);
    let w = expression_out(w + ", "@, *s.size, m);
    expression_out(w + ", "@, *s.value, m) + ")"@
}

/// `w` followed by the text of a statement that fills one line, without
/// its indentation and line break; for a statement with a body, `w`.
pub open spec fn simple_out(w: Seq<char>, s: StatementView, m: ManagerView) -> Seq<char> {
    match s {
        StatementView::Call(s) => call_out(w, s, m),
        StatementView::CallIndirect(s) => call_indirect_out(w, s, m),
        StatementView::SetTemporary(s) => set_temporary_out(w, s, m),
        StatementView::SetLocal(s) => set_local_out(w, s, m),
        StatementView::SetGlobal(s) => set_global_out(w, s, m),
        StatementView::StoreAt(s) => store_out(w, s, m),
        StatementView::MemoryGrow(s) => memory_grow_out(w, s, m),
        StatementView::MemoryCopy(s) => memory_copy_out(w, s, m),
        StatementView::MemoryFill(s) => memory_fill_out(w, s, m),
        _ => w,
    }
}

/// `w` followed by a conditional branch.
pub open spec fn br_if_out(w: Seq<char>, s: BrIf, m: ManagerView) -> Seq<char> {
    let w = condition_out(w + tabs(m.indentation as nat) + "if "@, *s.condition, m) + " then\n"@;
    line_out(br_out(w, s.target, m.indent()), m.indentation as nat, "end"@)
}

/// Whether a statement can be printed in state `m`: every branch can be
/// printed where it stands, and the counts of tabs and of dispatch
/// tables stay machine integers.
pub open spec fn statement_ok(s: StatementView, m: ManagerView) -> bool
    decreases s,
{
    match s {
        StatementView::Block(b) => block_ok(b, m),
        StatementView::BrIf(s) => m.indentation < usize::MAX && br_ok(s.target, m.indent()),
        StatementView::If(s) => {
            &&& m.indentation < usize::MAX
            &&& block_ok(s.on_true, m.indent())
            &&& match s.on_false {
                Some(b) => block_ok(b, m.indent().skip_tables(block_tables(s.on_true))),
                None => true,
            }
        },
        _ => true,
    }
}

pub open spec fn block_ok(b: BlockView, m: ManagerView) -> bool
    decreases b,
{
    let inner = m.push_label(b.label_type).indent();
    &&& m.indentation < usize::MAX
    &&& code_ok(b.code, inner)
    &&& match b.last {
        Some(t) => terminator_ok(t, inner.skip_tables(code_tables(b.code))),
        None => true,
    }
    &&& br_parent_ok(m)
}

pub open spec fn code_ok(code: Seq<StatementView>, m: ManagerView) -> bool
    decreases code,
{
    if code.len() == 0 {
        true
    } else {
        code_ok(code.drop_last(), m) && statement_ok(
            code.last(),
            m.skip_tables(code_tables(code.drop_last())),
        )
    }
}

/// `w` followed by the text of a statement in state `m`.
pub open spec fn statement_out(w: Seq<char>, s: StatementView, m: ManagerView) -> Seq<char>
    decreases s,
{
    match s {
        StatementView::Block(b) => block_out(w, b, m),
        StatementView::BrIf(s) => br_if_out(w, s, m),
        StatementView::If(s) => {
            let w = condition_out(w + tabs(m.indentation as nat) + "if "@, s.condition, m) + " then\n"@;
            let w = block_out(w, s.on_true, m.indent());
            let w = match s.on_false {
                Some(b) => block_out(
                    line_out(w, m.indentation as nat, "else"@),
                    b,
                    m.indent().skip_tables(block_tables(s.on_true)),
                ),
                None => w,
            };
            line_out(w, m.indentation as nat, "end"@)
        },
        _ => simple_out(w + tabs(m.indentation as nat), s, m) + "\n"@,
    }
}

/// `w` followed by the text of a block: a loop that runs once, so that
/// both `break` and `continue` apply to it, with the statements of the
/// block, its terminator or else a `break`, and behind it the escape for
/// branches that pass through.
pub open spec fn block_out(w: Seq<char>, b: BlockView, m: ManagerView) -> Seq<char>
    decreases b,
{
    let inner = m.push_label(b.label_type).indent();
    let w = line_out(w, m.indentation as nat, "while true do"@);
    let w = code_out(w, b.code, inner);
    let w = match b.last {
        Some(t) => terminator_out(w, t, inner.skip_tables(code_tables(b.code))),
        None => line_out(w, inner.indentation as nat, "break"@),
    };
    br_parent_out(
        line_out(w, m.indentation as nat, "end"@),
        m.skip_tables(block_tables(b)),
    )
}

/// `w` followed by the text of the statements of `code`, in order.
pub open spec fn code_out(w: Seq<char>, code: Seq<StatementView>, m: ManagerView) -> Seq<char>
    decreases code,
{
    if code.len() == 0 {
        w
    } else {
        statement_out(
            code_out(w, code.drop_last(), m),
            code.last(),
            m.skip_tables(code_tables(code.drop_last())),
        )
    }
}

/// The statements before a statement that cannot be printed can, and so
/// can every shorter prefix of statements that can be printed.
pub proof fn lemma_code_ok_prefix(code: Seq<StatementView>, m: ManagerView, k: int)
    requires
        0 <= k <= code.len(),
        code_ok(code, m),
    ensures
        code_ok(code.take(k), m),
    decreases code.len(),
{
    if k < code.len() {
        lemma_code_ok_prefix(code.drop_last(), m, k);
        assert(code.drop_last().take(k) =~= code.take(k));
    } else {
        assert(code.take(k) =~= code);
    }
}

/// The view of a call.
pub open spec fn call_view(c: Call) -> CallView {
    CallView { function: c.function, param_list: c.param_list@, result_list: c.result_list }
}

/// The view of an indirect call.
pub open spec fn call_indirect_view(c: CallIndirect) -> CallIndirectView {
    CallIndirectView { table: c.table, index: *c.index, param_list: c.param_list@, result_list: c.result_list }
}

fn write_assign(list: ResultList, mng: &Manager, w: &mut String)
    ensures
        final(w)@ == assign_out(old(w)@, list, mng@),
{
    if !list.is_empty() {
        list.write(mng, w);
        w.append(" = ");
    }
}

impl Call {
    pub fn write(&self, mng: &Manager, w: &mut String)
        ensures
            final(w)@ == call_out(old(w)@, call_view(*self), mng@),
    {
        write_assign(self.result_list, mng, w);
        w.append("FUNC_LIST[");
        push_index(w, self.function);
        w.append("](");
        write_list(&self.param_list, mng, w);
        w.append(")");
    }
}

impl CallIndirect {
    pub fn write(&self, mng: &Manager, w: &mut String)
        ensures
            final(w)@ == call_indirect_out(old(w)@, call_indirect_view(*self), mng@),
    {
        write_assign(self.result_list, mng, w);
        w.append("TABLE_LIST[");
        push_index(w, self.table);
        w.append("].data[");
        write_expression(&self.index, mng, w);
        w.append("](");
        write_list(&self.param_list, mng, w);
        w.append(")");
    }
}

impl SetTemporary {
    pub fn write(&self, mng: &Manager, w: &mut String)
        ensures
            final(w)@ == set_temporary_out(old(w)@, *self, mng@),
    {
        write_temporary(self.var.var, mng, w);
        w.append(" = ");
        write_expression(&self.value, mng, w);
    }
}

impl SetLocal {
    pub fn write(&self, mng: &Manager, w: &mut String)
        ensures
            final(w)@ == set_local_out(old(w)@, *self, mng@),
    {
        write_local(self.var.var, mng, w);
        w.append(" = ");
        write_expression(&self.value, mng, w);
    }
}

impl SetGlobal {
    pub fn write(&self, mng: &Manager, w: &mut String)
        ensures
            final(w)@ == set_global_out(old(w)@, *self, mng@),
    {
        w.append("GLOBAL_LIST[");
        push_index(w, self.var);
        w.append("].value = ");
        write_expression(&self.value, mng, w);
    }
}

impl StoreAt {
    pub fn write(&self, mng: &Manager, w: &mut String)
        ensures
            final(w)@ == store_out(old(w)@, *self, mng@),
    {
        w.append("rt_store_");
        w.append(self.store_type.name());
        w.append("(memory_at_");
        push_index(w, self.memory);
        w.append(", ");
        write_expression(&self.pointer, mng, w);
        write_offset(self.offset, w);
        w.append(", ");
        write_expression(&self.value, mng, w);
        w.append(")");
    }
}

impl MemoryGrow {
    pub fn write(&self, mng: &Manager, w: &mut String)
        ensures
            final(w)@ == memory_grow_out(old(w)@, *self, mng@),
    {
        write_temporary(self.result.var, mng, w);
        w.append(" = rt_allocator_grow(memory_at_");
        push_index(w, self.memory);
        w.append(", ");
        write_expression(&self.size, mng, w);
        w.append(")");
    }
}

impl MemoryCopy {
    pub fn write(&self, mng: &Manager, w: &mut String)
        ensures
            final(w)@ == memory_copy_out(old(w)@, *self, mng@),
    {
        w.append("rt_store_copy(memory_at_");
        push_index(w, self.destination.memory);
        w.append(", ");
        write_expression(&self.destination.pointer, mng, w);
        w.append(", memory_at_");
        push_index(w, self.source.memory);
        w.append(", ");
        write_expression(&self.source.pointer, mng, w);
        w.append(", ");
        write_expression(&self.size, mng, w);
        w.append(")");
    }
}

impl MemoryFill {
    pub fn write(&self, mng: &Manager, w: &mut String)
        ensures
            final(w)@ == memory_fill_out(old(w)@, *self, mng@),
    {
        w.append("rt_store_fill(memory_at_");
        push_index(w, self.destination.memory);
        w.append(", ");
        write_expression(&self.destination.pointer, mng, w);
        w.append(", ");
        write_expression(&self.size, mng, w);
        w.append(", ");
        write_expression(&self.value, mng, w);
        w.append(")");
    }
}

/// Appends a statement that fills one line, with its indentation and
/// line break.
pub fn write_stat(stat: &Statement, mng: &Manager, w: &mut String)
    requires
        !(stat is Block) && !(stat is BrIf) && !(stat is If),
    ensures
        final(w)@ == statement_out(old(w)@, stat@, mng@),
{
    push_tabs(w, mng.indentation);
    match stat {
        Statement::Call(s) => s.write(mng, w),
        Statement::CallIndirect(s) => s.write(mng, w),
        Statement::SetTemporary(s) => s.write(mng, w),
        Statement::SetLocal(s) => s.write(mng, w),
        Statement::SetGlobal(s) => s.write(mng, w),
        Statement::StoreAt(s) => s.write(mng, w),
        Statement::MemoryGrow(s) => s.write(mng, w),
        Statement::MemoryCopy(s) => s.write(mng, w),
        Statement::MemoryFill(s) => s.write(mng, w),
        _ => {},
    }
    w.append("\n");
}

impl BrIf {
    pub fn write(&self, mng: &mut Manager, w: &mut String) -> (ok: bool)
        ensures
            ok == statement_ok(StatementView::BrIf(*self), old(mng)@),
            ok ==> final(w)@ == br_if_out(old(w)@, *self, old(mng)@),
            ok ==> final(mng)@ == old(mng)@,
    {
        push_tabs(w, mng.indentation);
        w.append("if ");
        write_condition(&self.condition, mng, w);
        w.append(" then\n");
        if !mng.indent() {
            return false;
        }
        if !self.target.write(mng, w) {
            return false;
        }
        mng.dedent();
        push_line(w, mng.indentation, "end");
        true
    }
}

impl If {
    pub fn write(&self, mng: &mut Manager, w: &mut String) -> (ok: bool)
        ensures
            ok == statement_ok(statement_view(Statement::If(*self)), old(mng)@),
            ok ==> final(w)@ == statement_out(old(w)@, statement_view(Statement::If(*self)), old(mng)@),
            ok ==> final(mng)@ == old(mng)@.skip_tables(statement_tables(statement_view(Statement::If(*self)))),
            ok ==> old(mng)@.table_next + statement_tables(statement_view(Statement::If(*self))) <= usize::MAX,
        decreases self,
    {
        push_tabs(w, mng.indentation);
        w.append("if ");
        write_condition(&self.condition, mng, w);
        w.append(" then\n");
        if !mng.indent() {
            return false;
        }
        if !self.on_true.write(mng, w) {
            return false;
        }
        mng.dedent();
        match &self.on_false {
            Some(v) => {
                push_line(w, mng.indentation, "else");
                mng.indent();
                if !v.write(mng, w) {
                    return false;
                }
                mng.dedent();
            },
            None => {},
        }
        push_line(w, mng.indentation, "end");
        true
    }
}

impl Statement {
    /// Appends the text of the statement.
    pub fn write(&self, mng: &mut Manager, w: &mut String) -> (ok: bool)
        ensures
            ok == statement_ok(self@, old(mng)@),
            ok ==> final(w)@ == statement_out(old(w)@, self@, old(mng)@),
            ok ==> final(mng)@ == old(mng)@.skip_tables(statement_tables(self@)),
            ok ==> old(mng)@.table_next + statement_tables(self@) <= usize::MAX,
        decreases self,
    {
        match self {
            Statement::Block(s) => s.write(mng, w),
            Statement::BrIf(s) => s.write(mng, w),
            Statement::If(s) => s.write(mng, w),
            _ => {
                write_stat(self, mng, w);
                true
            },
        }
    }
}

impl Block {
    /// Appends the text of the block.
    pub fn write(&self, mng: &mut Manager, w: &mut String) -> (ok: bool)
        ensures
            ok == block_ok(self@, old(mng)@),
            ok ==> final(w)@ == block_out(old(w)@, self@, old(mng)@),
            ok ==> final(mng)@ == old(mng)@.skip_tables(block_tables(self@)),
            ok ==> old(mng)@.table_next + block_tables(self@) <= usize::MAX,
        decreases self,
    {
        let ghost m = mng@;
        let ghost inner = m.push_label(self.label_type).indent();
        let ghost code = self@.code;
        proof {
            lemma_code_view(self.code@);
        }
        mng.push_label(self.label_type);
        push_line(w, mng.indentation, "while true do");
        if !mng.indent() {
            return false;
        }
        let ghost start = w@;
        let mut i: usize = 0;
        assert(code.take(0) =~= Seq::empty());
        while i < self.code.len()
            invariant
                i <= self.code.len(),
                m.indentation < usize::MAX,
                m == old(mng)@,
                code == self@.code,
                code.len() == self.code.len(),
                forall|j: int| 0 <= j < code.len() ==> #[trigger] code[j] == self.code@[j]@,
                inner == m.push_label(self.label_type).indent(),
                code_ok(code.take(i as int), inner),
                w@ == code_out(start, code.take(i as int), inner),
                mng@ == inner.skip_tables(code_tables(code.take(i as int))),
                inner.table_next + code_tables(code.take(i as int)) <= usize::MAX,
            decreases self.code.len() - i,
        {
            assert(code.take(i + 1).drop_last() =~= code.take(i as int));
            assert(code.take(i + 1).last() == code[i as int]);
            if !self.code[i].write(mng, w) {
                proof {
                    if code_ok(code, inner) {
                        lemma_code_ok_prefix(code, inner, i + 1);
                    }
                }
                return false;
            }
            i += 1;
        }
        assert(code.take(i as int) =~= code);
        match &self.last {
            Some(v) => {
                if !v.write(mng, w) {
                    return false;
                }
            },
            None => {
                push_line(w, mng.indentation, "break");
            },
        }
        mng.dedent();
        push_line(w, mng.indentation, "end");
        mng.pop_label();
        assert(mng@.labels =~= m.labels);
        write_br_parent(mng, w)
    }
}


/// The text of the value that a local of type `typ` starts with.
pub open spec fn zero_text(typ: ValType) -> Seq<char> {
    match typ {
        ValType::F32 => "0.0"@,
        ValType::F64 => "0.0"@,
        ValType::I64 => "rt_i64_ZERO"@,
        _ => "0"@,
    }
}

/// The text of the value that a local of type `typ` starts with.
pub fn type_to_zero(typ: ValType) -> (s: &'static str)
    ensures
        s@ == zero_text(typ),
{
    match typ {
        ValType::F32 => "0.0",
        ValType::F64 => "0.0",
        ValType::I64 => "rt_i64_ZERO",
        _ => "0",
    }
}

/// `w` followed by the names of the first `count` locals, separated by
/// commas.
pub open spec fn params_out(w: Seq<char>, count: int) -> Seq<char>
    decreases count,
{
    if count <= 0 {
        w
    } else {
        let w = params_out(w, count - 1);
        (if count > 1 {
            w + ", "@
        } else {
            w
        }) + "loc_"@ + decimal((count - 1) as nat)
    }
}

/// `w` followed by the declarations of the locals `first..first + count`,
/// one to a line, each with the zero of its type.
pub open spec fn locals_out(w: Seq<char>, local_data: Seq<ValType>, first: int, count: int, ind: nat) -> Seq<char>
    decreases count,
{
    if count <= 0 {
        w
    } else {
        locals_out(w, local_data, first, count - 1, ind) + tabs(ind) + "local loc_"@ + decimal(
            (first + count - 1) as nat,
        ) + " = "@ + zero_text(local_data[count - 1]) + "\n"@
    }
}

/// `w` followed by the zeros of the locals `from..to` of `local_data`,
/// each with a comma behind it.
pub open spec fn spill_out(w: Seq<char>, local_data: Seq<ValType>, from: int, to: int) -> Seq<char>
    decreases to - from,
{
    if to <= from {
        w
    } else {
        spill_out(w, local_data, from, to - 1) + zero_text(local_data[to - 1]) + ", "@
    }
}

/// `w` followed by the declarations of the first `count` temporaries,
/// one to a line.
pub open spec fn temps_out(w: Seq<char>, count: int, ind: nat) -> Seq<char>
    decreases count,
{
    if count <= 0 {
        w
    } else {
        temps_out(w, count - 1, ind) + tabs(ind) + "local reg_"@ + decimal((count - 1) as nat) + "\n"@
    }
}

/// The number of declared locals of `f` that are variables in state `m`.
pub open spec fn shown_locals(f: FuncDataView, m: ManagerView) -> int {
    if m.num_local - f.num_param <= f.local_data.len() {
        m.num_local - f.num_param
    } else {
        f.local_data.len() as int
    }
}

/// The number of temporaries of `f` that are variables in state `m`.
pub open spec fn shown_temps(f: FuncDataView, m: ManagerView) -> int {
    if m.num_temp <= f.num_stack {
        m.num_temp as int
    } else {
        f.num_stack as int
    }
}

/// `w` followed by the declarations of a function: its locals as
/// variables, as far as the state allows, and the others in a spill
/// table; then its temporaries in the same way.
pub open spec fn variables_out(w: Seq<char>, f: FuncDataView, m: ManagerView) -> Seq<char> {
    let ind = m.indentation as nat;
    let shown = shown_locals(f, m);
    let w = locals_out(w, f.local_data, f.num_param as int, shown, ind);
    let w = if shown < f.local_data.len() {
        spill_out(w + tabs(ind) + "local loc_spill = { "@, f.local_data, shown, f.local_data.len() as int)
            + "}\n"@
    } else {
        w
    };
    let w = temps_out(w, shown_temps(f, m), ind);
    if m.num_temp < f.num_stack {
        w + tabs(ind) + "local reg_spill = table.create("@ + decimal((f.num_stack - m.num_temp) as nat)
            + ")\n"@
    } else {
        w
    }
}

/// Appends the head of a function, with the names of its parameters.
pub fn write_parameter_list(ast: &FuncData, w: &mut String)
    ensures
        final(w)@ == params_out(old(w)@ + "function("@, ast.num_param as int) + ")\n"@,
{
    w.append("function(");
    let mut i: usize = 0;
    while i < ast.num_param
        invariant
            i <= ast.num_param,
            w@ == params_out(old(w)@ + "function("@, i as int),
        decreases ast.num_param - i,
    {
        if i > 0 {
            w.append(", ");
        }
        w.append("loc_");
        push_index(w, i);
        i += 1;
    }
    w.append(")\n");
}

/// Appends the declarations of a function, unless the state holds fewer
/// variables than the function has parameters.
pub fn write_variable_list(ast: &FuncData, mng: &Manager, w: &mut String) -> (ok: bool)
    ensures
        ok == (mng@.num_local >= ast.num_param),
        ok ==> final(w)@ == variables_out(old(w)@, ast@, mng@),
{
    if mng.num_local < ast.num_param {
        return false;
    }
    let num_local = mng.num_local - ast.num_param;
    let total = ast.local_data.len();
    let shown = if num_local <= total {
        num_local
    } else {
        total
    };
    let mut i: usize = 0;
    while i < shown
        invariant
            i <= shown <= total,
            total == ast.local_data.len(),
            shown <= mng.num_local - ast.num_param,
            w@ == locals_out(old(w)@, ast.local_data@, ast.num_param as int, i as int, mng.indentation as nat),
        decreases shown - i,
    {
        push_tabs(w, mng.indentation);
        w.append("local loc_");
        push_index(w, ast.num_param + i);
        w.append(" = ");
        w.append(type_to_zero(ast.local_data[i]));
        w.append("\n");
        i += 1;
    }
    if shown < total {
        push_tabs(w, mng.indentation);
        w.append("local loc_spill = { ");
        let ghost start = w@;
        let mut k: usize = shown;
        while k < total
            invariant
                shown <= k <= total,
                total == ast.local_data.len(),
                w@ == spill_out(start, ast.local_data@, shown as int, k as int),
            decreases total - k,
        {
            w.append(type_to_zero(ast.local_data[k]));
            w.append(", ");
            k += 1;
        }
        w.append("}\n");
    }
    let regs = if mng.num_temp <= ast.num_stack {
        mng.num_temp
    } else {
        ast.num_stack
    };
    let ghost start = w@;
    let mut i: usize = 0;
    while i < regs
        invariant
            i <= regs,
            w@ == temps_out(start, i as int, mng.indentation as nat),
        decreases regs - i,
    {
        push_tabs(w, mng.indentation);
        w.append("local reg_");
        push_index(w, i);
        w.append("\n");
        i += 1;
    }
    if mng.num_temp < ast.num_stack {
        let len = ast.num_stack - mng.num_temp;
        push_tabs(w, mng.indentation);
        w.append("local reg_spill = table.create(");
        push_index(w, len);
        w.append(")\n");
    }
    true
}

/// Whether a function can be printed in state `m`.
pub open spec fn function_ok(f: FuncDataView, m: ManagerView) -> bool {
    &&& m.indentation < usize::MAX
    &&& m.num_local >= f.num_param
    &&& block_ok(f.code, m.indent())
}

/// `w` followed by the text of a function: its head, its declarations,
/// the variables that branches need, its body, and the temporaries that
/// hold its results.
pub open spec fn function_out(w: Seq<char>, f: FuncDataView, m: ManagerView) -> Seq<char> {
    let inner = m.indent();
    let ind = inner.indentation as nat;
    let w = params_out(w + "function("@, f.num_param as int) + ")\n"@;
    let w = variables_out(w, f, inner);
    let w = if m.has_branch {
        line_out(w, ind, "local desired"@)
    } else {
        w
    };
    let w = if m.has_table {
        line_out(w, ind, "local br_map = {}"@)
    } else {
        w
    };
    let w = block_out(w, f.code, inner);
    let w = if f.num_result != 0 {
        results_out(w + tabs(ind) + "return "@, 0, f.num_result as int, inner.skip_tables(block_tables(f.code)))
            + "\n"@
    } else {
        w
    };
    line_out(w, m.indentation as nat, "end"@)
}

impl FuncData {
    /// Appends the text of the function.
    pub fn write(&self, mng: &mut Manager, w: &mut String) -> (ok: bool)
        ensures
            ok == function_ok(self@, old(mng)@),
            ok ==> final(w)@ == function_out(old(w)@, self@, old(mng)@),
            ok ==> final(mng)@ == old(mng)@.skip_tables(block_tables(self@.code)),
    {
        if !mng.indent() {
            return false;
        }
        write_parameter_list(self, w);
        if !write_variable_list(self, mng, w) {
            return false;
        }
        if mng.has_branch() {
            push_line(w, mng.indentation, "local desired");
        }
        if mng.has_table() {
            push_line(w, mng.indentation, "local br_map = {}");
        }
        if !self.code.write(mng, w) {
            return false;
        }
        if self.num_result != 0 {
            push_tabs(w, mng.indentation);
            w.append("return ");
            ResultList::new(0, self.num_result).write(mng, w);
            w.append("\n");
        }
        mng.dedent();
        push_line(w, mng.indentation, "end");
        true
    }
}

/// The text of a function, printed on its own.
pub open spec fn function_text(f: FuncDataView) -> Seq<char> {
    function_out(Seq::empty(), f, crate::backend::manager::function_state(f))
}

/// Prints a function on its own, if it can be printed.
pub fn write_function(ast: &FuncData) -> (text: Option<String>)
    ensures
        match text {
            Some(t) => function_ok(ast@, crate::backend::manager::function_state(ast@)) && t@
                == function_text(ast@),
            None => !function_ok(ast@, crate::backend::manager::function_state(ast@)),
        },
{
    let mut mng = Manager::function(ast);
    let mut w = String::new();
    if ast.write(&mut mng, &mut w) {
        Some(w)
    } else {
        None
    }
}

} // verus!
