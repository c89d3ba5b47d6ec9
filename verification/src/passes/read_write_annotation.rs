//! The locals and globals that each block reads and writes.

use std::collections::HashMap;

use vstd::prelude::*;

use crate::ast::operator::{Operator, Shape};

verus! {

broadcast use vstd::std_specs::hash::group_hash_axioms;

/// A variable of a function: a local or a global, by its index.
#[derive(Debug, PartialEq, Eq, Hash, Clone, Copy, Structural)]
pub enum Var {
    Local(u32),
    Global(u32),
}

/// A set of variables.
#[derive(Debug)]
pub struct VarSet {
    items: Vec<Var>,
}

impl View for VarSet {
    type V = Set<Var>;

    closed spec fn view(&self) -> Set<Var> {
        Set::new(|v: Var| self.items@.contains(v))
    }
}

impl Default for VarSet {
    fn default() -> (set: VarSet)
        ensures
            set@ == Set::<Var>::empty(),
    {
        VarSet::new()
    }
}

impl Clone for VarSet {
    fn clone(&self) -> (set: VarSet)
        ensures
            set@ == self@,
    {
        let mut items: Vec<Var> = Vec::new();
        let mut i: usize = 0;
        while i < self.items.len()
            invariant
                i <= self.items.len(),
                items@ == self.items@.take(i as int),
            decreases self.items.len() - i,
        {
            items.push(self.items[i]);
            assert(self.items@.take(i + 1) =~= self.items@.take(i as int).push(self.items@[i as int]));
            i += 1;
        }
        assert(self.items@.take(i as int) =~= self.items@);
        VarSet { items }
    }
}

impl VarSet {
    pub fn new() -> (set: VarSet)
        ensures
            set@ == Set::<Var>::empty(),
    {
        let set = VarSet { items: Vec::new() };
        assert(set@ =~= Set::<Var>::empty());
        set
    }

    pub fn clear(&mut self)
        ensures
            final(self)@ == Set::<Var>::empty(),
    {
        self.items.clear();
        assert(self@ =~= Set::<Var>::empty());
    }

    pub fn contains(&self, v: Var) -> (r: bool)
        ensures
            r == self@.contains(v),
    {
        let mut i: usize = 0;
        while i < self.items.len()
            invariant
                i <= self.items.len(),
                forall|j: int| 0 <= j < i ==> self.items@[j] != v,
            decreases self.items.len() - i,
        {
            if self.items[i] == v {
                return true;
            }
            i += 1;
        }
        false
    }

    /// Adds `v`; returns whether it was new.
    pub fn insert(&mut self, v: Var) -> (fresh: bool)
        ensures
            final(self)@ == old(self)@.insert(v),
            fresh == !old(self)@.contains(v),
    {
        if self.contains(v) {
            assert(self@ =~= old(self)@.insert(v));
            return false;
        }
        self.items.push(v);
        assert forall|x: Var| self@.contains(x) <==> old(self)@.insert(v).contains(x) by {
            if old(self).items@.contains(x) {
                let j = choose|j: int| 0 <= j < old(self).items@.len() && old(self).items@[j] == x;
                assert(self.items@[j] == x);
            }
            if x == v {
                assert(self.items@[self.items@.len() - 1] == x);
            }
        }
        assert(self@ =~= old(self)@.insert(v));
        true
    }

    /// Adds every variable of `other`.
    pub fn extend(&mut self, other: &VarSet)
        ensures
            final(self)@ == old(self)@.union(other@),
    {
        let mut i: usize = 0;
        while i < other.items.len()
            invariant
                i <= other.items.len(),
                forall|x: Var|
                    self@.contains(x) <==> old(self)@.contains(x) || other.items@.take(i as int).contains(x),
            decreases other.items.len() - i,
        {
            let ghost before = self@;
            self.insert(other.items[i]);
            proof {
                let shorter = other.items@.take(i as int);
                let longer = other.items@.take(i + 1);
                assert(longer =~= shorter.push(other.items@[i as int]));
                assert forall|x: Var|
                    self@.contains(x) <==> old(self)@.contains(x) || longer.contains(x) by {
                    if shorter.contains(x) {
                        let j = choose|j: int| 0 <= j < shorter.len() && shorter[j] == x;
                        assert(longer[j] == x);
                    }
                    if x == other.items@[i as int] {
                        assert(longer[i as int] == x);
                    }
                    if longer.contains(x) {
                        let j = choose|j: int| 0 <= j < longer.len() && longer[j] == x;
                        if j < i {
                            assert(shorter[j] == x);
                        }
                    }
                }
            }
            i += 1;
        }
        assert(other.items@.take(i as int) =~= other.items@);
        assert(self@ =~= old(self)@.union(other@));
    }

    /// Keeps the variables for which membership in `other` is `wanted`.
    fn filter(&mut self, other: &VarSet, wanted: bool)
        ensures
            forall|x: Var|
                #![trigger final(self)@.contains(x)]
                final(self)@.contains(x) <==> old(self)@.contains(x) && other@.contains(x) == wanted,
    {
        let mut kept: Vec<Var> = Vec::new();
        let mut i: usize = 0;
        while i < self.items.len()
            invariant
                i <= self.items.len(),
                self.items@ == old(self).items@,
                forall|x: Var|
                    kept@.contains(x) <==> self.items@.take(i as int).contains(x) && other@.contains(x)
                        == wanted,
            decreases self.items.len() - i,
        {
            let v = self.items[i];
            let ghost before = kept@;
            let keep = other.contains(v) == wanted;
            if keep {
                kept.push(v);
            }
            proof {
                let shorter = self.items@.take(i as int);
                let longer = self.items@.take(i + 1);
                assert(longer =~= shorter.push(v));
                assert forall|x: Var|
                    kept@.contains(x) <==> longer.contains(x) && other@.contains(x) == wanted by {
                    if before.contains(x) {
                        let j = choose|j: int| 0 <= j < before.len() && before[j] == x;
                        assert(kept@[j] == x);
                        let k = choose|k: int| 0 <= k < shorter.len() && shorter[k] == x;
                        assert(longer[k] == x);
                    }
                    if keep && x == v {
                        assert(kept@[kept@.len() - 1] == x);
                        assert(longer[i as int] == x);
                    }
                    if kept@.contains(x) {
                        let j = choose|j: int| 0 <= j < kept@.len() && kept@[j] == x;
                        if j < before.len() {
                            assert(before[j] == x);
                        }
                    }
                    if longer.contains(x) && other@.contains(x) == wanted {
                        let k = choose|k: int| 0 <= k < longer.len() && longer[k] == x;
                        if k < i {
                            assert(shorter[k] == x);
                        }
                    }
                }
            }
            i += 1;
        }
        assert(self.items@.take(i as int) =~= self.items@);
        self.items = kept;
    }

    /// Removes every variable of `other`.
    pub fn remove_all(&mut self, other: &VarSet)
        ensures
            final(self)@ == old(self)@.difference(other@),
    {
        self.filter(other, false);
        assert forall|x: Var| self@.contains(x) <==> old(self)@.difference(other@).contains(x) by {
        }
        assert(self@ =~= old(self)@.difference(other@));
    }

    /// Keeps only the variables of `other`.
    pub fn keep_common(&mut self, other: &VarSet)
        ensures
            final(self)@ == old(self)@.intersect(other@),
    {
        self.filter(other, true);
        assert forall|x: Var| self@.contains(x) <==> old(self)@.intersect(other@).contains(x) by {
        }
        assert(self@ =~= old(self)@.intersect(other@));
    }

    /// The variables of the set, each once.
    pub fn to_vec(&self) -> (list: Vec<Var>)
        ensures
            forall|x: Var| list@.contains(x) <==> self@.contains(x),
    {
        let mut set = VarSet::new();
        set.extend(self);
        assert forall|x: Var| set.items@.contains(x) <==> self@.contains(x) by {
            assert(set@.contains(x) <==> self@.contains(x));
        }
        set.items
    }
}

/// The mathematical content of a label.
pub struct LabelView {
    /// The variables that are read before they are written.
    pub read_set: Set<Var>,
    /// The variables that are written.
    pub write_set: Set<Var>,
}

impl LabelView {
    pub open spec fn empty() -> LabelView {
        LabelView { read_set: Set::empty(), write_set: Set::empty() }
    }

    pub open spec fn read_extend(self, other: Set<Var>) -> LabelView {
        LabelView { read_set: self.read_set.union(other), ..self }
    }

    /// The label of code that runs before the code of `self`, where
    /// `other` is the label of that earlier code: a read of `self` that
    /// `other` writes is no read of the whole, every other read of either
    /// is, and so is every write of either.
    pub open spec fn linear_merge(self, other: LabelView) -> LabelView {
        LabelView {
            read_set: self.read_set.difference(other.write_set).union(other.read_set),
            write_set: self.write_set.union(other.write_set),
        }
    }

    /// The label of a choice between the code of `self` and the code of
    /// `other`: what either reads is read, and what both write is written.
    pub open spec fn branch_merge(self, other: LabelView) -> LabelView {
        LabelView {
            read_set: self.read_set.union(other.read_set),
            write_set: self.write_set.intersect(other.write_set),
        }
    }

    /// Merging with the empty label, on either side, changes nothing.
    pub proof fn lemma_linear_merge_empty(self)
        ensures
            self.linear_merge(LabelView::empty()) == self,
            LabelView::empty().linear_merge(self) == self,
    {
        assert(self.linear_merge(LabelView::empty()).read_set =~= self.read_set);
        assert(self.linear_merge(LabelView::empty()).write_set =~= self.write_set);
        assert(LabelView::empty().linear_merge(self).read_set =~= self.read_set);
        assert(LabelView::empty().linear_merge(self).write_set =~= self.write_set);
    }
}

/// The reads and writes of a stretch of code.
#[derive(Debug)]
pub struct ReadWriteLabel {
    read_set: VarSet,
    write_set: VarSet,
}

impl View for ReadWriteLabel {
    type V = LabelView;

    closed spec fn view(&self) -> LabelView {
        LabelView { read_set: self.read_set@, write_set: self.write_set@ }
    }
}

impl Default for ReadWriteLabel {
    fn default() -> (label: ReadWriteLabel)
        ensures
            label@ == LabelView::empty(),
    {
        ReadWriteLabel { read_set: VarSet::new(), write_set: VarSet::new() }
    }
}

impl Clone for ReadWriteLabel {
    fn clone(&self) -> (label: ReadWriteLabel)
        ensures
            label@ == self@,
    {
        ReadWriteLabel { read_set: self.read_set.clone(), write_set: self.write_set.clone() }
    }
}

impl ReadWriteLabel {
    pub fn read_set(&self) -> (set: &VarSet)
        ensures
            set@ == self@.read_set,
    {
        &self.read_set
    }

    pub fn write_set(&self) -> (set: &VarSet)
        ensures
            set@ == self@.write_set,
    {
        &self.write_set
    }

    pub fn clear(&mut self)
        ensures
            final(self)@ == LabelView::empty(),
    {
        self.read_set.clear();
        self.write_set.clear();
    }

    pub fn read_extend(&mut self, other: &VarSet)
        ensures
            final(self)@ == old(self)@.read_extend(other@),
    {
        self.read_set.extend(other);
    }

    pub fn linear_merge(&mut self, other: &ReadWriteLabel)
        ensures
            final(self)@ == old(self)@.linear_merge(other@),
    {
        self.read_set.remove_all(&other.write_set);
        self.read_set.extend(&other.read_set);
        self.write_set.extend(&other.write_set);
    }

    pub fn branch_merge(&mut self, other: &ReadWriteLabel)
        ensures
            final(self)@ == old(self)@.branch_merge(other@),
            final(self)@.write_set == old(self)@.write_set.intersect(other@.write_set),
            final(self)@.read_set == old(self)@.read_set.union(other@.read_set),
    {
        self.read_set.extend(&other.read_set);
        self.write_set.keep_common(&other.write_set);
    }

    fn add_read(&mut self, v: Var)
        ensures
            final(self)@ == (LabelView { read_set: old(self)@.read_set.insert(v), ..old(self)@ }),
    {
        self.read_set.insert(v);
    }

    fn add_write(&mut self, v: Var)
        ensures
            final(self)@ == (LabelView { write_set: old(self)@.write_set.insert(v), ..old(self)@ }),
    {
        self.write_set.insert(v);
    }
}

/// The label of a single operator: what it reads and what it writes.
pub open spec fn operator_label(op: Operator) -> LabelView {
    match op {
        Operator::LocalGet { local_index } => LabelView {
            read_set: set![Var::Local(local_index)],
            write_set: Set::empty(),
        },
        Operator::LocalSet { local_index } => LabelView {
            read_set: Set::empty(),
            write_set: set![Var::Local(local_index)],
        },
        Operator::LocalTee { local_index } => LabelView {
            read_set: set![Var::Local(local_index)],
            write_set: set![Var::Local(local_index)],
        },
        Operator::GlobalGet { global_index } => LabelView {
            read_set: set![Var::Global(global_index)],
            write_set: Set::empty(),
        },
        Operator::GlobalSet { global_index } => LabelView {
            read_set: Set::empty(),
            write_set: set![Var::Global(global_index)],
        },
        _ => LabelView::empty(),
    }
}

/// The state of the scan, which runs from the last operator to the
/// first: the labels of the blocks that are open, those of the second
/// arm and of the first arm of an `if` apart; for each block whether its
/// `else` was seen; and the labels recorded so far.
pub struct Annotation {
    pub pending: Seq<LabelView>,
    pub branch: Seq<bool>,
    pub map: Map<usize, LabelView>,
}

/// The state before the operator `op` at position `i`, where `a` is the
/// state behind it. An `end` opens a block with an empty label; an `else`
/// starts the label of the first arm; the head of a block or loop closes
/// it and records its label; the head of an `if` does so with the labels
/// of its arms merged as a choice. Any other operator is merged into the
/// label of the innermost block. `None` where no block is open.
pub open spec fn annotate_step(a: Annotation, i: usize, op: Operator) -> Option<Annotation> {
    match op.shape() {
        Shape::End => Some(
            Annotation {
                pending: a.pending.push(LabelView::empty()),
                branch: a.branch.push(false),
                map: a.map,
            },
        ),
        Shape::Else => if a.branch.len() > 0 {
            Some(
                Annotation {
                    pending: a.pending.push(LabelView::empty()),
                    branch: a.branch.drop_last().push(true),
                    map: a.map,
                },
            )
        } else {
            None
        },
        Shape::If => if a.pending.len() > 0 && a.branch.len() > 0 {
            if a.branch.last() {
                if a.pending.len() > 1 {
                    Some(
                        Annotation {
                            pending: a.pending.drop_last().drop_last(),
                            branch: a.branch.drop_last(),
                            map: a.map.insert(
                                i,
                                a.pending.last().branch_merge(a.pending[a.pending.len() - 2]),
                            ),
                        },
                    )
                } else {
                    None
                }
            } else {
                Some(
                    Annotation {
                        pending: a.pending.drop_last(),
                        branch: a.branch.drop_last(),
                        map: a.map.insert(i, a.pending.last()),
                    },
                )
            }
        } else {
            None
        },
        Shape::Block | Shape::Loop => if a.pending.len() > 0 && a.branch.len() > 0 {
            Some(
                Annotation {
                    pending: a.pending.drop_last(),
                    branch: a.branch.drop_last(),
                    map: a.map.insert(i, a.pending.last()),
                },
            )
        } else {
            None
        },
        _ => if a.pending.len() > 0 {
            Some(
                Annotation {
                    pending: a.pending.drop_last().push(a.pending.last().linear_merge(operator_label(op))),
                    ..a
                },
            )
        } else {
            None
        },
    }
}

/// The state before the operator at position `k`, with the operators
/// from `k` on scanned.
pub open spec fn annotated(code: Seq<Operator>, k: int) -> Option<Annotation>
    decreases code.len() - k,
{
    if k >= code.len() {
        Some(Annotation { pending: Seq::empty(), branch: Seq::empty(), map: Map::empty() })
    } else {
        match annotated(code, k + 1) {
            Some(a) => annotate_step(a, k as usize, code[k]),
            None => None,
        }
    }
}

/// The labels of `code`: one at the head of each block, loop and `if`,
/// and the label of the code outside every block at `usize::MAX`. `None`
/// where the blocks of `code` do not match.
pub open spec fn annotation(code: Seq<Operator>) -> Option<Map<usize, LabelView>> {
    match annotated(code, 0) {
        Some(a) => if a.pending.len() > 0 {
            Some(a.map.insert(usize::MAX, a.pending.last()))
        } else {
            None
        },
        None => None,
    }
}

/// Once the scan has failed it stays failed.
pub proof fn lemma_annotated_stays_undefined(code: Seq<Operator>, k: int, m: int)
    requires
        0 <= m <= k,
        annotated(code, k) is None,
    ensures
        annotated(code, m) is None,
    decreases k - m,
{
    if m < k {
        lemma_annotated_stays_undefined(code, k, m + 1);
    }
}

/// The views of the labels of a stack.
pub open spec fn labels_view(stack: Seq<ReadWriteLabel>) -> Seq<LabelView> {
    Seq::new(stack.len(), |i: int| stack[i]@)
}

/// The views of the labels of a map.
pub open spec fn label_map_view(map: Map<usize, ReadWriteLabel>) -> Map<usize, LabelView> {
    Map::new(|k: usize| map.contains_key(k), |k: usize| map[k]@)
}

/// A pass that computes, for each block, loop and `if`, the variables it
/// reads and writes.
pub struct ReadWriteAnnotation {
    branch_stack: Vec<bool>,
    pending_stack: Vec<ReadWriteLabel>,
    result_map: HashMap<usize, ReadWriteLabel>,
    label_scratch: ReadWriteLabel,
}

impl Default for ReadWriteAnnotation {
    fn default() -> ReadWriteAnnotation {
        ReadWriteAnnotation {
            branch_stack: Vec::new(),
            pending_stack: Vec::new(),
            result_map: HashMap::new(),
            label_scratch: ReadWriteLabel::default(),
        }
    }
}

impl View for ReadWriteAnnotation {
    type V = Annotation;

    closed spec fn view(&self) -> Annotation {
        Annotation {
            pending: labels_view(self.pending_stack@),
            branch: self.branch_stack@,
            map: label_map_view(self.result_map@),
        }
    }
}

impl ReadWriteAnnotation {
    fn record(&mut self, key: usize, label: ReadWriteLabel)
        ensures
            final(self)@ == (Annotation { map: old(self)@.map.insert(key, label@), ..old(self)@ }),
    {
        self.result_map.insert(key, label);
        assert(label_map_view(self.result_map@) =~= label_map_view(old(self).result_map@).insert(key, label@));
    }

    fn pop_label(&mut self) -> (label: Option<ReadWriteLabel>)
        ensures
            match label {
                Some(l) => old(self)@.pending.len() > 0 && l@ == old(self)@.pending.last() && final(self)@ == (
                Annotation { pending: old(self)@.pending.drop_last(), ..old(self)@ }),
                None => old(self)@.pending.len() == 0 && final(self)@ == old(self)@,
            },
    {
        let label = self.pending_stack.pop();
        assert(labels_view(self.pending_stack@) =~= if label.is_some() {
            labels_view(old(self).pending_stack@).drop_last()
        } else {
            labels_view(old(self).pending_stack@)
        });
        label
    }

    fn push_label(&mut self, label: ReadWriteLabel)
        ensures
            final(self)@ == (Annotation { pending: old(self)@.pending.push(label@), ..old(self)@ }),
    {
        self.pending_stack.push(label);
        assert(labels_view(self.pending_stack@) =~= labels_view(old(self).pending_stack@).push(label@));
    }

    fn handle_block(&mut self, key: usize) -> (ok: bool)
        ensures
            ok == (old(self)@.pending.len() > 0 && old(self)@.branch.len() > 0),
            ok ==> final(self)@ == (Annotation {
                pending: old(self)@.pending.drop_last(),
                branch: old(self)@.branch.drop_last(),
                map: old(self)@.map.insert(key, old(self)@.pending.last()),
            }),
    {
        let popped = match self.pop_label() {
            Some(v) => v,
            None => return false,
        };
        if self.branch_stack.pop().is_none() {
            return false;
        }
        self.record(key, popped);
        true
    }

    fn handle_if(&mut self, key: usize) -> (ok: bool)
        ensures
            ok == annotate_step(old(self)@, key, Operator::If { blockty: crate::ast::operator::BlockType::Empty }).is_some(),
            ok ==> Some(final(self)@) == annotate_step(
                old(self)@,
                key,
                Operator::If { blockty: crate::ast::operator::BlockType::Empty },
            ),
    {
        let mut popped = match self.pop_label() {
            Some(v) => v,
            None => return false,
        };
        let merged = match self.branch_stack.pop() {
            Some(v) => v,
            None => return false,
        };
        if merged {
            let other = match self.pop_label() {
                Some(v) => v,
                None => return false,
            };
            popped.branch_merge(&other);
        }
        self.record(key, popped);
        true
    }

    fn handle_else(&mut self) -> (ok: bool)
        ensures
            ok == (old(self)@.branch.len() > 0),
            ok ==> final(self)@ == (Annotation {
                pending: old(self)@.pending.push(LabelView::empty()),
                branch: old(self)@.branch.drop_last().push(true),
                map: old(self)@.map,
            }),
    {
        let n = self.branch_stack.len();
        if n == 0 {
            return false;
        }
        self.push_label(ReadWriteLabel::default());
        self.branch_stack[n - 1] = true;
        assert(self.branch_stack@ =~= old(self).branch_stack@.drop_last().push(true));
        true
    }

    fn handle_end(&mut self)
        ensures
            final(self)@ == (Annotation {
                pending: old(self)@.pending.push(LabelView::empty()),
                branch: old(self)@.branch.push(false),
                map: old(self)@.map,
            }),
    {
        self.branch_stack.push(false);
        self.push_label(ReadWriteLabel::default());
    }

    /// Records in the scratch label what a single operator reads and
    /// writes.
    fn track_operation(&mut self, inst: &Operator)
        requires
            old(self).label_scratch@ == LabelView::empty(),
        ensures
            final(self).label_scratch@ == operator_label(*inst),
            final(self)@ == old(self)@,
    {
        match inst {
            Operator::LocalGet { local_index } => {
                self.label_scratch.add_read(Var::Local(*local_index));
            },
            Operator::LocalSet { local_index } => {
                self.label_scratch.add_write(Var::Local(*local_index));
            },
            Operator::LocalTee { local_index } => {
                self.label_scratch.add_read(Var::Local(*local_index));
                self.label_scratch.add_write(Var::Local(*local_index));
            },
            Operator::GlobalGet { global_index } => {
                self.label_scratch.add_read(Var::Global(*global_index));
            },
            Operator::GlobalSet { global_index } => {
                self.label_scratch.add_write(Var::Global(*global_index));
            },
            _ => {},
        }
        assert(self.label_scratch@.read_set =~= operator_label(*inst).read_set);
        assert(self.label_scratch@.write_set =~= operator_label(*inst).write_set);
    }

    /// Handles one operator of the scan.
    fn add_label(&mut self, key: usize, inst: &Operator) -> (ok: bool)
        ensures
            ok == annotate_step(old(self)@, key, *inst).is_some(),
            ok ==> Some(final(self)@) == annotate_step(old(self)@, key, *inst),
    {
        match inst.get_shape() {
            Shape::Block | Shape::Loop => self.handle_block(key),
            Shape::If => self.handle_if(key),
            Shape::Else => self.handle_else(),
            Shape::End => {
                self.handle_end();
                true
            },
            _ => {
                self.label_scratch.clear();
                self.track_operation(inst);
                let n = self.pending_stack.len();
                if n == 0 {
                    return false;
                }
                self.pending_stack[n - 1].linear_merge(&self.label_scratch);
                assert(labels_view(self.pending_stack@) =~= labels_view(old(self).pending_stack@).drop_last().push(
                    labels_view(old(self).pending_stack@).last().linear_merge(operator_label(*inst)),
                ));
                true
            },
        }
    }

    fn add_label_data(&mut self, code: &[Operator]) -> (ok: bool)
        requires
            old(self)@ == (Annotation { pending: Seq::empty(), branch: Seq::empty(), map: Map::empty() }),
        ensures
            ok == annotated(code@, 0).is_some(),
            ok ==> Some(final(self)@) == annotated(code@, 0),
    {
        let mut i: usize = code.len();
        while i > 0
            invariant
                i <= code.len(),
                annotated(code@, i as int) == Some(self@),
            decreases i,
        {
            i -= 1;
            if !self.add_label(i, &code[i]) {
                proof {
                    lemma_annotated_stays_undefined(code@, i as int, 0);
                }
                return false;
            }
        }
        true
    }

    fn add_last_label(&mut self) -> (ok: bool)
        ensures
            ok == (old(self)@.pending.len() > 0),
            ok ==> final(self)@.map == old(self)@.map.insert(usize::MAX, old(self)@.pending.last()),
    {
        let last = match self.pop_label() {
            Some(v) => v,
            None => return false,
        };
        self.record(usize::MAX, last);
        true
    }

    /// The labels of `code`, if its blocks match.
    pub fn try_run(&mut self, code: &[Operator]) -> (result: Option<HashMap<usize, ReadWriteLabel>>)
        ensures
            match annotation(code@) {
                Some(map) => result.is_some() && label_map_view(result.unwrap()@) == map,
                None => result.is_none(),
            },
    {
        self.branch_stack.clear();
        self.pending_stack.clear();
        self.label_scratch.clear();
        self.result_map = HashMap::new();
        assert(self@.pending =~= Seq::empty());
        assert(self@.map =~= Map::empty());
        if !self.add_label_data(code) {
            return None;
        }
        if !self.add_last_label() {
            return None;
        }
        let mut result: HashMap<usize, ReadWriteLabel> = HashMap::new();
        core::mem::swap(&mut self.result_map, &mut result);
        Some(result)
    }

    /// The labels of `code`.
    pub fn run(&mut self, code: &[Operator]) -> (result: HashMap<usize, ReadWriteLabel>)
        requires
            annotation(code@) is Some,
        ensures
            Some(label_map_view(result@)) == annotation(code@),
    {
        self.try_run(code).unwrap()
    }
}

} // verus!
