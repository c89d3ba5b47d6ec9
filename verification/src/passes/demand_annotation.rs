//! The variables whose values are still needed where a block begins.

use std::collections::HashMap;

use vstd::prelude::*;
use vstd::std_specs::iter::IteratorSpec;

use super::boundary_tracking::BoundaryType;
use super::read_write_annotation::{label_map_view, LabelView, ReadWriteLabel, Var, VarSet};
use crate::ast::operator::{Operator, Shape};

verus! {

broadcast use vstd::std_specs::hash::group_hash_axioms;

/// The state of the scan, which runs from the last operator to the
/// first: the label of the code behind the current position, the labels
/// put aside for the first arms of the `if`s that are open, and the
/// demands recorded so far.
pub struct Demand {
    pub scratch: LabelView,
    pub stack: Seq<LabelView>,
    pub map: Map<usize, Set<Var>>,
}

/// The demands before the scan: none, at every position that has a label.
pub open spec fn no_demands(labels: Map<usize, LabelView>) -> Map<usize, Set<Var>> {
    Map::new(|k: usize| labels.contains_key(k), |k: usize| Set::empty())
}

/// The state in which the label at `key` was merged, as code that runs
/// earlier, into the label of the code behind it, and the reads of the
/// result recorded at `key`. `None` where there is no label at `key`.
pub open spec fn demand_block(d: Demand, key: usize, labels: Map<usize, LabelView>) -> Option<Demand> {
    if labels.contains_key(key) {
        let scratch = d.scratch.linear_merge(labels[key]);
        Some(Demand { scratch, stack: d.stack, map: d.map.insert(key, scratch.read_set) })
    } else {
        None
    }
}

/// The state before the operator of shape `shape` at position `i`, where
/// `d` is the state behind it. At the `end` of a loop the reads of the
/// loop become needed, for the next round; at the `end` of an `if` with
/// two arms the label is put aside, and at the `else` it is taken up
/// again, so that both arms start from what is needed behind the `if`.
/// The head of a block or an `if` merges its label and records what is
/// then read; the head of a loop adds its reads and records. `None` where
/// a label or a label put aside is missing.
pub open spec fn demand_step(d: Demand, i: usize, shape: Shape, boundary: Map<usize, BoundaryType>, labels: Map<usize, LabelView>) -> Option<Demand> {
    match shape {
        Shape::Block => demand_block(d, i, labels),
        Shape::If => demand_block(d, i, labels),
        Shape::Loop => if labels.contains_key(i) {
            let scratch = d.scratch.read_extend(labels[i].read_set);
            Some(Demand { scratch, stack: d.stack, map: d.map.insert(i, scratch.read_set) })
        } else {
            None
        },
        Shape::Else => if d.stack.len() > 0 {
            Some(Demand { scratch: d.stack.last(), stack: d.stack.drop_last(), map: d.map })
        } else {
            None
        },
        Shape::End => if boundary.contains_key(i) {
            match boundary[i] {
                BoundaryType::Loop { start } => if labels.contains_key(start) {
                    Some(Demand { scratch: d.scratch.read_extend(labels[start].read_set), ..d })
                } else {
                    None
                },
                BoundaryType::Else => Some(Demand { stack: d.stack.push(d.scratch), ..d }),
            }
        } else {
            Some(d)
        },
        _ => Some(d),
    }
}

/// The state before the operator at position `k`, with the operators
/// from `k` on scanned.
pub open spec fn demanded(code: Seq<Operator>, k: int, boundary: Map<usize, BoundaryType>, labels: Map<usize, LabelView>) -> Option<Demand>
    decreases code.len() - k,
{
    if k >= code.len() {
        Some(Demand { scratch: LabelView::empty(), stack: Seq::empty(), map: no_demands(labels) })
    } else {
        match demanded(code, k + 1, boundary, labels) {
            Some(d) => demand_step(d, k as usize, code[k].shape(), boundary, labels),
            None => None,
        }
    }
}

/// The demands of `code`: at the head of each block, loop and `if` the
/// variables that are read from there on before they are written, and at
/// `usize::MAX` those of the whole code. Every other position that has a
/// label has no demands.
pub open spec fn demands(code: Seq<Operator>, boundary: Map<usize, BoundaryType>, labels: Map<usize, LabelView>) -> Option<Map<usize, Set<Var>>> {
    match demanded(code, 0, boundary, labels) {
        Some(d) => match demand_block(d, usize::MAX, labels) {
            Some(last) => Some(last.map),
            None => None,
        },
        None => None,
    }
}

/// Once the scan has failed it stays failed.
pub proof fn lemma_demanded_stays_undefined(code: Seq<Operator>, k: int, m: int, boundary: Map<usize, BoundaryType>, labels: Map<usize, LabelView>)
    requires
        0 <= m <= k,
        demanded(code, k, boundary, labels) is None,
    ensures
        demanded(code, m, boundary, labels) is None,
    decreases k - m,
{
    if m < k {
        lemma_demanded_stays_undefined(code, k, m + 1, boundary, labels);
    }
}

/// The views of the sets of a map.
pub open spec fn set_map_view(map: Map<usize, VarSet>) -> Map<usize, Set<Var>> {
    Map::new(|k: usize| map.contains_key(k), |k: usize| map[k]@)
}

/// The views of the labels of a stack.
pub open spec fn stack_view(stack: Seq<ReadWriteLabel>) -> Seq<LabelView> {
    Seq::new(stack.len(), |i: int| stack[i]@)
}

/// A pass that computes, for each block, loop and `if`, the variables
/// whose values must be kept across its head.
pub struct DemandAnnotation {
    label_scratch: ReadWriteLabel,
    label_stack: Vec<ReadWriteLabel>,
    result_map: HashMap<usize, VarSet>,
}

impl Default for DemandAnnotation {
    fn default() -> DemandAnnotation {
        DemandAnnotation {
            label_scratch: ReadWriteLabel::default(),
            label_stack: Vec::new(),
            result_map: HashMap::new(),
        }
    }
}

impl View for DemandAnnotation {
    type V = Demand;

    closed spec fn view(&self) -> Demand {
        Demand {
            scratch: self.label_scratch@,
            stack: stack_view(self.label_stack@),
            map: set_map_view(self.result_map@),
        }
    }
}

impl DemandAnnotation {
    /// Records an empty demand at every position that has a label.
    pub fn fill_indices(&mut self, label_map: &HashMap<usize, ReadWriteLabel>)
        requires
            old(self)@.map == Map::<usize, Set<Var>>::empty(),
        ensures
            final(self)@ == (Demand { map: no_demands(label_map_view(label_map@)), ..old(self)@ }),
    {
        let ghost keys = label_map@.dom();
        let ghost all = label_map.keys().remaining();
        let ghost mut count: int = 0;
        assert forall|k: usize| !self.result_map@.contains_key(k) by {
            assert(!self@.map.contains_key(k));
        }
        for key in it: label_map.keys()
            invariant
                it.seq() == all,
                count == it.index(),
                all.unref().to_set() == keys,
                keys == label_map@.dom(),
                self.label_scratch == old(self).label_scratch,
                self.label_stack == old(self).label_stack,
                forall|k: usize|
                    self.result_map@.contains_key(k) <==> exists|j: int|
                        0 <= j < count && *(#[trigger] all[j]) == k,
                forall|k: usize| self.result_map@.contains_key(k) ==> (#[trigger] self.result_map@[k])@
                    == Set::<Var>::empty(),
        {
            let ghost before = self.result_map@;
            self.result_map.insert(*key, VarSet::new());
            proof {
                assert forall|k: usize|
                    self.result_map@.contains_key(k) <==> exists|j: int|
                        0 <= j < count + 1 && *(#[trigger] all[j]) == k by {
                    if before.contains_key(k) {
                        let j = choose|j: int| 0 <= j < count && *(#[trigger] all[j]) == k;
                        assert(0 <= j < count + 1 && *all[j] == k);
                    }
                    if k == *key {
                        assert(*all[count] == k);
                    }
                }
                count = count + 1;
            }
        }
        proof {
            assert(count == all.len());
            assert forall|k: usize| self.result_map@.contains_key(k) <==> keys.contains(k) by {
                if self.result_map@.contains_key(k) {
                    let j = choose|j: int| 0 <= j < all.len() && *(#[trigger] all[j]) == k;
                    assert(all.unref()[j] == k);
                    assert(all.unref().to_set().contains(k));
                }
                if keys.contains(k) {
                    assert(all.unref().to_set().contains(k));
                    let j = choose|j: int| 0 <= j < all.unref().len() && all.unref()[j] == k;
                    assert(*all[j] == k);
                }
            }
            assert(self@.map =~= no_demands(label_map_view(label_map@)));
        }
    }

    /// Records the reads of the scratch label at `key`.
    pub fn patch_result(&mut self, key: usize)
        ensures
            final(self)@ == (Demand { map: old(self)@.map.insert(key, old(self)@.scratch.read_set), ..old(self)@ }),
    {
        let set = self.label_scratch.read_set().clone();
        self.result_map.insert(key, set);
        assert(self@.map =~= old(self)@.map.insert(key, old(self)@.scratch.read_set));
    }

    pub fn handle_block(&mut self, key: usize, label_map: &HashMap<usize, ReadWriteLabel>) -> (ok: bool)
        ensures
            ok == demand_block(old(self)@, key, label_map_view(label_map@)).is_some(),
            ok ==> Some(final(self)@) == demand_block(old(self)@, key, label_map_view(label_map@)),
    {
        match label_map.get(&key) {
            Some(label) => {
                self.label_scratch.linear_merge(label);
                self.patch_result(key);
                true
            },
            None => false,
        }
    }

    pub fn handle_loop(&mut self, key: usize, label_map: &HashMap<usize, ReadWriteLabel>) -> (ok: bool)
        ensures
            ok == demand_step(
                old(self)@,
                key,
                Shape::Loop,
                Map::empty(),
                label_map_view(label_map@),
            ).is_some(),
            ok ==> Some(final(self)@) == demand_step(
                old(self)@,
                key,
                Shape::Loop,
                Map::empty(),
                label_map_view(label_map@),
            ),
    {
        match label_map.get(&key) {
            Some(label) => {
                self.label_scratch.read_extend(label.read_set());
                self.patch_result(key);
                true
            },
            None => false,
        }
    }

    pub fn handle_if(&mut self, key: usize, label_map: &HashMap<usize, ReadWriteLabel>) -> (ok: bool)
        ensures
            ok == demand_block(old(self)@, key, label_map_view(label_map@)).is_some(),
            ok ==> Some(final(self)@) == demand_block(old(self)@, key, label_map_view(label_map@)),
    {
        self.handle_block(key, label_map)
    }

    pub fn handle_else(&mut self) -> (ok: bool)
        ensures
            ok == (old(self)@.stack.len() > 0),
            ok ==> final(self)@ == (Demand {
                scratch: old(self)@.stack.last(),
                stack: old(self)@.stack.drop_last(),
                map: old(self)@.map,
            }),
    {
        match self.label_stack.pop() {
            Some(reset) => {
                assert(stack_view(self.label_stack@) =~= stack_view(old(self).label_stack@).drop_last());
                self.label_scratch = reset;
                true
            },
            None => false,
        }
    }

    pub fn handle_end(&mut self, key: usize, boundary_map: &HashMap<usize, BoundaryType>, label_map: &HashMap<usize, ReadWriteLabel>) -> (ok: bool)
        ensures
            ok == demand_step(
                old(self)@,
                key,
                Shape::End,
                boundary_map@,
                label_map_view(label_map@),
            ).is_some(),
            ok ==> Some(final(self)@) == demand_step(
                old(self)@,
                key,
                Shape::End,
                boundary_map@,
                label_map_view(label_map@),
            ),
    {
        match boundary_map.get(&key) {
            Some(BoundaryType::Loop { start }) => match label_map.get(start) {
                Some(label) => {
                    self.label_scratch.read_extend(label.read_set());
                    true
                },
                None => false,
            },
            Some(BoundaryType::Else) => {
                let clone = self.label_scratch.clone();
                self.label_stack.push(clone);
                assert(stack_view(self.label_stack@) =~= stack_view(old(self).label_stack@).push(clone@));
                true
            },
            None => true,
        }
    }

    fn run_tracking(&mut self, code: &[Operator], boundary_map: &HashMap<usize, BoundaryType>, label_map: &HashMap<usize, ReadWriteLabel>) -> (ok: bool)
        requires
            old(self)@ == (Demand {
                scratch: LabelView::empty(),
                stack: Seq::empty(),
                map: no_demands(label_map_view(label_map@)),
            }),
        ensures
            ok == demanded(code@, 0, boundary_map@, label_map_view(label_map@)).is_some(),
            ok ==> Some(final(self)@) == demanded(code@, 0, boundary_map@, label_map_view(label_map@)),
    {
        let mut i: usize = code.len();
        while i > 0
            invariant
                i <= code.len(),
                demanded(code@, i as int, boundary_map@, label_map_view(label_map@)) == Some(self@),
            decreases i,
        {
            i -= 1;
            let ok = match code[i].get_shape() {
                Shape::Block => self.handle_block(i, label_map),
                Shape::Loop => self.handle_loop(i, label_map),
                Shape::If => self.handle_if(i, label_map),
                Shape::Else => self.handle_else(),
                Shape::End => self.handle_end(i, boundary_map, label_map),
                _ => true,
            };
            if !ok {
                proof {
                    lemma_demanded_stays_undefined(
                        code@,
                        i as int,
                        0,
                        boundary_map@,
                        label_map_view(label_map@),
                    );
                }
                return false;
            }
        }
        true
    }

    /// The demands of `code`, if the labels and the labels put aside that
    /// the scan asks for are there.
    pub fn try_run(&mut self, code: &[Operator], boundary_map: &HashMap<usize, BoundaryType>, label_map: &HashMap<usize, ReadWriteLabel>) -> (result: Option<HashMap<usize, VarSet>>)
        ensures
            match demands(code@, boundary_map@, label_map_view(label_map@)) {
                Some(map) => result.is_some() && set_map_view(result.unwrap()@) == map,
                None => result.is_none(),
            },
    {
        self.label_scratch.clear();
        self.label_stack.clear();
        self.result_map = HashMap::new();
        assert(self@.stack =~= Seq::empty());
        assert(self@.map =~= Map::empty());
        self.fill_indices(label_map);
        if !self.run_tracking(code, boundary_map, label_map) {
            return None;
        }
        if !self.handle_block(usize::MAX, label_map) {
            return None;
        }
        let mut result: HashMap<usize, VarSet> = HashMap::new();
        core::mem::swap(&mut self.result_map, &mut result);
        Some(result)
    }

    /// The demands of `code`.
    pub fn run(&mut self, code: &[Operator], boundary_map: &HashMap<usize, BoundaryType>, label_map: &HashMap<usize, ReadWriteLabel>) -> (result: HashMap<usize, VarSet>)
        requires
            demands(code@, boundary_map@, label_map_view(label_map@)) is Some,
        ensures
            Some(set_map_view(result@)) == demands(code@, boundary_map@, label_map_view(label_map@)),
    {
        self.try_run(code, boundary_map, label_map).unwrap()
    }
}

} // verus!
