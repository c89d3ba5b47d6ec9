//! Classification of the ends of blocks.

use std::collections::HashMap;

use vstd::prelude::*;

use crate::ast::operator::{Operator, Shape};

verus! {

broadcast use vstd::std_specs::hash::group_hash_axioms;

/// What an `end` closes, where that matters later: a loop, with the
/// position of its head, or an `if` with two arms.
#[derive(PartialEq, Eq, Hash, Clone, Copy, Debug, Structural)]
pub enum BoundaryType {
    Loop { start: usize },
    Else,
}

/// The state of the scan: a marker for each open block, and the ends
/// classified so far.
pub struct Tracking {
    pub stack: Seq<Option<BoundaryType>>,
    pub map: Map<usize, BoundaryType>,
}

/// The state behind an operator of shape `shape` at position `i`. A block
/// or an `if` opens with no marker and a loop with its position; an
/// `else` marks the innermost block; an `end` closes it and records its
/// marker, if it has one, at the position of the `end`. `None` where no
/// block is open for an `else` or an `end`.
pub open spec fn track_step(t: Tracking, i: usize, shape: Shape) -> Option<Tracking> {
    match shape {
        Shape::Block => Some(Tracking { stack: t.stack.push(None), ..t }),
        Shape::If => Some(Tracking { stack: t.stack.push(None), ..t }),
        Shape::Loop => Some(Tracking { stack: t.stack.push(Some(BoundaryType::Loop { start: i })), ..t }),
        Shape::Else => if t.stack.len() > 0 {
            Some(Tracking { stack: t.stack.drop_last().push(Some(BoundaryType::Else)), ..t })
        } else {
            None
        },
        Shape::End => if t.stack.len() > 0 {
            Some(
                Tracking {
                    stack: t.stack.drop_last(),
                    map: match t.stack.last() {
                        Some(boundary) => t.map.insert(i, boundary),
                        None => t.map,
                    },
                },
            )
        } else {
            None
        },
        _ => Some(t),
    }
}

/// The state behind the first `k` operators of `code`.
pub open spec fn scanned(code: Seq<Operator>, k: int) -> Option<Tracking>
    decreases k,
{
    if k <= 0 {
        Some(Tracking { stack: Seq::empty(), map: Map::empty() })
    } else {
        match scanned(code, k - 1) {
            Some(t) => track_step(t, (k - 1) as usize, code[k - 1].shape()),
            None => None,
        }
    }
}

/// The classified ends of `code`; `None` where an `else` or an `end` has
/// no block to belong to.
pub open spec fn boundaries(code: Seq<Operator>) -> Option<Map<usize, BoundaryType>> {
    match scanned(code, code.len() as int) {
        Some(t) => Some(t.map),
        None => None,
    }
}

/// Once the scan has failed it stays failed.
pub proof fn lemma_scan_stays_undefined(code: Seq<Operator>, k: int, m: int)
    requires
        0 <= k <= m,
        scanned(code, k) is None,
    ensures
        scanned(code, m) is None,
    decreases m - k,
{
    if k < m {
        lemma_scan_stays_undefined(code, k, m - 1);
    }
}

/// A pass that records, for the `end` of each loop and of each `if` with
/// two arms, what it closes.
pub struct BoundaryTracking {
    pending_stack: Vec<Option<BoundaryType>>,
    result_map: HashMap<usize, BoundaryType>,
}

impl Default for BoundaryTracking {
    fn default() -> BoundaryTracking {
        BoundaryTracking { pending_stack: Vec::new(), result_map: HashMap::new() }
    }
}

impl BoundaryTracking {
    fn run_tracking(&mut self, code: &[Operator]) -> (ok: bool)
        requires
            old(self).pending_stack@ == Seq::<Option<BoundaryType>>::empty(),
            old(self).result_map@ == Map::<usize, BoundaryType>::empty(),
        ensures
            ok == scanned(code@, code.len() as int).is_some(),
            ok ==> final(self).result_map@ == scanned(code@, code.len() as int).unwrap().map,
    {
        let mut i: usize = 0;
        while i < code.len()
            invariant
                i <= code.len(),
                scanned(code@, i as int) == Some(
                    Tracking { stack: self.pending_stack@, map: self.result_map@ },
                ),
            decreases code.len() - i,
        {
            let ghost before = self.pending_stack@;
            match code[i].get_shape() {
                Shape::Block | Shape::If => {
                    self.pending_stack.push(None);
                },
                Shape::Loop => {
                    self.pending_stack.push(Some(BoundaryType::Loop { start: i }));
                },
                Shape::Else => {
                    let n = self.pending_stack.len();
                    if n == 0 {
                        proof {
                            lemma_scan_stays_undefined(code@, i + 1, code.len() as int);
                        }
                        return false;
                    }
                    self.pending_stack[n - 1] = Some(BoundaryType::Else);
                    assert(self.pending_stack@ =~= before.drop_last().push(Some(BoundaryType::Else)));
                },
                Shape::End => {
                    match self.pending_stack.pop() {
                        Some(boundary) => {
                            if let Some(boundary) = boundary {
                                self.result_map.insert(i, boundary);
                            }
                        },
                        None => {
                            proof {
                                lemma_scan_stays_undefined(code@, i + 1, code.len() as int);
                            }
                            return false;
                        },
                    }
                },
                _ => {},
            }
            i += 1;
        }
        true
    }

    /// The classified ends of `code`, if every `else` and `end` has a
    /// block to belong to.
    pub fn try_run(&mut self, code: &[Operator]) -> (result: Option<HashMap<usize, BoundaryType>>)
        ensures
            match boundaries(code@) {
                Some(map) => result.is_some() && result.unwrap()@ == map,
                None => result.is_none(),
            },
    {
        self.pending_stack.clear();
        self.result_map = HashMap::new();
        if !self.run_tracking(code) {
            return None;
        }
        let mut result: HashMap<usize, BoundaryType> = HashMap::new();
        core::mem::swap(&mut self.result_map, &mut result);
        Some(result)
    }

    /// The classified ends of `code`.
    pub fn run(&mut self, code: &[Operator]) -> (result: HashMap<usize, BoundaryType>)
        requires
            boundaries(code@) is Some,
        ensures
            Some(result@) == boundaries(code@),
    {
        self.try_run(code).unwrap()
    }
}

} // verus!
