//! Removal of the operators that can never be executed.

use vstd::prelude::*;

use crate::ast::operator::{Operator, Shape};

verus! {

/// The depth of unreachable code behind an operator of shape `shape`,
/// where the depth before it is `depth`. Reachable code has depth zero. An
/// operator that leaves its block makes the rest of the block
/// unreachable; inside unreachable code every block counts, an `end`
/// closes one, and an `else` at depth one makes the second arm reachable.
pub open spec fn next_depth(depth: nat, shape: Shape) -> nat {
    if depth == 0 {
        if shape == Shape::Exit {
            1
        } else {
            0
        }
    } else {
        match shape {
            Shape::Block => depth + 1,
            Shape::Loop => depth + 1,
            Shape::If => depth + 1,
            Shape::Else => if depth == 1 {
                0
            } else {
                depth
            },
            Shape::End => (depth - 1) as nat,
            _ => depth,
        }
    }
}

/// Whether an operator of shape `shape` stays: it is reachable, or it is
/// the `else` or `end` that ends the unreachable code.
pub open spec fn kept(depth: nat, shape: Shape) -> bool {
    depth == 0 || next_depth(depth, shape) == 0
}

/// The depth of unreachable code behind the first `k` operators.
pub open spec fn depth_at(list: Seq<Operator>, k: int) -> nat
    decreases k,
{
    if k <= 0 {
        0
    } else {
        next_depth(depth_at(list, k - 1), list[k - 1].shape())
    }
}

/// Those of the first `k` operators that stay, in order.
pub open spec fn pruned(list: Seq<Operator>, k: int) -> Seq<Operator>
    decreases k,
{
    if k <= 0 {
        Seq::empty()
    } else if kept(depth_at(list, k - 1), list[k - 1].shape()) {
        pruned(list, k - 1).push(list[k - 1])
    } else {
        pruned(list, k - 1)
    }
}

/// The operators of `list` that stay.
pub open spec fn prune(list: Seq<Operator>) -> Seq<Operator> {
    pruned(list, list.len() as int)
}

/// The depth is at most the number of operators seen, and nothing is
/// added: the result is no longer than what was read.
pub proof fn lemma_pruned_bounds(list: Seq<Operator>, k: int)
    requires
        0 <= k <= list.len(),
    ensures
        depth_at(list, k) <= k,
        pruned(list, k).len() <= k,
    decreases k,
{
    if k > 0 {
        lemma_pruned_bounds(list, k - 1);
    }
}

/// What is decided for the first `k` operators does not depend on the
/// operators behind them.
pub proof fn lemma_pruned_local(a: Seq<Operator>, b: Seq<Operator>, k: int)
    requires
        0 <= k <= a.len(),
        k <= b.len(),
        forall|i: int| 0 <= i < k ==> a[i] == b[i],
    ensures
        depth_at(a, k) == depth_at(b, k),
        pruned(a, k) == pruned(b, k),
    decreases k,
{
    if k > 0 {
        lemma_pruned_local(a, b, k - 1);
    }
}

/// Behind the operators that stay, code is unreachable exactly where it
/// was, at depth one; and all of them stay when pruned again.
pub proof fn lemma_pruned_again(list: Seq<Operator>, k: int)
    requires
        0 <= k <= list.len(),
    ensures
        prune(pruned(list, k)) == pruned(list, k),
        depth_at(pruned(list, k), pruned(list, k).len() as int) == if depth_at(list, k) > 0 {
            1nat
        } else {
            0nat
        },
    decreases k,
{
    if k > 0 {
        lemma_pruned_again(list, k - 1);
        let before = pruned(list, k - 1);
        let after = pruned(list, k);
        let op = list[k - 1];
        if kept(depth_at(list, k - 1), op.shape()) {
            lemma_pruned_local(after, before, before.len() as int);
            assert(after.len() == before.len() + 1);
            assert(after[after.len() - 1] == op);
        }
    }
}

/// Pruning twice is pruning once.
pub proof fn lemma_prune_idempotent(list: Seq<Operator>)
    ensures
        prune(prune(list)) == prune(list),
        prune(list).len() <= list.len(),
{
    lemma_pruned_again(list, list.len() as int);
    lemma_pruned_bounds(list, list.len() as int);
}

/// A pass that removes unreachable operators. It removes what stands
/// between an operator that leaves its block and the end of that block.
#[derive(Default)]
pub struct DeadCodeElimination {
    nested_unreachable: usize,
}

impl DeadCodeElimination {
    /// The depth of unreachable code.
    pub closed spec fn depth(&self) -> nat {
        self.nested_unreachable as nat
    }

    /// Counts an operator in unreachable code.
    fn drop_unreachable(&mut self, op: &Operator)
        requires
            0 < old(self).depth() < usize::MAX,
        ensures
            final(self).depth() == next_depth(old(self).depth(), op.shape()),
    {
        match op.get_shape() {
            Shape::Block | Shape::Loop | Shape::If => {
                self.nested_unreachable += 1;
            },
            Shape::Else => {
                if self.nested_unreachable == 1 {
                    self.nested_unreachable -= 1;
                }
            },
            Shape::End => {
                self.nested_unreachable -= 1;
            },
            _ => {},
        }
    }

    /// Notes an operator in reachable code that leaves its block.
    fn maybe_end_of_block(&mut self, op: &Operator)
        requires
            old(self).depth() == 0,
        ensures
            final(self).depth() == next_depth(0, op.shape()),
    {
        match op.get_shape() {
            Shape::Exit => {
                self.nested_unreachable += 1;
            },
            _ => {},
        }
    }

    pub fn is_reachable(&self) -> (r: bool)
        ensures
            r == (self.depth() == 0),
    {
        self.nested_unreachable == 0
    }

    fn run_tracking(&mut self, list: Vec<Operator>) -> (remaining: Vec<Operator>)
        requires
            old(self).depth() == 0,
        ensures
            remaining@ == prune(list@),
    {
        let mut remaining: Vec<Operator> = Vec::with_capacity(list.len());
        let ghost all = list@;
        assert(all.len() == list.len());
        for op in it: list.into_iter()
            invariant
                it.seq() == all,
                all.len() <= usize::MAX,
                self.depth() == depth_at(all, it.index()),
                remaining@ == pruned(all, it.index()),
        {
            proof {
                lemma_pruned_bounds(all, it.index());
            }
            let reachable = if self.is_reachable() {
                self.maybe_end_of_block(&op);
                true
            } else {
                self.drop_unreachable(&op);
                self.is_reachable()
            };
            if reachable {
                remaining.push(op);
            }
        }
        remaining
    }

    /// The operators of `list` without those that can never be executed.
    pub fn run(list: Vec<Operator>) -> (remaining: Vec<Operator>)
        ensures
            remaining@ == prune(list@),
            prune(remaining@) == remaining@,
            remaining.len() <= list.len(),
    {
        let mut handler = DeadCodeElimination { nested_unreachable: 0 };
        proof {
            lemma_prune_idempotent(list@);
        }
        handler.run_tracking(list)
    }
}

} // verus!
