use vstd::prelude::*;

use crate::tensor::Tensor;

verus! {

/// A decision tree, grown to at most `max_depth` levels.
#[derive(Debug, Clone, Copy, PartialEq, Eq, Structural)]
pub struct DecisionTree {
    pub max_depth: usize,
}

impl DecisionTree {
    /// An unfitted tree with the given depth limit.
    pub fn new(max_depth: usize) -> (t: Self)
        ensures
            t.max_depth == max_depth,
    {
        DecisionTree { max_depth }
    }

    /// Fitting is not implemented: the tree is left as it was.
    pub fn fit(&mut self, _x: &Tensor, _y: &Tensor)
        ensures
            *final(self) == *old(self),
    {
    }
}

/// `n` unfitted trees, each with depth limit `max_depth`.
pub open spec fn unfitted_trees(n: nat, max_depth: usize) -> Seq<DecisionTree> {
    Seq::new(n, |i: int| DecisionTree { max_depth })
}

/// Builds `n_estimators` unfitted trees, each with depth limit `max_depth`.
pub fn build_trees(n_estimators: usize, max_depth: usize) -> (trees: Vec<DecisionTree>)
    ensures
        trees@ == unfitted_trees(n_estimators as nat, max_depth),
{
    let mut trees: Vec<DecisionTree> = Vec::new();
    let mut i: usize = 0;
    while i < n_estimators
        invariant
            i <= n_estimators,
            trees@ == unfitted_trees(i as nat, max_depth),
        decreases n_estimators - i,
    {
        trees.push(DecisionTree::new(max_depth));
        assert(trees@ =~= unfitted_trees((i + 1) as nat, max_depth));
        i = i + 1;
    }
    trees
}

/// An ensemble of decision trees.
pub struct RandomForest {
    pub trees: Vec<DecisionTree>,
}

impl RandomForest {
    /// A forest of `n_estimators` unfitted trees, each with depth limit `max_depth`.
    pub fn new(n_estimators: usize, max_depth: usize) -> (f: Self)
        ensures
            f.trees@ == unfitted_trees(n_estimators as nat, max_depth),
    {
        RandomForest { trees: build_trees(n_estimators, max_depth) }
    }

    /// Fitting is not implemented: the forest is left as it was.
    pub fn fit(&mut self, _x: &Tensor, _y: &Tensor)
        ensures
            final(self).trees@ == old(self).trees@,
    {
    }
}

} // verus!
