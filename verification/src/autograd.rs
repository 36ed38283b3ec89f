use vstd::prelude::*;

use std::sync::Arc;

use crate::tensor::Tensor;

verus! {

/// One recorded operation: its inputs and its output.
pub enum TapeOp {
    MatMul { lhs: Arc<Tensor>, rhs: Arc<Tensor>, output: Arc<Tensor> },
    Add { lhs: Arc<Tensor>, rhs: Arc<Tensor>, output: Arc<Tensor> },
}

/// The operations of a forward pass, in the order they ran.
pub struct Tape {
    pub operations: Vec<TapeOp>,
}

impl Tape {
    /// An empty tape.
    pub fn new() -> (t: Self)
        ensures
            t.operations@ == Seq::<TapeOp>::empty(),
    {
        Tape { operations: Vec::new() }
    }

    /// Appends `op` to the tape.
    pub fn record(&mut self, op: TapeOp)
        ensures
            final(self).operations@ == old(self).operations@.push(op),
    {
        self.operations.push(op);
    }
}

/// Runs the backward pass over a tape.
pub struct Engine {
    pub tape: Tape,
}

impl Engine {
    /// An engine with an empty tape.
    pub fn new() -> (e: Self)
        ensures
            e.tape.operations@ == Seq::<TapeOp>::empty(),
    {
        Engine { tape: Tape::new() }
    }

    /// Walks the tape from the last operation to the first. No gradient rule is implemented
    /// yet, so nothing is computed and nothing changes.
    pub fn backward(&self, _loss: &Tensor) {
        let ops = &self.tape.operations;
        let mut i: usize = ops.len();
        while i > 0
            invariant
                i <= ops@.len(),
            decreases i,
        {
            i = i - 1;
            match &ops[i] {
                TapeOp::MatMul { lhs: _, rhs: _, output: _ } => {},
                TapeOp::Add { lhs: _, rhs: _, output: _ } => {},
            }
        }
    }
}

} // verus!
