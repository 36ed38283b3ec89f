use vstd::prelude::*;

verus! {

/// The metadata saved with a model.
pub struct Checkpoint {
    pub version: String,
    pub model_name: String,
}

} // verus!
