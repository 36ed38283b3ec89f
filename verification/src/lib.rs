//! A machine-learning toolkit core: tensors over byte storage, the shape and layout rules of
//! the CPU kernels, an IR builder, layer constructors, and a GGUF encoder.

pub mod autograd;
pub mod bytes;
pub mod checkpoint;
pub mod device;
pub mod dtype;
pub mod error;
pub mod gguf;
pub mod ir;
pub mod layout;
pub mod nn;
pub mod ops;
pub mod pgm;
pub mod shape;
pub mod storage;
pub mod tensor;
pub mod tree;

pub use device::Device;
pub use dtype::{DType, TypeId};
pub use error::{Error, Result};
pub use shape::{Shape, Strides};
pub use storage::{CpuStorage, Storage};
pub use tensor::Tensor;
