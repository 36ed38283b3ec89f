use vstd::prelude::*;

use std::sync::Arc;

use crate::device::Device;
use crate::dtype::TypeId;
use crate::shape::{contiguous_strides, numel_of, prefix_products_fit, suffix_products_fit, Shape, Strides};
use crate::storage::{CpuStorage, Storage};

verus! {

/// `Arc::clone`: a second handle to the same shared storage.
#[verifier::external_body]
fn share_storage(s: &Arc<Storage>) -> (r: Arc<Storage>)
    ensures
        r == *s,
{
    Arc::clone(s)
}

/// A dense tensor: shared bytes read through a shape, strides and an element type.
pub struct Tensor {
    storage: Arc<Storage>,
    shape: Shape,
    strides: Strides,
    offset: usize,
    dtype: TypeId,
    /// The gradient, once gradients are requested.
    pub grad: Option<Box<Tensor>>,
}

/// The shapes whose element count and row-major strides can be computed without overflow.
pub open spec fn shape_fits(dims: Seq<usize>) -> bool {
    prefix_products_fit(dims) && suffix_products_fit(dims)
}

impl Tensor {
    /// The dimensions.
    pub closed spec fn spec_shape(&self) -> Seq<usize> {
        self.shape@
    }

    /// The strides, in elements.
    pub closed spec fn spec_strides(&self) -> Seq<isize> {
        self.strides@
    }

    /// The offset of the first element in storage.
    pub closed spec fn spec_offset(&self) -> nat {
        self.offset as nat
    }

    /// The element type.
    pub closed spec fn spec_dtype(&self) -> TypeId {
        self.dtype
    }

    /// The gradient.
    pub closed spec fn spec_grad(&self) -> Option<Box<Tensor>> {
        self.grad
    }

    /// The bytes of the storage.
    pub closed spec fn spec_bytes(&self) -> Seq<u8> {
        self.storage.bytes()
    }

    /// A contiguous tensor on the CPU over the bytes `data`, read as elements of `dtype`.
    pub fn new(data: Vec<u8>, shape: Shape, dtype: TypeId) -> (t: Self)
        requires
            suffix_products_fit(shape@),
        ensures
            t.spec_shape() == shape@,
            t.spec_strides() == contiguous_strides(shape@),
            t.spec_offset() == 0,
            t.spec_dtype() == dtype,
            t.spec_bytes() == data@,
            t.spec_grad() is None,
    {
        let strides = Strides::contiguous(&shape);
        let storage = Arc::new(Storage::Cpu(CpuStorage::from_vec(data)));
        Tensor { storage, shape, strides, offset: 0, dtype, grad: None }
    }

    /// A contiguous tensor of zeros. Only 32-bit floats are supported: four zero bytes per element.
    pub fn zeros(shape: Shape, dtype: TypeId) -> (t: Self)
        requires
            dtype == TypeId::Float32,
            shape_fits(shape@),
            numel_of(shape@) * 4 <= usize::MAX,
        ensures
            t.spec_shape() == shape@,
            t.spec_strides() == contiguous_strides(shape@),
            t.spec_offset() == 0,
            t.spec_dtype() == dtype,
            t.spec_bytes() == Seq::new(numel_of(shape@) * 4, |i: int| 0u8),
            t.spec_grad() is None,
    {
        let numel = shape.numel();
        let n = numel * 4;
        let mut data: Vec<u8> = Vec::new();
        let mut k: usize = 0;
        while k < n
            invariant
                k <= n,
                data@ == Seq::new(k as nat, |i: int| 0u8),
            decreases n - k,
        {
            data.push(0);
            assert(data@ =~= Seq::new((k + 1) as nat, |i: int| 0u8));
            k = k + 1;
        }
        let storage = Arc::new(Storage::Cpu(CpuStorage::from_vec(data)));
        let strides = Strides::contiguous(&shape);
        Tensor { storage, shape, strides, offset: 0, dtype, grad: None }
    }

    /// Turns gradient tracking on or off. Turning it on gives a tensor without a gradient
    /// a zero gradient of its own shape and type; a gradient already there is kept.
    pub fn set_requires_grad(&mut self, requires_grad: bool)
        requires
            requires_grad && old(self).spec_grad() is None ==> {
                &&& old(self).spec_dtype() == TypeId::Float32
                &&& shape_fits(old(self).spec_shape())
                &&& numel_of(old(self).spec_shape()) * 4 <= usize::MAX
            },
        ensures
            final(self).spec_shape() == old(self).spec_shape(),
            final(self).spec_strides() == old(self).spec_strides(),
            final(self).spec_offset() == old(self).spec_offset(),
            final(self).spec_dtype() == old(self).spec_dtype(),
            final(self).spec_bytes() == old(self).spec_bytes(),
            !requires_grad ==> final(self).spec_grad() is None,
            requires_grad && old(self).spec_grad() is Some ==> final(self).spec_grad() == old(self).spec_grad(),
            requires_grad && old(self).spec_grad() is None ==> (final(self).spec_grad() matches Some(g) && {
                &&& g.spec_shape() == old(self).spec_shape()
                &&& g.spec_dtype() == old(self).spec_dtype()
                &&& g.spec_offset() == 0
                &&& g.spec_strides() == contiguous_strides(old(self).spec_shape())
                &&& g.spec_bytes() == Seq::new(numel_of(old(self).spec_shape()) * 4, |i: int| 0u8)
                &&& g.spec_grad() is None
            }),
    {
        if requires_grad {
            if self.grad.is_none() {
                let g = Tensor::zeros(self.shape.clone(), self.dtype);
                self.grad = Some(Box::new(g));
            }
        } else {
            self.grad = None;
        }
    }

    /// The shape.
    pub fn shape(&self) -> (s: &Shape)
        ensures
            s@ == self.spec_shape(),
    {
        &self.shape
    }

    /// The strides.
    pub fn strides(&self) -> (s: &Strides)
        ensures
            s@ == self.spec_strides(),
    {
        &self.strides
    }

    /// The element type.
    pub fn dtype(&self) -> (t: TypeId)
        ensures
            t == self.spec_dtype(),
    {
        self.dtype
    }

    /// The device the storage lives on.
    pub fn device(&self) -> (d: Device)
        ensures
            d == Device::Cpu,
    {
        self.storage.device()
    }

    /// A shared handle to the storage.
    pub fn storage(&self) -> (s: Arc<Storage>)
        ensures
            s.bytes() == self.spec_bytes(),
    {
        share_storage(&self.storage)
    }

    /// The bytes of the storage.
    pub fn bytes(&self) -> (b: &[u8])
        ensures
            b@ == self.spec_bytes(),
    {
        match &*self.storage {
            Storage::Cpu(s) => s.as_slice(),
        }
    }
}

} // verus!
