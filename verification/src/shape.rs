use vstd::prelude::*;

use smallvec::SmallVec;

verus! {

/// Dimensions held inline in the outside small-vector type.
#[verifier::external_body]
#[derive(Debug, PartialEq, Eq)]
pub struct DimVec {
    inner: SmallVec<[usize; 4]>,
}

/// Strides held inline in the outside small-vector type.
#[verifier::external_body]
#[derive(Debug, PartialEq, Eq)]
pub struct StrideVec {
    inner: SmallVec<[isize; 4]>,
}

/// The dimensions a `DimVec` holds, in order.
pub uninterp spec fn dims_items(v: DimVec) -> Seq<usize>;

/// The strides a `StrideVec` holds, in order.
pub uninterp spec fn stride_items(v: StrideVec) -> Seq<isize>;

/// `SmallVec::from_vec`: the new small vector holds the elements of `v`, in order.
#[verifier::external_body]
fn dims_from_vec(v: Vec<usize>) -> (r: DimVec)
    ensures
        dims_items(r) == v@,
{
    DimVec { inner: SmallVec::from_vec(v) }
}

/// `SmallVec::from_slice`: the new small vector holds the elements of `s`, in order.
#[verifier::external_body]
fn dims_from_slice(s: &[usize]) -> (r: DimVec)
    ensures
        dims_items(r) == s@,
{
    DimVec { inner: SmallVec::from_slice(s) }
}

/// `SmallVec::as_slice`: the slice shows the elements of the small vector, in order.
#[verifier::external_body]
fn dims_as_slice(v: &DimVec) -> (r: &[usize])
    ensures
        r@ == dims_items(*v),
{
    v.inner.as_slice()
}

/// `SmallVec::clone`: the copy holds the same elements, in order.
#[verifier::external_body]
fn dims_clone(v: &DimVec) -> (r: DimVec)
    ensures
        dims_items(r) == dims_items(*v),
{
    DimVec { inner: v.inner.clone() }
}

/// `SmallVec::from_vec`: the new small vector holds the elements of `v`, in order.
#[verifier::external_body]
fn strides_from_vec(v: Vec<isize>) -> (r: StrideVec)
    ensures
        stride_items(r) == v@,
{
    StrideVec { inner: SmallVec::from_vec(v) }
}

/// `SmallVec::as_slice`: the slice shows the elements of the small vector, in order.
#[verifier::external_body]
fn strides_as_slice(v: &StrideVec) -> (r: &[isize])
    ensures
        r@ == stride_items(*v),
{
    v.inner.as_slice()
}

/// `SmallVec::clone`: the copy holds the same elements, in order.
#[verifier::external_body]
fn strides_clone(v: &StrideVec) -> (r: StrideVec)
    ensures
        stride_items(r) == stride_items(*v),
{
    StrideVec { inner: v.inner.clone() }
}

/// The number of elements of a tensor with dimensions `dims`: their product.
pub open spec fn numel_of(dims: Seq<usize>) -> nat
    decreases dims.len(),
{
    if dims.len() == 0 {
        1
    } else {
        numel_of(dims.drop_last()) * (dims.last() as nat)
    }
}

/// The product of the dimensions from index `i` on.
pub open spec fn suffix_numel(dims: Seq<usize>, i: int) -> nat
    decreases dims.len() - i,
{
    if i >= dims.len() || i < 0 {
        1
    } else {
        (dims[i] as nat) * suffix_numel(dims, i + 1)
    }
}

/// Every running product of the dimensions, taken from the front, fits in a `usize`.
pub open spec fn prefix_products_fit(dims: Seq<usize>) -> bool {
    forall|k: int| 0 <= k <= dims.len() ==> numel_of(#[trigger] dims.take(k)) <= usize::MAX
}

/// Every running product of the dimensions, taken from the back, fits in an `isize`.
pub open spec fn suffix_products_fit(dims: Seq<usize>) -> bool {
    forall|i: int| 0 <= i <= dims.len() ==> #[trigger] suffix_numel(dims, i) <= isize::MAX
}

/// The dimensions of a tensor.
#[derive(Debug, PartialEq, Eq)]
pub struct Shape {
    dims: DimVec,
}

impl View for Shape {
    type V = Seq<usize>;

    closed spec fn view(&self) -> Seq<usize> {
        dims_items(self.dims)
    }
}

impl Clone for Shape {
    fn clone(&self) -> (r: Self)
        ensures
            r@ == self@,
    {
        Shape { dims: dims_clone(&self.dims) }
    }
}

impl Shape {
    /// A shape with the given dimensions.
    pub fn new(dims: Vec<usize>) -> (s: Self)
        ensures
            s@ == dims@,
    {
        Shape { dims: dims_from_vec(dims) }
    }

    /// A shape with the dimensions of a slice.
    pub fn from_slice(dims: &[usize]) -> (s: Self)
        ensures
            s@ == dims@,
    {
        Shape { dims: dims_from_slice(dims) }
    }

    /// The dimensions, outermost first.
    pub fn dims(&self) -> (d: &[usize])
        ensures
            d@ == self@,
    {
        dims_as_slice(&self.dims)
    }

    /// The number of elements: the product of the dimensions.
    pub fn numel(&self) -> (n: usize)
        requires
            prefix_products_fit(self@),
        ensures
            n == numel_of(self@),
    {
        let d = self.dims();
        let mut p: usize = 1;
        let mut i: usize = 0;
        while i < d.len()
            invariant
                i <= d@.len(),
                d@ == self@,
                prefix_products_fit(self@),
                p == numel_of(d@.take(i as int)),
            decreases d@.len() - i,
        {
            assert(d@.take(i + 1).drop_last() =~= d@.take(i as int));
            assert(numel_of(d@.take(i + 1)) <= usize::MAX);
            p = p * d[i];
            i = i + 1;
        }
        assert(d@.take(i as int) =~= d@);
        p
    }

    /// The number of dimensions.
    pub fn ndim(&self) -> (n: usize)
        ensures
            n == self@.len(),
    {
        self.dims().len()
    }
}

/// The row-major strides of `dims`: each dimension's stride is the product of the dimensions after it.
pub open spec fn contiguous_strides(dims: Seq<usize>) -> Seq<isize> {
    Seq::new(dims.len(), |i: int| suffix_numel(dims, i + 1) as isize)
}

/// The step, in elements, that each dimension takes through storage.
#[derive(Debug, PartialEq, Eq)]
pub struct Strides {
    strides: StrideVec,
}

impl View for Strides {
    type V = Seq<isize>;

    closed spec fn view(&self) -> Seq<isize> {
        stride_items(self.strides)
    }
}

impl Clone for Strides {
    fn clone(&self) -> (r: Self)
        ensures
            r@ == self@,
    {
        Strides { strides: strides_clone(&self.strides) }
    }
}

impl Strides {
    /// The row-major strides of a shape: the last dimension has stride 1, and each
    /// other dimension the product of the dimensions after it.
    pub fn contiguous(shape: &Shape) -> (s: Self)
        requires
            suffix_products_fit(shape@),
        ensures
            s@ == contiguous_strides(shape@),
    {
        let d = shape.dims();
        let n = d.len();
        let mut strides: Vec<isize> = Vec::new();
        let mut k: usize = 0;
        while k < n
            invariant
                k <= n,
                strides@.len() == k,
            decreases n - k,
        {
            strides.push(0);
            k = k + 1;
        }
        let mut stride: isize = 1;
        let mut i: usize = n;
        while i > 0
            invariant
                i <= n,
                n == d@.len(),
                d@ == shape@,
                suffix_products_fit(shape@),
                strides@.len() == n,
                stride == suffix_numel(d@, i as int),
                forall|j: int| i <= j < n ==> strides@[j] == suffix_numel(d@, j + 1) as isize,
            decreases i,
        {
            i = i - 1;
            strides.set(i, stride);
            let dim = d[i];
            assert(suffix_numel(d@, i as int) == (dim as nat) * suffix_numel(d@, i + 1));
            assert(suffix_numel(d@, i as int) <= isize::MAX);
            if stride == 0 {
                assert(suffix_numel(d@, i as int) == 0) by (nonlinear_arith)
                    requires
                        suffix_numel(d@, i as int) == (dim as nat) * suffix_numel(d@, i + 1),
                        suffix_numel(d@, i + 1) == 0,
                ;
            } else {
                assert(dim <= suffix_numel(d@, i as int)) by (nonlinear_arith)
                    requires
                        suffix_numel(d@, i as int) == (dim as nat) * suffix_numel(d@, i + 1),
                        suffix_numel(d@, i + 1) == stride,
                        stride >= 1,
                ;
                assert(stride * (dim as isize) == suffix_numel(d@, i as int)) by (nonlinear_arith)
                    requires
                        suffix_numel(d@, i as int) == (dim as nat) * suffix_numel(d@, i + 1),
                        suffix_numel(d@, i + 1) == stride,
                        dim <= isize::MAX,
                        dim as isize == dim,
                ;
                stride = stride * (dim as isize);
            }
        }
        assert(strides@ =~= contiguous_strides(shape@));
        Strides { strides: strides_from_vec(strides) }
    }

    /// The strides, outermost dimension first.
    pub fn strides(&self) -> (s: &[isize])
        ensures
            s@ == self@,
    {
        strides_as_slice(&self.strides)
    }
}

} // verus!
