use vstd::prelude::*;

use crate::dtype::TypeId;
use crate::shape::{contiguous_strides, numel_of, Shape};
use crate::tensor::{shape_fits, Tensor};

verus! {

/// The shapes `Tensor::zeros` can allocate: element count, byte count and strides all fit.
pub open spec fn zeros_fit(dims: Seq<usize>) -> bool {
    shape_fits(dims) && numel_of(dims) * 4 <= usize::MAX
}

/// `t` is a fresh contiguous tensor of 32-bit zeros with dimensions `dims`.
pub open spec fn is_zeros(t: Tensor, dims: Seq<usize>) -> bool {
    &&& t.spec_shape() == dims
    &&& t.spec_dtype() == TypeId::Float32
    &&& t.spec_strides() == contiguous_strides(dims)
    &&& t.spec_offset() == 0
    &&& t.spec_bytes() == Seq::new(numel_of(dims) * 4, |i: int| 0u8)
    &&& t.spec_grad() is None
}

/// A zero tensor of 32-bit floats with the given dimensions.
fn zeros_of(dims: Vec<usize>) -> (t: Tensor)
    requires
        zeros_fit(dims@),
    ensures
        is_zeros(t, dims@),
{
    Tensor::zeros(Shape::new(dims), TypeId::Float32)
}

fn dims2(a: usize, b: usize) -> (v: Vec<usize>)
    ensures
        v@ == seq![a, b],
{
    let mut v: Vec<usize> = Vec::new();
    v.push(a);
    v.push(b);
    assert(v@ =~= seq![a, b]);
    v
}

fn dims1(a: usize) -> (v: Vec<usize>)
    ensures
        v@ == seq![a],
{
    let mut v: Vec<usize> = Vec::new();
    v.push(a);
    assert(v@ =~= seq![a]);
    v
}

fn dims4(a: usize, b: usize, c: usize, d: usize) -> (v: Vec<usize>)
    ensures
        v@ == seq![a, b, c, d],
{
    let mut v: Vec<usize> = Vec::new();
    v.push(a);
    v.push(b);
    v.push(c);
    v.push(d);
    assert(v@ =~= seq![a, b, c, d]);
    v
}

/// The first two tensors of a layer: its weight, then its bias if it has one.
pub open spec fn weight_and_bias(weight: Tensor, bias: Option<Tensor>) -> Seq<Tensor> {
    match bias {
        Some(b) => seq![weight, b],
        None => seq![weight],
    }
}

fn params_of<'a>(weight: &'a Tensor, bias: &'a Option<Tensor>) -> (p: Vec<&'a Tensor>)
    ensures
        p@.len() == weight_and_bias(*weight, *bias).len(),
        forall|i: int| 0 <= i < p@.len() ==> *p@[i] == weight_and_bias(*weight, *bias)[i],
{
    let mut p: Vec<&Tensor> = Vec::new();
    p.push(weight);
    match bias {
        Some(b) => {
            p.push(b);
        },
        None => {},
    }
    p
}

/// A fully connected layer: `input x weight + bias`.
pub struct Linear {
    pub weight: Tensor,
    pub bias: Option<Tensor>,
}

impl Linear {
    /// A layer with an `[in_features, out_features]` zero weight and an `[out_features]` zero bias.
    pub fn new(in_features: usize, out_features: usize) -> (l: Self)
        requires
            zeros_fit(seq![in_features, out_features]),
            zeros_fit(seq![out_features]),
        ensures
            is_zeros(l.weight, seq![in_features, out_features]),
            l.bias matches Some(b) && is_zeros(b, seq![out_features]),
    {
        let weight = zeros_of(dims2(in_features, out_features));
        let bias = Some(zeros_of(dims1(out_features)));
        Linear { weight, bias }
    }

    /// The trainable tensors: the weight, then the bias if there is one.
    pub fn parameters(&self) -> (p: Vec<&Tensor>)
        ensures
            p@.len() == weight_and_bias(self.weight, self.bias).len(),
            forall|i: int| 0 <= i < p@.len() ==> *p@[i] == weight_and_bias(self.weight, self.bias)[i],
    {
        params_of(&self.weight, &self.bias)
    }
}

/// A 2-D convolution over `[batch, channels, height, width]` inputs.
pub struct Conv2d {
    pub weight: Tensor,
    pub bias: Option<Tensor>,
    pub stride: (usize, usize),
    pub padding: (usize, usize),
    pub groups: usize,
}

impl Conv2d {
    /// A convolution in one group, with an `[out, in, kh, kw]` zero weight and an `[out]` zero bias.
    pub fn new(
        in_channels: usize,
        out_channels: usize,
        kernel_size: (usize, usize),
        stride: (usize, usize),
        padding: (usize, usize),
    ) -> (c: Self)
        requires
            zeros_fit(seq![out_channels, in_channels, kernel_size.0, kernel_size.1]),
            zeros_fit(seq![out_channels]),
        ensures
            is_zeros(c.weight, seq![out_channels, in_channels, kernel_size.0, kernel_size.1]),
            c.bias matches Some(b) && is_zeros(b, seq![out_channels]),
            c.stride == stride,
            c.padding == padding,
            c.groups == 1,
    {
        let weight = zeros_of(dims4(out_channels, in_channels / 1, kernel_size.0, kernel_size.1));
        let bias = Some(zeros_of(dims1(out_channels)));
        Conv2d { weight, bias, stride, padding, groups: 1 }
    }

    /// Splits the channels into `groups` groups: the weight becomes a zero
    /// `[out, in / groups, kh, kw]` tensor, read from the first four dimensions of the old one.
    pub fn with_groups(self, groups: usize) -> (c: Self)
        requires
            groups > 0,
            self.weight.spec_shape().len() >= 4,
            zeros_fit(
                seq![
                    self.weight.spec_shape()[0],
                    (self.weight.spec_shape()[1] / groups) as usize,
                    self.weight.spec_shape()[2],
                    self.weight.spec_shape()[3],
                ],
            ),
        ensures
            c.groups == groups,
            is_zeros(
                c.weight,
                seq![
                    self.weight.spec_shape()[0],
                    (self.weight.spec_shape()[1] / groups) as usize,
                    self.weight.spec_shape()[2],
                    self.weight.spec_shape()[3],
                ],
            ),
            c.bias == self.bias,
            c.stride == self.stride,
            c.padding == self.padding,
    {
        let mut me = self;
        me.groups = groups;
        let d = me.weight.shape().dims();
        let out_channels = d[0];
        let in_channels_total = d[1] * 1;
        let k0 = d[2];
        let k1 = d[3];
        me.weight = zeros_of(dims4(out_channels, in_channels_total / groups, k0, k1));
        me
    }

    /// The trainable tensors: the weight, then the bias if there is one.
    pub fn parameters(&self) -> (p: Vec<&Tensor>)
        ensures
            p@.len() == weight_and_bias(self.weight, self.bias).len(),
            forall|i: int| 0 <= i < p@.len() ==> *p@[i] == weight_and_bias(self.weight, self.bias)[i],
    {
        params_of(&self.weight, &self.bias)
    }
}

/// A 2-D transposed convolution over `[batch, channels, height, width]` inputs.
pub struct ConvTranspose2d {
    pub weight: Tensor,
    pub bias: Option<Tensor>,
    pub stride: (usize, usize),
    pub padding: (usize, usize),
}

impl ConvTranspose2d {
    /// A transposed convolution with an `[in, out, kh, kw]` zero weight and an `[out]` zero bias.
    pub fn new(
        in_channels: usize,
        out_channels: usize,
        kernel_size: (usize, usize),
        stride: (usize, usize),
        padding: (usize, usize),
    ) -> (c: Self)
        requires
            zeros_fit(seq![in_channels, out_channels, kernel_size.0, kernel_size.1]),
            zeros_fit(seq![out_channels]),
        ensures
            is_zeros(c.weight, seq![in_channels, out_channels, kernel_size.0, kernel_size.1]),
            c.bias matches Some(b) && is_zeros(b, seq![out_channels]),
            c.stride == stride,
            c.padding == padding,
    {
        let weight = zeros_of(dims4(in_channels, out_channels, kernel_size.0, kernel_size.1));
        let bias = Some(zeros_of(dims1(out_channels)));
        ConvTranspose2d { weight, bias, stride, padding }
    }

    /// The trainable tensors: the weight, then the bias if there is one.
    pub fn parameters(&self) -> (p: Vec<&Tensor>)
        ensures
            p@.len() == weight_and_bias(self.weight, self.bias).len(),
            forall|i: int| 0 <= i < p@.len() ==> *p@[i] == weight_and_bias(self.weight, self.bias)[i],
    {
        params_of(&self.weight, &self.bias)
    }
}

} // verus!
