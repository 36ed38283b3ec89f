use vstd::prelude::*;

use crate::dtype::TypeId;
use crate::layout::{
    coords_of, lemma_coords_of_valid, lemma_linear_index_valid, lemma_numel_positive,
    lemma_numel_swap, lemma_transposed_index, lemma_transposed_injective, linear_index, swap_entries, transposed_index,
    valid_coords,
};
use crate::shape::{numel_of, prefix_products_fit, suffix_products_fit, Shape};
use crate::tensor::Tensor;

verus! {

/// The four bytes of the 32-bit element at position `i`.
pub open spec fn elem4(bytes: Seq<u8>, i: int) -> Seq<u8> {
    bytes.subrange(4 * i, 4 * i + 4)
}

/// Exchanges dimensions `dim0` and `dim1` of a tensor of 32-bit elements.
///
/// The element at row-major position `i` of the input moves to the position of its
/// coordinates, with the two coordinates exchanged, in the output's shape. The output is a
/// contiguous tensor of 32-bit floats holding `4 * numel` bytes.
pub fn transpose(input: &Tensor, dim0: usize, dim1: usize) -> (out: Tensor)
    requires
        dim0 < input.spec_shape().len(),
        dim1 < input.spec_shape().len(),
        prefix_products_fit(input.spec_shape()),
        suffix_products_fit(swap_entries(input.spec_shape(), dim0 as int, dim1 as int)),
        input.spec_bytes().len() % 4 == 0,
        input.spec_bytes().len() >= 4 * numel_of(input.spec_shape()),
    ensures
        out.spec_shape() == swap_entries(input.spec_shape(), dim0 as int, dim1 as int),
        out.spec_dtype() == TypeId::Float32,
        out.spec_offset() == 0,
        out.spec_bytes().len() == 4 * numel_of(input.spec_shape()),
        forall|i: int|
            0 <= i < numel_of(input.spec_shape()) ==> elem4(
                out.spec_bytes(),
                #[trigger] transposed_index(input.spec_shape(), dim0 as int, dim1 as int, i),
            ) == elem4(input.spec_bytes(), i),
{
    let in_shape = input.shape().dims();
    let ndim = in_shape.len();
    let ghost dims = in_shape@;
    let ghost sdims = swap_entries(dims, dim0 as int, dim1 as int);
    let mut out_shape: Vec<usize> = Vec::new();
    let mut k: usize = 0;
    while k < ndim
        invariant
            k <= ndim,
            ndim == dims.len(),
            in_shape@ == dims,
            out_shape@ == dims.take(k as int),
        decreases ndim - k,
    {
        out_shape.push(in_shape[k]);
        assert(dims.take(k + 1) =~= dims.take(k as int).push(dims[k as int]));
        k = k + 1;
    }
    assert(dims.take(ndim as int) =~= dims);
    let a = out_shape[dim0];
    let b = out_shape[dim1];
    out_shape.set(dim0, b);
    out_shape.set(dim1, a);
    assert(out_shape@ =~= sdims);
    let numel = input.shape().numel();
    let in_bytes = input.bytes();
    let mut out_data: Vec<u8> = Vec::new();
    let blen = in_bytes.len();
    assert(blen >= 4 * numel);
    let total = 4 * numel;
    let mut z: usize = 0;
    while z < total
        invariant
            z <= total,
            out_data@.len() == z,
        decreases total - z,
    {
        out_data.push(0);
        z = z + 1;
    }
    proof {
        if numel > 0 {
            lemma_numel_positive(dims);
            lemma_numel_swap(dims, dim0 as int, dim1 as int);
            lemma_numel_positive(sdims);
        }
    }
    let mut coords: Vec<usize> = Vec::new();
    let mut k: usize = 0;
    while k < ndim
        invariant
            k <= ndim,
            coords@.len() == k,
        decreases ndim - k,
    {
        coords.push(0);
        k = k + 1;
    }
    let mut i: usize = 0;
    while i < numel
        invariant
            i <= numel,
            numel == numel_of(dims),
            total == 4 * numel,
            ndim == dims.len(),
            in_shape@ == dims,
            out_shape@ == sdims,
            sdims == swap_entries(dims, dim0 as int, dim1 as int),
            dim0 < ndim,
            dim1 < ndim,
            coords@.len() == ndim,
            in_bytes@ == input.spec_bytes(),
            in_bytes@.len() >= total,
            out_data@.len() == total,
            numel > 0 ==> forall|d: int| 0 <= d < ndim ==> #[trigger] dims[d] > 0,
            numel > 0 ==> numel_of(sdims) == numel,
            numel > 0 ==> forall|k: int|
                0 <= k <= ndim ==> #[trigger] numel_of(sdims.take(k)) <= numel_of(sdims),
            forall|p: int|
                0 <= p < i ==> elem4(
                    out_data@,
                    #[trigger] transposed_index(dims, dim0 as int, dim1 as int, p),
                ) == elem4(in_bytes@, p),
        decreases numel - i,
    {
        let ghost c = coords_of(dims, i as int);
        proof {
            lemma_coords_of_valid(dims, i as int);
        }
        assert(dims.take(ndim as int) =~= dims);
        assert(c.take(ndim as int) =~= c);
        // Decode `i` into coordinates, last dimension first.
        let mut temp: usize = i;
        let mut d: usize = ndim;
        while d > 0
            invariant
                d <= ndim,
                ndim == dims.len(),
                in_shape@ == dims,
                coords@.len() == ndim,
                c == coords_of(dims, i as int),
                c.len() == ndim,
                coords_of(dims.take(d as int), temp as int) == c.take(d as int),
                forall|e: int| d <= e < ndim ==> coords@[e] as int == #[trigger] c[e],
                forall|e: int| 0 <= e < ndim ==> #[trigger] dims[e] > 0,
            decreases d,
        {
            let dim = in_shape[d - 1];
            assert(dims.take(d as int).drop_last() =~= dims.take(d - 1));
            assert(c.take(d as int).drop_last() =~= c.take(d - 1));
            assert(c.take(d as int).last() == c[d - 1]);
            coords.set(d - 1, temp % dim);
            temp = temp / dim;
            d = d - 1;
        }
        // Exchange the two coordinates.
        let ca = coords[dim0];
        let cb = coords[dim1];
        coords.set(dim0, cb);
        coords.set(dim1, ca);
        let ghost sc = swap_entries(c, dim0 as int, dim1 as int);
        assert forall|e: int| 0 <= e < ndim implies coords@[e] as int == #[trigger] sc[e] by {}
        proof {
            lemma_transposed_index(dims, dim0 as int, dim1 as int, i as int);
            lemma_linear_index_valid(sdims, sc);
        }
        // Encode the exchanged coordinates in the output shape.
        let mut idx: usize = 0;
        let mut e: usize = 0;
        while e < ndim
            invariant
                e <= ndim,
                ndim == sdims.len(),
                out_shape@ == sdims,
                coords@.len() == ndim,
                forall|f: int| 0 <= f < ndim ==> coords@[f] as int == #[trigger] sc[f],
                valid_coords(sdims, sc),
                idx == linear_index(sdims.take(e as int), sc.take(e as int)),
                forall|k: int|
                    0 <= k <= ndim ==> #[trigger] numel_of(sdims.take(k)) <= numel_of(sdims),
                numel_of(sdims) <= usize::MAX,
            decreases ndim - e,
        {
            assert(sdims.take(e + 1).drop_last() =~= sdims.take(e as int));
            assert(sc.take(e + 1).drop_last() =~= sc.take(e as int));
            assert(valid_coords(sdims.take(e + 1), sc.take(e + 1)));
            proof {
                lemma_linear_index_valid(sdims.take(e + 1), sc.take(e + 1));
            }
            idx = idx * out_shape[e] + coords[e];
            e = e + 1;
        }
        assert(sdims.take(ndim as int) =~= sdims);
        assert(sc.take(ndim as int) =~= sc);
        let ghost t = transposed_index(dims, dim0 as int, dim1 as int, i as int);
        assert(idx == t);
        // Move the four bytes of the element.
        let ghost before = out_data@;
        let mut j: usize = 0;
        while j < 4
            invariant
                j <= 4,
                0 <= idx < numel,
                total == 4 * numel,
                out_data@.len() == total,
                before.len() == total,
                in_bytes@.len() >= total,
                i < numel,
                idx == t,
                forall|k: int|
                    4 * t <= k < 4 * t + j ==> #[trigger] out_data@[k] == in_bytes@[k - 4 * t + 4
                        * i],
                forall|k: int|
                    0 <= k < total && !(4 * t <= k < 4 * t + j) ==> out_data@[k] == before[k],
            decreases 4 - j,
        {
            out_data.set(4 * idx + j, in_bytes[4 * i + j]);
            j = j + 1;
        }
        assert(elem4(out_data@, t) =~= elem4(in_bytes@, i as int));
        assert forall|p: int| 0 <= p < i + 1 implies elem4(
            out_data@,
            #[trigger] transposed_index(dims, dim0 as int, dim1 as int, p),
        ) == elem4(in_bytes@, p) by {
            if p < i {
                let tp = transposed_index(dims, dim0 as int, dim1 as int, p);
                if tp == t {
                    lemma_transposed_injective(dims, dim0 as int, dim1 as int, p, i as int);
                }
                lemma_transposed_index(dims, dim0 as int, dim1 as int, p);
                assert(elem4(out_data@, tp) =~= elem4(before, tp));
            }
        }
        i = i + 1;
    }
    Tensor::new(out_data, Shape::new(out_shape), TypeId::Float32)
}

/// Transposing twice by the same pair of dimensions gives the elements back where they were.
///
/// `y` is what `transpose` returns for bytes `x` and dimensions `dims`, and `z` what it
/// returns for `y` and the exchanged dimensions: then `z` is the first `4 * numel` bytes of `x`,
/// and the dimensions are back as they were.
pub proof fn law_transpose_twice(
    dims: Seq<usize>,
    a: int,
    b: int,
    x: Seq<u8>,
    y: Seq<u8>,
    z: Seq<u8>,
)
    requires
        0 <= a < dims.len(),
        0 <= b < dims.len(),
        x.len() >= 4 * numel_of(dims),
        y.len() == 4 * numel_of(dims),
        forall|i: int|
            0 <= i < numel_of(dims) ==> elem4(y, #[trigger] transposed_index(dims, a, b, i))
                == elem4(x, i),
        z.len() == 4 * numel_of(swap_entries(dims, a, b)),
        forall|i: int|
            0 <= i < numel_of(swap_entries(dims, a, b)) ==> elem4(
                z,
                #[trigger] transposed_index(swap_entries(dims, a, b), a, b, i),
            ) == elem4(y, i),
    ensures
        swap_entries(swap_entries(dims, a, b), a, b) == dims,
        z == x.take(4 * numel_of(dims) as int),
{
    let n = numel_of(dims);
    let sd = swap_entries(dims, a, b);
    assert(swap_entries(sd, a, b) =~= dims);
    if n == 0 {
        if numel_of(sd) > 0 {
            lemma_numel_swap(sd, a, b);
        }
        assert(z =~= x.take(0));
    } else {
        lemma_numel_swap(dims, a, b);
        assert forall|q: int| 0 <= q < 4 * n implies #[trigger] z[q] == x[q] by {
            let i = q / 4;
            let j = q % 4;
            assert(0 <= i < n && 0 <= j < 4 && q == 4 * i + j);
            let k = transposed_index(dims, a, b, i);
            lemma_transposed_index(dims, a, b, i);
            lemma_coords_of_valid(dims, i);
            let c = coords_of(dims, i);
            assert(swap_entries(swap_entries(c, a, b), a, b) =~= c);
            assert(transposed_index(sd, a, b, k) == i);
            assert(elem4(z, i) == elem4(y, k));
            assert(elem4(y, k) == elem4(x, i));
            assert(elem4(z, i)[j] == z[q]);
            assert(elem4(x, i)[j] == x[q]);
        }
        assert(z =~= x.take(4 * n as int));
    }
}

/// The shapes `matmul` accepts: two matrices, or two stacks of matrices whose inner
/// dimensions agree.
pub open spec fn matmul_accepts(a: Seq<usize>, b: Seq<usize>) -> bool {
    ||| a.len() == 2 && b.len() == 2
    ||| a.len() >= 2 && b.len() >= 2 && a[a.len() - 1] == b[b.len() - 2]
}

/// The shape of `matmul(a, b)`: the leading dimensions of `a`, then the rows of `a` and the
/// columns of `b`.
pub open spec fn matmul_shape(a: Seq<usize>, b: Seq<usize>) -> Seq<usize> {
    a.take(a.len() - 2).push(a[a.len() - 2]).push(b[b.len() - 1])
}

/// The shape of the product of `a` and `b`, for the shapes `matmul` accepts.
pub fn matmul_output_shape(a: &[usize], b: &[usize]) -> (s: Vec<usize>)
    requires
        matmul_accepts(a@, b@),
    ensures
        s@ == matmul_shape(a@, b@),
{
    let na = a.len();
    let nb = b.len();
    let mut s: Vec<usize> = Vec::new();
    let mut i: usize = 0;
    while i < na - 2
        invariant
            na == a@.len(),
            na >= 2,
            i <= na - 2,
            s@ == a@.take(i as int),
        decreases na - 2 - i,
    {
        s.push(a[i]);
        assert(a@.take(i + 1) =~= a@.take(i as int).push(a@[i as int]));
        i = i + 1;
    }
    s.push(a[na - 2]);
    s.push(b[nb - 1]);
    s
}

/// Where the right-hand matrix of batch entry `mat` starts in `matmul`: a single `[k, n]`
/// matrix is shared by every entry, otherwise entry `mat` has its own.
pub fn matmul_rhs_offset(b_numel: usize, k: usize, n: usize, mat: usize) -> (off: usize)
    requires
        k * n <= usize::MAX,
        b_numel != k * n ==> mat * (k * n) <= usize::MAX,
    ensures
        off == (if b_numel == k * n {
            0
        } else {
            mat * (k * n)
        }),
{
    if b_numel == k * n {
        0
    } else {
        mat * (k * n)
    }
}

/// The input channel that position `ci` of output channel `co`'s group reads in a grouped
/// convolution: groups are contiguous runs of channels, `c_out / groups` output and
/// `c_in / groups` input channels each.
pub fn grouped_input_channel(co: usize, ci: usize, c_out: usize, c_in: usize, groups: usize) -> (ch:
    usize)
    requires
        groups > 0,
        co < c_out,
        c_out / groups > 0,
        ci < c_in / groups,
        (co / (c_out / groups)) * (c_in / groups) + ci <= usize::MAX,
    ensures
        ch == (co / (c_out / groups)) * (c_in / groups) + ci,
{
    let c_out_per_group = c_out / groups;
    let c_in_per_group = c_in / groups;
    let g = co / c_out_per_group;
    g * c_in_per_group + ci
}

/// The output height or width of a convolution: `(size + 2 * pad - kernel) / stride + 1`.
pub open spec fn conv_out_len(size: nat, kernel: nat, stride: nat, pad: nat) -> nat {
    ((size + 2 * pad - kernel) / (stride as int) + 1) as nat
}

/// The output height or width of a transposed convolution: `(size - 1) * stride - 2 * pad + kernel`.
pub open spec fn conv_transpose_out_len(size: nat, kernel: nat, stride: nat, pad: nat) -> nat {
    ((size - 1) * stride - 2 * pad + kernel) as nat
}

/// The output height or width of a pooling window: `(size - kernel) / stride + 1`.
pub open spec fn pool_out_len(size: nat, kernel: nat, stride: nat) -> nat {
    ((size - kernel) / (stride as int) + 1) as nat
}

/// One output side of a convolution with kernel `kernel`, stride `stride` and padding `pad`.
fn conv_side(size: usize, kernel: usize, stride: usize, pad: usize) -> (r: usize)
    requires
        stride > 0,
        size + 2 * pad <= usize::MAX,
        kernel <= size + 2 * pad,
        conv_out_len(size as nat, kernel as nat, stride as nat, pad as nat) <= usize::MAX,
    ensures
        r == conv_out_len(size as nat, kernel as nat, stride as nat, pad as nat),
{
    let q = (size + 2 * pad - kernel) / stride;
    assert(q <= size + 2 * pad - kernel) by {
        vstd::arithmetic::div_mod::lemma_div_is_ordered_by_denominator(
            (size + 2 * pad - kernel) as int,
            1,
            stride as int,
        );
    }
    q + 1
}

/// The shape of `conv2d(input, weight, stride, padding, _)`: batch, output channels, and the
/// output height and width. `input` is `[batch, channels, height, width]` and `weight` is
/// `[out_channels, in_channels / groups, kernel_h, kernel_w]`.
pub fn conv2d_output_shape(
    input: &[usize],
    weight: &[usize],
    stride: (usize, usize),
    padding: (usize, usize),
) -> (s: Vec<usize>)
    requires
        input@.len() == 4,
        weight@.len() == 4,
        stride.0 > 0,
        stride.1 > 0,
        input@[2] + 2 * padding.0 <= usize::MAX,
        input@[3] + 2 * padding.1 <= usize::MAX,
        weight@[2] <= input@[2] + 2 * padding.0,
        weight@[3] <= input@[3] + 2 * padding.1,
        conv_out_len(input@[2] as nat, weight@[2] as nat, stride.0 as nat, padding.0 as nat)
            <= usize::MAX,
        conv_out_len(input@[3] as nat, weight@[3] as nat, stride.1 as nat, padding.1 as nat)
            <= usize::MAX,
    ensures
        s@ == seq![
            input@[0],
            weight@[0],
            conv_out_len(input@[2] as nat, weight@[2] as nat, stride.0 as nat, padding.0 as nat) as usize,
            conv_out_len(input@[3] as nat, weight@[3] as nat, stride.1 as nat, padding.1 as nat) as usize,
        ],
{
    let h_out = conv_side(input[2], weight[2], stride.0, padding.0);
    let w_out = conv_side(input[3], weight[3], stride.1, padding.1);
    let mut s: Vec<usize> = Vec::new();
    s.push(input[0]);
    s.push(weight[0]);
    s.push(h_out);
    s.push(w_out);
    assert(s@ =~= seq![input@[0], weight@[0], h_out, w_out]);
    s
}

/// The shape of `max_pool2d(input, kernel, stride)`: batch, channels, and the number of
/// window positions down and across.
pub fn max_pool2d_output_shape(input: &[usize], kernel: (usize, usize), stride: (usize, usize)) -> (s:
    Vec<usize>)
    requires
        input@.len() == 4,
        stride.0 > 0,
        stride.1 > 0,
        kernel.0 <= input@[2],
        kernel.1 <= input@[3],
        pool_out_len(input@[2] as nat, kernel.0 as nat, stride.0 as nat) <= usize::MAX,
        pool_out_len(input@[3] as nat, kernel.1 as nat, stride.1 as nat) <= usize::MAX,
    ensures
        s@ == seq![
            input@[0],
            input@[1],
            pool_out_len(input@[2] as nat, kernel.0 as nat, stride.0 as nat) as usize,
            pool_out_len(input@[3] as nat, kernel.1 as nat, stride.1 as nat) as usize,
        ],
{
    let h_out = conv_side(input[2], kernel.0, stride.0, 0);
    let w_out = conv_side(input[3], kernel.1, stride.1, 0);
    let mut s: Vec<usize> = Vec::new();
    s.push(input[0]);
    s.push(input[1]);
    s.push(h_out);
    s.push(w_out);
    assert(s@ =~= seq![input@[0], input@[1], h_out, w_out]);
    s
}

/// The shape of `conv_transpose2d(input, weight, stride, padding)`: batch, output channels and
/// the output height and width. `weight` is `[in_channels, out_channels, kernel_h, kernel_w]`.
pub fn conv_transpose2d_output_shape(
    input: &[usize],
    weight: &[usize],
    stride: (usize, usize),
    padding: (usize, usize),
) -> (s: Vec<usize>)
    requires
        input@.len() == 4,
        weight@.len() == 4,
        input@[2] >= 1,
        input@[3] >= 1,
        (input@[2] - 1) * stride.0 <= usize::MAX,
        (input@[3] - 1) * stride.1 <= usize::MAX,
        2 * padding.0 <= (input@[2] - 1) * stride.0,
        2 * padding.1 <= (input@[3] - 1) * stride.1,
        (input@[2] - 1) * stride.0 - 2 * padding.0 + weight@[2] <= usize::MAX,
        (input@[3] - 1) * stride.1 - 2 * padding.1 + weight@[3] <= usize::MAX,
    ensures
        s@ == seq![
            input@[0],
            weight@[1],
            conv_transpose_out_len(input@[2] as nat, weight@[2] as nat, stride.0 as nat, padding.0 as nat) as usize,
            conv_transpose_out_len(input@[3] as nat, weight@[3] as nat, stride.1 as nat, padding.1 as nat) as usize,
        ],
{
    let h_out = (input[2] - 1) * stride.0 - 2 * padding.0 + weight[2];
    let w_out = (input[3] - 1) * stride.1 - 2 * padding.1 + weight[3];
    let mut s: Vec<usize> = Vec::new();
    s.push(input[0]);
    s.push(weight[1]);
    s.push(h_out);
    s.push(w_out);
    assert(s@ =~= seq![input@[0], weight@[1], h_out, w_out]);
    s
}

/// The position of element `(bi, ci, hi, wi)` in a contiguous `[batch, channels, height, width]`
/// tensor: `bi * (c * h * w) + ci * (h * w) + hi * w + wi`, its row-major position.
pub fn nchw_index(dims: &[usize], bi: usize, ci: usize, hi: usize, wi: usize) -> (idx: usize)
    requires
        dims@.len() == 4,
        bi < dims@[0],
        ci < dims@[1],
        hi < dims@[2],
        wi < dims@[3],
        numel_of(dims@) <= usize::MAX,
    ensures
        idx == linear_index(dims@, seq![bi as int, ci as int, hi as int, wi as int]),
        idx < numel_of(dims@),
{
    let ghost c = seq![bi as int, ci as int, hi as int, wi as int];
    let c_dim = dims[1];
    let h = dims[2];
    let w = dims[3];
    proof {
        assert(valid_coords(dims@, c));
        lemma_linear_index_valid(dims@, c);
        reveal_with_fuel(linear_index, 5);
        reveal_with_fuel(numel_of, 5);
        assert(dims@.drop_last().drop_last().drop_last().drop_last() =~= Seq::<usize>::empty());
        assert(c.drop_last().drop_last().drop_last().drop_last() =~= Seq::<int>::empty());
        let n0 = dims@[0] as int;
        assert(numel_of(dims@) == n0 * c_dim * h * w) by {
            assert(dims@.drop_last().drop_last().drop_last() =~= seq![dims@[0]]);
            assert(dims@.drop_last().drop_last() =~= seq![dims@[0], dims@[1]]);
            assert(dims@.drop_last() =~= seq![dims@[0], dims@[1], dims@[2]]);
        }
        assert(linear_index(dims@, c) == ((bi * c_dim + ci) * h + hi) * w + wi) by {
            assert(c.drop_last().drop_last().drop_last() =~= seq![bi as int]);
            assert(c.drop_last().drop_last() =~= seq![bi as int, ci as int]);
            assert(c.drop_last() =~= seq![bi as int, ci as int, hi as int]);
            assert(dims@.drop_last().drop_last().drop_last() =~= seq![dims@[0]]);
            assert(dims@.drop_last().drop_last() =~= seq![dims@[0], dims@[1]]);
            assert(dims@.drop_last() =~= seq![dims@[0], dims@[1], dims@[2]]);
        }
        assert(((bi * c_dim + ci) * h + hi) * w + wi == bi * (c_dim * h * w) + ci * (h * w) + hi
            * w + wi) by (nonlinear_arith);
        assert(c_dim * h * w <= n0 * c_dim * h * w) by (nonlinear_arith)
            requires
                n0 > bi,
                bi >= 0,
        ;
        assert(bi * (c_dim * h * w) <= n0 * c_dim * h * w) by (nonlinear_arith)
            requires
                n0 > bi,
                bi >= 0,
        ;
        assert(ci * (h * w) <= c_dim * h * w) by (nonlinear_arith)
            requires
                c_dim > ci,
                ci >= 0,
        ;
        assert(hi * w <= h * w) by (nonlinear_arith)
            requires
                h > hi,
                hi >= 0,
        ;
        assert(c_dim * h <= c_dim * h * w) by (nonlinear_arith)
            requires
                w > wi,
                wi >= 0,
        ;
        assert(h * w <= c_dim * h * w) by (nonlinear_arith)
            requires
                c_dim > ci,
                ci >= 0,
        ;
    }
    bi * (c_dim * h * w) + ci * (h * w) + hi * w + wi
}

/// Which element of `b` is added to element `i` of `a` in `add`: the same position when the
/// lengths agree, otherwise `b` runs along `a`'s last dimension.
pub fn broadcast_index(a_len: usize, b_len: usize, last_dim: usize, i: usize) -> (j: usize)
    requires
        i < a_len,
        b_len == a_len || b_len == last_dim,
        b_len > 0,
    ensures
        j == (if b_len == a_len {
            i as int
        } else {
            i as int % b_len as int
        }),
        j < b_len,
{
    if b_len == a_len {
        i
    } else {
        i % b_len
    }
}

/// The dimension a possibly negative index names: negative indices count from the end.
pub fn normalize_dim(ndim: usize, dim: isize) -> (d: usize)
    requires
        ndim <= isize::MAX,
        -(ndim as int) <= dim < ndim,
    ensures
        d == (if dim < 0 {
            ndim + dim
        } else {
            dim as int
        }),
        d < ndim,
{
    if dim < 0 {
        (ndim as isize + dim) as usize
    } else {
        dim as usize
    }
}

} // verus!
