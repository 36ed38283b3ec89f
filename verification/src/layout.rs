use vstd::prelude::*;

use vstd::arithmetic::div_mod::{lemma_fundamental_div_mod, lemma_fundamental_div_mod_converse};

use crate::shape::{contiguous_strides, numel_of, suffix_numel, suffix_products_fit};

verus! {

/// The row-major position of the coordinates `c` in a tensor with dimensions `dims`:
/// the last coordinate varies fastest.
pub open spec fn linear_index(dims: Seq<usize>, c: Seq<int>) -> int
    decreases c.len(),
{
    if c.len() == 0 || dims.len() == 0 {
        0
    } else {
        linear_index(dims.drop_last(), c.drop_last()) * (dims.last() as int) + c.last()
    }
}

/// The coordinates of the element at row-major position `i` in a tensor with dimensions `dims`.
pub open spec fn coords_of(dims: Seq<usize>, i: int) -> Seq<int>
    decreases dims.len(),
{
    if dims.len() == 0 {
        Seq::empty()
    } else {
        coords_of(dims.drop_last(), i / (dims.last() as int)).push(i % (dims.last() as int))
    }
}

/// `c` names an element of a tensor with dimensions `dims`.
pub open spec fn valid_coords(dims: Seq<usize>, c: Seq<int>) -> bool {
    &&& c.len() == dims.len()
    &&& forall|d: int| 0 <= d < c.len() ==> 0 <= #[trigger] c[d] < dims[d]
}

/// `s` with the entries at `a` and `b` exchanged.
pub open spec fn swap_entries<T>(s: Seq<T>, a: int, b: int) -> Seq<T> {
    s.update(a, s[b]).update(b, s[a])
}

/// Where the element at row-major position `i` of a tensor with dimensions `dims`
/// goes when dimensions `a` and `b` are exchanged.
pub open spec fn transposed_index(dims: Seq<usize>, a: int, b: int, i: int) -> int {
    linear_index(swap_entries(dims, a, b), swap_entries(coords_of(dims, i), a, b))
}

/// A tensor with elements has no zero dimension.
pub proof fn lemma_numel_positive(dims: Seq<usize>)
    requires
        numel_of(dims) > 0,
    ensures
        forall|d: int| 0 <= d < dims.len() ==> #[trigger] dims[d] > 0,
        forall|k: int| 0 <= k <= dims.len() ==> #[trigger] numel_of(dims.take(k)) <= numel_of(dims),
    decreases dims.len(),
{
    if dims.len() > 0 {
        let p = numel_of(dims.drop_last());
        let l = dims.last() as nat;
        assert(p > 0 && l > 0) by (nonlinear_arith)
            requires
                p * l > 0,
        ;
        lemma_numel_positive(dims.drop_last());
        assert forall|k: int| 0 <= k <= dims.len() implies #[trigger] numel_of(dims.take(k))
            <= numel_of(dims) by {
            if k == dims.len() {
                assert(dims.take(k) =~= dims);
            } else {
                assert(dims.take(k) =~= dims.drop_last().take(k));
                assert(numel_of(dims.drop_last().take(k)) <= p);
                assert(p <= p * l) by (nonlinear_arith)
                    requires
                        l > 0,
                ;
            }
        }
        assert forall|d: int| 0 <= d < dims.len() implies #[trigger] dims[d] > 0 by {
            if d < dims.len() - 1 {
                assert(dims.drop_last()[d] == dims[d]);
            }
        }
    }
}

/// Decoding a position and encoding the coordinates again gives the position back.
pub proof fn lemma_coords_of_valid(dims: Seq<usize>, i: int)
    requires
        0 <= i < numel_of(dims),
    ensures
        valid_coords(dims, coords_of(dims, i)),
        linear_index(dims, coords_of(dims, i)) == i,
    decreases dims.len(),
{
    if dims.len() > 0 {
        let pre = dims.drop_last();
        let n = dims.last() as int;
        let p = numel_of(pre) as int;
        assert(n > 0) by (nonlinear_arith)
            requires
                numel_of(dims) == p * n,
                i < numel_of(dims),
                0 <= i,
                p >= 0,
                n >= 0,
        ;
        lemma_fundamental_div_mod(i, n);
        let q = i / n;
        let r = i % n;
        assert(0 <= q < p) by (nonlinear_arith)
            requires
                i == n * q + r,
                0 <= r < n,
                0 <= i < p * n,
        ;
        lemma_coords_of_valid(pre, q);
        let c = coords_of(dims, i);
        assert(c.drop_last() =~= coords_of(pre, q));
        assert forall|d: int| 0 <= d < c.len() implies 0 <= #[trigger] c[d] < dims[d] by {
            if d < c.len() - 1 {
                assert(c[d] == coords_of(pre, q)[d]);
            }
        }
        assert(linear_index(dims, c) == q * n + r);
    }
}

/// Encoding valid coordinates gives a position inside the tensor, and decoding it gives the
/// coordinates back.
pub proof fn lemma_linear_index_valid(dims: Seq<usize>, c: Seq<int>)
    requires
        valid_coords(dims, c),
    ensures
        0 <= linear_index(dims, c) < numel_of(dims),
        coords_of(dims, linear_index(dims, c)) == c,
    decreases dims.len(),
{
    if dims.len() > 0 {
        let pre = dims.drop_last();
        let cp = c.drop_last();
        let n = dims.last() as int;
        let p = numel_of(pre) as int;
        assert(valid_coords(pre, cp)) by {
            assert forall|d: int| 0 <= d < cp.len() implies 0 <= #[trigger] cp[d] < pre[d] by {
                assert(cp[d] == c[d]);
            }
        }
        lemma_linear_index_valid(pre, cp);
        let l = linear_index(pre, cp);
        let r = c.last();
        assert(0 <= r < n) by {
            assert(c[c.len() - 1] < dims[dims.len() - 1]);
        }
        assert(linear_index(dims, c) == l * n + r);
        assert(0 <= l * n + r < p * n) by (nonlinear_arith)
            requires
                0 <= l < p,
                0 <= r < n,
        ;
        lemma_fundamental_div_mod_converse(l * n + r, n, l, r);
        assert(coords_of(dims, l * n + r) =~= cp.push(r));
        assert(cp.push(r) =~= c);
    }
}

/// Exchanging two dimensions leaves the number of elements unchanged.
pub proof fn lemma_numel_update(s: Seq<usize>, i: int, v: usize)
    requires
        0 <= i < s.len(),
    ensures
        numel_of(s.update(i, v)) * (s[i] as nat) == numel_of(s) * (v as nat),
    decreases s.len(),
{
    let u = s.update(i, v);
    if i == s.len() - 1 {
        assert(u.drop_last() =~= s.drop_last());
        let p = numel_of(s.drop_last());
        assert(p * (v as nat) * (s[i] as nat) == p * (s[i] as nat) * (v as nat)) by (nonlinear_arith);
    } else {
        assert(u.drop_last() =~= s.drop_last().update(i, v));
        lemma_numel_update(s.drop_last(), i, v);
        let a = numel_of(s.drop_last().update(i, v));
        let b = numel_of(s.drop_last());
        let l = s.last() as nat;
        assert(a * l * (s[i] as nat) == b * l * (v as nat)) by (nonlinear_arith)
            requires
                a * (s[i] as nat) == b * (v as nat),
        ;
    }
}

pub proof fn lemma_numel_swap(s: Seq<usize>, a: int, b: int)
    requires
        0 <= a < s.len(),
        0 <= b < s.len(),
        numel_of(s) > 0,
    ensures
        numel_of(swap_entries(s, a, b)) == numel_of(s),
{
    lemma_numel_positive(s);
    if a != b {
        let t = s.update(a, s[b]);
        lemma_numel_update(s, a, s[b]);
        lemma_numel_update(t, b, s[a]);
        let nu = numel_of(t.update(b, s[a]));
        let nt = numel_of(t);
        let ns = numel_of(s);
        let x = s[a] as nat;
        let y = s[b] as nat;
        assert(t[b] == s[b]);
        assert(nu == ns) by (nonlinear_arith)
            requires
                nu * y == nt * x,
                nt * x == ns * y,
                x > 0,
                y > 0,
        ;
    } else {
        assert(swap_entries(s, a, b) =~= s);
    }
}

/// Exchanging two dimensions maps distinct positions to distinct positions, inside the tensor.
pub proof fn lemma_transposed_index(dims: Seq<usize>, a: int, b: int, i: int)
    requires
        0 <= a < dims.len(),
        0 <= b < dims.len(),
        0 <= i < numel_of(dims),
    ensures
        0 <= transposed_index(dims, a, b, i) < numel_of(dims),
        coords_of(swap_entries(dims, a, b), transposed_index(dims, a, b, i)) == swap_entries(
            coords_of(dims, i),
            a,
            b,
        ),
{
    let sd = swap_entries(dims, a, b);
    let c = coords_of(dims, i);
    lemma_coords_of_valid(dims, i);
    let sc = swap_entries(c, a, b);
    assert(valid_coords(sd, sc)) by {
        assert forall|d: int| 0 <= d < sc.len() implies 0 <= #[trigger] sc[d] < sd[d] by {
            if d == b {
            } else if d == a {
            } else {
            }
        }
    }
    lemma_linear_index_valid(sd, sc);
    lemma_numel_swap(dims, a, b);
}

/// Exchanging two dimensions sends distinct positions to distinct positions.
pub proof fn lemma_transposed_injective(dims: Seq<usize>, a: int, b: int, p: int, i: int)
    requires
        0 <= a < dims.len(),
        0 <= b < dims.len(),
        0 <= p < numel_of(dims),
        0 <= i < numel_of(dims),
        transposed_index(dims, a, b, p) == transposed_index(dims, a, b, i),
    ensures
        p == i,
{
    lemma_transposed_index(dims, a, b, p);
    lemma_transposed_index(dims, a, b, i);
    let cp = coords_of(dims, p);
    let ci = coords_of(dims, i);
    lemma_coords_of_valid(dims, p);
    lemma_coords_of_valid(dims, i);
    assert(swap_entries(swap_entries(cp, a, b), a, b) =~= cp);
    assert(swap_entries(swap_entries(ci, a, b), a, b) =~= ci);
}

/// The storage offset of coordinates `c` under `strides`: the sum of each coordinate times
/// its dimension's stride, over the first `k` dimensions.
pub open spec fn strided_offset(strides: Seq<isize>, c: Seq<int>, k: int) -> int
    decreases k,
{
    if k <= 0 {
        0
    } else {
        strided_offset(strides, c, k - 1) + c[k - 1] * (strides[k - 1] as int)
    }
}

proof fn lemma_strided_prefix(dims: Seq<usize>, c: Seq<int>, k: int)
    requires
        valid_coords(dims, c),
        suffix_products_fit(dims),
        0 <= k <= dims.len(),
    ensures
        strided_offset(contiguous_strides(dims), c, k) == linear_index(dims.take(k), c.take(k))
            * suffix_numel(dims, k),
    decreases k,
{
    let st = contiguous_strides(dims);
    if k == 0 {
    } else {
        let j = k - 1;
        lemma_strided_prefix(dims, c, j);
        let l = linear_index(dims.take(j), c.take(j));
        assert(dims.take(k).drop_last() =~= dims.take(j));
        assert(c.take(k).drop_last() =~= c.take(j));
        assert(linear_index(dims.take(k), c.take(k)) == l * (dims[j] as int) + c[j]);
        assert(suffix_numel(dims, k) <= isize::MAX);
        assert(st[j] as int == suffix_numel(dims, k));
        let s1 = suffix_numel(dims, k) as int;
        assert(suffix_numel(dims, j) == (dims[j] as int) * s1);
        assert(l * ((dims[j] as int) * s1) + c[j] * s1 == (l * (dims[j] as int) + c[j]) * s1)
            by (nonlinear_arith);
    }
}

/// The contiguous strides lay a tensor out in row-major order: for coordinates inside the
/// tensor, the sum of coordinate times stride is the element's row-major position.
pub proof fn law_contiguous_strides_are_row_major(dims: Seq<usize>, c: Seq<int>)
    requires
        valid_coords(dims, c),
        suffix_products_fit(dims),
    ensures
        strided_offset(contiguous_strides(dims), c, dims.len() as int) == linear_index(dims, c),
{
    let n = dims.len() as int;
    lemma_strided_prefix(dims, c, n);
    assert(dims.take(n) =~= dims);
    assert(c.take(n) =~= c);
}

} // verus!
