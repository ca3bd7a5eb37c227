//! Selection and reduction operations: the maximum along an axis (or over
//! the whole tensor) and top-k selection along the trailing axis. The
//! comparison and index-conversion kernels are delegated to the backend.

use vstd::prelude::*;

use crate::backend::Backend;
use crate::shape::{
    checked_size, lemma_shape_product_concat, lemma_shape_product_pos_dims,
    lemma_shape_product_split, lemma_suffix_product_bounds, lemma_suffix_product_end,
    lemma_suffix_product_unfold, prefix_prod, shape_product, suffix_prod, suffix_product,
};
use crate::tensor::{Tensor, TensorBase, TensorError};
use crate::MlResult;
use crate::ops::Function;

verus! {

/// First position of the maximum among the first `n` elements, under the
/// backend's comparison: a later element displaces the running best only
/// when it sorts strictly above it.
pub open spec fn argmax_prefix<T: Copy, B: Backend<T>>(backend: B, s: Seq<T>, n: int) -> int
    decreases n,
{
    if n <= 1 {
        0
    } else {
        let b = argmax_prefix(backend, s, n - 1);
        if !backend.le_spec(s[n - 1], s[b]) {
            n - 1
        } else {
            b
        }
    }
}

/// The column of elements along reduction axis with extent `mid`, for outer
/// block `o` and inner offset `i`, read with the operand's own strides.
pub open spec fn axis_col<T>(data: Seq<T>, o: int, i: int, mid: int, inner: int) -> Seq<T> {
    Seq::new(mid as nat, |j: int| data[o * mid * inner + j * inner + i])
}

/// What the axis-maximum operation returns. Without an axis it reduces the
/// whole buffer to one scalar value and the position of its first maximum.
/// With axis `d` it reduces that axis, keeping it as size one when
/// `keepdim` is set and dropping it otherwise; each output cell holds the
/// first maximum of its column and the axis position of that maximum,
/// converted through the backend's index kernel. A negative or unset axis
/// configuration and an empty reduction are operation errors, and an axis
/// at or beyond the rank is an axis error.
pub open spec fn matmax_post<T: Copy, B: Backend<T>>(
    a: Tensor<T>,
    backend: B,
    dim: Option<i32>,
    keepdim: bool,
    r: MlResult<(Tensor<T>, Tensor<T>)>,
) -> bool {
    let sa = a.spec_shape();
    let da = a.spec_data();
    match dim {
        None => {
            &&& da.len() == 0 ==> (r matches Err(TensorError::InvalidOperation { .. }))
            &&& da.len() > 0 ==> (r matches Ok(p) && {
                let b = argmax_prefix(backend, da, da.len() as int);
                &&& p.0.wf()
                &&& p.0.spec_shape() == Seq::<usize>::empty()
                &&& p.0.spec_data() == seq![da[b]]
                &&& !p.0.spec_requires_grad()
                &&& p.1.wf()
                &&& p.1.spec_shape() == Seq::<usize>::empty()
                &&& p.1.spec_data() == seq![backend.index_spec(b as usize)]
                &&& !p.1.spec_requires_grad()
            })
        },
        Some(d) => {
            &&& d < 0 ==> (r matches Err(TensorError::InvalidOperation { .. }))
            &&& d >= 0 && d >= sa.len() ==> (r matches Err(TensorError::InvalidAxis { axis, shape })
                && axis == d as usize && shape@ == sa)
            &&& 0 <= d < sa.len() && sa[d as int] == 0 ==> (r matches Err(
                TensorError::InvalidOperation { .. },
            ))
            &&& 0 <= d < sa.len() && sa[d as int] > 0 ==> (r matches Ok(p) && {
                let outer = shape_product(sa.subrange(0, d as int));
                let mid = sa[d as int] as int;
                let inner = suffix_product(sa, d as int + 1);
                let oshape = if keepdim {
                    sa.update(d as int, 1usize)
                } else {
                    sa.subrange(0, d as int) + sa.subrange(d as int + 1, sa.len() as int)
                };
                &&& p.0.wf()
                &&& p.0.spec_shape() == oshape
                &&& p.0.spec_data().len() == outer * inner
                &&& !p.0.spec_requires_grad()
                &&& p.1.wf()
                &&& p.1.spec_shape() == oshape
                &&& p.1.spec_data().len() == outer * inner
                &&& !p.1.spec_requires_grad()
                &&& forall|l: int|
                    #![trigger p.0.spec_data()[l]]
                    #![trigger p.1.spec_data()[l]]
                    0 <= l < outer * inner ==> {
                        let col = axis_col(da, l / inner, l % inner, mid, inner);
                        let bj = argmax_prefix(backend, col, mid);
                        &&& p.0.spec_data()[l] == col[bj]
                        &&& p.1.spec_data()[l] == backend.index_spec(bj as usize)
                    }
            })
        },
    }
}

/// Axis-maximum engine.
fn matmax_forward<T: Copy, B: Backend<T>>(
    a: &Tensor<T>,
    backend: &B,
    dim: Option<i32>,
    keepdim: bool,
) -> (r: MlResult<(Tensor<T>, Tensor<T>)>)
    requires
        a.wf(),
    ensures
        matmax_post(*a, *backend, dim, keepdim, r),
{
    let ghost sa = a.spec_shape();
    let ghost da = a.spec_data();
    match dim {
        None => {
            let src = a.data();
            if src.len() == 0 {
                return Err(
                    TensorError::InvalidOperation {
                        op: "matmax",
                        reason: "an empty tensor has no maximum",
                    },
                );
            }
            let mut best: usize = 0;
            let mut t: usize = 1;
            while t < src.len()
                invariant
                    1 <= t <= src.len(),
                    src@ == da,
                    0 <= best < t,
                    best == argmax_prefix(*backend, da, t as int),
                decreases src.len() - t,
            {
                if !backend.le(src[t], src[best]) {
                    best = t;
                }
                t = t + 1;
            }
            let vdata = vec![src[best]];
            let idata = vec![backend.index_value(best)];
            let eshape: Vec<usize> = Vec::new();
            proof {
                assert(eshape@ =~= Seq::<usize>::empty());
                assert(shape_product(eshape@) == 1);
                assert(vdata@ =~= seq![da[best as int]]);
                assert(idata@ =~= seq![backend.index_spec(best)]);
            }
            let values = match Tensor::from_vec(vdata, &eshape) {
                Ok(v) => v,
                Err(e) => {
                    proof {
                        assert(false);
                    }
                    return Err(e);
                },
            };
            let indices = match Tensor::from_vec(idata, &eshape) {
                Ok(v) => v,
                Err(e) => {
                    proof {
                        assert(false);
                    }
                    return Err(e);
                },
            };
            Ok((values, indices))
        },
        Some(d) => {
            if d < 0 {
                return Err(
                    TensorError::InvalidOperation {
                        op: "matmax",
                        reason: "the reduction axis cannot be negative",
                    },
                );
            }
            let du = d as usize;
            let shape = a.shape();
            let rank = shape.len();
            if du >= rank {
                return Err(TensorError::InvalidAxis { axis: du, shape: shape.clone() });
            }
            let mid = shape[du];
            if mid == 0 {
                return Err(
                    TensorError::InvalidOperation {
                        op: "matmax",
                        reason: "the reduction axis is empty",
                    },
                );
            }
            // The output shape keeps the reduced axis as size one or drops
            // it.
            let mut oshape: Vec<usize> = Vec::new();
            let mut x: usize = 0;
            while x < rank
                invariant
                    0 <= x <= rank,
                    shape@ == sa,
                    rank == sa.len(),
                    0 <= du < rank,
                    oshape@.len() == if keepdim || x <= du {
                        x as int
                    } else {
                        x - 1
                    },
                    forall|y: int| 0 <= y < x && y < du ==> oshape@[y] == sa[y],
                    keepdim && x > du ==> oshape@[du as int] == 1,
                    forall|y: int|
                        du < y < x ==> oshape@[if keepdim {
                            y
                        } else {
                            y - 1
                        }] == sa[y],
                decreases rank - x,
            {
                if x == du {
                    if keepdim {
                        oshape.push(1);
                    }
                } else {
                    oshape.push(shape[x]);
                }
                x = x + 1;
            }
            let ghost osp = if keepdim {
                sa.update(du as int, 1usize)
            } else {
                sa.subrange(0, du as int) + sa.subrange(du as int + 1, sa.len() as int)
            };
            proof {
                assert(oshape@ =~= osp);
            }
            let la = a.data().len();
            let osize = match checked_size(&oshape) {
                Some(sz) => sz,
                None => {
                    proof {
                        lemma_reduced_size_bounded(sa, du as int, osp, keepdim);
                    }
                    return Err(
                        TensorError::InvalidOperation {
                            op: "matmax",
                            reason: "the reduced shape is not addressable",
                        },
                    );
                },
            };
            proof {
                lemma_reduced_size_split(sa, du as int, osp, keepdim);
            }
            let ghost outer_g = shape_product(sa.subrange(0, du as int));
            let ghost inner_g = suffix_product(sa, du as int + 1);
            let mut vals: Vec<T> = Vec::new();
            let mut idxs: Vec<T> = Vec::new();
            if osize > 0 {
                proof {
                    lemma_shape_product_pos_dims(osp);
                    assert forall|j: int| 0 <= j < sa.len() implies sa[j] >= 1 by {
                        if j < du {
                            assert(osp[j] == sa[j]);
                        } else if j == du {
                        } else {
                            if keepdim {
                                assert(osp[j] == sa[j]);
                            } else {
                                assert(osp[j - 1] == sa[j]);
                            }
                        }
                    }
                }
                let outer = prefix_prod(shape, du);
                let inner = suffix_prod(shape, du + 1);
                proof {
                    lemma_suffix_product_unfold(sa, du as int);
                    lemma_suffix_product_bounds(sa, du as int);
                    lemma_suffix_product_bounds(sa, du as int + 1);
                    lemma_shape_product_split(sa, du as int);
                }
                let step = mid * inner;
                let mut o: usize = 0;
                while o < outer
                    invariant
                        0 <= o <= outer,
                        shape@ == sa,
                        da == a.spec_data(),
                        la == da.len(),
                        0 <= du < sa.len(),
                        mid == sa[du as int],
                        mid >= 1,
                        inner >= 1,
                        outer_g == outer,
                        inner_g == inner,
                        step == mid * inner,
                        la == outer * (mid * inner),
                        vals@.len() == o * inner,
                        idxs@.len() == o * inner,
                        forall|l: int|
                            #![trigger vals@[l]]
                            #![trigger idxs@[l]]
                            0 <= l < o * inner ==> {
                                let col = axis_col(da, l / (inner as int), l % (inner as int), mid as int, inner as int);
                                let bj = argmax_prefix(*backend, col, mid as int);
                                &&& vals@[l] == col[bj]
                                &&& idxs@[l] == backend.index_spec(bj as usize)
                            },
                    decreases outer - o,
                {
                    let mut ii: usize = 0;
                    while ii < inner
                        invariant
                            0 <= ii <= inner,
                            0 <= o < outer,
                            shape@ == sa,
                            da == a.spec_data(),
                            la == da.len(),
                            0 <= du < sa.len(),
                            mid == sa[du as int],
                            mid >= 1,
                            inner >= 1,
                            step == mid * inner,
                            la == outer * (mid * inner),
                            vals@.len() == o * inner + ii,
                            idxs@.len() == o * inner + ii,
                            forall|l: int|
                                #![trigger vals@[l]]
                                #![trigger idxs@[l]]
                                0 <= l < o * inner + ii ==> {
                                    let col = axis_col(da, l / (inner as int), l % (inner as int), mid as int, inner as int);
                                    let bj = argmax_prefix(*backend, col, mid as int);
                                    &&& vals@[l] == col[bj]
                                    &&& idxs@[l] == backend.index_spec(bj as usize)
                                },
                        decreases inner - ii,
                    {
                        let ghost col = axis_col(da, o as int, ii as int, mid as int, inner as int);
                        proof {
                            lemma_reduce_offset_bound(
                                o as int,
                                0,
                                ii as int,
                                outer as int,
                                mid as int,
                                inner as int,
                            );
                        }
                        let base = o * step + ii;
                        let mut vb = a.data()[base];
                        let mut bi: usize = 0;
                        let mut j: usize = 1;
                        proof {
                            assert(col[0] == da[o as int * (mid as int) * (inner as int) + 0
                                * (inner as int) + ii as int]);
                            assert(o as int * (mid as int) * (inner as int) + 0 * (inner as int)
                                + ii as int == o as int * (step as int) + ii as int)
                                by (nonlinear_arith)
                                requires
                                    step == mid * inner,
                            ;
                        }
                        while j < mid
                            invariant
                                1 <= j <= mid,
                                0 <= bi < j,
                                0 <= o < outer,
                                0 <= ii < inner,
                                shape@ == sa,
                                da == a.spec_data(),
                                la == da.len(),
                                mid >= 1,
                                inner >= 1,
                                step == mid * inner,
                                la == outer * (mid * inner),
                                col == axis_col(da, o as int, ii as int, mid as int, inner as int),
                                bi == argmax_prefix(*backend, col, j as int),
                                vb == col[bi as int],
                            decreases mid - j,
                        {
                            proof {
                                lemma_reduce_offset_bound(
                                    o as int,
                                    j as int,
                                    ii as int,
                                    outer as int,
                                    mid as int,
                                    inner as int,
                                );
                                assert(col[j as int] == da[o as int * (mid as int) * (inner as int)
                                    + j as int * (inner as int) + ii as int]);
                                assert(o as int * (mid as int) * (inner as int) + j as int
                                    * (inner as int) + ii as int == o as int * (step as int)
                                    + j as int * (inner as int) + ii as int) by (nonlinear_arith)
                                    requires
                                        step == mid * inner,
                                ;
                            }
                            let cand = a.data()[o * step + j * inner + ii];
                            if !backend.le(cand, vb) {
                                vb = cand;
                                bi = j;
                            }
                            j = j + 1;
                        }
                        proof {
                            vstd::arithmetic::div_mod::lemma_fundamental_div_mod_converse(
                                o as int * (inner as int) + ii as int,
                                inner as int,
                                o as int,
                                ii as int,
                            );
                            assert(o * inner + ii < outer * inner) by (nonlinear_arith)
                                requires
                                    0 <= o < outer,
                                    0 <= ii < inner,
                            ;
                        }
                        vals.push(vb);
                        idxs.push(backend.index_value(bi));
                        ii = ii + 1;
                    }
                    proof {
                        assert((o + 1) * inner == o * inner + inner) by (nonlinear_arith);
                    }
                    o = o + 1;
                }
                proof {
                    assert(vals@.len() == outer_g * inner_g);
                }
            } else {
                proof {
                    lemma_empty_reduced_size(sa, du as int, osp, keepdim);
                }
            }
            proof {
                assert(vals@.len() == shape_product(osp));
                assert(vals@.len() == outer_g * inner_g);
            }
            let values = match Tensor::from_vec(vals, &oshape) {
                Ok(v) => v,
                Err(e) => {
                    proof {
                        assert(false);
                    }
                    return Err(e);
                },
            };
            let indices = match Tensor::from_vec(idxs, &oshape) {
                Ok(v) => v,
                Err(e) => {
                    proof {
                        assert(false);
                    }
                    return Err(e);
                },
            };
            Ok((values, indices))
        },
    }
}

/// The reduced shape's element count is the outer block count times the
/// inner stride, and the full count is that times the axis extent.
proof fn lemma_reduced_size_split(sa: Seq<usize>, d: int, osp: Seq<usize>, keepdim: bool)
    requires
        0 <= d < sa.len(),
        osp == if keepdim {
            sa.update(d, 1usize)
        } else {
            sa.subrange(0, d) + sa.subrange(d + 1, sa.len() as int)
        },
    ensures
        shape_product(osp) == shape_product(sa.subrange(0, d)) * suffix_product(sa, d + 1),
        shape_product(sa) == shape_product(sa.subrange(0, d)) * (sa[d] * suffix_product(
            sa,
            d + 1,
        )),
{
    let outer = shape_product(sa.subrange(0, d));
    let inner = suffix_product(sa, d + 1);
    lemma_shape_product_split(sa, d);
    lemma_suffix_product_unfold(sa, d);
    if keepdim {
        lemma_shape_product_split(osp, d);
        assert(osp.subrange(0, d) =~= sa.subrange(0, d));
        lemma_suffix_product_unfold(osp, d);
        assert(osp.subrange(d + 1, osp.len() as int) =~= sa.subrange(d + 1, sa.len() as int));
        assert(suffix_product(osp, d + 1) == inner);
        assert(shape_product(osp) == outer * (1 * inner));
        assert(outer * (1 * inner) == outer * inner) by (nonlinear_arith);
    } else {
        lemma_shape_product_concat(sa.subrange(0, d), sa.subrange(d + 1, sa.len() as int));
        assert(shape_product(sa.subrange(d + 1, sa.len() as int)) == inner);
    }
}

/// The reduced shape's element count fits in the address space whenever the
/// whole tensor's does.
proof fn lemma_reduced_size_bounded(sa: Seq<usize>, d: int, osp: Seq<usize>, keepdim: bool)
    requires
        0 <= d < sa.len(),
        sa[d] >= 1,
        shape_product(sa) <= usize::MAX,
        osp == if keepdim {
            sa.update(d, 1usize)
        } else {
            sa.subrange(0, d) + sa.subrange(d + 1, sa.len() as int)
        },
    ensures
        shape_product(osp) <= usize::MAX,
{
    lemma_reduced_size_split(sa, d, osp, keepdim);
    let outer = shape_product(sa.subrange(0, d));
    let inner = suffix_product(sa, d + 1);
    crate::shape::lemma_shape_product_nonneg(sa.subrange(0, d));
    crate::shape::lemma_suffix_product_nonneg(sa, d + 1);
    assert(outer * inner <= outer * (sa[d] * inner)) by (nonlinear_arith)
        requires
            outer >= 0,
            inner >= 0,
            sa[d] >= 1,
    ;
}

/// An empty reduced shape forces an empty output buffer.
proof fn lemma_empty_reduced_size(sa: Seq<usize>, d: int, osp: Seq<usize>, keepdim: bool)
    requires
        0 <= d < sa.len(),
        osp == if keepdim {
            sa.update(d, 1usize)
        } else {
            sa.subrange(0, d) + sa.subrange(d + 1, sa.len() as int)
        },
        shape_product(osp) == 0,
    ensures
        shape_product(sa.subrange(0, d)) * suffix_product(sa, d + 1) == 0,
{
    lemma_reduced_size_split(sa, d, osp, keepdim);
}

/// An interior cell of the reduction iteration stays inside the buffer.
proof fn lemma_reduce_offset_bound(o: int, j: int, ii: int, outer: int, mid: int, inner: int)
    requires
        0 <= o < outer,
        0 <= j < mid,
        0 <= ii < inner,
    ensures
        0 <= o * mid * inner + j * inner + ii,
        o * mid * inner + j * inner + ii < outer * (mid * inner),
        o * (mid * inner) + j * inner + ii == o * mid * inner + j * inner + ii,
{
    assert(0 <= o * mid * inner + j * inner + ii && o * mid * inner + j * inner + ii < outer * (
    mid * inner) && o * (mid * inner) + j * inner + ii == o * mid * inner + j * inner + ii)
        by (nonlinear_arith)
        requires
            0 <= o < outer,
            0 <= j < mid,
            0 <= ii < inner,
    ;
}

/// First position (within the candidate list) of the maximum among the
/// first `n` candidates, comparing the row elements the candidates point
/// at: a later candidate displaces the running best only when its element
/// sorts strictly above.
pub open spec fn cand_argmax<T: Copy, B: Backend<T>>(
    backend: B,
    row: Seq<T>,
    cand: Seq<usize>,
    n: int,
) -> int
    decreases n,
{
    if n <= 1 {
        0
    } else {
        let b = cand_argmax(backend, row, cand, n - 1);
        if !backend.le_spec(row[cand[n - 1] as int], row[cand[b] as int]) {
            n - 1
        } else {
            b
        }
    }
}

/// The positions of the top `k` elements of a row, in selection order:
/// each round takes the first maximum of the remaining candidates and
/// removes it. Under a total comparison the selected values descend.
pub open spec fn topk_sel<T: Copy, B: Backend<T>>(
    backend: B,
    row: Seq<T>,
    cand: Seq<usize>,
    k: int,
) -> Seq<usize>
    decreases k,
{
    if k <= 0 {
        Seq::empty()
    } else {
        let bp = cand_argmax(backend, row, cand, cand.len() as int);
        seq![cand[bp]] + topk_sel(backend, row, cand.remove(bp), k - 1)
    }
}

/// The initial candidate list: every position of a row of length `len`.
pub open spec fn base_cand(len: int) -> Seq<usize> {
    Seq::new(len as nat, |x: int| x as usize)
}

/// What top-k selection returns: along the trailing axis, the `k` first
/// maxima of each row in selection order, together with their positions
/// converted through the backend's index kernel. A rank-zero tensor or a
/// count exceeding the trailing axis is an axis error. The selection order
/// already descends under the backend's comparison, so the sorted flag
/// makes no observable difference here.
pub open spec fn topk_post<T: Copy, B: Backend<T>>(
    a: Tensor<T>,
    backend: B,
    k: usize,
    r: MlResult<(Tensor<T>, Tensor<T>)>,
) -> bool {
    let sa = a.spec_shape();
    let da = a.spec_data();
    let rank = sa.len() as int;
    &&& rank == 0 ==> (r matches Err(TensorError::InvalidAxis { axis, shape }) && axis == k
        && shape@ == sa)
    &&& rank > 0 && k > sa[rank - 1] ==> (r matches Err(TensorError::InvalidAxis { axis, shape })
        && axis == k && shape@ == sa)
    &&& rank > 0 && k <= sa[rank - 1] ==> (r matches Ok(p) && {
        let ll = sa[rank - 1] as int;
        let rows = shape_product(sa.subrange(0, rank - 1));
        let oshape = sa.update(rank - 1, k);
        &&& p.0.wf()
        &&& p.0.spec_shape() == oshape
        &&& p.0.spec_data().len() == rows * k
        &&& !p.0.spec_requires_grad()
        &&& p.1.wf()
        &&& p.1.spec_shape() == oshape
        &&& p.1.spec_data().len() == rows * k
        &&& !p.1.spec_requires_grad()
        &&& forall|l: int|
            #![trigger p.0.spec_data()[l]]
            #![trigger p.1.spec_data()[l]]
            0 <= l < rows * k ==> {
                let row = da.subrange((l / (k as int)) * ll, (l / (k as int)) * ll + ll);
                let sel = topk_sel(backend, row, base_cand(ll), k as int);
                &&& p.0.spec_data()[l] == row[sel[l % (k as int)] as int]
                &&& p.1.spec_data()[l] == backend.index_spec(sel[l % (k as int)])
            }
    })
}

/// Top-k selection engine.
fn topk_forward<T: Copy, B: Backend<T>>(a: &Tensor<T>, backend: &B, k: usize) -> (r: MlResult<
    (Tensor<T>, Tensor<T>),
>)
    requires
        a.wf(),
    ensures
        topk_post(*a, *backend, k, r),
{
    let ghost sa = a.spec_shape();
    let ghost da = a.spec_data();
    let shape = a.shape();
    let rank = shape.len();
    if rank == 0 {
        return Err(TensorError::InvalidAxis { axis: k, shape: shape.clone() });
    }
    let ll = shape[rank - 1];
    if k > ll {
        return Err(TensorError::InvalidAxis { axis: k, shape: shape.clone() });
    }
    let mut oshape = shape.clone();
    oshape.set(rank - 1, k);
    let ghost osp = sa.update(rank as int - 1, k);
    proof {
        assert(oshape@ =~= osp);
    }
    let la = a.data().len();
    proof {
        lemma_trailing_split(sa, osp, k);
    }
    let ghost rows_g = shape_product(sa.subrange(0, rank as int - 1));
    let osize = match checked_size(&oshape) {
        Some(sz) => sz,
        None => {
            proof {
                crate::shape::lemma_shape_product_nonneg(sa.subrange(0, rank as int - 1));
                assert(rows_g * k <= rows_g * ll) by (nonlinear_arith)
                    requires
                        rows_g >= 0,
                        k <= ll,
                ;
                assert(false);
            }
            return Err(TensorError::InvalidAxis { axis: k, shape: shape.clone() });
        },
    };
    let mut vals: Vec<T> = Vec::new();
    let mut idxs: Vec<T> = Vec::new();
    if osize > 0 {
        proof {
            lemma_shape_product_pos_dims(osp);
            assert(osp[rank as int - 1] == k);
            assert(k >= 1);
            assert forall|j: int| 0 <= j < sa.len() implies sa[j] >= 1 by {
                if j < rank - 1 {
                    assert(osp[j] == sa[j]);
                } else {
                    assert(sa[j] == ll && ll >= k);
                }
            }
        }
        let rows = prefix_prod(shape, rank - 1);
        let mut r2: usize = 0;
        while r2 < rows
            invariant
                0 <= r2 <= rows,
                shape@ == sa,
                da == a.spec_data(),
                la == da.len(),
                rank == sa.len(),
                rank >= 1,
                ll == sa[rank as int - 1],
                1 <= k <= ll,
                rows == rows_g,
                la == rows * ll,
                vals@.len() == r2 * k,
                idxs@.len() == r2 * k,
                forall|l: int|
                    #![trigger vals@[l]]
                    #![trigger idxs@[l]]
                    0 <= l < r2 * k ==> {
                        let row = da.subrange(
                            (l / (k as int)) * (ll as int),
                            (l / (k as int)) * (ll as int) + ll as int,
                        );
                        let sel = topk_sel(*backend, row, base_cand(ll as int), k as int);
                        &&& vals@[l] == row[sel[l % (k as int)] as int]
                        &&& idxs@[l] == backend.index_spec(sel[l % (k as int)])
                    },
            decreases rows - r2,
        {
            proof {
                assert(r2 * ll + ll <= rows * ll) by (nonlinear_arith)
                    requires
                        0 <= r2 < rows,
                        0 <= ll,
                ;
            }
            let base = r2 * ll;
            let ghost row = da.subrange(base as int, base as int + ll as int);
            let ghost sel = topk_sel(*backend, row, base_cand(ll as int), k as int);
            let mut cand: Vec<usize> = Vec::new();
            let mut x: usize = 0;
            while x < ll
                invariant
                    0 <= x <= ll,
                    cand@.len() == x,
                    forall|y: int| 0 <= y < x ==> cand@[y] == y as usize,
                decreases ll - x,
            {
                cand.push(x);
                x = x + 1;
            }
            proof {
                assert(cand@ =~= base_cand(ll as int));
                lemma_topk_sel_len(*backend, row, base_cand(ll as int), k as int);
                assert(sel.skip(0) =~= sel);
            }
            let mut q: usize = 0;
            while q < k
                invariant
                    0 <= q <= k,
                    shape@ == sa,
                    da == a.spec_data(),
                    la == da.len(),
                    rank == sa.len(),
                    rank >= 1,
                    ll == sa[rank as int - 1],
                    1 <= k <= ll,
                    rows == rows_g,
                    la == rows * ll,
                    0 <= r2 < rows,
                    base == r2 * ll,
                    base + ll <= la,
                    row == da.subrange(base as int, base as int + ll as int),
                    sel == topk_sel(*backend, row, base_cand(ll as int), k as int),
                    cand@.len() == ll - q,
                    forall|y: int| 0 <= y < cand@.len() ==> #[trigger] cand@[y] < ll,
                    sel.len() == k,
                    sel.skip(q as int) == topk_sel(*backend, row, cand@, k as int - q),
                    vals@.len() == r2 * k + q,
                    idxs@.len() == r2 * k + q,
                    forall|l: int|
                        #![trigger vals@[l]]
                        #![trigger idxs@[l]]
                        0 <= l < r2 * k + q ==> {
                            let rw = da.subrange(
                                (l / (k as int)) * (ll as int),
                                (l / (k as int)) * (ll as int) + ll as int,
                            );
                            let sl = topk_sel(*backend, rw, base_cand(ll as int), k as int);
                            &&& vals@[l] == rw[sl[l % (k as int)] as int]
                            &&& idxs@[l] == backend.index_spec(sl[l % (k as int)])
                        },
                decreases k - q,
            {
                let mut bp: usize = 0;
                let mut t: usize = 1;
                while t < cand.len()
                    invariant
                        1 <= t <= cand@.len(),
                        1 <= cand@.len(),
                        da == a.spec_data(),
                        la == da.len(),
                        0 <= base,
                        base + ll <= la,
                        forall|y: int| 0 <= y < cand@.len() ==> #[trigger] cand@[y] < ll,
                        row == da.subrange(base as int, base as int + ll as int),
                        0 <= bp < t,
                        bp == cand_argmax(*backend, row, cand@, t as int),
                    decreases cand@.len() - t,
                {
                    let ct = cand[t];
                    let cb = cand[bp];
                    if !backend.le(a.data()[base + ct], a.data()[base + cb]) {
                        bp = t;
                    }
                    t = t + 1;
                }
                let chosen = cand[bp];
                let vexec = a.data()[base + chosen];
                proof {
                    let kq = k as int - q;
                    assert(topk_sel(*backend, row, cand@, kq) == seq![
                        cand@[cand_argmax(*backend, row, cand@, cand@.len() as int)],
                    ] + topk_sel(
                        *backend,
                        row,
                        cand@.remove(cand_argmax(*backend, row, cand@, cand@.len() as int)),
                        kq - 1,
                    ));
                    assert(sel.skip(q as int)[0] == sel[q as int]);
                    assert(sel[q as int] == cand@[bp as int]);
                    assert(sel.skip(q as int + 1) =~= sel.skip(q as int).skip(1));
                    assert((seq![cand@[bp as int]] + topk_sel(
                        *backend,
                        row,
                        cand@.remove(bp as int),
                        kq - 1,
                    )).skip(1) =~= topk_sel(*backend, row, cand@.remove(bp as int), kq - 1));
                    vstd::arithmetic::div_mod::lemma_fundamental_div_mod_converse(
                        r2 as int * (k as int) + q as int,
                        k as int,
                        r2 as int,
                        q as int,
                    );
                    assert(r2 * k + q < rows * k) by (nonlinear_arith)
                        requires
                            0 <= r2 < rows,
                            0 <= q < k,
                    ;
                    assert(row[chosen as int] == da[base as int + chosen as int]);
                }
                vals.push(vexec);
                idxs.push(backend.index_value(chosen));
                cand.remove(bp);
                proof {
                    assert forall|y: int| 0 <= y < cand@.len() implies #[trigger] cand@[y]
                        < ll by {
                        if y < bp {
                        } else {
                        }
                    }
                }
                q = q + 1;
            }
            proof {
                assert((r2 + 1) * k == r2 * k + k) by (nonlinear_arith);
            }
            r2 = r2 + 1;
        }
        proof {
            assert(vals@.len() == rows_g * k);
        }
    } else {
        proof {
            assert(rows_g * k == shape_product(osp));
        }
    }
    proof {
        assert(vals@.len() == shape_product(osp));
        assert(idxs@.len() == shape_product(osp));
    }
    let values = match Tensor::from_vec(vals, &oshape) {
        Ok(v) => v,
        Err(e) => {
            proof {
                assert(false);
            }
            return Err(e);
        },
    };
    let indices = match Tensor::from_vec(idxs, &oshape) {
        Ok(v) => v,
        Err(e) => {
            proof {
                assert(false);
            }
            return Err(e);
        },
    };
    Ok((values, indices))
}

/// Top-k selection picks exactly `k` positions.
pub proof fn lemma_topk_sel_len<T: Copy, B: Backend<T>>(
    backend: B,
    row: Seq<T>,
    cand: Seq<usize>,
    k: int,
)
    requires
        k >= 0,
    ensures
        topk_sel(backend, row, cand, k).len() == k,
    decreases k,
{
    if k > 0 {
        let bp = cand_argmax(backend, row, cand, cand.len() as int);
        lemma_topk_sel_len(backend, row, cand.remove(bp), k - 1);
    }
}

/// Splitting the element count at the trailing axis, for the input shape
/// and for the shape with the trailing axis replaced.
proof fn lemma_trailing_split(sa: Seq<usize>, osp: Seq<usize>, k: usize)
    requires
        sa.len() >= 1,
        osp == sa.update(sa.len() as int - 1, k),
    ensures
        shape_product(sa) == shape_product(sa.subrange(0, sa.len() as int - 1)) * (sa[sa.len()
            as int - 1] as int),
        shape_product(osp) == shape_product(sa.subrange(0, sa.len() as int - 1)) * (k as int),
{
    let d = sa.len() as int - 1;
    let pre = shape_product(sa.subrange(0, d));
    lemma_shape_product_split(sa, d);
    lemma_suffix_product_unfold(sa, d);
    lemma_suffix_product_end(sa);
    assert(pre * (sa[d] * 1) == pre * (sa[d] as int)) by (nonlinear_arith);
    lemma_shape_product_split(osp, d);
    assert(osp.subrange(0, d) =~= sa.subrange(0, d));
    lemma_suffix_product_unfold(osp, d);
    lemma_suffix_product_end(osp);
    assert(osp.subrange(d + 1, osp.len() as int) =~= sa.subrange(d + 1, sa.len() as int));
    assert(pre * (k * 1) == pre * (k as int)) by (nonlinear_arith);
}

/// Structure representing a top-k operation along the trailing axis; the
/// count and sorted flag are supplied via the settable `topk` parameter
/// before the forward pass.
pub struct Topk<'t, T, B> {
    tensor: &'t Tensor<T>,
    backend: &'t B,
    /// How many elements to select, and whether to sort them. Selection
    /// already emits values in descending order under the backend's
    /// comparison, so the flag has no observable effect here.
    pub topk: Option<(usize, bool)>,
}

impl<'t, T: Copy, B: Backend<T>> Topk<'t, T, B> {
    /// The operand, abstractly.
    pub closed spec fn spec_tensor(self) -> Tensor<T> {
        *self.tensor
    }

    /// The backend handle, abstractly.
    pub closed spec fn spec_backend(self) -> B {
        *self.backend
    }

    /// The configured count and sorted flag, abstractly.
    pub closed spec fn spec_topk(self) -> Option<(usize, bool)> {
        self.topk
    }
}

impl<'t, T: Copy, B: Backend<T>> Function<'t, T, B> for Topk<'t, T, B> {
    type Forwarded = MlResult<(Tensor<T>, Tensor<T>)>;

    open spec fn valid(&self) -> bool {
        self.spec_tensor().wf()
    }

    fn new(first: &'t Tensor<T>, second: Option<&'t Tensor<T>>, backend: &'t B) -> (r: MlResult<
        Self,
    >)
        ensures
            second is Some ==> (r matches Err(TensorError::InvalidOperation { .. })),
            second is None ==> (r matches Ok(op) && op.valid() && op.spec_tensor() == *first
                && op.spec_backend() == *backend && op.spec_topk() is None),
    {
        match second {
            Some(_) => Err(
                TensorError::InvalidOperation {
                    op: "topk",
                    reason: "a unary operation takes no second operand",
                },
            ),
            None => Ok(Topk { tensor: first, backend, topk: None }),
        }
    }

    fn forward(&self) -> (r: Self::Forwarded)
        ensures
            self.spec_topk() is None ==> (r matches Err(TensorError::InvalidOperation { .. })),
            self.spec_topk() matches Some(cfg) ==> topk_post(
                self.spec_tensor(),
                self.spec_backend(),
                cfg.0,
                r,
            ),
    {
        match self.topk {
            None => Err(
                TensorError::InvalidOperation {
                    op: "topk",
                    reason: "no count was supplied before the forward pass",
                },
            ),
            Some((k, _sorted)) => topk_forward(self.tensor, self.backend, k),
        }
    }

    fn backend(&self) -> (r: &'t B)
        ensures
            *r == self.spec_backend(),
    {
        self.backend
    }
}

/// Structure representing a matrix max operation along a dimension; the
/// axis and keep-dimension flag are supplied via the settable `matmax`
/// parameter before the forward pass.
pub struct Matmax<'t, T, B> {
    tensor: &'t Tensor<T>,
    backend: &'t B,
    /// The reduction axis (absent to reduce the whole tensor) and whether
    /// the reduced axis is kept as size one.
    pub matmax: Option<(Option<i32>, bool)>,
}

impl<'t, T: Copy, B: Backend<T>> Matmax<'t, T, B> {
    /// The operand, abstractly.
    pub closed spec fn spec_tensor(self) -> Tensor<T> {
        *self.tensor
    }

    /// The backend handle, abstractly.
    pub closed spec fn spec_backend(self) -> B {
        *self.backend
    }

    /// The configured axis and keep-dimension flag, abstractly.
    pub closed spec fn spec_matmax(self) -> Option<(Option<i32>, bool)> {
        self.matmax
    }
}

impl<'t, T: Copy, B: Backend<T>> Function<'t, T, B> for Matmax<'t, T, B> {
    type Forwarded = MlResult<(Tensor<T>, Tensor<T>)>;

    open spec fn valid(&self) -> bool {
        self.spec_tensor().wf()
    }

    fn new(first: &'t Tensor<T>, second: Option<&'t Tensor<T>>, backend: &'t B) -> (r: MlResult<
        Self,
    >)
        ensures
            second is Some ==> (r matches Err(TensorError::InvalidOperation { .. })),
            second is None ==> (r matches Ok(op) && op.valid() && op.spec_tensor() == *first
                && op.spec_backend() == *backend && op.spec_matmax() is None),
    {
        match second {
            Some(_) => Err(
                TensorError::InvalidOperation {
                    op: "matmax",
                    reason: "a unary operation takes no second operand",
                },
            ),
            None => Ok(Matmax { tensor: first, backend, matmax: None }),
        }
    }

    fn forward(&self) -> (r: Self::Forwarded)
        ensures
            self.spec_matmax() is None ==> (r matches Err(TensorError::InvalidOperation { .. })),
            self.spec_matmax() matches Some(cfg) ==> matmax_post(
                self.spec_tensor(),
                self.spec_backend(),
                cfg.0,
                cfg.1,
                r,
            ),
    {
        match self.matmax {
            None => Err(
                TensorError::InvalidOperation {
                    op: "matmax",
                    reason: "no axis configuration was supplied before the forward pass",
                },
            ),
            Some((d, keep)) => matmax_forward(self.tensor, self.backend, d, keep),
        }
    }

    fn backend(&self) -> (r: &'t B)
        ensures
            *r == self.spec_backend(),
    {
        self.backend
    }
}

} // verus!
