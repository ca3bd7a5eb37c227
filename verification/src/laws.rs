//! Laws of the library that relate several functions: stated as public
//! proof functions so the verifier holds them, not just the tests.

use vstd::prelude::*;

use crate::backend::{Backend, BinaryOp, IntBackend};
use crate::broadcast::{broadcast_shape_spec, can_broadcast_spec};
use crate::ops::ewise_post;
use crate::reduce::{argmax_prefix, cand_argmax, topk_sel};
use crate::shape::{
    axes_compatible, lemma_shape_product_pos_dims, lemma_suffix_product_bounds,
    lemma_suffix_product_end, lemma_suffix_product_unfold, shape_product, source_index,
    source_index_prefix, suffix_product,
};
use crate::tensor::{row_concat, rows_uniform, Tensor, TensorBase};
use crate::MlResult;

verus! {

/// Shape/size invariant: every well-formed tensor holds exactly one element
/// per point of its shape. Construction establishes this and nothing
/// mutates a tensor's buffer or shape afterwards.
pub proof fn lemma_shape_size_invariant<T: Copy>(t: Tensor<T>)
    requires
        t.wf(),
    ensures
        t.spec_data().len() == shape_product(t.spec_shape()),
{
}

/// Broadcast compatibility is symmetric, and so is the reconciled shape.
pub proof fn lemma_broadcast_symmetric(a: Seq<usize>, b: Seq<usize>)
    ensures
        can_broadcast_spec(a, b) == can_broadcast_spec(b, a),
        broadcast_shape_spec(a, b) == broadcast_shape_spec(b, a),
{
    if can_broadcast_spec(a, b) {
        assert forall|i: int| 0 <= i < b.len() implies b[i] == a[i] || b[i] == 1 || a[i]
            == 1 by {
            assert(a[i] == b[i] || a[i] == 1 || b[i] == 1);
        }
    }
    if can_broadcast_spec(b, a) {
        assert forall|i: int| 0 <= i < a.len() implies a[i] == b[i] || a[i] == 1 || b[i]
            == 1 by {
            assert(b[i] == a[i] || b[i] == 1 || a[i] == 1);
        }
    }
    assert(broadcast_shape_spec(a, b) =~= broadcast_shape_spec(b, a));
}

/// Construction is deterministic: two tensors built from the same
/// nested-row input (as the constructor's contract describes them) agree in
/// data and shape.
pub proof fn lemma_new_deterministic<T: Copy>(rows: Seq<Vec<T>>, t1: Tensor<T>, t2: Tensor<T>)
    requires
        rows.len() > 0,
        rows_uniform(rows),
        t1.spec_data() == row_concat(rows),
        t1.spec_shape() == seq![rows.len() as usize, rows[0]@.len() as usize],
        t2.spec_data() == row_concat(rows),
        t2.spec_shape() == seq![rows.len() as usize, rows[0]@.len() as usize],
    ensures
        t1.spec_data() == t2.spec_data(),
        t1.spec_shape() == t2.spec_shape(),
{
}

/// The broadcast index mapping of a shape onto itself is the identity: the
/// accumulated source offset over the first `n` axes recovers the quotient
/// by the remaining stride.
proof fn lemma_source_index_identity(s: Seq<usize>, idx: int, n: int)
    requires
        0 <= idx < shape_product(s),
        0 <= n <= s.len(),
    ensures
        source_index_prefix(s, s, idx, n) == idx / suffix_product(s, n),
    decreases n,
{
    lemma_shape_product_pos_dims(s);
    if n == 0 {
        crate::shape::lemma_suffix_product_all(s);
        vstd::arithmetic::div_mod::lemma_basic_div(idx, shape_product(s));
    } else {
        lemma_source_index_identity(s, idx, n - 1);
        let d = s[n - 1] as int;
        let m = suffix_product(s, n);
        lemma_suffix_product_unfold(s, n - 1);
        lemma_suffix_product_bounds(s, n);
        vstd::arithmetic::div_mod::lemma_div_pos_is_pos(idx, m);
        let q = idx / m;
        vstd::arithmetic::div_mod::lemma_fundamental_div_mod(q, d);
        vstd::arithmetic::div_mod::lemma_div_denominator(idx, m, d);
        vstd::arithmetic::mul::lemma_mul_is_commutative(m, d);
        assert(q / d == idx / (d * m));
        assert(q == d * (q / d) + q % d);
        vstd::arithmetic::mul::lemma_mul_is_commutative(d, q / d);
        if d == 1 {
            vstd::arithmetic::div_mod::lemma_mod_bound(q, 1);
            assert(q % d == 0);
        }
        assert(source_index_prefix(s, s, idx, n) == (idx / suffix_product(s, n - 1)) * d + q % d);
        vstd::arithmetic::mul::lemma_mul_is_commutative(idx / suffix_product(s, n - 1), d);
    }
}

/// Broadcasting a shape against itself resolves every output index to the
/// same flat offset in the operand.
pub proof fn lemma_source_index_same_shape(s: Seq<usize>, idx: int)
    requires
        0 <= idx < shape_product(s),
    ensures
        source_index(s, s, idx) == idx,
{
    lemma_source_index_identity(s, idx, s.len() as int);
    lemma_suffix_product_end(s);
    vstd::arithmetic::div_mod::lemma_div_basics(idx);
}

/// A backend whose comparison is a total preorder: any two values compare,
/// and the comparison chains.
pub open spec fn total_order<T: Copy, B: Backend<T>>(backend: B) -> bool {
    &&& forall|x: T, y: T|
        #![trigger backend.le_spec(x, y)]
        backend.le_spec(x, y) || backend.le_spec(y, x)
    &&& forall|x: T, y: T, z: T|
        #![trigger backend.le_spec(x, y), backend.le_spec(y, z)]
        backend.le_spec(x, y) && backend.le_spec(y, z) ==> backend.le_spec(x, z)
}

/// The integer backend's comparison is a total order.
pub proof fn lemma_int_backend_total_order()
    ensures
        total_order::<i64, IntBackend>(IntBackend),
{
}

/// Under a total-order backend, the running best of a scan really is a
/// maximum of the scanned prefix.
pub proof fn lemma_argmax_prefix_is_max<T: Copy, B: Backend<T>>(backend: B, s: Seq<T>, n: int)
    requires
        total_order(backend),
        n >= 1,
    ensures
        0 <= argmax_prefix(backend, s, n) < n,
        forall|j: int|
            0 <= j < n ==> backend.le_spec(#[trigger] s[j], s[argmax_prefix(backend, s, n)]),
    decreases n,
{
    if n > 1 {
        lemma_argmax_prefix_is_max(backend, s, n - 1);
    }
}

/// Under a total-order backend, the best candidate of a scan points at a
/// maximum among the scanned candidates.
pub proof fn lemma_cand_argmax_is_max<T: Copy, B: Backend<T>>(
    backend: B,
    row: Seq<T>,
    cand: Seq<usize>,
    n: int,
)
    requires
        total_order(backend),
        n >= 1,
    ensures
        0 <= cand_argmax(backend, row, cand, n) < n,
        forall|j: int|
            0 <= j < n ==> backend.le_spec(
                #[trigger] row[cand[j] as int],
                row[cand[cand_argmax(backend, row, cand, n)] as int],
            ),
    decreases n,
{
    if n > 1 {
        lemma_cand_argmax_is_max(backend, row, cand, n - 1);
    }
}

/// Under a total-order backend, top-k selection emits its values in
/// descending order, so sorting the selection changes nothing.
pub proof fn lemma_topk_sel_descending<T: Copy, B: Backend<T>>(
    backend: B,
    row: Seq<T>,
    cand: Seq<usize>,
    k: int,
)
    requires
        total_order(backend),
        1 <= k <= cand.len(),
    ensures
        forall|i: int|
            #![trigger topk_sel(backend, row, cand, k)[i]]
            1 <= i < k ==> backend.le_spec(
                row[topk_sel(backend, row, cand, k)[i] as int],
                row[topk_sel(backend, row, cand, k)[i - 1] as int],
            ),
    decreases k,
{
    let sel = topk_sel(backend, row, cand, k);
    let bp = cand_argmax(backend, row, cand, cand.len() as int);
    lemma_cand_argmax_is_max(backend, row, cand, cand.len() as int);
    let cand2 = cand.remove(bp);
    let rest = topk_sel(backend, row, cand2, k - 1);
    assert(sel == seq![cand[bp]] + rest);
    if k >= 2 {
        lemma_topk_sel_descending(backend, row, cand2, k - 1);
        crate::reduce::lemma_topk_sel_len(backend, row, cand2, k - 1);
        let bp2 = cand_argmax(backend, row, cand2, cand2.len() as int);
        lemma_cand_argmax_is_max(backend, row, cand2, cand2.len() as int);
        assert(rest == seq![cand2[bp2]] + topk_sel(backend, row, cand2.remove(bp2), k - 2));
        // The head of the remainder is one of the original candidates, so
        // the first pick dominates it.
        assert(backend.le_spec(row[cand2[bp2] as int], row[cand[bp] as int])) by {
            if bp2 < bp {
                assert(cand2[bp2] == cand[bp2]);
                assert(backend.le_spec(row[cand[bp2] as int], row[cand[bp] as int]));
            } else {
                assert(cand2[bp2] == cand[bp2 + 1]);
                assert(backend.le_spec(row[cand[bp2 + 1] as int], row[cand[bp] as int]));
            }
        }
        assert forall|i: int|
            #![trigger sel[i]]
            1 <= i < k implies backend.le_spec(
            row[sel[i] as int],
            row[sel[i - 1] as int],
        ) by {
            if i == 1 {
                assert(sel[0] == cand[bp]);
                assert(sel[1] == rest[0]);
                assert(rest[0] == cand2[bp2]);
            } else {
                assert(sel[i] == rest[i - 1]);
                assert(sel[i - 1] == rest[i - 2]);
                assert(backend.le_spec(row[rest[i - 1] as int], row[rest[i - 2] as int]));
            }
        }
    }
}

/// Strict element-wise combination: on two operands of exactly equal
/// shapes, the broadcast engine degenerates to the plain pairwise
/// combination of elements, and the operation always succeeds.
pub proof fn lemma_ewise_equal_shapes<T: Copy, B: Backend<T>>(
    a: Tensor<T>,
    b: Tensor<T>,
    backend: B,
    op: BinaryOp,
    r: MlResult<Tensor<T>>,
)
    requires
        a.wf(),
        b.wf(),
        a.spec_shape() == b.spec_shape(),
        ewise_post(a, b, backend, op, r),
    ensures
        r matches Ok(t) && t.wf() && t.spec_shape() == a.spec_shape() && t.spec_data().len()
            == a.spec_data().len() && forall|i: int|
            0 <= i < a.spec_data().len() ==> backend.binary_post(
                op,
                a.spec_data()[i],
                b.spec_data()[i],
                #[trigger] t.spec_data()[i],
            ),
{
    let s = a.spec_shape();
    assert(can_broadcast_spec(s, s));
    assert(broadcast_shape_spec(s, s) =~= s);
    assert(axes_compatible(s, s));
    let t = r->Ok_0;
    assert forall|i: int| 0 <= i < a.spec_data().len() implies backend.binary_post(
        op,
        a.spec_data()[i],
        b.spec_data()[i],
        #[trigger] t.spec_data()[i],
    ) by {
        lemma_source_index_same_shape(s, i);
    }
}

} // verus!
