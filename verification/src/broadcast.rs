//! The broadcasting engine: reconciling two equal-rank shapes where a
//! size-1 axis on either side stretches to the other's size, without
//! materializing expanded copies.

use vstd::prelude::*;

use crate::backend::{Backend, BinaryOp};
use crate::shape::{
    axes_compatible, lemma_mixed_radix, lemma_prefix_le_product,
    lemma_shape_product_pos_dims, lemma_source_index_prefix_bound, lemma_suffix_product_all,
    lemma_suffix_product_bounds, lemma_suffix_product_unfold, checked_size, shape_product,
    source_index, source_index_prefix, suffix_prod, suffix_product,
};
use crate::tensor::{Tensor, TensorBase};

verus! {

/// Two shapes broadcast together when they have equal rank and every axis
/// pair either matches or has size one on at least one side.
pub open spec fn can_broadcast_spec(a: Seq<usize>, b: Seq<usize>) -> bool {
    &&& a.len() == b.len()
    &&& forall|i: int| 0 <= i < a.len() ==> a[i] == b[i] || a[i] == 1 || b[i] == 1
}

/// The reconciled output shape: the per-axis maximum, over the common rank.
pub open spec fn broadcast_shape_spec(a: Seq<usize>, b: Seq<usize>) -> Seq<usize> {
    Seq::new(
        if a.len() <= b.len() {
            a.len()
        } else {
            b.len()
        },
        |i: int|
            if a[i] >= b[i] {
                a[i]
            } else {
                b[i]
            },
    )
}

/// Broadcasting can index both operands exactly when the shapes broadcast
/// and every axis of each operand either matches the reconciled shape or is
/// stretched from size one. The two differ only where a zero-sized axis
/// meets a one-sized axis, in which case the per-axis maximum has no cell to
/// read from the zero-sized operand.
pub open spec fn bcast_feasible(a: Seq<usize>, b: Seq<usize>) -> bool {
    &&& can_broadcast_spec(a, b)
    &&& axes_compatible(broadcast_shape_spec(a, b), a)
    &&& axes_compatible(broadcast_shape_spec(a, b), b)
}

impl<T: Copy> Tensor<T> {
    /// Whether this tensor's shape broadcasts with the other's.
    pub fn can_broadcast(&self, other: &Tensor<T>) -> (r: bool)
        ensures
            r == can_broadcast_spec(self.spec_shape(), other.spec_shape()),
    {
        let a = self.shape();
        let b = other.shape();
        if a.len() != b.len() {
            return false;
        }
        let mut i: usize = 0;
        while i < a.len()
            invariant
                0 <= i <= a@.len(),
                a@ == self.spec_shape(),
                b@ == other.spec_shape(),
                a@.len() == b@.len(),
                forall|j: int| 0 <= j < i ==> a@[j] == b@[j] || a@[j] == 1 || b@[j] == 1,
            decreases a@.len() - i,
        {
            if !(a[i] == b[i] || a[i] == 1 || b[i] == 1) {
                return false;
            }
            i = i + 1;
        }
        true
    }

    /// The reconciled shape: the per-axis maximum over the common rank.
    pub fn broadcast_shape(&self, other: &Tensor<T>) -> (r: Vec<usize>)
        ensures
            r@ == broadcast_shape_spec(self.spec_shape(), other.spec_shape()),
    {
        let a = self.shape();
        let b = other.shape();
        let n = if a.len() <= b.len() {
            a.len()
        } else {
            b.len()
        };
        let mut out: Vec<usize> = Vec::new();
        let mut i: usize = 0;
        while i < n
            invariant
                0 <= i <= n,
                a@ == self.spec_shape(),
                b@ == other.spec_shape(),
                n == if a@.len() <= b@.len() {
                    a@.len()
                } else {
                    b@.len()
                },
                out@.len() == i,
                forall|j: int| 0 <= j < i ==> out@[j] == if a@[j] >= b@[j] {
                    a@[j]
                } else {
                    b@[j]
                },
            decreases n - i,
        {
            let d = if a[i] >= b[i] {
                a[i]
            } else {
                b[i]
            };
            out.push(d);
            i = i + 1;
        }
        proof {
            assert(out@ =~= broadcast_shape_spec(self.spec_shape(), other.spec_shape()));
        }
        out
    }

    /// Maps one linear index of the output shape back to the flat offsets of
    /// the two operands, stretching size-1 axes. Absent when the shapes do
    /// not line up or the index is out of range.
    pub fn calculate_broadcast_indices(
        &self,
        other: &Tensor<T>,
        idx: usize,
        shape: &Vec<usize>,
    ) -> (r: Option<(usize, usize)>)
        requires
            self.wf(),
            other.wf(),
        ensures
            ({
                let out = shape@;
                let sa = self.spec_shape();
                let sb = other.spec_shape();
                let good = axes_compatible(out, sa) && axes_compatible(out, sb)
                    && shape_product(out) <= usize::MAX && idx < shape_product(out);
                &&& good ==> (r matches Some(p) && p.0 == source_index(out, sa, idx as int)
                    && p.0 < self.spec_data().len() && p.1 == source_index(out, sb, idx as int)
                    && p.1 < other.spec_data().len())
                &&& !good ==> r is None
            }),
    {
        let ghost out = shape@;
        let ghost sa = self.spec_shape();
        let ghost sb = other.spec_shape();
        let rank = shape.len();
        if self.shape().len() != rank || other.shape().len() != rank {
            return None;
        }
        // Per-axis compatibility of each operand with the output shape.
        let mut i: usize = 0;
        while i < rank
            invariant
                0 <= i <= rank,
                rank == out.len(),
                out == shape@,
                sa == self.spec_shape(),
                sb == other.spec_shape(),
                sa.len() == rank && sb.len() == rank,
                forall|j: int|
                    0 <= j < i ==> (sa[j] == out[j] || sa[j] == 1) && (sb[j] == out[j] || sb[j]
                        == 1),
            decreases rank - i,
        {
            let d = shape[i];
            let da = self.shape()[i];
            let db = other.shape()[i];
            if !(da == d || da == 1) {
                return None;
            }
            if !(db == d || db == 1) {
                return None;
            }
            i = i + 1;
        }
        let total = match checked_size(shape) {
            Some(t) => t,
            None => {
                return None;
            },
        };
        if idx >= total {
            return None;
        }
        proof {
            lemma_shape_product_pos_dims(out);
            assert(forall|j: int| 0 <= j < rank ==> sa[j] >= 1);
            assert(forall|j: int| 0 <= j < rank ==> sb[j] >= 1);
            lemma_suffix_product_all(out);
            vstd::arithmetic::div_mod::lemma_small_mod(idx as nat, shape_product(out) as nat);
        }
        let la = self.data().len();
        let lb = other.data().len();
        let mut remaining: usize = idx;
        let mut a_acc: usize = 0;
        let mut b_acc: usize = 0;
        let mut i: usize = 0;
        while i < rank
            invariant
                0 <= i <= rank,
                rank == out.len(),
                out == shape@,
                sa == self.spec_shape(),
                sb == other.spec_shape(),
                self.wf(),
                other.wf(),
                la == self.spec_data().len(),
                lb == other.spec_data().len(),
                axes_compatible(out, sa),
                axes_compatible(out, sb),
                forall|j: int| 0 <= j < rank ==> out[j] >= 1,
                shape_product(out) <= usize::MAX,
                idx < shape_product(out),
                remaining == idx as int % suffix_product(out, i as int),
                a_acc == source_index_prefix(out, sa, idx as int, i as int),
                b_acc == source_index_prefix(out, sb, idx as int, i as int),
            decreases rank - i,
        {
            let m = suffix_prod(shape, i + 1);
            let d = shape[i];
            proof {
                lemma_suffix_product_unfold(out, i as int);
                lemma_suffix_product_bounds(out, i as int + 1);
                lemma_mixed_radix(idx as int, d as int, m as int);
            }
            let pos = remaining / m;
            remaining = remaining % m;
            proof {
                // The accumulated offsets stay below each operand's element
                // count, so the update cannot overflow.
                lemma_source_index_prefix_bound(out, sa, idx as int, i as int + 1);
                lemma_source_index_prefix_bound(out, sb, idx as int, i as int + 1);
                lemma_prefix_le_product(sa, i as int + 1);
                lemma_prefix_le_product(sb, i as int + 1);
                assert(sa.subrange(0, sa.len() as int) =~= sa);
                assert(sb.subrange(0, sb.len() as int) =~= sb);
            }
            let da = self.shape()[i];
            let db = other.shape()[i];
            a_acc = a_acc * da + (if da == 1 {
                0
            } else {
                pos
            });
            b_acc = b_acc * db + (if db == 1 {
                0
            } else {
                pos
            });
            i = i + 1;
        }
        proof {
            lemma_source_index_prefix_bound(out, sa, idx as int, rank as int);
            lemma_source_index_prefix_bound(out, sb, idx as int, rank as int);
            lemma_prefix_le_product(sa, rank as int);
            lemma_prefix_le_product(sb, rank as int);
            assert(sa.subrange(0, sa.len() as int) =~= sa);
            assert(sb.subrange(0, sb.len() as int) =~= sb);
            if rank == 0 {
                assert(shape_product(sa) == 1);
            }
        }
        Some((a_acc, b_acc))
    }

    /// Applies one element-wise binary kernel under broadcasting: for every
    /// linear index of the reconciled shape, the kernel combines the two
    /// source elements resolved through each operand's own strides. Absent
    /// when the shapes do not broadcast or the output would not fit in the
    /// address space.
    pub fn broadcast_op<B: Backend<T>>(
        &self,
        other: &Tensor<T>,
        backend: &B,
        op: BinaryOp,
    ) -> (r: Option<Tensor<T>>)
        requires
            self.wf(),
            other.wf(),
        ensures
            broadcast_op_post(*self, *other, *backend, op, r),
    {
        let ghost sa = self.spec_shape();
        let ghost sb = other.spec_shape();
        if !self.can_broadcast(other) {
            return None;
        }
        let out = self.broadcast_shape(other);
        let rank = out.len();
        let mut i: usize = 0;
        while i < rank
            invariant
                0 <= i <= rank,
                sa == self.spec_shape(),
                sb == other.spec_shape(),
                can_broadcast_spec(sa, sb),
                out@ == broadcast_shape_spec(sa, sb),
                rank == out@.len(),
                forall|j: int|
                    0 <= j < i ==> (sa[j] == out@[j] || sa[j] == 1) && (sb[j] == out@[j] || sb[j]
                        == 1),
            decreases rank - i,
        {
            let d = out[i];
            let da = self.shape()[i];
            let db = other.shape()[i];
            if !(da == d || da == 1) {
                return None;
            }
            if !(db == d || db == 1) {
                return None;
            }
            i = i + 1;
        }
        let total = match checked_size(&out) {
            Some(t) => t,
            None => {
                return None;
            },
        };
        let mut data: Vec<T> = Vec::new();
        let mut idx: usize = 0;
        while idx < total
            invariant
                0 <= idx <= total,
                sa == self.spec_shape(),
                sb == other.spec_shape(),
                self.wf(),
                other.wf(),
                bcast_feasible(sa, sb),
                out@ == broadcast_shape_spec(sa, sb),
                total == shape_product(out@),
                data@.len() == idx,
                forall|j: int|
                    0 <= j < idx ==> backend.binary_post(
                        op,
                        self.spec_data()[source_index(out@, sa, j)],
                        other.spec_data()[source_index(out@, sb, j)],
                        #[trigger] data@[j],
                    ),
            decreases total - idx,
        {
            match self.calculate_broadcast_indices(other, idx, &out) {
                Some(pair) => {
                    let va = self.data()[pair.0];
                    let vb = other.data()[pair.1];
                    data.push(backend.binary(op, va, vb));
                },
                None => {
                    proof {
                        assert(false);
                    }
                    return None;
                },
            }
            idx = idx + 1;
        }
        match Tensor::from_vec(data, &out) {
            Ok(t) => Some(t),
            Err(_) => {
                proof {
                    assert(false);
                }
                None
            },
        }
    }

    /// Consuming form of [`Tensor::broadcast_op`].
    pub fn into_broadcast_op<B: Backend<T>>(
        self,
        other: Tensor<T>,
        backend: &B,
        op: BinaryOp,
    ) -> (r: Option<Tensor<T>>)
        requires
            self.wf(),
            other.wf(),
        ensures
            broadcast_op_post(self, other, *backend, op, r),
    {
        self.broadcast_op(&other, backend, op)
    }
}

/// What applying a broadcast binary kernel returns: the reconciled shape and
/// kernel-combined elements on success, and nothing when the shapes cannot
/// be broadcast or the output would not fit in the address space.
pub open spec fn broadcast_op_post<T: Copy, B: Backend<T>>(
    a: Tensor<T>,
    b: Tensor<T>,
    backend: B,
    op: BinaryOp,
    r: Option<Tensor<T>>,
) -> bool {
    let sa = a.spec_shape();
    let sb = b.spec_shape();
    let out = broadcast_shape_spec(sa, sb);
    let good = bcast_feasible(sa, sb) && shape_product(out) <= usize::MAX;
    &&& good ==> (r matches Some(t) && t.wf() && t.spec_shape() == out && t.spec_data().len()
        == shape_product(out) && !t.spec_requires_grad() && forall|i: int|
        0 <= i < shape_product(out) ==> backend.binary_post(
            op,
            a.spec_data()[source_index(out, sa, i)],
            b.spec_data()[source_index(out, sb, i)],
            #[trigger] t.spec_data()[i],
        ))
    &&& !good ==> r is None
}

} // verus!
