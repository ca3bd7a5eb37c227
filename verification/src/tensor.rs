//! The tensor data model: a flat, row-major buffer plus a shape vector, with
//! construction validating the shape/size invariant.

use vstd::prelude::*;

use crate::shape::{
    checked_size, flat_index, flat_index_prefix, index_in_bounds, lemma_flat_index_prefix_bound,
    lemma_prefix_le_product_from_bounds, shape_product,
};
use crate::MlResult;

verus! {

/// The closed set of failure kinds reported by tensor operations.
#[derive(Debug, Clone, PartialEq, Eq)]
pub enum TensorError {
    /// A strict shape match failed.
    InvalidShape { expected: Vec<usize>, got: Vec<usize> },
    /// Flat data length does not match the element count of the shape.
    InvalidDataLength { expected: usize, got: usize },
    /// An operator received operands it cannot process.
    InvalidOperation { op: &'static str, reason: &'static str },
    /// A reduction or top-k axis or count is out of range for the shape.
    InvalidAxis { axis: usize, shape: Vec<usize> },
    /// Inner dimensions disagree for matrix multiplication.
    MatrixMultiplicationError { left_shape: Vec<usize>, right_shape: Vec<usize> },
    /// Construction from zero rows.
    EmptyTensor,
}

/// Concatenation of the first `n` rows, in order.
pub open spec fn row_concat_prefix<T>(rows: Seq<Vec<T>>, n: int) -> Seq<T>
    decreases n,
{
    if n <= 0 {
        Seq::empty()
    } else {
        row_concat_prefix(rows, n - 1) + rows[n - 1]@
    }
}

/// Row-major flattening of a sequence of rows.
pub open spec fn row_concat<T>(rows: Seq<Vec<T>>) -> Seq<T> {
    row_concat_prefix(rows, rows.len() as int)
}

/// All rows have the length of the first row.
pub open spec fn rows_uniform<T>(rows: Seq<Vec<T>>) -> bool {
    forall|j: int| 0 <= j < rows.len() ==> #[trigger] rows[j]@.len() == rows[0]@.len()
}

/// Index of the first row whose length differs from the first row's,
/// searching from position `j`; the row count if there is none.
pub open spec fn first_ragged_row<T>(rows: Seq<Vec<T>>, j: int) -> int
    decreases rows.len() - j,
{
    if j < 0 || j >= rows.len() {
        rows.len() as int
    } else if rows[j]@.len() != rows[0]@.len() {
        j
    } else {
        first_ragged_row(rows, j + 1)
    }
}

/// The core value type: a flat element buffer in row-major order, the shape
/// that indexes it, and the gradient-tracking metadata slots.
#[derive(Debug)]
pub struct Tensor<T> {
    data: Vec<T>,
    shape: Vec<usize>,
    requires_grad: bool,
    grad: Option<Box<Tensor<T>>>,
}

/// The uniform contract of a tensor value: construction, introspection and
/// index arithmetic, stated over the abstract data and shape sequences.
pub trait TensorBase<T: Copy>: Sized {
    /// The flat element buffer, abstractly.
    spec fn spec_data(&self) -> Seq<T>;

    /// The shape vector, abstractly.
    spec fn spec_shape(&self) -> Seq<usize>;

    /// The gradient-tracking flag, abstractly.
    spec fn spec_requires_grad(&self) -> bool;

    /// The shape/size invariant: the buffer holds exactly one element per
    /// point of the shape.
    spec fn wf(&self) -> bool;

    /// Builds a rank-2 tensor from equal-length rows, flattened in order.
    fn new(data: Vec<Vec<T>>) -> (r: MlResult<Self>)
        ensures
            data@.len() == 0 ==> (r matches Err(e) && e == TensorError::EmptyTensor),
            data@.len() > 0 && !rows_uniform(data@) ==> (r matches Err(
                TensorError::InvalidDataLength { expected, got },
            ) && expected == data@[0]@.len() && got == data@[first_ragged_row(data@, 1)]@.len()),
            data@.len() > 0 && rows_uniform(data@) ==> (r matches Ok(t) && t.wf()
                && t.spec_data() == row_concat(data@) && t.spec_shape() == seq![
                data@.len() as usize,
                data@[0]@.len() as usize,
            ] && !t.spec_requires_grad()),
    ;

    /// Builds a tensor of arbitrary rank from pre-flattened data, failing
    /// when the data length does not match the element count of the shape.
    /// When that count does not even fit in `usize`, the reported expected
    /// length saturates at `usize::MAX`.
    fn from_vec(data: Vec<T>, shape: &Vec<usize>) -> (r: MlResult<Self>)
        ensures
            data@.len() == shape_product(shape@) ==> (r matches Ok(t) && t.wf() && t.spec_data()
                == data@ && t.spec_shape() == shape@ && !t.spec_requires_grad()),
            data@.len() != shape_product(shape@) ==> (r matches Err(
                TensorError::InvalidDataLength { expected, got },
            ) && got == data@.len() && if shape_product(shape@) <= usize::MAX {
                expected == shape_product(shape@)
            } else {
                expected == usize::MAX
            }),
    ;

    /// The shape vector.
    fn shape(&self) -> (s: &Vec<usize>)
        ensures
            s@ == self.spec_shape(),
    ;

    /// The flat element buffer.
    fn data(&self) -> (d: &Vec<T>)
        ensures
            d@ == self.spec_data(),
    ;

    /// Element lookup by multi-index: absent when the index arity does not
    /// match the rank or any component is out of range for its axis.
    fn get(&self, indices: &Vec<usize>) -> (r: Option<&T>)
        requires
            self.wf(),
        ensures
            index_in_bounds(self.spec_shape(), indices@) ==> (r matches Some(v) && *v
                == self.spec_data()[flat_index(self.spec_shape(), indices@)]),
            !index_in_bounds(self.spec_shape(), indices@) ==> r is None,
    ;

    /// Row-major flat offset of a multi-index: absent when the index arity
    /// does not match the rank or any component is out of range for its axis.
    fn index(&self, indices: &Vec<usize>) -> (r: Option<usize>)
        requires
            self.wf(),
        ensures
            index_in_bounds(self.spec_shape(), indices@) ==> (r matches Some(off) && off
                == flat_index(self.spec_shape(), indices@) && off < self.spec_data().len()),
            !index_in_bounds(self.spec_shape(), indices@) ==> r is None,
    ;

    /// Strict shape check for the non-broadcasting element-wise path.
    fn chk_shape(&self, other: &Self) -> (r: MlResult<()>)
        ensures
            self.spec_shape() == other.spec_shape() ==> r matches Ok(()),
            self.spec_shape() != other.spec_shape() ==> (r matches Err(
                TensorError::InvalidShape { expected, got },
            ) && expected@ == self.spec_shape() && got@ == other.spec_shape()),
    ;

    /// Whether this tensor participates in gradient tracking.
    fn requires_grad(&self) -> (r: bool)
        ensures
            r == self.spec_requires_grad(),
    ;
}

impl<T: Copy> TensorBase<T> for Tensor<T> {
    closed spec fn spec_data(&self) -> Seq<T> {
        self.data@
    }

    closed spec fn spec_shape(&self) -> Seq<usize> {
        self.shape@
    }

    closed spec fn spec_requires_grad(&self) -> bool {
        self.requires_grad
    }

    open spec fn wf(&self) -> bool {
        &&& self.spec_data().len() == shape_product(self.spec_shape())
        &&& self.spec_data().len() <= usize::MAX
    }

    fn new(data: Vec<Vec<T>>) -> (r: MlResult<Self>) {
        if data.len() == 0 {
            return Err(TensorError::EmptyTensor);
        }
        let cols = data[0].len();
        // Reject ragged input: the shape/size invariant could not hold.
        let mut j: usize = 1;
        while j < data.len()
            invariant
                1 <= j <= data@.len(),
                cols == data@[0]@.len(),
                forall|i: int| 0 <= i < j ==> #[trigger] data@[i]@.len() == data@[0]@.len(),
            decreases data@.len() - j,
        {
            if data[j].len() != cols {
                proof {
                    assert(data@[j as int]@.len() != data@[0]@.len());
                    assert(!rows_uniform(data@));
                    lemma_first_ragged_found(data@, 1, j as int);
                }
                return Err(
                    TensorError::InvalidDataLength { expected: cols, got: data[j].len() },
                );
            }
            j = j + 1;
        }
        let rows = data.len();
        let mut flat: Vec<T> = Vec::new();
        let mut i: usize = 0;
        while i < data.len()
            invariant
                0 <= i <= data@.len(),
                forall|k: int| 0 <= k < data@.len() ==> #[trigger] data@[k]@.len()
                    == data@[0]@.len(),
                flat@ == row_concat_prefix(data@, i as int),
            decreases data@.len() - i,
        {
            let row = &data[i];
            let mut c: usize = 0;
            while c < row.len()
                invariant
                    0 <= c <= row@.len(),
                    row@ == data@[i as int]@,
                    0 <= i < data@.len(),
                    flat@ == row_concat_prefix(data@, i as int) + row@.subrange(0, c as int),
                decreases row@.len() - c,
            {
                flat.push(row[c]);
                proof {
                    assert(row@.subrange(0, c as int).push(row@[c as int]) =~= row@.subrange(
                        0,
                        c as int + 1,
                    ));
                }
                c = c + 1;
            }
            proof {
                assert(row@.subrange(0, row@.len() as int) =~= row@);
                assert(row_concat_prefix(data@, i as int) + data@[i as int]@ == row_concat_prefix(
                    data@,
                    i as int + 1,
                ));
            }
            i = i + 1;
        }
        let shape = vec![rows, cols];
        proof {
            lemma_row_concat_len(data@, data@.len() as int);
            assert(shape@ =~= seq![rows, cols]);
            crate::shape::lemma_rank2_product(seq![rows, cols]);
            assert(vstd::std_specs::vec::spec_vec_len(&flat) == flat@.len());
        }
        Ok(Tensor { data: flat, shape, requires_grad: false, grad: None })
    }

    fn from_vec(data: Vec<T>, shape: &Vec<usize>) -> (r: MlResult<Self>) {
        match checked_size(shape) {
            Some(expected) => {
                if data.len() != expected {
                    Err(TensorError::InvalidDataLength { expected, got: data.len() })
                } else {
                    Ok(
                        Tensor {
                            data,
                            shape: shape.clone(),
                            requires_grad: false,
                            grad: None,
                        },
                    )
                }
            },
            None => Err(
                TensorError::InvalidDataLength { expected: usize::MAX, got: data.len() },
            ),
        }
    }

    fn shape(&self) -> (s: &Vec<usize>) {
        &self.shape
    }

    fn data(&self) -> (d: &Vec<T>) {
        &self.data
    }

    fn get(&self, indices: &Vec<usize>) -> (r: Option<&T>) {
        match self.index(indices) {
            Some(off) => Some(&self.data[off]),
            None => None,
        }
    }

    fn index(&self, indices: &Vec<usize>) -> (r: Option<usize>) {
        if indices.len() != self.shape.len() {
            return None;
        }
        let n = self.data.len();
        let ghost s = self.shape@;
        let ghost ix = indices@;
        let mut acc: usize = 0;
        let mut j: usize = 0;
        while j < self.shape.len()
            invariant
                0 <= j <= s.len(),
                s == self.spec_shape(),
                ix == indices@,
                ix.len() == s.len(),
                self.wf(),
                n == self.spec_data().len(),
                forall|k: int| 0 <= k < j ==> ix[k] < s[k],
                acc == flat_index_prefix(s, ix, j as int),
            decreases s.len() - j,
        {
            let dim = self.shape[j];
            let c = indices[j];
            if c >= dim {
                return None;
            }
            // An overflowing offset is only reachable when a later axis has
            // size zero, and then some component must be out of range.
            let stretched = match acc.checked_mul(dim) {
                Some(m) => m.checked_add(c),
                None => None,
            };
            match stretched {
                Some(v) => {
                    acc = v;
                },
                None => {
                    proof {
                        if index_in_bounds(s, ix) {
                            lemma_flat_index_prefix_bound(s, ix, j as int + 1);
                            lemma_prefix_le_product_from_bounds(s, ix, j as int + 1);
                        }
                    }
                    return None;
                },
            }
            j = j + 1;
        }
        proof {
            assert(index_in_bounds(s, ix));
            lemma_flat_index_prefix_bound(s, ix, s.len() as int);
            assert(s.subrange(0, s.len() as int) =~= s);
        }
        Some(acc)
    }

    fn chk_shape(&self, other: &Self) -> (r: MlResult<()>) {
        if !shapes_equal(&self.shape, &other.shape) {
            return Err(
                TensorError::InvalidShape {
                    expected: self.shape.clone(),
                    got: other.shape.clone(),
                },
            );
        }
        Ok(())
    }

    fn requires_grad(&self) -> (r: bool) {
        self.requires_grad
    }
}

impl<T: Copy> Tensor<T> {
    /// Turns gradient tracking on or off; the data and shape are unchanged.
    pub fn set_requires_grad(&mut self, enabled: bool)
        ensures
            final (self).spec_requires_grad() == enabled,
            final (self).spec_data() == old(self).spec_data(),
            final (self).spec_shape() == old(self).spec_shape(),
    {
        self.requires_grad = enabled;
    }

    /// The accumulated gradient, when a backward pass has attached one.
    pub fn grad(&self) -> (r: Option<&Tensor<T>>)
        ensures
            r is Some <==> self.spec_grad() is Some,
    {
        match &self.grad {
            Some(g) => Some(&**g),
            None => None,
        }
    }

    /// The gradient slot, abstractly.
    pub closed spec fn spec_grad(&self) -> Option<Box<Tensor<T>>> {
        self.grad
    }
}

/// A shared-ownership handle around a tensor: reference-counted and
/// immutable once published, so one tensor can feed several operations
/// without copies.
pub struct ArcTensor<T>(pub std::sync::Arc<Tensor<T>>);

impl<T: Copy> ArcTensor<T> {
    /// Wraps a tensor in a shared handle.
    pub fn new(tensor: Tensor<T>) -> (r: ArcTensor<T>)
        ensures
            *r.0 == tensor,
    {
        ArcTensor(std::sync::Arc::new(tensor))
    }

    /// Borrows the shared tensor.
    pub fn tensor(&self) -> (r: &Tensor<T>)
        ensures
            *r == *self.0,
    {
        &*self.0
    }
}

/// Exact equality of two shape vectors.
pub fn shapes_equal(a: &Vec<usize>, b: &Vec<usize>) -> (r: bool)
    ensures
        r <==> a@ == b@,
{
    if a.len() != b.len() {
        return false;
    }
    let mut i: usize = 0;
    while i < a.len()
        invariant
            0 <= i <= a@.len(),
            a@.len() == b@.len(),
            forall|j: int| 0 <= j < i ==> a@[j] == b@[j],
        decreases a@.len() - i,
    {
        if a[i] != b[i] {
            return false;
        }
        i = i + 1;
    }
    proof {
        assert(a@ =~= b@);
    }
    true
}

/// Uniform rows concatenate to `rows * cols` elements.
proof fn lemma_row_concat_len<T>(rows: Seq<Vec<T>>, n: int)
    requires
        0 < n <= rows.len(),
        rows_uniform(rows),
    ensures
        row_concat_prefix(rows, n).len() == n * rows[0]@.len(),
    decreases n,
{
    assert(rows[n - 1]@.len() == rows[0]@.len());
    if n == 1 {
        assert(row_concat_prefix(rows, 0) == Seq::<T>::empty());
        assert(row_concat_prefix(rows, 1).len() == rows[0]@.len());
    } else {
        lemma_row_concat_len(rows, n - 1);
        assert((n - 1) * rows[0]@.len() + rows[0]@.len() == n * rows[0]@.len()) by (nonlinear_arith);
    }
}

/// If scanning reached `j` without a mismatch and row `j` mismatches, then
/// `j` is the first ragged row.
proof fn lemma_first_ragged_found<T>(rows: Seq<Vec<T>>, from: int, j: int)
    requires
        1 <= from <= j < rows.len(),
        forall|i: int| from <= i < j ==> #[trigger] rows[i]@.len() == rows[0]@.len(),
        rows[j]@.len() != rows[0]@.len(),
    ensures
        first_ragged_row(rows, from) == j,
    decreases j - from,
{
    if from < j {
        lemma_first_ragged_found(rows, from + 1, j);
    }
}


} // verus!
