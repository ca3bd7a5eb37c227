//! The operation framework: one short-lived value object per operator, each
//! binding borrowed operands and a backend handle, with a uniform forward
//! contract. Shape resolution and broadcasting happen here; all per-element
//! math is delegated to the backend.

use vstd::prelude::*;

use crate::backend::{Backend, BinaryOp, UnaryOp};
use crate::broadcast::{bcast_feasible, broadcast_shape_spec, can_broadcast_spec};
use crate::shape::{lemma_rank2_product, shape_product, source_index};
use crate::tensor::{Tensor, TensorBase, TensorError};
use crate::MlResult;

verus! {

/// What an element-wise binary operation returns: the broadcast combination
/// on compatible shapes, a strict shape error on incompatible ones, and an
/// operation error when the output cannot be materialized.
pub open spec fn ewise_post<T: Copy, B: Backend<T>>(
    a: Tensor<T>,
    b: Tensor<T>,
    backend: B,
    op: BinaryOp,
    r: MlResult<Tensor<T>>,
) -> bool {
    let sa = a.spec_shape();
    let sb = b.spec_shape();
    let out = broadcast_shape_spec(sa, sb);
    let good = bcast_feasible(sa, sb) && shape_product(out) <= usize::MAX;
    &&& !can_broadcast_spec(sa, sb) ==> (r matches Err(
        TensorError::InvalidShape { expected, got },
    ) && expected@ == sa && got@ == sb)
    &&& can_broadcast_spec(sa, sb) && !good ==> (r matches Err(
        TensorError::InvalidOperation { .. },
    ))
    &&& good ==> (r matches Ok(t) && t.wf() && t.spec_shape() == out && t.spec_data().len()
        == shape_product(out) && !t.spec_requires_grad() && forall|i: int|
        0 <= i < shape_product(out) ==> backend.binary_post(
            op,
            a.spec_data()[source_index(out, sa, i)],
            b.spec_data()[source_index(out, sb, i)],
            #[trigger] t.spec_data()[i],
        ))
}

/// Element-wise binary engine shared by the Add, Sub, Mul and Div
/// operations.
fn ewise_forward<T: Copy, B: Backend<T>>(
    a: &Tensor<T>,
    b: &Tensor<T>,
    backend: &B,
    op: BinaryOp,
    name: &'static str,
) -> (r: MlResult<Tensor<T>>)
    requires
        a.wf(),
        b.wf(),
    ensures
        ewise_post(*a, *b, *backend, op, r),
        r matches Err(TensorError::InvalidOperation { op: o, .. }) ==> o == name,
{
    if !a.can_broadcast(b) {
        return Err(
            TensorError::InvalidShape {
                expected: a.shape().clone(),
                got: b.shape().clone(),
            },
        );
    }
    match a.broadcast_op(b, backend, op) {
        Some(t) => Ok(t),
        None => Err(
            TensorError::InvalidOperation {
                op: name,
                reason: "the operands cannot be broadcast into an addressable output",
            },
        ),
    }
}

/// What an element-wise unary operation returns: the same shape, with every
/// element put through the kernel. It cannot fail.
pub open spec fn unary_map_post<T: Copy, B: Backend<T>>(
    a: Tensor<T>,
    backend: B,
    op: UnaryOp,
    r: MlResult<Tensor<T>>,
) -> bool {
    r matches Ok(t) && t.wf() && t.spec_shape() == a.spec_shape() && t.spec_data().len()
        == a.spec_data().len() && !t.spec_requires_grad() && forall|i: int|
        0 <= i < a.spec_data().len() ==> backend.unary_post(
            op,
            a.spec_data()[i],
            #[trigger] t.spec_data()[i],
        )
}

/// Element-wise unary engine shared by the Exp, Neg, Sqrt, Abs, Square and
/// Log operations.
fn unary_forward<T: Copy, B: Backend<T>>(a: &Tensor<T>, backend: &B, op: UnaryOp) -> (r:
    MlResult<Tensor<T>>)
    requires
        a.wf(),
    ensures
        unary_map_post(*a, *backend, op, r),
{
    let src = a.data();
    let mut data: Vec<T> = Vec::new();
    let mut i: usize = 0;
    while i < src.len()
        invariant
            0 <= i <= src.len(),
            src@ == a.spec_data(),
            data@.len() == i,
            forall|j: int|
                0 <= j < i ==> backend.unary_post(op, a.spec_data()[j], #[trigger] data@[j]),
        decreases src.len() - i,
    {
        data.push(backend.unary(op, src[i]));
        i = i + 1;
    }
    match Tensor::from_vec(data, a.shape()) {
        Ok(t) => Ok(t),
        Err(e) => {
            proof {
                assert(false);
            }
            Err(e)
        },
    }
}

/// What the power operation returns when an exponent is configured: the
/// same shape, with every element raised through the backend's power
/// kernel.
pub open spec fn pow_map_post<T: Copy, B: Backend<T>>(
    a: Tensor<T>,
    backend: B,
    e: T,
    r: MlResult<Tensor<T>>,
) -> bool {
    r matches Ok(t) && t.wf() && t.spec_shape() == a.spec_shape() && t.spec_data().len()
        == a.spec_data().len() && !t.spec_requires_grad() && forall|i: int|
        0 <= i < a.spec_data().len() ==> backend.pow_post(
            a.spec_data()[i],
            e,
            #[trigger] t.spec_data()[i],
        )
}

/// Power engine: maps every element through the backend's power kernel.
fn pow_forward<T: Copy, B: Backend<T>>(a: &Tensor<T>, backend: &B, e: T) -> (r: MlResult<
    Tensor<T>,
>)
    requires
        a.wf(),
    ensures
        pow_map_post(*a, *backend, e, r),
{
    let src = a.data();
    let mut data: Vec<T> = Vec::new();
    let mut i: usize = 0;
    while i < src.len()
        invariant
            0 <= i <= src.len(),
            src@ == a.spec_data(),
            data@.len() == i,
            forall|j: int|
                0 <= j < i ==> backend.pow_post(a.spec_data()[j], e, #[trigger] data@[j]),
        decreases src.len() - i,
    {
        data.push(backend.pow(src[i], e));
        i = i + 1;
    }
    match Tensor::from_vec(data, a.shape()) {
        Ok(t) => Ok(t),
        Err(e) => {
            proof {
                assert(false);
            }
            Err(e)
        },
    }
}

/// The uniform operation contract: an operation binds its operands and a
/// backend handle at construction and is consumed by a single forward call.
///
/// A backward pass is the stated extension point of this framework. A
/// conforming extension must take an upstream gradient shaped like the
/// forward output and return the gradient with respect to each input,
/// following the operator's calculus (for addition the gradient passes
/// through; for multiplication it scales by the other operand), and must
/// accumulate, by summation, the gradient over every axis that the forward
/// pass stretched from size one.
pub trait Function<'t, T: Copy, B: Backend<T>>: Sized {
    /// What the forward pass produces.
    type Forwarded;

    /// The operands this operation was built over are intact tensors.
    spec fn valid(&self) -> bool;

    /// Binds borrowed operands (the second is absent for unary operators)
    /// and a backend handle; fails if a required operand is missing, an
    /// extra one is supplied, or the shapes are incompatible for this
    /// operator.
    fn new(first: &'t Tensor<T>, second: Option<&'t Tensor<T>>, backend: &'t B) -> (r: MlResult<
        Self,
    >)
        requires
            first.wf(),
            second matches Some(s) ==> s.wf(),
    ;

    /// Runs the forward pass, producing a new, independently owned output.
    /// Inputs are never mutated.
    fn forward(&self) -> (r: Self::Forwarded)
        requires
            self.valid(),
    ;

    /// The backend handle this operation delegates to.
    fn backend(&self) -> &'t B;
}

/// Structure representing an addition operation.
pub struct Add<'t, T, B> {
    first_tensor: &'t Tensor<T>,
    second_tensor: &'t Tensor<T>,
    backend: &'t B,
}

impl<'t, T: Copy, B: Backend<T>> Add<'t, T, B> {
    /// The first operand, abstractly.
    pub closed spec fn spec_first(self) -> Tensor<T> {
        *self.first_tensor
    }

    /// The second operand, abstractly.
    pub closed spec fn spec_second(self) -> Tensor<T> {
        *self.second_tensor
    }

    /// The backend handle, abstractly.
    pub closed spec fn spec_backend(self) -> B {
        *self.backend
    }
}

impl<'t, T: Copy, B: Backend<T>> Function<'t, T, B> for Add<'t, T, B> {
    type Forwarded = MlResult<Tensor<T>>;

    open spec fn valid(&self) -> bool {
        self.spec_first().wf() && self.spec_second().wf()
    }

    fn new(first: &'t Tensor<T>, second: Option<&'t Tensor<T>>, backend: &'t B) -> (r: MlResult<
        Self,
    >)
        ensures
            second is None ==> (r matches Err(TensorError::InvalidOperation { .. })),
            second matches Some(s) ==> if !can_broadcast_spec(
                first.spec_shape(),
                s.spec_shape(),
            ) {
                r matches Err(TensorError::InvalidShape { expected, got }) && expected@
                    == first.spec_shape() && got@ == s.spec_shape()
            } else {
                r matches Ok(op) && op.valid() && op.spec_first() == *first && op.spec_second()
                    == *s && op.spec_backend() == *backend
            },
    {
        match second {
            None => Err(
                TensorError::InvalidOperation {
                    op: "add",
                    reason: "a second operand is required",
                },
            ),
            Some(s) => {
                if !first.can_broadcast(s) {
                    Err(
                        TensorError::InvalidShape {
                            expected: first.shape().clone(),
                            got: s.shape().clone(),
                        },
                    )
                } else {
                    Ok(Add { first_tensor: first, second_tensor: s, backend })
                }
            },
        }
    }

    fn forward(&self) -> (r: Self::Forwarded)
        ensures
            ewise_post(
                self.spec_first(),
                self.spec_second(),
                self.spec_backend(),
                BinaryOp::Add,
                r,
            ),
    {
        ewise_forward(self.first_tensor, self.second_tensor, self.backend, BinaryOp::Add, "add")
    }

    fn backend(&self) -> (r: &'t B)
        ensures
            *r == self.spec_backend(),
    {
        self.backend
    }
}

/// Structure representing a subtraction operation.
pub struct Sub<'t, T, B> {
    first_tensor: &'t Tensor<T>,
    second_tensor: &'t Tensor<T>,
    backend: &'t B,
}

impl<'t, T: Copy, B: Backend<T>> Sub<'t, T, B> {
    /// The first operand, abstractly.
    pub closed spec fn spec_first(self) -> Tensor<T> {
        *self.first_tensor
    }

    /// The second operand, abstractly.
    pub closed spec fn spec_second(self) -> Tensor<T> {
        *self.second_tensor
    }

    /// The backend handle, abstractly.
    pub closed spec fn spec_backend(self) -> B {
        *self.backend
    }
}

impl<'t, T: Copy, B: Backend<T>> Function<'t, T, B> for Sub<'t, T, B> {
    type Forwarded = MlResult<Tensor<T>>;

    open spec fn valid(&self) -> bool {
        self.spec_first().wf() && self.spec_second().wf()
    }

    fn new(first: &'t Tensor<T>, second: Option<&'t Tensor<T>>, backend: &'t B) -> (r: MlResult<
        Self,
    >)
        ensures
            second is None ==> (r matches Err(TensorError::InvalidOperation { .. })),
            second matches Some(s) ==> if !can_broadcast_spec(
                first.spec_shape(),
                s.spec_shape(),
            ) {
                r matches Err(TensorError::InvalidShape { expected, got }) && expected@
                    == first.spec_shape() && got@ == s.spec_shape()
            } else {
                r matches Ok(op) && op.valid() && op.spec_first() == *first && op.spec_second()
                    == *s && op.spec_backend() == *backend
            },
    {
        match second {
            None => Err(
                TensorError::InvalidOperation {
                    op: "sub",
                    reason: "a second operand is required",
                },
            ),
            Some(s) => {
                if !first.can_broadcast(s) {
                    Err(
                        TensorError::InvalidShape {
                            expected: first.shape().clone(),
                            got: s.shape().clone(),
                        },
                    )
                } else {
                    Ok(Sub { first_tensor: first, second_tensor: s, backend })
                }
            },
        }
    }

    fn forward(&self) -> (r: Self::Forwarded)
        ensures
            ewise_post(
                self.spec_first(),
                self.spec_second(),
                self.spec_backend(),
                BinaryOp::Sub,
                r,
            ),
    {
        ewise_forward(self.first_tensor, self.second_tensor, self.backend, BinaryOp::Sub, "sub")
    }

    fn backend(&self) -> (r: &'t B)
        ensures
            *r == self.spec_backend(),
    {
        self.backend
    }
}

/// Structure representing a multiplication operation.
pub struct Mul<'t, T, B> {
    first_tensor: &'t Tensor<T>,
    second_tensor: &'t Tensor<T>,
    backend: &'t B,
}

impl<'t, T: Copy, B: Backend<T>> Mul<'t, T, B> {
    /// The first operand, abstractly.
    pub closed spec fn spec_first(self) -> Tensor<T> {
        *self.first_tensor
    }

    /// The second operand, abstractly.
    pub closed spec fn spec_second(self) -> Tensor<T> {
        *self.second_tensor
    }

    /// The backend handle, abstractly.
    pub closed spec fn spec_backend(self) -> B {
        *self.backend
    }
}

impl<'t, T: Copy, B: Backend<T>> Function<'t, T, B> for Mul<'t, T, B> {
    type Forwarded = MlResult<Tensor<T>>;

    open spec fn valid(&self) -> bool {
        self.spec_first().wf() && self.spec_second().wf()
    }

    fn new(first: &'t Tensor<T>, second: Option<&'t Tensor<T>>, backend: &'t B) -> (r: MlResult<
        Self,
    >)
        ensures
            second is None ==> (r matches Err(TensorError::InvalidOperation { .. })),
            second matches Some(s) ==> if !can_broadcast_spec(
                first.spec_shape(),
                s.spec_shape(),
            ) {
                r matches Err(TensorError::InvalidShape { expected, got }) && expected@
                    == first.spec_shape() && got@ == s.spec_shape()
            } else {
                r matches Ok(op) && op.valid() && op.spec_first() == *first && op.spec_second()
                    == *s && op.spec_backend() == *backend
            },
    {
        match second {
            None => Err(
                TensorError::InvalidOperation {
                    op: "mul",
                    reason: "a second operand is required",
                },
            ),
            Some(s) => {
                if !first.can_broadcast(s) {
                    Err(
                        TensorError::InvalidShape {
                            expected: first.shape().clone(),
                            got: s.shape().clone(),
                        },
                    )
                } else {
                    Ok(Mul { first_tensor: first, second_tensor: s, backend })
                }
            },
        }
    }

    fn forward(&self) -> (r: Self::Forwarded)
        ensures
            ewise_post(
                self.spec_first(),
                self.spec_second(),
                self.spec_backend(),
                BinaryOp::Mul,
                r,
            ),
    {
        ewise_forward(self.first_tensor, self.second_tensor, self.backend, BinaryOp::Mul, "mul")
    }

    fn backend(&self) -> (r: &'t B)
        ensures
            *r == self.spec_backend(),
    {
        self.backend
    }
}

/// Structure representing a division operation.
pub struct Div<'t, T, B> {
    first_tensor: &'t Tensor<T>,
    second_tensor: &'t Tensor<T>,
    backend: &'t B,
}

impl<'t, T: Copy, B: Backend<T>> Div<'t, T, B> {
    /// The first operand, abstractly.
    pub closed spec fn spec_first(self) -> Tensor<T> {
        *self.first_tensor
    }

    /// The second operand, abstractly.
    pub closed spec fn spec_second(self) -> Tensor<T> {
        *self.second_tensor
    }

    /// The backend handle, abstractly.
    pub closed spec fn spec_backend(self) -> B {
        *self.backend
    }
}

impl<'t, T: Copy, B: Backend<T>> Function<'t, T, B> for Div<'t, T, B> {
    type Forwarded = MlResult<Tensor<T>>;

    open spec fn valid(&self) -> bool {
        self.spec_first().wf() && self.spec_second().wf()
    }

    fn new(first: &'t Tensor<T>, second: Option<&'t Tensor<T>>, backend: &'t B) -> (r: MlResult<
        Self,
    >)
        ensures
            second is None ==> (r matches Err(TensorError::InvalidOperation { .. })),
            second matches Some(s) ==> if !can_broadcast_spec(
                first.spec_shape(),
                s.spec_shape(),
            ) {
                r matches Err(TensorError::InvalidShape { expected, got }) && expected@
                    == first.spec_shape() && got@ == s.spec_shape()
            } else {
                r matches Ok(op) && op.valid() && op.spec_first() == *first && op.spec_second()
                    == *s && op.spec_backend() == *backend
            },
    {
        match second {
            None => Err(
                TensorError::InvalidOperation {
                    op: "div",
                    reason: "a second operand is required",
                },
            ),
            Some(s) => {
                if !first.can_broadcast(s) {
                    Err(
                        TensorError::InvalidShape {
                            expected: first.shape().clone(),
                            got: s.shape().clone(),
                        },
                    )
                } else {
                    Ok(Div { first_tensor: first, second_tensor: s, backend })
                }
            },
        }
    }

    fn forward(&self) -> (r: Self::Forwarded)
        ensures
            ewise_post(
                self.spec_first(),
                self.spec_second(),
                self.spec_backend(),
                BinaryOp::Div,
                r,
            ),
    {
        ewise_forward(self.first_tensor, self.second_tensor, self.backend, BinaryOp::Div, "div")
    }

    fn backend(&self) -> (r: &'t B)
        ensures
            *r == self.spec_backend(),
    {
        self.backend
    }
}

/// The matrix multiplication shape rule: two rank-2 operands whose inner
/// dimensions agree.
pub open spec fn matmul_ok(sa: Seq<usize>, sb: Seq<usize>) -> bool {
    sa.len() == 2 && sb.len() == 2 && sa[1] == sb[0]
}

/// Row `i` of a rank-2 tensor with row length `k`, as a sequence.
pub open spec fn mm_row<T>(data: Seq<T>, k: int, i: int) -> Seq<T> {
    data.subrange(i * k, i * k + k)
}

/// Column `j` of a rank-2 tensor with `n` columns and `k` rows, as a
/// sequence.
pub open spec fn mm_col<T>(data: Seq<T>, n: int, k: int, j: int) -> Seq<T> {
    Seq::new(k as nat, |t: int| data[t * n + j])
}

/// What accumulating a dot product through the backend may produce: the
/// zero kernel seeds the accumulator, and each position contributes one
/// multiplication followed by one addition.
pub open spec fn dot_post<T: Copy, B: Backend<T>>(backend: B, x: Seq<T>, y: Seq<T>, r: T) -> bool
    decreases x.len(),
{
    if x.len() == 0 {
        r == backend.zero_spec()
    } else {
        exists|s: T, p: T|
            {
                &&& dot_post(backend, x.drop_last(), y.drop_last(), s)
                &&& backend.binary_post(BinaryOp::Mul, x.last(), y.last(), p)
                &&& #[trigger] backend.binary_post(BinaryOp::Add, s, p, r)
            }
    }
}

/// What matrix multiplication returns: on two rank-2 operands with agreeing
/// inner dimensions, a rank-2 tensor whose every cell is the dot product of
/// the matching row and column; a matrix multiplication error otherwise,
/// and an operation error when the output cannot be addressed.
pub open spec fn matmul_post<T: Copy, B: Backend<T>>(
    a: Tensor<T>,
    b: Tensor<T>,
    backend: B,
    r: MlResult<Tensor<T>>,
) -> bool {
    let sa = a.spec_shape();
    let sb = b.spec_shape();
    let m = sa[0] as int;
    let k = sa[1] as int;
    let n = sb[1] as int;
    &&& !matmul_ok(sa, sb) ==> (r matches Err(
        TensorError::MatrixMultiplicationError { left_shape, right_shape },
    ) && left_shape@ == sa && right_shape@ == sb)
    &&& matmul_ok(sa, sb) && m * n > usize::MAX ==> (r matches Err(
        TensorError::InvalidOperation { .. },
    ))
    &&& matmul_ok(sa, sb) && m * n <= usize::MAX ==> (r matches Ok(t) && t.wf()
        && t.spec_shape() == seq![sa[0], sb[1]] && t.spec_data().len() == m * n
        && !t.spec_requires_grad() && forall|l: int|
        0 <= l < m * n ==> dot_post(
            backend,
            mm_row(a.spec_data(), k, l / n),
            mm_col(b.spec_data(), n, k, l % n),
            #[trigger] t.spec_data()[l],
        ))
}

/// Matrix multiplication engine: the standard 2D product, delegating the
/// per-element multiply, add and zero kernels to the backend.
fn matmul_forward<T: Copy, B: Backend<T>>(a: &Tensor<T>, b: &Tensor<T>, backend: &B) -> (r:
    MlResult<Tensor<T>>)
    requires
        a.wf(),
        b.wf(),
    ensures
        matmul_post(*a, *b, *backend, r),
{
    let sa = a.shape();
    let sb = b.shape();
    if sa.len() != 2 || sb.len() != 2 || sa[1] != sb[0] {
        return Err(
            TensorError::MatrixMultiplicationError {
                left_shape: sa.clone(),
                right_shape: sb.clone(),
            },
        );
    }
    let m = sa[0];
    let k = sa[1];
    let n = sb[1];
    let total = match m.checked_mul(n) {
        Some(t) => t,
        None => {
            return Err(
                TensorError::InvalidOperation {
                    op: "matmul",
                    reason: "the product would not fit in the address space",
                },
            );
        },
    };
    let ghost da = a.spec_data();
    let ghost db = b.spec_data();
    proof {
        lemma_rank2_product(a.spec_shape());
        lemma_rank2_product(b.spec_shape());
    }
    let la = a.data().len();
    let lb = b.data().len();
    let mut data: Vec<T> = Vec::new();
    let mut i: usize = 0;
    while i < m
        invariant
            0 <= i <= m,
            sa@ == a.spec_shape(),
            sb@ == b.spec_shape(),
            m == sa@[0] && k == sa@[1] && n == sb@[1],
            da == a.spec_data(),
            db == b.spec_data(),
            la == da.len() && la == m * k,
            lb == db.len() && lb == k * n,
            total == m * n,
            data@.len() == i * n,
            forall|l: int|
                0 <= l < i * n ==> dot_post(
                    *backend,
                    mm_row(da, k as int, l / (n as int)),
                    mm_col(db, n as int, k as int, l % (n as int)),
                    #[trigger] data@[l],
                ),
        decreases m - i,
    {
        let mut j: usize = 0;
        while j < n
            invariant
                0 <= i < m,
                0 <= j <= n,
                sa@ == a.spec_shape(),
                sb@ == b.spec_shape(),
                m == sa@[0] && k == sa@[1] && n == sb@[1],
                da == a.spec_data(),
                db == b.spec_data(),
                la == da.len() && la == m * k,
                lb == db.len() && lb == k * n,
                total == m * n,
                data@.len() == i * n + j,
                forall|l: int|
                    0 <= l < i * n + j ==> dot_post(
                        *backend,
                        mm_row(da, k as int, l / (n as int)),
                        mm_col(db, n as int, k as int, l % (n as int)),
                        #[trigger] data@[l],
                    ),
            decreases n - j,
        {
            let ghost row = mm_row(da, k as int, i as int);
            let ghost col = mm_col(db, n as int, k as int, j as int);
            let mut acc = backend.zero();
            let mut t: usize = 0;
            proof {
                assert(row.subrange(0, 0) =~= Seq::<T>::empty());
                assert(col.subrange(0, 0) =~= Seq::<T>::empty());
            }
            while t < k
                invariant
                    0 <= t <= k,
                    0 <= i < m,
                    0 <= j < n,
                    sa@ == a.spec_shape(),
                    sb@ == b.spec_shape(),
                    m == sa@[0] && k == sa@[1] && n == sb@[1],
                    da == a.spec_data(),
                    db == b.spec_data(),
                    la == da.len() && la == m * k,
                    lb == db.len() && lb == k * n,
                    row == mm_row(da, k as int, i as int),
                    col == mm_col(db, n as int, k as int, j as int),
                    dot_post(*backend, row.subrange(0, t as int), col.subrange(0, t as int), acc),
                decreases k - t,
            {
                proof {
                    assert(i * k + t < m * k && i * k + k <= m * k) by (nonlinear_arith)
                        requires
                            0 <= i < m,
                            0 <= t < k,
                    ;
                    assert(t * n + j < k * n) by (nonlinear_arith)
                        requires
                            0 <= t < k,
                            0 <= j < n,
                    ;
                }
                let va = a.data()[i * k + t];
                let vb = b.data()[t * n + j];
                let p = backend.binary(BinaryOp::Mul, va, vb);
                let acc2 = backend.binary(BinaryOp::Add, acc, p);
                proof {
                    let x2 = row.subrange(0, t as int + 1);
                    let y2 = col.subrange(0, t as int + 1);
                    assert(x2.drop_last() =~= row.subrange(0, t as int));
                    assert(y2.drop_last() =~= col.subrange(0, t as int));
                    assert(x2.last() == da[i as int * (k as int) + t as int]);
                    assert(y2.last() == db[t as int * (n as int) + j as int]);
                    assert(dot_post(*backend, x2, y2, acc2));
                }
                acc = acc2;
                t = t + 1;
            }
            proof {
                assert(i * k + k <= m * k) by (nonlinear_arith)
                    requires
                        0 <= i < m,
                        0 <= k,
                ;
                assert(row.subrange(0, k as int) =~= row);
                assert(col.subrange(0, k as int) =~= col);
                vstd::arithmetic::div_mod::lemma_fundamental_div_mod_converse(
                    i as int * (n as int) + j as int,
                    n as int,
                    i as int,
                    j as int,
                );
                assert(i * n + j < m * n) by (nonlinear_arith)
                    requires
                        0 <= i < m,
                        0 <= j < n,
                ;
            }
            data.push(acc);
            j = j + 1;
        }
        proof {
            assert((i + 1) * n == i * n + n) by (nonlinear_arith);
        }
        i = i + 1;
    }
    let oshape = vec![m, n];
    proof {
        assert(oshape@ =~= seq![m, n]);
        lemma_rank2_product(oshape@);
    }
    match Tensor::from_vec(data, &oshape) {
        Ok(t) => Ok(t),
        Err(e) => {
            proof {
                assert(false);
            }
            Err(e)
        },
    }
}

/// Structure representing a matrix multiplication operation.
pub struct Matmul<'t, T, B> {
    first_tensor: &'t Tensor<T>,
    second_tensor: &'t Tensor<T>,
    backend: &'t B,
}

impl<'t, T: Copy, B: Backend<T>> Matmul<'t, T, B> {
    /// The first operand, abstractly.
    pub closed spec fn spec_first(self) -> Tensor<T> {
        *self.first_tensor
    }

    /// The second operand, abstractly.
    pub closed spec fn spec_second(self) -> Tensor<T> {
        *self.second_tensor
    }

    /// The backend handle, abstractly.
    pub closed spec fn spec_backend(self) -> B {
        *self.backend
    }
}

impl<'t, T: Copy, B: Backend<T>> Function<'t, T, B> for Matmul<'t, T, B> {
    type Forwarded = MlResult<Tensor<T>>;

    open spec fn valid(&self) -> bool {
        self.spec_first().wf() && self.spec_second().wf()
    }

    fn new(first: &'t Tensor<T>, second: Option<&'t Tensor<T>>, backend: &'t B) -> (r: MlResult<
        Self,
    >)
        ensures
            second is None ==> (r matches Err(TensorError::InvalidOperation { .. })),
            second matches Some(s) ==> if !matmul_ok(first.spec_shape(), s.spec_shape()) {
                r matches Err(TensorError::MatrixMultiplicationError { left_shape, right_shape })
                    && left_shape@ == first.spec_shape() && right_shape@ == s.spec_shape()
            } else {
                r matches Ok(op) && op.valid() && op.spec_first() == *first && op.spec_second()
                    == *s && op.spec_backend() == *backend
            },
    {
        match second {
            None => Err(
                TensorError::InvalidOperation {
                    op: "matmul",
                    reason: "a second operand is required",
                },
            ),
            Some(s) => {
                let sa = first.shape();
                let sb = s.shape();
                if sa.len() != 2 || sb.len() != 2 || sa[1] != sb[0] {
                    Err(
                        TensorError::MatrixMultiplicationError {
                            left_shape: sa.clone(),
                            right_shape: sb.clone(),
                        },
                    )
                } else {
                    Ok(Matmul { first_tensor: first, second_tensor: s, backend })
                }
            },
        }
    }

    fn forward(&self) -> (r: Self::Forwarded)
        ensures
            matmul_post(self.spec_first(), self.spec_second(), self.spec_backend(), r),
    {
        matmul_forward(self.first_tensor, self.second_tensor, self.backend)
    }

    fn backend(&self) -> (r: &'t B)
        ensures
            *r == self.spec_backend(),
    {
        self.backend
    }
}

/// Structure representing an exponential operation.
pub struct Exp<'t, T, B> {
    tensor: &'t Tensor<T>,
    backend: &'t B,
}

impl<'t, T: Copy, B: Backend<T>> Exp<'t, T, B> {
    /// The operand, abstractly.
    pub closed spec fn spec_tensor(self) -> Tensor<T> {
        *self.tensor
    }

    /// The backend handle, abstractly.
    pub closed spec fn spec_backend(self) -> B {
        *self.backend
    }
}

impl<'t, T: Copy, B: Backend<T>> Function<'t, T, B> for Exp<'t, T, B> {
    type Forwarded = MlResult<Tensor<T>>;

    open spec fn valid(&self) -> bool {
        self.spec_tensor().wf()
    }

    fn new(first: &'t Tensor<T>, second: Option<&'t Tensor<T>>, backend: &'t B) -> (r: MlResult<
        Self,
    >)
        ensures
            second is Some ==> (r matches Err(TensorError::InvalidOperation { .. })),
            second is None ==> (r matches Ok(op) && op.valid() && op.spec_tensor() == *first
                && op.spec_backend() == *backend),
    {
        match second {
            Some(_) => Err(
                TensorError::InvalidOperation {
                    op: "exp",
                    reason: "a unary operation takes no second operand",
                },
            ),
            None => Ok(Exp { tensor: first, backend }),
        }
    }

    fn forward(&self) -> (r: Self::Forwarded)
        ensures
            unary_map_post(self.spec_tensor(), self.spec_backend(), UnaryOp::Exp, r),
    {
        unary_forward(self.tensor, self.backend, UnaryOp::Exp)
    }

    fn backend(&self) -> (r: &'t B)
        ensures
            *r == self.spec_backend(),
    {
        self.backend
    }
}

/// Structure representing a negation operation.
pub struct Neg<'t, T, B> {
    tensor: &'t Tensor<T>,
    backend: &'t B,
}

impl<'t, T: Copy, B: Backend<T>> Neg<'t, T, B> {
    /// The operand, abstractly.
    pub closed spec fn spec_tensor(self) -> Tensor<T> {
        *self.tensor
    }

    /// The backend handle, abstractly.
    pub closed spec fn spec_backend(self) -> B {
        *self.backend
    }
}

impl<'t, T: Copy, B: Backend<T>> Function<'t, T, B> for Neg<'t, T, B> {
    type Forwarded = MlResult<Tensor<T>>;

    open spec fn valid(&self) -> bool {
        self.spec_tensor().wf()
    }

    fn new(first: &'t Tensor<T>, second: Option<&'t Tensor<T>>, backend: &'t B) -> (r: MlResult<
        Self,
    >)
        ensures
            second is Some ==> (r matches Err(TensorError::InvalidOperation { .. })),
            second is None ==> (r matches Ok(op) && op.valid() && op.spec_tensor() == *first
                && op.spec_backend() == *backend),
    {
        match second {
            Some(_) => Err(
                TensorError::InvalidOperation {
                    op: "neg",
                    reason: "a unary operation takes no second operand",
                },
            ),
            None => Ok(Neg { tensor: first, backend }),
        }
    }

    fn forward(&self) -> (r: Self::Forwarded)
        ensures
            unary_map_post(self.spec_tensor(), self.spec_backend(), UnaryOp::Neg, r),
    {
        unary_forward(self.tensor, self.backend, UnaryOp::Neg)
    }

    fn backend(&self) -> (r: &'t B)
        ensures
            *r == self.spec_backend(),
    {
        self.backend
    }
}

/// Structure representing a square root operation.
pub struct Sqrt<'t, T, B> {
    tensor: &'t Tensor<T>,
    backend: &'t B,
}

impl<'t, T: Copy, B: Backend<T>> Sqrt<'t, T, B> {
    /// The operand, abstractly.
    pub closed spec fn spec_tensor(self) -> Tensor<T> {
        *self.tensor
    }

    /// The backend handle, abstractly.
    pub closed spec fn spec_backend(self) -> B {
        *self.backend
    }
}

impl<'t, T: Copy, B: Backend<T>> Function<'t, T, B> for Sqrt<'t, T, B> {
    type Forwarded = MlResult<Tensor<T>>;

    open spec fn valid(&self) -> bool {
        self.spec_tensor().wf()
    }

    fn new(first: &'t Tensor<T>, second: Option<&'t Tensor<T>>, backend: &'t B) -> (r: MlResult<
        Self,
    >)
        ensures
            second is Some ==> (r matches Err(TensorError::InvalidOperation { .. })),
            second is None ==> (r matches Ok(op) && op.valid() && op.spec_tensor() == *first
                && op.spec_backend() == *backend),
    {
        match second {
            Some(_) => Err(
                TensorError::InvalidOperation {
                    op: "sqrt",
                    reason: "a unary operation takes no second operand",
                },
            ),
            None => Ok(Sqrt { tensor: first, backend }),
        }
    }

    fn forward(&self) -> (r: Self::Forwarded)
        ensures
            unary_map_post(self.spec_tensor(), self.spec_backend(), UnaryOp::Sqrt, r),
    {
        unary_forward(self.tensor, self.backend, UnaryOp::Sqrt)
    }

    fn backend(&self) -> (r: &'t B)
        ensures
            *r == self.spec_backend(),
    {
        self.backend
    }
}

/// Structure representing an absolute value operation.
pub struct Abs<'t, T, B> {
    tensor: &'t Tensor<T>,
    backend: &'t B,
}

impl<'t, T: Copy, B: Backend<T>> Abs<'t, T, B> {
    /// The operand, abstractly.
    pub closed spec fn spec_tensor(self) -> Tensor<T> {
        *self.tensor
    }

    /// The backend handle, abstractly.
    pub closed spec fn spec_backend(self) -> B {
        *self.backend
    }
}

impl<'t, T: Copy, B: Backend<T>> Function<'t, T, B> for Abs<'t, T, B> {
    type Forwarded = MlResult<Tensor<T>>;

    open spec fn valid(&self) -> bool {
        self.spec_tensor().wf()
    }

    fn new(first: &'t Tensor<T>, second: Option<&'t Tensor<T>>, backend: &'t B) -> (r: MlResult<
        Self,
    >)
        ensures
            second is Some ==> (r matches Err(TensorError::InvalidOperation { .. })),
            second is None ==> (r matches Ok(op) && op.valid() && op.spec_tensor() == *first
                && op.spec_backend() == *backend),
    {
        match second {
            Some(_) => Err(
                TensorError::InvalidOperation {
                    op: "abs",
                    reason: "a unary operation takes no second operand",
                },
            ),
            None => Ok(Abs { tensor: first, backend }),
        }
    }

    fn forward(&self) -> (r: Self::Forwarded)
        ensures
            unary_map_post(self.spec_tensor(), self.spec_backend(), UnaryOp::Abs, r),
    {
        unary_forward(self.tensor, self.backend, UnaryOp::Abs)
    }

    fn backend(&self) -> (r: &'t B)
        ensures
            *r == self.spec_backend(),
    {
        self.backend
    }
}

/// Structure representing a squaring operation.
pub struct Square<'t, T, B> {
    tensor: &'t Tensor<T>,
    backend: &'t B,
}

impl<'t, T: Copy, B: Backend<T>> Square<'t, T, B> {
    /// The operand, abstractly.
    pub closed spec fn spec_tensor(self) -> Tensor<T> {
        *self.tensor
    }

    /// The backend handle, abstractly.
    pub closed spec fn spec_backend(self) -> B {
        *self.backend
    }
}

impl<'t, T: Copy, B: Backend<T>> Function<'t, T, B> for Square<'t, T, B> {
    type Forwarded = MlResult<Tensor<T>>;

    open spec fn valid(&self) -> bool {
        self.spec_tensor().wf()
    }

    fn new(first: &'t Tensor<T>, second: Option<&'t Tensor<T>>, backend: &'t B) -> (r: MlResult<
        Self,
    >)
        ensures
            second is Some ==> (r matches Err(TensorError::InvalidOperation { .. })),
            second is None ==> (r matches Ok(op) && op.valid() && op.spec_tensor() == *first
                && op.spec_backend() == *backend),
    {
        match second {
            Some(_) => Err(
                TensorError::InvalidOperation {
                    op: "square",
                    reason: "a unary operation takes no second operand",
                },
            ),
            None => Ok(Square { tensor: first, backend }),
        }
    }

    fn forward(&self) -> (r: Self::Forwarded)
        ensures
            unary_map_post(self.spec_tensor(), self.spec_backend(), UnaryOp::Square, r),
    {
        unary_forward(self.tensor, self.backend, UnaryOp::Square)
    }

    fn backend(&self) -> (r: &'t B)
        ensures
            *r == self.spec_backend(),
    {
        self.backend
    }
}

/// Structure representing a logarithmic operation.
pub struct Log<'t, T, B> {
    tensor: &'t Tensor<T>,
    backend: &'t B,
}

impl<'t, T: Copy, B: Backend<T>> Log<'t, T, B> {
    /// The operand, abstractly.
    pub closed spec fn spec_tensor(self) -> Tensor<T> {
        *self.tensor
    }

    /// The backend handle, abstractly.
    pub closed spec fn spec_backend(self) -> B {
        *self.backend
    }
}

impl<'t, T: Copy, B: Backend<T>> Function<'t, T, B> for Log<'t, T, B> {
    type Forwarded = MlResult<Tensor<T>>;

    open spec fn valid(&self) -> bool {
        self.spec_tensor().wf()
    }

    fn new(first: &'t Tensor<T>, second: Option<&'t Tensor<T>>, backend: &'t B) -> (r: MlResult<
        Self,
    >)
        ensures
            second is Some ==> (r matches Err(TensorError::InvalidOperation { .. })),
            second is None ==> (r matches Ok(op) && op.valid() && op.spec_tensor() == *first
                && op.spec_backend() == *backend),
    {
        match second {
            Some(_) => Err(
                TensorError::InvalidOperation {
                    op: "log",
                    reason: "a unary operation takes no second operand",
                },
            ),
            None => Ok(Log { tensor: first, backend }),
        }
    }

    fn forward(&self) -> (r: Self::Forwarded)
        ensures
            unary_map_post(self.spec_tensor(), self.spec_backend(), UnaryOp::Log, r),
    {
        unary_forward(self.tensor, self.backend, UnaryOp::Log)
    }

    fn backend(&self) -> (r: &'t B)
        ensures
            *r == self.spec_backend(),
    {
        self.backend
    }
}

/// Structure representing a power operation; the exponent is supplied via
/// the settable `power` parameter before the forward pass.
pub struct Pow<'t, T, B> {
    tensor: &'t Tensor<T>,
    backend: &'t B,
    /// The exponent applied to every element.
    pub power: Option<T>,
}

impl<'t, T: Copy, B: Backend<T>> Pow<'t, T, B> {
    /// The operand, abstractly.
    pub closed spec fn spec_tensor(self) -> Tensor<T> {
        *self.tensor
    }

    /// The backend handle, abstractly.
    pub closed spec fn spec_backend(self) -> B {
        *self.backend
    }

    /// The configured exponent, abstractly.
    pub closed spec fn spec_power(self) -> Option<T> {
        self.power
    }
}

impl<'t, T: Copy, B: Backend<T>> Function<'t, T, B> for Pow<'t, T, B> {
    type Forwarded = MlResult<Tensor<T>>;

    open spec fn valid(&self) -> bool {
        self.spec_tensor().wf()
    }

    fn new(first: &'t Tensor<T>, second: Option<&'t Tensor<T>>, backend: &'t B) -> (r: MlResult<
        Self,
    >)
        ensures
            second is Some ==> (r matches Err(TensorError::InvalidOperation { .. })),
            second is None ==> (r matches Ok(op) && op.valid() && op.spec_tensor() == *first
                && op.spec_backend() == *backend && op.spec_power() is None),
    {
        match second {
            Some(_) => Err(
                TensorError::InvalidOperation {
                    op: "pow",
                    reason: "a unary operation takes no second operand",
                },
            ),
            None => Ok(Pow { tensor: first, backend, power: None }),
        }
    }

    fn forward(&self) -> (r: Self::Forwarded)
        ensures
            self.spec_power() is None ==> (r matches Err(TensorError::InvalidOperation { .. })),
            self.spec_power() matches Some(e) ==> pow_map_post(
                self.spec_tensor(),
                self.spec_backend(),
                e,
                r,
            ),
    {
        match self.power {
            None => Err(
                TensorError::InvalidOperation {
                    op: "pow",
                    reason: "no exponent was configured before the forward pass",
                },
            ),
            Some(e) => pow_forward(self.tensor, self.backend, e),
        }
    }

    fn backend(&self) -> (r: &'t B)
        ensures
            *r == self.spec_backend(),
    {
        self.backend
    }
}

/// What a scalar-broadcast operation returns: the same shape, with every
/// element combined with the scalar through the binary kernel, the scalar
/// on the right (or on the left when `reversed`).
pub open spec fn scalar_map_post<T: Copy, B: Backend<T>>(
    a: Tensor<T>,
    backend: B,
    op: BinaryOp,
    scalar: T,
    reversed: bool,
    r: MlResult<Tensor<T>>,
) -> bool {
    r matches Ok(t) && t.wf() && t.spec_shape() == a.spec_shape() && t.spec_data().len()
        == a.spec_data().len() && !t.spec_requires_grad() && forall|i: int|
        0 <= i < a.spec_data().len() ==> backend.binary_post(
            op,
            if reversed {
                scalar
            } else {
                a.spec_data()[i]
            },
            if reversed {
                a.spec_data()[i]
            } else {
                scalar
            },
            #[trigger] t.spec_data()[i],
        )
}

/// Scalar-broadcast engine: combines every element with one scalar.
fn scalar_forward<T: Copy, B: Backend<T>>(
    a: &Tensor<T>,
    backend: &B,
    op: BinaryOp,
    scalar: T,
    reversed: bool,
) -> (r: MlResult<Tensor<T>>)
    requires
        a.wf(),
    ensures
        scalar_map_post(*a, *backend, op, scalar, reversed, r),
{
    let src = a.data();
    let mut data: Vec<T> = Vec::new();
    let mut i: usize = 0;
    while i < src.len()
        invariant
            0 <= i <= src.len(),
            src@ == a.spec_data(),
            data@.len() == i,
            forall|j: int|
                0 <= j < i ==> backend.binary_post(
                    op,
                    if reversed {
                        scalar
                    } else {
                        a.spec_data()[j]
                    },
                    if reversed {
                        a.spec_data()[j]
                    } else {
                        scalar
                    },
                    #[trigger] data@[j],
                ),
        decreases src.len() - i,
    {
        let v = src[i];
        let r = if reversed {
            backend.binary(op, scalar, v)
        } else {
            backend.binary(op, v, scalar)
        };
        data.push(r);
        i = i + 1;
    }
    match Tensor::from_vec(data, a.shape()) {
        Ok(t) => Ok(t),
        Err(e) => {
            proof {
                assert(false);
            }
            Err(e)
        },
    }
}

impl<T: Copy> Tensor<T> {
    /// Element-wise addition, broadcasting where the shapes differ.
    pub fn add<B: Backend<T>>(&self, other: &Tensor<T>, backend: &B) -> (r: MlResult<Tensor<T>>)
        requires
            self.wf(),
            other.wf(),
        ensures
            ewise_post(*self, *other, *backend, BinaryOp::Add, r),
    {
        ewise_forward(self, other, backend, BinaryOp::Add, "add")
    }

    /// Element-wise subtraction, broadcasting where the shapes differ.
    pub fn sub<B: Backend<T>>(&self, other: &Tensor<T>, backend: &B) -> (r: MlResult<Tensor<T>>)
        requires
            self.wf(),
            other.wf(),
        ensures
            ewise_post(*self, *other, *backend, BinaryOp::Sub, r),
    {
        ewise_forward(self, other, backend, BinaryOp::Sub, "sub")
    }

    /// Element-wise multiplication, broadcasting where the shapes differ.
    pub fn mul<B: Backend<T>>(&self, other: &Tensor<T>, backend: &B) -> (r: MlResult<Tensor<T>>)
        requires
            self.wf(),
            other.wf(),
        ensures
            ewise_post(*self, *other, *backend, BinaryOp::Mul, r),
    {
        ewise_forward(self, other, backend, BinaryOp::Mul, "mul")
    }

    /// Element-wise division, broadcasting where the shapes differ.
    pub fn div<B: Backend<T>>(&self, other: &Tensor<T>, backend: &B) -> (r: MlResult<Tensor<T>>)
        requires
            self.wf(),
            other.wf(),
        ensures
            ewise_post(*self, *other, *backend, BinaryOp::Div, r),
    {
        ewise_forward(self, other, backend, BinaryOp::Div, "div")
    }

    /// Adds one scalar to every element.
    pub fn scalar_add<B: Backend<T>>(&self, scalar: T, backend: &B) -> (r: MlResult<Tensor<T>>)
        requires
            self.wf(),
        ensures
            scalar_map_post(*self, *backend, BinaryOp::Add, scalar, false, r),
    {
        scalar_forward(self, backend, BinaryOp::Add, scalar, false)
    }

    /// Subtracts one scalar from every element.
    pub fn scalar_sub<B: Backend<T>>(&self, scalar: T, backend: &B) -> (r: MlResult<Tensor<T>>)
        requires
            self.wf(),
        ensures
            scalar_map_post(*self, *backend, BinaryOp::Sub, scalar, false, r),
    {
        scalar_forward(self, backend, BinaryOp::Sub, scalar, false)
    }

    /// Multiplies every element by one scalar.
    pub fn scalar_mul<B: Backend<T>>(&self, scalar: T, backend: &B) -> (r: MlResult<Tensor<T>>)
        requires
            self.wf(),
        ensures
            scalar_map_post(*self, *backend, BinaryOp::Mul, scalar, false, r),
    {
        scalar_forward(self, backend, BinaryOp::Mul, scalar, false)
    }

    /// Divides every element by one scalar.
    pub fn scalar_div<B: Backend<T>>(&self, scalar: T, backend: &B) -> (r: MlResult<Tensor<T>>)
        requires
            self.wf(),
        ensures
            scalar_map_post(*self, *backend, BinaryOp::Div, scalar, false, r),
    {
        scalar_forward(self, backend, BinaryOp::Div, scalar, false)
    }

    /// Subtracts every element from one scalar.
    pub fn scalar_rsub<B: Backend<T>>(&self, scalar: T, backend: &B) -> (r: MlResult<Tensor<T>>)
        requires
            self.wf(),
        ensures
            scalar_map_post(*self, *backend, BinaryOp::Sub, scalar, true, r),
    {
        scalar_forward(self, backend, BinaryOp::Sub, scalar, true)
    }

    /// Divides one scalar by every element.
    pub fn scalar_rdiv<B: Backend<T>>(&self, scalar: T, backend: &B) -> (r: MlResult<Tensor<T>>)
        requires
            self.wf(),
        ensures
            scalar_map_post(*self, *backend, BinaryOp::Div, scalar, true, r),
    {
        scalar_forward(self, backend, BinaryOp::Div, scalar, true)
    }
}

} // verus!
