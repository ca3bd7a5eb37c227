use minitensor::backend::{Backend, BinaryOp, IntBackend, UnaryOp};
use minitensor::ops::{
    Abs, Add, Div, Exp, Function, Log, Matmul, Mul, Neg, Pow, Sqrt, Square, Sub,
};
use minitensor::reduce::{Matmax, Topk};
use minitensor::tensor::{ArcTensor, Tensor, TensorBase, TensorError};

/// Hardware floating-point backend: the usual IEEE-754 kernels over `f32`.
struct FloatBackend;

impl Backend<f32> for FloatBackend {
    // The specification members of the backend contract survive compilation
    // as ordinary trait items; nothing ever calls them at run time, and no
    // proof rests on this unverified backend, so they are inert stubs here.
    fn binary_post(&self, _op: BinaryOp, _a: f32, _b: f32, _r: f32) -> bool {
        true
    }

    fn unary_post(&self, _op: UnaryOp, _a: f32, _r: f32) -> bool {
        true
    }

    fn pow_post(&self, _a: f32, _e: f32, _r: f32) -> bool {
        true
    }

    fn le_spec(&self, a: f32, b: f32) -> bool {
        a <= b
    }

    fn zero_spec(&self) -> f32 {
        0.0
    }

    fn index_spec(&self, i: usize) -> f32 {
        i as f32
    }

    fn binary(&self, op: BinaryOp, a: f32, b: f32) -> f32 {
        match op {
            BinaryOp::Add => a + b,
            BinaryOp::Sub => a - b,
            BinaryOp::Mul => a * b,
            BinaryOp::Div => a / b,
        }
    }

    fn unary(&self, op: UnaryOp, a: f32) -> f32 {
        match op {
            UnaryOp::Exp => a.exp(),
            UnaryOp::Neg => -a,
            UnaryOp::Sqrt => a.sqrt(),
            UnaryOp::Abs => a.abs(),
            UnaryOp::Square => a * a,
            UnaryOp::Log => a.ln(),
        }
    }

    fn pow(&self, a: f32, e: f32) -> f32 {
        a.powf(e)
    }

    fn le(&self, a: f32, b: f32) -> bool {
        a <= b
    }

    fn zero(&self) -> f32 {
        0.0
    }

    fn index_value(&self, i: usize) -> f32 {
        i as f32
    }
}

fn assert_tensor_eq(tensor: &Tensor<f32>, expected_tensor: &Tensor<f32>) {
    assert_eq!(tensor.data(), expected_tensor.data());
    assert_eq!(tensor.shape(), expected_tensor.shape());
}

#[test]
fn tensor() {
    let t1 = Tensor::<f32>::new(vec![vec![1.0, 2.0]]).unwrap();
    assert_eq!(t1.data(), &vec![1.0, 2.0]);
    assert_eq!(t1.shape(), &vec![1, 2]);
}

#[test]
fn test_add() {
    let first = Tensor::<f32>::new(vec![vec![1.0, 2.0]]).unwrap();
    let second = Tensor::<f32>::new(vec![vec![3.0, 4.0]]).unwrap();
    let be = FloatBackend;
    let m_add = Add::new(&first, Some(&second), &be).unwrap().forward().unwrap();
    let s_add = first.add(&second, &be).unwrap();
    let et = Tensor::<f32>::new(vec![vec![4.0, 6.0]]).unwrap();

    assert_tensor_eq(&m_add, &et);
    assert_tensor_eq(&s_add, &et);
}

#[test]
fn test_sub() {
    let first = Tensor::<f32>::new(vec![vec![1.0, 2.0]]).unwrap();
    let second = Tensor::<f32>::new(vec![vec![3.0, 4.0]]).unwrap();
    let be = FloatBackend;
    let m_sub = Sub::new(&first, Some(&second), &be).unwrap().forward().unwrap();
    let s_sub = first.sub(&second, &be).unwrap();
    let et = Tensor::<f32>::new(vec![vec![-2.0, -2.0]]).unwrap();

    assert_tensor_eq(&m_sub, &et);
    assert_tensor_eq(&s_sub, &et);
}

#[test]
fn test_mul_symbol() {
    let first = Tensor::<f32>::new(vec![vec![1.0, 2.0]]).unwrap();
    let second = Tensor::<f32>::new(vec![vec![3.0, 4.0]]).unwrap();
    let be = FloatBackend;
    let m_mul = Mul::new(&first, Some(&second), &be).unwrap().forward().unwrap();
    let s_mul = first.mul(&second, &be).unwrap();
    let et = Tensor::<f32>::new(vec![vec![3.0, 8.0]]).unwrap();

    assert_tensor_eq(&m_mul, &et);
    assert_tensor_eq(&s_mul, &et);
}

#[test]
fn test_div_symbol() {
    let first = Tensor::<f32>::new(vec![vec![1.0, 2.0]]).unwrap();
    let second = Tensor::<f32>::new(vec![vec![2.0, 4.0]]).unwrap();
    let be = FloatBackend;
    let m_div = Div::new(&first, Some(&second), &be).unwrap().forward().unwrap();
    let s_div = first.div(&second, &be).unwrap();
    let et = Tensor::<f32>::new(vec![vec![0.5, 0.5]]).unwrap();

    assert_tensor_eq(&m_div, &et);
    assert_tensor_eq(&s_div, &et);
}

#[test]
fn test_macro_matmul() {
    let first = Tensor::<f32>::new(vec![vec![1.0, 2.0]]).unwrap();
    let second = Tensor::<f32>::new(vec![vec![3.0], vec![4.0]]).unwrap();
    let be = FloatBackend;
    let result = Matmul::new(&first, Some(&second), &be).unwrap().forward().unwrap();
    assert_eq!(result.data(), &vec![11.0]);
}

#[test]
fn test_macro_exp() {
    let tensor = Tensor::<f32>::new(vec![vec![1.0, 2.0]]).unwrap();
    let be = FloatBackend;
    let result = Exp::new(&tensor, None, &be).unwrap().forward().unwrap();
    assert_eq!(result.data(), &vec![std::f32::consts::E, 7.389056]);
}

#[test]
fn test_macro_neg() {
    let tensor = Tensor::<f32>::new(vec![vec![1.0, -2.0]]).unwrap();
    let be = FloatBackend;
    let result = Neg::new(&tensor, None, &be).unwrap().forward().unwrap();
    assert_eq!(result.data(), &vec![-1.0, 2.0]);
}

#[test]
fn test_macro_sqrt() {
    let tensor = Tensor::<f32>::new(vec![vec![1.0, 4.0]]).unwrap();
    let be = FloatBackend;
    let result = Sqrt::new(&tensor, None, &be).unwrap().forward().unwrap();
    assert_eq!(result.data(), &vec![1.0, 2.0]);
}

#[test]
fn test_macro_abs() {
    let tensor = Tensor::<f32>::new(vec![vec![1.0, -2.0]]).unwrap();
    let be = FloatBackend;
    let result = Abs::new(&tensor, None, &be).unwrap().forward().unwrap();
    assert_eq!(result.data(), &vec![1.0, 2.0]);
}

#[test]
fn test_macro_square() {
    let tensor = Tensor::<f32>::new(vec![vec![2.0, 3.0]]).unwrap();
    let be = FloatBackend;
    let result = Square::new(&tensor, None, &be).unwrap().forward().unwrap();
    assert_eq!(result.data(), &vec![4.0, 9.0]);
}

#[test]
fn test_macro_log() {
    let tensor = Tensor::<f32>::new(vec![vec![1.0, std::f32::consts::E]]).unwrap();
    let be = FloatBackend;
    let result = Log::new(&tensor, None, &be).unwrap().forward().unwrap();
    assert_eq!(result.data(), &vec![0.0, 0.99999994]);
}

#[test]
fn test_macro_pow() {
    let tensor = Tensor::<f32>::new(vec![vec![2.0, 3.0]]).unwrap();
    let be = FloatBackend;
    let mut op = Pow::new(&tensor, None, &be).unwrap();
    op.power = Some(2.0);
    let result = op.forward().unwrap();
    assert_eq!(result.data(), &vec![4.0, 9.0]);
}

#[test]
fn tensor_ops_add_scalar() {
    let first = Tensor::<f32>::new(vec![vec![1.0, 2.0]]).unwrap();
    let et = Tensor::<f32>::new(vec![vec![3.0, 4.0]]).unwrap();
    let be = FloatBackend;
    let result = first.scalar_add(2.0, &be).unwrap();
    assert_tensor_eq(&result, &et);
}

#[test]
fn tensor_ops_sub_scalar() {
    let first = Tensor::<f32>::new(vec![vec![1.0, 2.0]]).unwrap();
    let et = Tensor::<f32>::new(vec![vec![-1.0, 0.0]]).unwrap();
    let be = FloatBackend;
    let result = first.scalar_sub(2.0, &be).unwrap();
    assert_tensor_eq(&result, &et);
}

#[test]
fn tensor_ops_mul_scalar() {
    let first = Tensor::<f32>::new(vec![vec![1.0, 2.0]]).unwrap();
    let et = Tensor::<f32>::new(vec![vec![2.0, 4.0]]).unwrap();
    let be = FloatBackend;
    let result = first.scalar_mul(2.0, &be).unwrap();
    assert_tensor_eq(&result, &et);
}

#[test]
fn tensor_ops_div_scalar() {
    let first = Tensor::<f32>::new(vec![vec![1.0, 2.0]]).unwrap();
    let et = Tensor::<f32>::new(vec![vec![0.5, 1.0]]).unwrap();
    let be = FloatBackend;
    let result = first.scalar_div(2.0, &be).unwrap();
    assert_tensor_eq(&result, &et);
}

#[test]
fn tensor_ops_scalar_sub() {
    let first = Tensor::<f32>::new(vec![vec![1.0, 2.0]]).unwrap();
    let et = Tensor::<f32>::new(vec![vec![1.0, 0.0]]).unwrap();
    let be = FloatBackend;
    let result = first.scalar_rsub(2.0, &be).unwrap();
    assert_tensor_eq(&result, &et);
}

#[test]
fn tensor_ops_scalar_div() {
    let first = Tensor::<f32>::new(vec![vec![1.0, 2.0]]).unwrap();
    let et = Tensor::<f32>::new(vec![vec![2.0, 1.0]]).unwrap();
    let be = FloatBackend;
    let result = first.scalar_rdiv(2.0, &be).unwrap();
    assert_tensor_eq(&result, &et);
}

#[test]
fn from_flat_length_mismatch_fails() {
    let err = Tensor::<i64>::from_vec(vec![1, 2, 3], &vec![2, 2]).unwrap_err();
    match err {
        TensorError::InvalidDataLength { expected, got } => {
            assert_eq!(expected, 4);
            assert_eq!(got, 3);
        },
        _ => panic!("expected an invalid data length error"),
    }
}

#[test]
fn empty_construction_fails() {
    let err = Tensor::<f32>::new(vec![]).unwrap_err();
    assert!(matches!(err, TensorError::EmptyTensor));
}

#[test]
fn ragged_construction_fails() {
    let err = Tensor::<i64>::new(vec![vec![1, 2], vec![3]]).unwrap_err();
    match err {
        TensorError::InvalidDataLength { expected, got } => {
            assert_eq!(expected, 2);
            assert_eq!(got, 1);
        },
        _ => panic!("expected an invalid data length error"),
    }
}

#[test]
fn broadcast_compatibility_is_symmetric() {
    let a = Tensor::<i64>::from_vec(vec![1, 2], &vec![2, 1]).unwrap();
    let b = Tensor::<i64>::from_vec(vec![10, 20, 30], &vec![1, 3]).unwrap();
    assert!(a.can_broadcast(&b));
    assert_eq!(a.can_broadcast(&b), b.can_broadcast(&a));
    assert_eq!(a.broadcast_shape(&b), b.broadcast_shape(&a));
    assert_eq!(a.broadcast_shape(&b), vec![2, 3]);

    let c = Tensor::<i64>::from_vec(vec![1, 2, 3], &vec![1, 3]).unwrap();
    let d = Tensor::<i64>::from_vec(vec![1, 2], &vec![1, 2]).unwrap();
    assert_eq!(c.can_broadcast(&d), d.can_broadcast(&c));
    assert!(!c.can_broadcast(&d));
}

#[test]
fn broadcast_add_stretches_rows() {
    let a = Tensor::<i64>::from_vec(vec![1, 2, 3, 4], &vec![2, 2]).unwrap();
    let b = Tensor::<i64>::from_vec(vec![10, 20], &vec![1, 2]).unwrap();
    let be = IntBackend;
    let sum = a.add(&b, &be).unwrap();
    assert_eq!(sum.shape(), &vec![2, 2]);
    assert_eq!(sum.data(), &vec![11, 22, 13, 24]);
}

#[test]
fn strict_add_shape_mismatch_fails() {
    let a = Tensor::<f32>::new(vec![vec![1.0, 2.0]]).unwrap();
    let b = Tensor::<f32>::new(vec![vec![1.0, 2.0, 3.0]]).unwrap();
    let be = FloatBackend;
    let err = a.add(&b, &be).unwrap_err();
    match err {
        TensorError::InvalidShape { expected, got } => {
            assert_eq!(expected, vec![1, 2]);
            assert_eq!(got, vec![1, 3]);
        },
        _ => panic!("expected an invalid shape error"),
    }
    match Add::new(&a, Some(&b), &be) {
        Err(TensorError::InvalidShape { .. }) => {},
        _ => panic!("construction must reject incompatible shapes"),
    }
}

#[test]
fn matmul_inner_dimension_mismatch_fails() {
    let a = Tensor::<f32>::new(vec![vec![1.0, 2.0]]).unwrap();
    let b = Tensor::<f32>::from_vec(vec![1.0, 2.0, 3.0], &vec![3, 1]).unwrap();
    let be = FloatBackend;
    let err = match Matmul::new(&a, Some(&b), &be) {
        Err(e) => e,
        Ok(_) => panic!("construction must reject mismatched inner dimensions"),
    };
    match err {
        TensorError::MatrixMultiplicationError { left_shape, right_shape } => {
            assert_eq!(left_shape, vec![1, 2]);
            assert_eq!(right_shape, vec![3, 1]);
        },
        _ => panic!("expected a matrix multiplication error"),
    }
}

#[test]
fn construction_is_deterministic() {
    let t1 = Tensor::<f32>::new(vec![vec![1.0, 2.0], vec![3.0, 4.0]]).unwrap();
    let t2 = Tensor::<f32>::new(vec![vec![1.0, 2.0], vec![3.0, 4.0]]).unwrap();
    assert_tensor_eq(&t1, &t2);
}

#[test]
fn get_and_index_check_bounds() {
    let t = Tensor::<f32>::new(vec![vec![1.0, 2.0, 3.0], vec![4.0, 5.0, 6.0]]).unwrap();
    assert_eq!(t.index(&vec![1, 2]), Some(5));
    assert_eq!(t.get(&vec![1, 2]), Some(&6.0));
    // An out-of-range component must fail rather than alias another cell.
    assert_eq!(t.index(&vec![0, 3]), None);
    assert_eq!(t.get(&vec![0, 3]), None);
    // Arity must match the rank.
    assert_eq!(t.index(&vec![1]), None);
    assert_eq!(t.get(&vec![0, 0, 0]), None);
}

#[test]
fn chk_shape_matches_exactly() {
    let a = Tensor::<f32>::new(vec![vec![1.0, 2.0]]).unwrap();
    let b = Tensor::<f32>::new(vec![vec![3.0, 4.0]]).unwrap();
    let c = Tensor::<f32>::new(vec![vec![1.0], vec![2.0]]).unwrap();
    assert!(a.chk_shape(&b).is_ok());
    match a.chk_shape(&c).unwrap_err() {
        TensorError::InvalidShape { expected, got } => {
            assert_eq!(expected, vec![1, 2]);
            assert_eq!(got, vec![2, 1]);
        },
        _ => panic!("expected an invalid shape error"),
    }
}

#[test]
fn requires_grad_flag_toggles() {
    let mut t = Tensor::<f32>::new(vec![vec![1.0]]).unwrap();
    assert!(!t.requires_grad());
    assert!(t.grad().is_none());
    t.set_requires_grad(true);
    assert!(t.requires_grad());
}

#[test]
fn arc_tensor_shares_one_tensor() {
    let t = Tensor::<f32>::new(vec![vec![1.0, 2.0]]).unwrap();
    let shared = ArcTensor::new(t);
    let be = FloatBackend;
    let doubled = shared.tensor().scalar_mul(2.0, &be).unwrap();
    let halved = shared.tensor().scalar_div(2.0, &be).unwrap();
    assert_eq!(doubled.data(), &vec![2.0, 4.0]);
    assert_eq!(halved.data(), &vec![0.5, 1.0]);
    assert_eq!(shared.tensor().data(), &vec![1.0, 2.0]);
}

#[test]
fn pow_without_exponent_fails() {
    let t = Tensor::<f32>::new(vec![vec![2.0]]).unwrap();
    let be = FloatBackend;
    let op = Pow::new(&t, None, &be).unwrap();
    assert!(matches!(op.forward().unwrap_err(), TensorError::InvalidOperation { .. }));
}

#[test]
fn binary_op_requires_second_operand() {
    let t = Tensor::<f32>::new(vec![vec![2.0]]).unwrap();
    let be = FloatBackend;
    match Add::new(&t, None, &be) {
        Err(TensorError::InvalidOperation { .. }) => {},
        _ => panic!("a binary operation must demand its second operand"),
    }
}

#[test]
fn topk_selects_largest_per_row() {
    let t = Tensor::<i64>::from_vec(vec![3, 1, 4, 1, 5, 9], &vec![2, 3]).unwrap();
    let be = IntBackend;
    let mut op = Topk::new(&t, None, &be).unwrap();
    op.topk = Some((2, true));
    let (values, indices) = op.forward().unwrap();
    assert_eq!(values.shape(), &vec![2, 2]);
    assert_eq!(values.data(), &vec![4, 3, 9, 5]);
    assert_eq!(indices.data(), &vec![2, 0, 2, 1]);
}

#[test]
fn topk_count_beyond_axis_fails() {
    let t = Tensor::<i64>::from_vec(vec![1, 2, 3], &vec![1, 3]).unwrap();
    let be = IntBackend;
    let mut op = Topk::new(&t, None, &be).unwrap();
    op.topk = Some((5, true));
    match op.forward().unwrap_err() {
        TensorError::InvalidAxis { axis, shape } => {
            assert_eq!(axis, 5);
            assert_eq!(shape, vec![1, 3]);
        },
        _ => panic!("expected an invalid axis error"),
    }
}

#[test]
fn matmax_reduces_along_axis() {
    let t = Tensor::<i64>::from_vec(vec![1, 5, 3, 4, 2, 6], &vec![2, 3]).unwrap();
    let be = IntBackend;
    let mut op = Matmax::new(&t, None, &be).unwrap();
    op.matmax = Some((Some(1), false));
    let (values, indices) = op.forward().unwrap();
    assert_eq!(values.shape(), &vec![2]);
    assert_eq!(values.data(), &vec![5, 6]);
    assert_eq!(indices.data(), &vec![1, 2]);

    let mut keep = Matmax::new(&t, None, &be).unwrap();
    keep.matmax = Some((Some(0), true));
    let (kv, ki) = keep.forward().unwrap();
    assert_eq!(kv.shape(), &vec![1, 3]);
    assert_eq!(kv.data(), &vec![4, 5, 6]);
    assert_eq!(ki.data(), &vec![1, 0, 1]);
}

#[test]
fn matmax_without_axis_reduces_everything() {
    let t = Tensor::<i64>::from_vec(vec![1, 9, 3, 9], &vec![2, 2]).unwrap();
    let be = IntBackend;
    let mut op = Matmax::new(&t, None, &be).unwrap();
    op.matmax = Some((None, false));
    let (values, indices) = op.forward().unwrap();
    assert_eq!(values.shape(), &vec![]);
    assert_eq!(values.data(), &vec![9]);
    // The first occurrence of the maximum wins.
    assert_eq!(indices.data(), &vec![1]);
}

#[test]
fn matmax_axis_out_of_range_fails() {
    let t = Tensor::<i64>::from_vec(vec![1, 2], &vec![2]).unwrap();
    let be = IntBackend;
    let mut op = Matmax::new(&t, None, &be).unwrap();
    op.matmax = Some((Some(7), false));
    match op.forward().unwrap_err() {
        TensorError::InvalidAxis { axis, shape } => {
            assert_eq!(axis, 7);
            assert_eq!(shape, vec![2]);
        },
        _ => panic!("expected an invalid axis error"),
    }
}

#[test]
fn integer_backend_kernels_are_exact() {
    let be = IntBackend;
    let t = Tensor::<i64>::from_vec(vec![0, 1, 10], &vec![3]).unwrap();
    let exp = Exp::new(&t, None, &be).unwrap().forward().unwrap();
    assert_eq!(exp.data(), &vec![1, 2, 1024]);

    let l = Tensor::<i64>::from_vec(vec![1, 8, 9], &vec![3]).unwrap();
    let log = Log::new(&l, None, &be).unwrap().forward().unwrap();
    assert_eq!(log.data(), &vec![0, 3, 3]);

    let s = Tensor::<i64>::from_vec(vec![0, 1, 8, 9], &vec![4]).unwrap();
    let sqrt = Sqrt::new(&s, None, &be).unwrap().forward().unwrap();
    assert_eq!(sqrt.data(), &vec![0, 1, 2, 3]);

    let n = Tensor::<i64>::from_vec(vec![1, -2], &vec![2]).unwrap();
    let neg = Neg::new(&n, None, &be).unwrap().forward().unwrap();
    assert_eq!(neg.data(), &vec![-1, 2]);
    let abs = Abs::new(&n, None, &be).unwrap().forward().unwrap();
    assert_eq!(abs.data(), &vec![1, 2]);
    let sq = Square::new(&n, None, &be).unwrap().forward().unwrap();
    assert_eq!(sq.data(), &vec![1, 4]);

    let mut pw = Pow::new(&n, None, &be).unwrap();
    pw.power = Some(10);
    let p = pw.forward().unwrap();
    assert_eq!(p.data(), &vec![1, 1024]);
}

#[test]
fn integer_division_by_zero_yields_zero() {
    let a = Tensor::<i64>::from_vec(vec![7, 8], &vec![2]).unwrap();
    let b = Tensor::<i64>::from_vec(vec![2, 0], &vec![2]).unwrap();
    let be = IntBackend;
    let q = a.div(&b, &be).unwrap();
    assert_eq!(q.data(), &vec![3, 0]);
}

#[test]
fn scalar_tensor_has_one_element() {
    let t = Tensor::<i64>::from_vec(vec![5], &vec![]).unwrap();
    assert_eq!(t.shape(), &vec![]);
    assert_eq!(t.data(), &vec![5]);
    assert_eq!(t.index(&vec![]), Some(0));
    assert_eq!(t.get(&vec![]), Some(&5));
}

#[test]
fn empty_axis_add_keeps_empty_shape() {
    let a = Tensor::<i64>::from_vec(vec![], &vec![0, 2]).unwrap();
    let b = Tensor::<i64>::from_vec(vec![], &vec![0, 2]).unwrap();
    let be = IntBackend;
    let sum = a.add(&b, &be).unwrap();
    assert_eq!(sum.shape(), &vec![0, 2]);
    assert_eq!(sum.data(), &vec![]);
}

#[test]
fn zero_axis_against_one_axis_is_refused() {
    // A zero-sized axis meeting a one-sized axis passes the compatibility
    // test, but the per-axis maximum leaves no cell to read from the
    // zero-sized operand, so the engine fails instead of reading out of
    // bounds.
    let a = Tensor::<i64>::from_vec(vec![], &vec![0]).unwrap();
    let b = Tensor::<i64>::from_vec(vec![7], &vec![1]).unwrap();
    assert!(a.can_broadcast(&b));
    let be = IntBackend;
    assert!(matches!(
        a.add(&b, &be).unwrap_err(),
        TensorError::InvalidOperation { .. }
    ));
}

#[test]
fn integer_matmul_is_exact() {
    let a = Tensor::<i64>::from_vec(vec![1, 2, 3, 4, 5, 6], &vec![2, 3]).unwrap();
    let b = Tensor::<i64>::from_vec(vec![7, 8, 9, 10, 11, 12], &vec![3, 2]).unwrap();
    let be = IntBackend;
    let m = Matmul::new(&a, Some(&b), &be).unwrap().forward().unwrap();
    assert_eq!(m.shape(), &vec![2, 2]);
    assert_eq!(m.data(), &vec![58, 64, 139, 154]);
}
