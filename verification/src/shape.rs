//! Pure arithmetic over shape vectors: element counts, row-major strides,
//! flattening a multi-index to a linear offset, and the index mapping used by
//! broadcasting.

use vstd::prelude::*;

verus! {

/// Number of elements a shape describes: the product of its dimensions.
/// The empty shape has one element (a scalar).
pub open spec fn shape_product(s: Seq<usize>) -> int
    decreases s.len(),
{
    if s.len() == 0 {
        1
    } else {
        s[0] * shape_product(s.subrange(1, s.len() as int))
    }
}

/// Product of the dimensions from axis `i` (inclusive) to the end; this is
/// the row-major stride of axis `i - 1`.
pub open spec fn suffix_product(s: Seq<usize>, i: int) -> int {
    shape_product(s.subrange(i, s.len() as int))
}

pub proof fn lemma_shape_product_nonneg(s: Seq<usize>)
    ensures
        shape_product(s) >= 0,
    decreases s.len(),
{
    if s.len() > 0 {
        lemma_shape_product_nonneg(s.subrange(1, s.len() as int));
    }
}

/// A shape with a positive element count has only positive dimensions.
pub proof fn lemma_shape_product_pos_dims(s: Seq<usize>)
    requires
        shape_product(s) > 0,
    ensures
        forall|i: int| 0 <= i < s.len() ==> s[i] >= 1,
    decreases s.len(),
{
    if s.len() > 0 {
        let tail = s.subrange(1, s.len() as int);
        lemma_shape_product_nonneg(tail);
        assert(shape_product(tail) > 0) by {
            if shape_product(tail) == 0 {
                assert(s[0] * shape_product(tail) == 0) by (nonlinear_arith)
                    requires
                        shape_product(tail) == 0,
                ;
            }
        }
        lemma_shape_product_pos_dims(tail);
        assert forall|i: int| 0 <= i < s.len() implies s[i] >= 1 by {
            if i == 0 {
                if s[0] == 0 {
                    assert(s[0] * shape_product(tail) == 0) by (nonlinear_arith)
                        requires
                            s[0] == 0,
                    ;
                }
            } else {
                assert(tail[i - 1] == s[i]);
            }
        }
    }
}

/// Unfolding step for suffix products: the stride of axis `i` times the
/// dimension at axis `i` gives the suffix product at axis `i`.
pub proof fn lemma_suffix_product_unfold(s: Seq<usize>, i: int)
    requires
        0 <= i < s.len(),
    ensures
        suffix_product(s, i) == s[i] * suffix_product(s, i + 1),
{
    let sub = s.subrange(i, s.len() as int);
    assert(sub[0] == s[i]);
    assert(sub.subrange(1, sub.len() as int) =~= s.subrange(i + 1, s.len() as int));
}

/// The suffix product at the end of the shape is the empty product.
pub proof fn lemma_suffix_product_end(s: Seq<usize>)
    ensures
        suffix_product(s, s.len() as int) == 1,
{
    assert(s.subrange(s.len() as int, s.len() as int) =~= Seq::<usize>::empty());
}

/// The whole element count is the suffix product at axis 0.
pub proof fn lemma_suffix_product_all(s: Seq<usize>)
    ensures
        suffix_product(s, 0) == shape_product(s),
{
    assert(s.subrange(0, s.len() as int) =~= s);
}

pub proof fn lemma_suffix_product_nonneg(s: Seq<usize>, i: int)
    requires
        0 <= i <= s.len(),
    ensures
        suffix_product(s, i) >= 0,
{
    lemma_shape_product_nonneg(s.subrange(i, s.len() as int));
}

/// When every dimension is positive, every suffix product is positive and
/// bounded by the whole element count.
pub proof fn lemma_suffix_product_bounds(s: Seq<usize>, i: int)
    requires
        0 <= i <= s.len(),
        forall|j: int| 0 <= j < s.len() ==> s[j] >= 1,
    ensures
        1 <= suffix_product(s, i),
        suffix_product(s, i) <= shape_product(s),
    decreases i,
{
    if i == 0 {
        lemma_suffix_product_all(s);
        lemma_positive_dims_product(s);
    } else {
        lemma_suffix_product_bounds(s, i - 1);
        lemma_suffix_product_unfold(s, i - 1);
        lemma_suffix_product_nonneg(s, i);
        assert(suffix_product(s, i - 1) == s[i - 1] * suffix_product(s, i));
        assert(1 <= suffix_product(s, i) && suffix_product(s, i) <= suffix_product(s, i - 1))
            by (nonlinear_arith)
            requires
                s[i - 1] >= 1,
                suffix_product(s, i - 1) == s[i - 1] * suffix_product(s, i),
                suffix_product(s, i - 1) >= 1,
                suffix_product(s, i) >= 0,
        ;
    }
}

/// A shape whose dimensions are all positive has a positive element count.
pub proof fn lemma_positive_dims_product(s: Seq<usize>)
    requires
        forall|j: int| 0 <= j < s.len() ==> s[j] >= 1,
    ensures
        shape_product(s) >= 1,
    decreases s.len(),
{
    if s.len() > 0 {
        let tail = s.subrange(1, s.len() as int);
        lemma_positive_dims_product(tail);
        assert(shape_product(s) >= 1) by (nonlinear_arith)
            requires
                shape_product(s) == s[0] * shape_product(tail),
                s[0] >= 1,
                shape_product(tail) >= 1,
        ;
    }
}

/// Row-major flat offset of a multi-index, accumulated over the first `n`
/// axes: `acc = acc * shape[j] + idx[j]`.
pub open spec fn flat_index_prefix(shape: Seq<usize>, idx: Seq<usize>, n: int) -> int
    decreases n,
{
    if n <= 0 {
        0
    } else {
        flat_index_prefix(shape, idx, n - 1) * shape[n - 1] + idx[n - 1]
    }
}

/// Row-major flat offset of a full multi-index.
pub open spec fn flat_index(shape: Seq<usize>, idx: Seq<usize>) -> int {
    flat_index_prefix(shape, idx, shape.len() as int)
}

/// A multi-index is in bounds when it has one component per axis and each
/// component is below its dimension.
pub open spec fn index_in_bounds(shape: Seq<usize>, idx: Seq<usize>) -> bool {
    &&& idx.len() == shape.len()
    &&& forall|j: int| 0 <= j < shape.len() ==> idx[j] < shape[j]
}

pub proof fn lemma_flat_index_prefix_bound(shape: Seq<usize>, idx: Seq<usize>, n: int)
    requires
        0 <= n <= shape.len(),
        n <= idx.len(),
        forall|j: int| 0 <= j < n ==> idx[j] < shape[j],
    ensures
        0 <= flat_index_prefix(shape, idx, n),
        flat_index_prefix(shape, idx, n) < shape_product(shape.subrange(0, n)) || n == 0,
        n == 0 ==> flat_index_prefix(shape, idx, n) == 0,
    decreases n,
{
    if n > 0 {
        lemma_flat_index_prefix_bound(shape, idx, n - 1);
        let f = flat_index_prefix(shape, idx, n - 1);
        let p = shape_product(shape.subrange(0, n - 1));
        let q = shape_product(shape.subrange(0, n));
        lemma_shape_product_snoc(shape, n);
        assert(q == p * shape[n - 1]);
        if n == 1 {
            assert(p == 1) by {
                assert(shape.subrange(0, 0) =~= Seq::<usize>::empty());
            }
        }
        assert(0 <= f * shape[n - 1] + idx[n - 1] < q) by (nonlinear_arith)
            requires
                0 <= f,
                f < p || n == 1,
                n == 1 ==> p == 1 && f == 0,
                0 <= idx[n - 1] < shape[n - 1],
                q == p * shape[n - 1],
        ;
    }
}

/// Appending one axis multiplies the prefix product by its dimension.
pub proof fn lemma_shape_product_snoc(s: Seq<usize>, n: int)
    requires
        0 < n <= s.len(),
    ensures
        shape_product(s.subrange(0, n)) == shape_product(s.subrange(0, n - 1)) * s[n - 1],
    decreases n,
{
    let a = s.subrange(0, n);
    if n == 1 {
        assert(a.len() == 1);
        assert(a[0] == s[0]);
        assert(a.subrange(1, 1) =~= Seq::<usize>::empty());
        assert(shape_product(a.subrange(1, 1)) == 1);
        assert(shape_product(a) == s[0] * 1);
        assert(s.subrange(0, 0) =~= Seq::<usize>::empty());
        assert(shape_product(s.subrange(0, 0)) == 1);
    } else {
        let b = s.subrange(0, n - 1);
        let t = s.subrange(1, s.len() as int);
        assert(a.subrange(1, a.len() as int) =~= t.subrange(0, n - 1));
        assert(b.subrange(1, b.len() as int) =~= t.subrange(0, n - 2));
        assert(a[0] == s[0] && b[0] == s[0]);
        lemma_shape_product_snoc(t, n - 1);
        assert(t[n - 2] == s[n - 1]);
        assert(shape_product(a) == s[0] * shape_product(t.subrange(0, n - 1)));
        assert(shape_product(b) == s[0] * shape_product(t.subrange(0, n - 2)));
        assert(shape_product(t.subrange(0, n - 1)) == shape_product(t.subrange(0, n - 2)) * s[n
            - 1]);
        assert(s[0] * (shape_product(t.subrange(0, n - 2)) * s[n - 1]) == (s[0] * shape_product(
            t.subrange(0, n - 2),
        )) * s[n - 1]) by (nonlinear_arith);
    }
}

/// The coordinate of linear index `idx` along axis `i` of shape `s`, under
/// row-major order: the quotient by the stride of axis `i`, reduced by the
/// dimension at axis `i`.
pub open spec fn axis_coord(s: Seq<usize>, idx: int, i: int) -> int {
    (idx / suffix_product(s, i + 1)) % (s[i] as int)
}

/// Flat offset into an operand of shape `own` for output index `idx` of the
/// broadcast shape `out`, accumulated over the first `n` axes: a size-1 axis
/// of the operand pins its coordinate at zero, every other axis follows the
/// output coordinate, and the offset accumulates with the operand's own
/// strides.
pub open spec fn source_index_prefix(out: Seq<usize>, own: Seq<usize>, idx: int, n: int) -> int
    decreases n,
{
    if n <= 0 {
        0
    } else {
        source_index_prefix(out, own, idx, n - 1) * own[n - 1] + if own[n - 1] == 1 {
            0
        } else {
            axis_coord(out, idx, n - 1)
        }
    }
}

/// Flat offset into an operand of shape `own` for output index `idx` of the
/// broadcast shape `out`.
pub open spec fn source_index(out: Seq<usize>, own: Seq<usize>, idx: int) -> int {
    source_index_prefix(out, own, idx, out.len() as int)
}

/// Every axis of the operand either matches the output shape or is stretched
/// from size one.
pub open spec fn axes_compatible(out: Seq<usize>, own: Seq<usize>) -> bool {
    &&& own.len() == out.len()
    &&& forall|i: int| 0 <= i < out.len() ==> own[i] == out[i] || own[i] == 1
}

/// Splitting a linear index at one axis: dividing out the axis stride and
/// reducing by the remaining extent commute.
pub proof fn lemma_mixed_radix(x: int, d: int, m: int)
    requires
        x >= 0,
        d >= 1,
        m >= 1,
    ensures
        (x % (d * m)) / m == (x / m) % d,
        (x % (d * m)) % m == x % m,
{
    vstd::arithmetic::mul::lemma_mul_is_commutative(d, m);
    vstd::arithmetic::div_mod::lemma_mod_breakdown(x, m, d);
    let q = (x / m) % d;
    let r = x % m;
    assert(x % (d * m) == m * q + r);
    vstd::arithmetic::div_mod::lemma_mod_bound(x, m);
    vstd::arithmetic::div_mod::lemma_div_pos_is_pos(x, m);
    vstd::arithmetic::div_mod::lemma_mod_bound(x / m, d);
    vstd::arithmetic::div_mod::lemma_div_multiples_vanish_fancy(q, r, m);
    vstd::arithmetic::div_mod::lemma_mod_multiples_vanish(q, r, m);
    vstd::arithmetic::div_mod::lemma_small_mod(r as nat, m as nat);
}

/// The source offset stays within the operand whose axes are compatible with
/// the output shape.
pub proof fn lemma_source_index_prefix_bound(
    out: Seq<usize>,
    own: Seq<usize>,
    idx: int,
    n: int,
)
    requires
        0 <= n <= out.len(),
        axes_compatible(out, own),
        forall|j: int| 0 <= j < out.len() ==> out[j] >= 1,
        idx >= 0,
    ensures
        0 <= source_index_prefix(out, own, idx, n),
        n > 0 ==> source_index_prefix(out, own, idx, n) < shape_product(own.subrange(0, n)),
        n == 0 ==> source_index_prefix(out, own, idx, n) == 0,
    decreases n,
{
    if n > 0 {
        lemma_source_index_prefix_bound(out, own, idx, n - 1);
        let f = source_index_prefix(out, own, idx, n - 1);
        let c = if own[n - 1] == 1 {
            0
        } else {
            axis_coord(out, idx, n - 1)
        };
        assert(0 <= c < own[n - 1]) by {
            if own[n - 1] != 1 {
                lemma_suffix_product_bounds(out, n);
                vstd::arithmetic::div_mod::lemma_div_pos_is_pos(idx, suffix_product(out, n));
                vstd::arithmetic::div_mod::lemma_mod_bound(
                    idx / suffix_product(out, n),
                    out[n - 1] as int,
                );
            }
        }
        let p = shape_product(own.subrange(0, n - 1));
        let q = shape_product(own.subrange(0, n));
        lemma_shape_product_snoc(own, n);
        if n == 1 {
            assert(own.subrange(0, 0) =~= Seq::<usize>::empty());
            assert(p == 1);
        }
        assert(0 <= f * own[n - 1] + c < q) by (nonlinear_arith)
            requires
                0 <= f,
                f < p || n == 1,
                n == 1 ==> p == 1 && f == 0,
                0 <= c < own[n - 1],
                q == p * own[n - 1],
        ;
    }
}

/// Row-major stride of the axis before `from`: the product of the
/// dimensions from `from` to the end of the shape.
pub fn suffix_prod(shape: &Vec<usize>, from: usize) -> (p: usize)
    requires
        from <= shape@.len(),
        forall|j: int| 0 <= j < shape@.len() ==> shape@[j] >= 1,
        shape_product(shape@) <= usize::MAX,
    ensures
        p == suffix_product(shape@, from as int),
{
    let ghost s = shape@;
    let mut p: usize = 1;
    let mut i: usize = shape.len();
    proof {
        lemma_suffix_product_end(s);
    }
    while i > from
        invariant
            from <= i <= s.len(),
            s == shape@,
            forall|j: int| 0 <= j < s.len() ==> s[j] >= 1,
            shape_product(s) <= usize::MAX,
            p == suffix_product(s, i as int),
        decreases i,
    {
        i = i - 1;
        proof {
            lemma_suffix_product_unfold(s, i as int);
            lemma_suffix_product_bounds(s, i as int);
        }
        p = shape[i] * p;
    }
    p
}

/// The element count splits at any axis into the prefix product times the
/// suffix product.
pub proof fn lemma_shape_product_split(s: Seq<usize>, i: int)
    requires
        0 <= i <= s.len(),
    ensures
        shape_product(s) == shape_product(s.subrange(0, i)) * suffix_product(s, i),
    decreases i,
{
    if i == 0 {
        lemma_suffix_product_all(s);
        assert(s.subrange(0, 0) =~= Seq::<usize>::empty());
        assert(shape_product(Seq::<usize>::empty()) == 1);
    } else {
        lemma_shape_product_split(s, i - 1);
        lemma_shape_product_snoc(s, i);
        lemma_suffix_product_unfold(s, i - 1);
        let p = shape_product(s.subrange(0, i - 1));
        let d = s[i - 1] as int;
        let m = suffix_product(s, i);
        assert(p * (d * m) == (p * d) * m) by (nonlinear_arith);
    }
}

/// Concatenated shapes multiply their element counts.
pub proof fn lemma_shape_product_concat(x: Seq<usize>, y: Seq<usize>)
    ensures
        shape_product(x + y) == shape_product(x) * shape_product(y),
    decreases x.len(),
{
    if x.len() == 0 {
        assert(x + y =~= y);
    } else {
        let tail = x.subrange(1, x.len() as int);
        lemma_shape_product_concat(tail, y);
        assert((x + y).subrange(1, (x + y).len() as int) =~= tail + y);
        assert((x + y)[0] == x[0]);
        assert(x[0] * (shape_product(tail) * shape_product(y)) == (x[0] * shape_product(tail))
            * shape_product(y)) by (nonlinear_arith);
    }
}

/// Element count of a prefix of a shape, proven never to overflow while any
/// dimension to its right keeps the whole count within the address space.
pub fn prefix_prod(shape: &Vec<usize>, to: usize) -> (p: usize)
    requires
        to <= shape@.len(),
        forall|j: int| 0 <= j < shape@.len() ==> shape@[j] >= 1,
        shape_product(shape@) <= usize::MAX,
    ensures
        p == shape_product(shape@.subrange(0, to as int)),
{
    let ghost s = shape@;
    let mut p: usize = 1;
    let mut i: usize = 0;
    proof {
        assert(s.subrange(0, 0) =~= Seq::<usize>::empty());
    }
    while i < to
        invariant
            0 <= i <= to <= s.len(),
            s == shape@,
            forall|j: int| 0 <= j < s.len() ==> s[j] >= 1,
            shape_product(s) <= usize::MAX,
            p == shape_product(s.subrange(0, i as int)),
        decreases to - i,
    {
        proof {
            lemma_shape_product_snoc(s, i as int + 1);
            lemma_prefix_le_product(s, i as int + 1);
        }
        p = p * shape[i];
        i = i + 1;
    }
    p
}

/// A rank-2 shape counts `rows * cols` elements.
pub proof fn lemma_rank2_product(s: Seq<usize>)
    requires
        s.len() == 2,
    ensures
        shape_product(s) == s[0] * s[1],
{
    let tail = s.subrange(1, 2);
    assert(tail.len() == 1);
    assert(tail[0] == s[1]);
    assert(tail.subrange(1, 1) =~= Seq::<usize>::empty());
    assert(shape_product(Seq::<usize>::empty()) == 1);
    assert(shape_product(tail) == s[1] * 1);
}

/// Checked element count of a shape: `Some` exactly when the product of the
/// dimensions fits in `usize`.
pub fn checked_size(shape: &Vec<usize>) -> (r: Option<usize>)
    ensures
        match r {
            Some(n) => n == shape_product(shape@),
            None => shape_product(shape@) > usize::MAX,
        },
{
    let ghost s = shape@;
    // A zero dimension forces a zero element count no matter how large the
    // other dimensions are, so it is handled before the running product.
    let mut j: usize = 0;
    while j < shape.len()
        invariant
            0 <= j <= s.len(),
            s == shape@,
            forall|i: int| 0 <= i < j ==> s[i] >= 1,
        decreases s.len() - j,
    {
        if shape[j] == 0 {
            proof {
                lemma_zero_dim_zero_product(s, j as int);
            }
            return Some(0);
        }
        j = j + 1;
    }
    let mut p: usize = 1;
    let mut i: usize = 0;
    proof {
        assert(s.subrange(0, 0) =~= Seq::<usize>::empty());
    }
    while i < shape.len()
        invariant
            0 <= i <= s.len(),
            s == shape@,
            forall|k: int| 0 <= k < s.len() ==> s[k] >= 1,
            p == shape_product(s.subrange(0, i as int)),
        decreases s.len() - i,
    {
        let d = shape[i];
        let q = p.checked_mul(d);
        proof {
            lemma_shape_product_snoc(s, i as int + 1);
        }
        match q {
            Some(v) => {
                p = v;
            },
            None => {
                proof {
                    // The remaining dimensions are all at least one, so the
                    // full product is at least the overflowing prefix.
                    lemma_prefix_le_product(s, i as int + 1);
                }
                return None;
            },
        }
        i = i + 1;
    }
    proof {
        assert(s.subrange(0, s.len() as int) =~= s);
    }
    Some(p)
}

/// A zero dimension anywhere makes the element count zero.
pub proof fn lemma_zero_dim_zero_product(s: Seq<usize>, i: int)
    requires
        0 <= i < s.len(),
        s[i] == 0,
    ensures
        shape_product(s) == 0,
    decreases s.len(),
{
    let tail = s.subrange(1, s.len() as int);
    if i == 0 {
        lemma_shape_product_nonneg(tail);
        assert(s[0] * shape_product(tail) == 0) by (nonlinear_arith)
            requires
                s[0] == 0,
        ;
    } else {
        lemma_zero_dim_zero_product(tail, i - 1);
        assert(s[0] * shape_product(tail) == 0) by (nonlinear_arith)
            requires
                shape_product(tail) == 0,
        ;
    }
}

/// An in-bounds multi-index forces every dimension to be positive, so any
/// prefix product is bounded by the whole element count.
pub proof fn lemma_prefix_le_product_from_bounds(s: Seq<usize>, idx: Seq<usize>, n: int)
    requires
        0 <= n <= s.len(),
        index_in_bounds(s, idx),
    ensures
        shape_product(s.subrange(0, n)) <= shape_product(s),
{
    assert(forall|j: int| 0 <= j < s.len() ==> s[j] >= 1);
    lemma_prefix_le_product(s, n);
}

/// With positive dimensions everywhere, any prefix product is bounded by the
/// whole product.
pub proof fn lemma_prefix_le_product(s: Seq<usize>, n: int)
    requires
        0 <= n <= s.len(),
        forall|j: int| 0 <= j < s.len() ==> s[j] >= 1,
    ensures
        shape_product(s.subrange(0, n)) <= shape_product(s),
    decreases s.len() - n,
{
    if n == s.len() {
        assert(s.subrange(0, n) =~= s);
    } else {
        lemma_prefix_le_product(s, n + 1);
        lemma_shape_product_snoc(s, n + 1);
        let p = shape_product(s.subrange(0, n));
        lemma_shape_product_nonneg(s.subrange(0, n));
        assert(p <= p * s[n]) by (nonlinear_arith)
            requires
                p >= 0,
                s[n] >= 1,
        ;
    }
}

} // verus!
