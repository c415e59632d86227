//! Diagonals: `diagonal` gathers the `k`-th diagonal of the matrices spanned
//! by two dimensions; `diag` builds a diagonal matrix from a vector, or reads
//! the diagonal of a matrix.
//!
//! As with the triangular masks, there are no primitive index ops here to
//! compose: each call is one snapshot node, a host computation, or one
//! launch of a dedicated `diag` or `diagonal` kernel.

use crate::be_cpu::CpuStorage;
use crate::bitwise::{host_ready, runs_on_host};
use crate::device::{append_decimal, decimal_digits};
use crate::error::HoduError;
use crate::layout::{
    check_shape_fits, checked_shape_size, checked_shape_size_from, lemma_size_positive,
    position_of, shape_fits, shape_size, Layout,
};
use crate::ops::{CompositeOp, Op, OpParams};
use crate::kernel::{mangle, KernelId, KernelOp};
use crate::metadata::{unary_metadata, unary_metadata_view};
use crate::tensor::{backend_of, contiguous_view, emit, emitted, queued, unchanged, Engine, KernelLaunch, Tensor};
use vstd::prelude::*;

verus! {

/// Length of the `k`-th diagonal of an `n × m` matrix.
pub open spec fn diag_len(n: nat, m: nat, k: int) -> nat {
    if k >= 0 {
        if k >= m {
            0
        } else if n <= m - k {
            n
        } else {
            (m - k) as nat
        }
    } else {
        if -k >= n {
            0
        } else if m <= n + k {
            m
        } else {
            (n + k) as nat
        }
    }
}

pub open spec fn row_start(k: int) -> nat {
    if k >= 0 {
        0
    } else {
        (-k) as nat
    }
}

pub open spec fn col_start(k: int) -> nat {
    if k >= 0 {
        k as nat
    } else {
        0
    }
}

/// The dimensions among the first `q` of `s` other than `d1` and `d2`, in order.
pub open spec fn other_dims_upto(s: Seq<usize>, d1: int, d2: int, q: int) -> Seq<usize>
    decreases q,
{
    if q <= 0 {
        Seq::empty()
    } else if q - 1 == d1 || q - 1 == d2 {
        other_dims_upto(s, d1, d2, q - 1)
    } else {
        other_dims_upto(s, d1, d2, q - 1).push(s[q - 1])
    }
}

pub open spec fn other_dims(s: Seq<usize>, d1: int, d2: int) -> Seq<usize> {
    other_dims_upto(s, d1, d2, s.len() as int)
}

/// Shape of `diagonal`: the other dimensions, then the diagonal's length.
pub open spec fn diagonal_shape(s: Seq<usize>, k: int, d1: int, d2: int) -> Seq<usize> {
    other_dims(s, d1, d2).push(diag_len(s[d1] as nat, s[d2] as nat, k) as usize)
}

/// Index along dimension `q` of the input element that becomes element `i`
/// of `diagonal`: the position along the diagonal for `d1` and `d2`, and the
/// row-major digits of the batch index for the other dimensions.
pub open spec fn diag_index(s: Seq<usize>, k: int, d1: int, d2: int, i: nat, q: int) -> nat {
    let l = diag_len(s[d1] as nat, s[d2] as nat, k);
    let bd = other_dims(s, d1, d2);
    let b = i / l;
    let j = i % l;
    if q == d1 {
        row_start(k) + j
    } else if q == d2 {
        col_start(k) + j
    } else {
        let p = other_dims_upto(s, d1, d2, q).len() as int;
        (b / shape_size(bd.subrange(p + 1, bd.len() as int))) % (bd[p] as nat)
    }
}

/// Row-major flat index, over the first `q` dimensions of `s`, of the input
/// element that becomes element `i` of `diagonal`.
pub open spec fn diag_flat(s: Seq<usize>, k: int, d1: int, d2: int, i: nat, q: int) -> nat
    decreases q,
{
    if q <= 0 {
        0
    } else {
        diag_flat(s, k, d1, d2, i, q - 1) * (s[q - 1] as nat) + diag_index(s, k, d1, d2, i, q - 1)
    }
}

/// Row-major flat index of the input element that becomes element `i` of `diagonal`.
pub open spec fn diagonal_source(s: Seq<usize>, k: int, d1: int, d2: int, i: nat) -> nat {
    diag_flat(s, k, d1, d2, i, s.len() as int)
}

/// A dimension argument, negative ones counting from the end.
pub open spec fn normalize_dim(d: i32, nd: nat) -> int {
    if d < 0 {
        nd + d
    } else {
        d as int
    }
}

/// The dimensions given to `diagonal` name two different dimensions of a
/// tensor of rank at least 2.
pub open spec fn diagonal_dims_ok(nd: nat, dim1: i32, dim2: i32) -> bool {
    let a = normalize_dim(dim1, nd);
    let b = normalize_dim(dim2, nd);
    nd >= 2 && 0 <= a < nd && 0 <= b < nd && a != b
}

/// The outcome of `diagonal`.
pub open spec fn diagonal_outcome(
    old_ctx: &Engine,
    new_ctx: &Engine,
    x: Tensor,
    k: i32,
    dim1: i32,
    dim2: i32,
    r: Result<Tensor, HoduError>,
) -> bool {
    let s = x.shape();
    let d1 = normalize_dim(dim1, s.len());
    let d2 = normalize_dim(dim2, s.len());
    let out_shape = diagonal_shape(s, k as int, d1, d2);
    &&& r is Ok <==> (diagonal_dims_ok(s.len(), dim1, dim2) && shape_fits(out_shape))
    &&& r is Err ==> unchanged(old_ctx, new_ctx) && r->Err_0 is InvalidArgument
    &&& s.len() < 2 ==> r is Err && r->Err_0->InvalidArgument_0@
        == "diagonal requires at least 2D tensor"@
    &&& s.len() >= 2 && d1 == d2 ==> r is Err && r->Err_0->InvalidArgument_0@
        == "diagonal dimensions must be different"@
    &&& s.len() >= 2 && d1 != d2 && !(0 <= d1 < s.len() && 0 <= d2 < s.len()) ==> r is Err
        && r->Err_0->InvalidArgument_0@ == "diagonal dimensions out of range for "@
        + decimal_digits(s.len()) + "D tensor"@
    &&& r is Ok ==> {
        let out = r->Ok_0;
        &&& out.wf()
        &&& out.layout@ == contiguous_view(out_shape)
        &&& out.dtype == x.dtype
        &&& out.device == x.device
        &&& out.requires_grad == x.requires_grad
        &&& emitted(
            old_ctx,
            new_ctx,
            Op::Composite(CompositeOp::Diagonal),
            OpParams::DiagonalDims(k, d1 as usize, d2 as usize),
            seq![x.id],
            seq![x.layout@],
            &out,
            !old_ctx.capturing && !runs_on_host(old_ctx, seq![x]),
        )
        &&& !old_ctx.capturing && !runs_on_host(old_ctx, seq![x]) ==> queued(
            new_ctx,
            KernelId { backend: backend_of(x.device), op: KernelOp::Diagonal, dtype: x.dtype },
            unary_metadata_view(x.layout@, contiguous_view(out_shape)),
            None,
        )
        &&& runs_on_host(old_ctx, seq![x]) ==> out.storage is Some && forall|i: int|
            0 <= i < shape_size(out_shape) ==> #[trigger] out.elem(i as nat) == x.elem(
                diagonal_source(s, k as int, d1, d2, i as nat),
            )
    }
}

/// The outcome of reading the `k`-th diagonal over dimensions `d1` and `d2`.
pub open spec fn extract_outcome(
    old_ctx: &Engine,
    new_ctx: &Engine,
    x: Tensor,
    k: i32,
    d1: usize,
    d2: usize,
    r: Result<Tensor, HoduError>,
) -> bool {

    let s = x.shape();
    let out_shape = diagonal_shape(s, k as int, d1 as int, d2 as int);
    &&& r is Ok <==> shape_fits(out_shape)
    &&& r is Err ==> unchanged(old_ctx, new_ctx) && r->Err_0 is InvalidArgument
    &&& r is Ok ==> {
        let out = r->Ok_0;
        &&& out.wf()
        &&& out.layout@ == contiguous_view(out_shape)
        &&& out.dtype == x.dtype
        &&& out.device == x.device
        &&& out.requires_grad == x.requires_grad
        &&& emitted(
            old_ctx,
            new_ctx,
            Op::Composite(CompositeOp::Diagonal),
            OpParams::DiagonalDims(k, d1, d2),
            seq![x.id],
            seq![x.layout@],
            &out,
            !old_ctx.capturing && !runs_on_host(old_ctx, seq![x]),
        )
        &&& !old_ctx.capturing && !runs_on_host(old_ctx, seq![x]) ==> queued(
            new_ctx,
            KernelId { backend: backend_of(x.device), op: KernelOp::Diagonal, dtype: x.dtype },
            unary_metadata_view(x.layout@, contiguous_view(out_shape)),
            None,
        )
        &&& runs_on_host(old_ctx, seq![x]) ==> out.storage is Some && forall|i: int|
            0 <= i < shape_size(out_shape) ==> #[trigger] out.elem(i as nat) == x.elem(
                diagonal_source(s, k as int, d1 as int, d2 as int, i as nat),
            )
    }

}

/// The outcome of building the matrix with a vector on its `k`-th diagonal.
pub open spec fn embed_outcome(
    old_ctx: &Engine,
    new_ctx: &Engine,
    x: Tensor,
    k: i32,
    r: Result<Tensor, HoduError>,
) -> bool {

    let side = embed_side(x.shape()[0] as nat, k as int);
    let out_shape = seq![side as usize, side as usize];
    &&& r is Ok <==> side * side <= usize::MAX
    &&& r is Err ==> unchanged(old_ctx, new_ctx) && r->Err_0 is InvalidArgument
    &&& r is Ok ==> {
        let out = r->Ok_0;
        &&& out.wf()
        &&& out.layout@ == contiguous_view(out_shape)
        &&& out.dtype == x.dtype
        &&& out.device == x.device
        &&& out.requires_grad == x.requires_grad
        &&& emitted(
            old_ctx,
            new_ctx,
            Op::Composite(CompositeOp::Diag),
            OpParams::Diagonal(k),
            seq![x.id],
            seq![x.layout@],
            &out,
            !old_ctx.capturing && !runs_on_host(old_ctx, seq![x]),
        )
        &&& !old_ctx.capturing && !runs_on_host(old_ctx, seq![x]) ==> queued(
            new_ctx,
            KernelId { backend: backend_of(x.device), op: KernelOp::Diag, dtype: x.dtype },
            unary_metadata_view(x.layout@, contiguous_view(out_shape)),
            None,
        )
        &&& runs_on_host(old_ctx, seq![x]) ==> out.storage is Some && forall|i: int|
            0 <= i < side * side ==> #[trigger] out.elem(i as nat) == diag_embed(
                values(x),
                k as int,
            )[i]
    }

}

fn diag_len_exec(n: usize, m: usize, k: i32) -> (r: usize)
    ensures
        r as nat == diag_len(n as nat, m as nat, k as int),
{
    if k >= 0 {
        let ku = k as usize;
        if ku >= m {
            0
        } else if n <= m - ku {
            n
        } else {
            m - ku
        }
    } else {
        let ak = (-(k as i64)) as usize;
        if ak >= n {
            0
        } else if m <= n - ak {
            m
        } else {
            n - ak
        }
    }
}

fn other_dims_exec(s: &Vec<usize>, d1: usize, d2: usize) -> (r: Vec<usize>)
    ensures
        r@ == other_dims(s@, d1 as int, d2 as int),
{
    let mut out: Vec<usize> = Vec::new();
    let mut q: usize = 0;
    while q < s.len()
        invariant
            q <= s@.len(),
            out@ == other_dims_upto(s@, d1 as int, d2 as int, q as int),
        decreases s@.len() - q,
    {
        if q != d1 && q != d2 {
            out.push(s[q]);
        }
        q = q + 1;
    }
    out
}

proof fn lemma_other_dims_len(s: Seq<usize>, d1: int, d2: int, q: int)
    requires
        0 <= q <= s.len(),
    ensures
        other_dims_upto(s, d1, d2, q).len() <= q,
        0 <= d1 < q && 0 <= d2 < q && d1 != d2 ==> other_dims_upto(s, d1, d2, q).len() == q - 2,
        (0 <= d1 < q) != (0 <= d2 < q) && d1 != d2 ==> other_dims_upto(s, d1, d2, q).len() == q - 1,
        !(0 <= d1 < q) && !(0 <= d2 < q) ==> other_dims_upto(s, d1, d2, q).len() == q,
    decreases q,
{
    if q > 0 {
        lemma_other_dims_len(s, d1, d2, q - 1);
    }
}

/// Every dimension of the first `q` other than `d1` and `d2` appears among
/// the other dimensions, right after those before it.
proof fn lemma_other_dims_prefix(s: Seq<usize>, d1: int, d2: int, q: int, q2: int)
    requires
        0 <= q <= q2 <= s.len(),
    ensures
        other_dims_upto(s, d1, d2, q2).subrange(0, other_dims_upto(s, d1, d2, q).len() as int)
            == other_dims_upto(s, d1, d2, q),
        other_dims_upto(s, d1, d2, q).len() <= other_dims_upto(s, d1, d2, q2).len(),
    decreases q2 - q,
{
    if q < q2 {
        lemma_other_dims_prefix(s, d1, d2, q, q2 - 1);
        let a = other_dims_upto(s, d1, d2, q);
        let b = other_dims_upto(s, d1, d2, q2 - 1);
        let c = other_dims_upto(s, d1, d2, q2);
        if !(q2 - 1 == d1 || q2 - 1 == d2) {
            assert(c.subrange(0, a.len() as int) =~= b.subrange(0, a.len() as int));
        }
    } else {
        let a = other_dims_upto(s, d1, d2, q);
        assert(a.subrange(0, a.len() as int) =~= a);
    }
}

/// With no zero dimension, a leading part of a shape is no larger than the whole.
proof fn lemma_prefix_size_bound(s: Seq<usize>, q: int)
    requires
        0 <= q <= s.len(),
        forall|t: int| 0 <= t < s.len() ==> #[trigger] s[t] > 0,
    ensures
        shape_size(s.subrange(0, q)) <= shape_size(s),
    decreases s.len() - q,
{
    if q < s.len() {
        lemma_prefix_size_bound(s, q + 1);
        let a = s.subrange(0, q + 1);
        assert(a.drop_last() =~= s.subrange(0, q));
        let z = shape_size(s.subrange(0, q));
        let l = s[q] as nat;
        assert(shape_size(a) == z * l);
        assert(z <= z * l) by (nonlinear_arith)
            requires
                l >= 1,
        ;
    } else {
        assert(s.subrange(0, q) =~= s);
    }
}

/// When the diagonal and the other dimensions are all non-empty, no
/// dimension of the input is 0.
proof fn lemma_dims_positive(s: Seq<usize>, d1: int, d2: int, bd: Seq<usize>, l: nat, k: int)
    requires
        0 <= d1 < s.len(),
        0 <= d2 < s.len(),
        d1 != d2,
        bd == other_dims(s, d1, d2),
        forall|t: int| 0 <= t < bd.len() ==> #[trigger] bd[t] > 0,
        l == diag_len(s[d1] as nat, s[d2] as nat, k),
        l > 0,
    ensures
        forall|t: int| 0 <= t < s.len() ==> #[trigger] s[t] > 0,
{
    assert forall|t: int| 0 <= t < s.len() implies #[trigger] s[t] > 0 by {
        if t != d1 && t != d2 {
            lemma_other_dims_prefix(s, d1, d2, t + 1, s.len() as int);
            let a = other_dims_upto(s, d1, d2, t);
            let c = other_dims_upto(s, d1, d2, t + 1);
            assert(c == a.push(s[t]));
            assert(bd.subrange(0, c.len() as int) == c);
            assert(c[a.len() as int] == s[t]);
            assert(bd.subrange(0, c.len() as int)[a.len() as int] == bd[a.len() as int]);
        }
    }
}

impl Tensor {
    fn diagonal_impl(&self, k: i32, d1: usize, d2: usize, ctx: &mut Engine) -> (r: Result<
        Tensor,
        HoduError,
    >)
        requires
            self.wf(),
            old(ctx).has_ids(),
            d1 < self.shape().len(),
            d2 < self.shape().len(),
            d1 != d2,
        ensures
            extract_outcome(old(ctx), final(ctx), *self, k, d1, d2, r),
    {
        let ghost s = self.shape();
        let nd = self.layout.shape.len();
        let n = self.layout.shape[d1];
        let m = self.layout.shape[d2];
        let len = diag_len_exec(n, m, k);
        let bd = other_dims_exec(&self.layout.shape, d1, d2);
        let mut out_shape = bd.clone();
        assert(out_shape@ =~= bd@);
        out_shape.push(len);
        if !check_shape_fits(&out_shape) {
            return Err(HoduError::InvalidArgument(String::from_str("diagonal shape is too large")));
        }
        let host = host_ready(ctx, self);
        let out_layout = Layout::from_shape(&out_shape);
        proof {
            crate::layout::lemma_contiguous_reach(out_shape@);
        }
        let ids = vec![self.id];
        assert(ids@ =~= seq![self.id]);
        let ghost views = seq![self.layout@];
        let layouts = vec![self.layout.copy()];
        assert(layouts@.map_values(|l: Layout| l@) =~= views);
        let op = Op::Composite(CompositeOp::Diagonal);
        let params = OpParams::DiagonalDims(k, d1, d2);
        if ctx.capturing {
            return Ok(emit(ctx, op, params, ids, layouts, out_layout, self.dtype, self.device, self.requires_grad, None, None));
        }
        if !host {
            let kernel = KernelId { backend: self.device.backend(), op: KernelOp::Diagonal, dtype: self.dtype };
            let metadata = unary_metadata(&self.layout, &out_layout);
            let launch = KernelLaunch { kernel, name: mangle(kernel), metadata, inputs: Vec::new(), output: 0, scalar: None, params: OpParams::NoParams };
            return Ok(emit(ctx, op, params, ids, layouts, out_layout, self.dtype, self.device, self.requires_grad, None, Some(launch)));
        }
        assert(seq![*self][0] == *self);
        let st = self.storage.as_ref().unwrap();
        let total = checked_shape_size(&out_shape).unwrap();
        let nb = bd.len();
        proof {
            lemma_other_dims_len(s, d1 as int, d2 as int, nd as int);
            assert(out_shape@.subrange(0, out_shape@.len() as int) =~= out_shape@);
        }
        // Trailing products of the batch dimensions.
        let mut suf: Vec<usize> = Vec::new();
        if len > 0 {
            let mut p: usize = 0;
            while p < nb
                invariant
                    p <= nb,
                    nb == bd@.len(),
                    len > 0,
                    out_shape@ == bd@.push(len),
                    shape_fits(out_shape@),
                    suf@.len() == p,
                    forall|t: int| 0 <= t < p ==> #[trigger] suf@[t] as nat == shape_size(
                        bd@.subrange(t + 1, nb as int),
                    ),
                decreases nb - p,
            {
                let ghost u = out_shape@.subrange(p + 1, out_shape@.len() as int);
                proof {
                    assert(u.drop_last() =~= bd@.subrange(p + 1, nb as int));
                    assert(shape_size(u) <= usize::MAX);
                    let z = shape_size(u.drop_last());
                    assert(shape_size(u) == z * (len as nat));
                    assert(z <= z * (len as nat)) by (nonlinear_arith)
                        requires
                            len > 0,
                    ;
                }
                let v = match checked_shape_size_from(&bd, p + 1) {
                    Some(v) => v,
                    None => {
                        proof {
                            assert(false) by {
                                let j = choose|j: int|
                                    p + 1 <= j <= nb && #[trigger] shape_size(bd@.subrange(j, nb as int))
                                        > usize::MAX;
                                let w = out_shape@.subrange(j, out_shape@.len() as int);
                                assert(w.drop_last() =~= bd@.subrange(j, nb as int));
                                let z = shape_size(w.drop_last());
                                assert(shape_size(w) == z * (len as nat));
                                assert(shape_size(w) <= usize::MAX);
                                assert(z <= z * (len as nat)) by (nonlinear_arith)
                                    requires
                                        len > 0,
                                ;
                            }
                        }
                        0
                    },
                };
                suf.push(v);
                p = p + 1;
            }
        }
        let rs: usize = if k >= 0 {
            0
        } else {
            (-(k as i64)) as usize
        };
        let cs: usize = if k >= 0 {
            k as usize
        } else {
            0
        };
        proof {
            lemma_size_positive(bd@);
            assert(out_shape@.drop_last() =~= bd@);
            assert(shape_size(out_shape@) == shape_size(bd@) * (len as nat));
        }
        let mut out: Vec<u64> = Vec::new();
        let mut i: usize = 0;
        while i < total
            invariant
                i <= total,
                total as nat == shape_size(out_shape@),
                shape_size(out_shape@) == shape_size(bd@) * (len as nat),
                out_shape@ == bd@.push(len),
                shape_size(bd@) > 0 <==> forall|t: int| 0 <= t < bd@.len() ==> #[trigger] bd@[t] > 0,
                self.wf(),
                self.storage == Some(*st),
                s == self.shape(),
                nd == s.len(),
                d1 < nd,
                d2 < nd,
                d1 != d2,
                n == s[d1 as int],
                m == s[d2 as int],
                len as nat == diag_len(n as nat, m as nat, k as int),
                rs as nat == row_start(k as int),
                cs as nat == col_start(k as int),
                bd@ == other_dims(s, d1 as int, d2 as int),
                nb == bd@.len(),
                len > 0 ==> suf@.len() == nb,
                len > 0 ==> forall|t: int| 0 <= t < nb ==> #[trigger] suf@[t] as nat == shape_size(
                    bd@.subrange(t + 1, nb as int),
                ),
                out@.len() == i,
                forall|t: int| 0 <= t < i ==> #[trigger] out@[t] <= crate::elem::dtype_mask(self.dtype),
                forall|t: int|
                    0 <= t < i ==> #[trigger] out@[t] == self.elem(
                        diagonal_source(s, k as int, d1 as int, d2 as int, t as nat),
                    ),
            decreases total - i,
        {
            proof {
                if len == 0 {
                    assert(shape_size(bd@) * (len as nat) == 0) by (nonlinear_arith)
                        requires
                            len == 0,
                    ;
                }
                assert(len > 0);
                assert((i as nat) / (len as nat) < shape_size(bd@)) by (nonlinear_arith)
                    requires
                        (i as nat) < shape_size(bd@) * (len as nat),
                        len > 0,
                ;
                assert(shape_size(bd@) > 0);
                lemma_dims_positive(s, d1 as int, d2 as int, bd@, len as nat, k as int);
            }
            let b = i / len;
            let j = i % len;
            let mut acc: usize = 0;
            let mut bp: usize = 0;
            let mut q: usize = 0;
            assert(s.subrange(0, 0) =~= Seq::<usize>::empty());
            while q < nd
                invariant
                    q <= nd,
                    nd == s.len(),
                    s == self.shape(),
                    self.wf(),
                    d1 < nd,
                    d2 < nd,
                    d1 != d2,
                    n == s[d1 as int],
                    m == s[d2 as int],
                    len > 0,
                    len as nat == diag_len(n as nat, m as nat, k as int),
                    rs as nat == row_start(k as int),
                    cs as nat == col_start(k as int),
                    b == i / len,
                    j == i % len,
                    (b as nat) < shape_size(bd@),
                    forall|t: int| 0 <= t < bd@.len() ==> #[trigger] bd@[t] > 0,
                    forall|t: int| 0 <= t < nd ==> #[trigger] s[t] > 0,
                    bd@ == other_dims(s, d1 as int, d2 as int),
                    nb == bd@.len(),
                    suf@.len() == nb,
                    forall|t: int| 0 <= t < nb ==> #[trigger] suf@[t] as nat == shape_size(
                        bd@.subrange(t + 1, nb as int),
                    ),
                    bp as nat == other_dims_upto(s, d1 as int, d2 as int, q as int).len(),
                    acc as nat == diag_flat(s, k as int, d1 as int, d2 as int, i as nat, q as int),
                    (acc as nat) < shape_size(s.subrange(0, q as int)),
                decreases nd - q,
            {
                let ghost upto = other_dims_upto(s, d1 as int, d2 as int, q as int);
                proof {
                    lemma_other_dims_prefix(s, d1 as int, d2 as int, q + 1, nd as int);
                    lemma_prefix_size_bound(s, q + 1);
                }
                let sq = self.layout.shape[q];
                let idx: usize = if q == d1 {
                    rs + j
                } else if q == d2 {
                    cs + j
                } else {
                    proof {
                        let c = other_dims_upto(s, d1 as int, d2 as int, q + 1);
                        assert(c == upto.push(s[q as int]));
                        assert(bd@.subrange(0, c.len() as int) == c);
                        assert(c[bp as int] == s[q as int]);
                        assert(bd@.subrange(0, c.len() as int)[bp as int] == bd@[bp as int]);
                    }
                    let sfx = suf[bp];
                    proof {
                        assert(shape_size(bd@.subrange(bp + 1, nb as int)) > 0) by {
                            lemma_size_positive(bd@.subrange(bp + 1, nb as int));
                            assert forall|t: int| 0 <= t < bd@.subrange(bp + 1, nb as int).len() implies
                                #[trigger] bd@.subrange(bp + 1, nb as int)[t] > 0 by {
                                assert(bd@.subrange(bp + 1, nb as int)[t] == bd@[bp + 1 + t]);
                            }
                        }
                    }
                    let d = (b / sfx) % bd[bp];
                    bp = bp + 1;
                    d
                };
                proof {
                    let ss = s.subrange(0, q + 1);
                    assert(ss.drop_last() =~= s.subrange(0, q as int));
                    let z = shape_size(s.subrange(0, q as int));
                    assert(shape_size(ss) == z * (sq as nat));
                    assert((acc as nat) * (sq as nat) + (idx as nat) < z * (sq as nat)) by (nonlinear_arith)
                        requires
                            (acc as nat) < z,
                            (idx as nat) < (sq as nat),
                    ;
                    assert(diag_index(s, k as int, d1 as int, d2 as int, i as nat, q as int) == idx);
                    assert(s.subrange(0, s.len() as int) =~= s);
                    assert(shape_size(s) <= usize::MAX);
                }
                acc = acc * sq + idx;
                q = q + 1;
            }
            proof {
                assert(s.subrange(0, nd as int) =~= s);
                crate::layout::lemma_index_within_reach(acc as nat, s, self.layout.strides@);
            }
            let pos = position_of(&self.layout, acc);
            out.push(st.data[pos]);
            i = i + 1;
        }
        proof {
            assert forall|t: int| 0 <= t < shape_size(out_shape@) implies #[trigger] out_layout.position(
                t as nat,
            ) == t by {
                crate::layout::lemma_contiguous_index(out_shape@, t as nat);
            }
        }
        let res = CpuStorage { dtype: self.dtype, data: out };
        Ok(emit(ctx, op, params, ids, layouts, out_layout, self.dtype, self.device, self.requires_grad, Some(res), None))
    }
}

/// Side of the square matrix that `diag` builds from a vector of length `n`.
pub open spec fn embed_side(n: nat, k: int) -> nat {
    if k >= 0 {
        (n + k) as nat
    } else {
        (n - k) as nat
    }
}

/// Row-major elements of the `side × side` matrix holding `v` on its `k`-th
/// diagonal and 0 elsewhere.
pub open spec fn diag_embed(v: Seq<u64>, k: int) -> Seq<u64> {
    let side = embed_side(v.len(), k);
    Seq::new(
        side * side,
        |i: int|
            {
                let r = i / (side as int);
                let c = i % (side as int);
                if c - r == k {
                    v[if k >= 0 {
                        r
                    } else {
                        c
                    }]
                } else {
                    0u64
                }
            },
    )
}

/// The elements of a tensor in row-major order.
pub open spec fn values(x: Tensor) -> Seq<u64> {
    Seq::new(x.layout.size(), |i: int| x.elem(i as nat))
}

/// Reading the `k`-th diagonal of the matrix that `diag` builds from `v`
/// with the same `k` gives back `v`, element for element.
pub proof fn lemma_diag_round_trip(v: Seq<u64>, k: i32)
    requires
        embed_side(v.len(), k as int) <= usize::MAX,
    ensures
        ({
            let side = embed_side(v.len(), k as int);
            let sh = seq![side as usize, side as usize];
            &&& diag_len(side, side, k as int) == v.len()
            &&& diagonal_shape(sh, k as int, 0, 1) == seq![v.len() as usize]
            &&& forall|j: int|
                0 <= j < v.len() ==> #[trigger] diag_embed(v, k as int)[diagonal_source(
                    sh,
                    k as int,
                    0,
                    1,
                    j as nat,
                ) as int] == v[j]
        }),
{
    let side = embed_side(v.len(), k as int);
    let sh = seq![side as usize, side as usize];
    let n = v.len();
    let l = diag_len(side, side, k as int);
    assert(l == n);
    assert(other_dims_upto(sh, 0, 1, 0) =~= Seq::<usize>::empty());
    assert(other_dims_upto(sh, 0, 1, 1) =~= Seq::<usize>::empty());
    assert(other_dims(sh, 0, 1) =~= Seq::<usize>::empty());
    assert(diagonal_shape(sh, k as int, 0, 1) =~= seq![v.len() as usize]);
    assert forall|j: int| 0 <= j < v.len() implies #[trigger] diag_embed(v, k as int)[diagonal_source(
        sh,
        k as int,
        0,
        1,
        j as nat,
    ) as int] == v[j] by {
        let jn = j as nat;
        assert(jn % n == jn) by (nonlinear_arith)
            requires
                jn < n,
        ;
        let r = row_start(k as int) + jn;
        let c = col_start(k as int) + jn;
        assert(diag_index(sh, k as int, 0, 1, jn, 0) == r);
        assert(diag_index(sh, k as int, 0, 1, jn, 1) == c);
        assert(diag_flat(sh, k as int, 0, 1, jn, 0) == 0);
        assert(diag_flat(sh, k as int, 0, 1, jn, 0) * (sh[0] as nat) == 0) by (nonlinear_arith)
            requires
                diag_flat(sh, k as int, 0, 1, jn, 0) == 0,
        ;
        assert(diag_flat(sh, k as int, 0, 1, jn, 1) == r);
        let f = r * side + c;
        assert(diag_flat(sh, k as int, 0, 1, jn, 2) == f);
        assert(c < side);
        assert(r < side);
        assert(f < side * side) by (nonlinear_arith)
            requires
                r < side,
                c < side,
                f == r * side + c,
        ;
        assert(f / side == r && f % side == c) by (nonlinear_arith)
            requires
                c < side,
                f == r * side + c,
        ;
    }
}

impl Tensor {
    fn diag_1d_to_2d(&self, k: i32, ctx: &mut Engine) -> (r: Result<Tensor, HoduError>)
        requires
            self.wf(),
            old(ctx).has_ids(),
            self.shape().len() == 1,
        ensures
            embed_outcome(old(ctx), final(ctx), *self, k, r),
    {
        let n = self.layout.shape[0];
        let ak: usize = if k >= 0 {
            k as usize
        } else {
            (-(k as i64)) as usize
        };
        let side = match n.checked_add(ak) {
            Some(v) => v,
            None => {
                proof {
                    assert(embed_side(n as nat, k as int) > usize::MAX);
                    let sd = embed_side(n as nat, k as int);
                    assert(sd * sd >= sd) by (nonlinear_arith)
                        requires
                            sd >= 1,
                    ;
                }
                return Err(HoduError::InvalidArgument(String::from_str("diag shape is too large")));
            },
        };
        let total = match side.checked_mul(side) {
            Some(v) => v,
            None => {
                return Err(HoduError::InvalidArgument(String::from_str("diag shape is too large")));
            },
        };
        let out_shape = vec![side, side];
        proof {
            let sh = out_shape@;
            assert(sh.subrange(2, 2) =~= Seq::<usize>::empty());
            assert(sh.subrange(1, 2).drop_last() =~= Seq::<usize>::empty());
            assert(shape_size(Seq::<usize>::empty()) == 1);
            assert(shape_size(sh.subrange(1, 2)) == 1 * (side as nat));
            assert(sh.subrange(0, 2) =~= sh);
            assert(sh.drop_last() =~= sh.subrange(1, 2));
            assert(shape_size(sh) == (side as nat) * (side as nat));
            assert(side as nat <= (side as nat) * (side as nat) || side == 0) by (nonlinear_arith);
            assert(shape_fits(sh));
        }
        let host = host_ready(ctx, self);
        let out_layout = Layout::from_shape(&out_shape);
        proof {
            crate::layout::lemma_contiguous_reach(out_shape@);
        }
        let ids = vec![self.id];
        assert(ids@ =~= seq![self.id]);
        let ghost views = seq![self.layout@];
        let layouts = vec![self.layout.copy()];
        assert(layouts@.map_values(|l: Layout| l@) =~= views);
        let op = Op::Composite(CompositeOp::Diag);
        if ctx.capturing {
            return Ok(emit(ctx, op, OpParams::Diagonal(k), ids, layouts, out_layout, self.dtype, self.device, self.requires_grad, None, None));
        }
        if !host {
            let kernel = KernelId { backend: self.device.backend(), op: KernelOp::Diag, dtype: self.dtype };
            let metadata = unary_metadata(&self.layout, &out_layout);
            let launch = KernelLaunch { kernel, name: mangle(kernel), metadata, inputs: Vec::new(), output: 0, scalar: None, params: OpParams::NoParams };
            return Ok(emit(ctx, op, OpParams::Diagonal(k), ids, layouts, out_layout, self.dtype, self.device, self.requires_grad, None, Some(launch)));
        }
        assert(seq![*self][0] == *self);
        let st = self.storage.as_ref().unwrap();
        proof {
            assert(self.shape().drop_last() =~= Seq::<usize>::empty());
            assert(shape_size(Seq::<usize>::empty()) == 1);
            assert(self.layout.size() == 1 * (n as nat));
        }
        let mut out: Vec<u64> = Vec::new();
        let mut i: usize = 0;
        while i < total
            invariant
                i <= total,
                total as nat == (side as nat) * (side as nat),
                side as nat == embed_side(n as nat, k as int),
                self.wf(),
                self.storage == Some(*st),
                n == self.shape()[0],
                self.layout.size() == n as nat,
                out@.len() == i,
                forall|t: int| 0 <= t < i ==> #[trigger] out@[t] <= crate::elem::dtype_mask(self.dtype),
                forall|t: int|
                    0 <= t < i ==> #[trigger] out@[t] == diag_embed(values(*self), k as int)[t],
            decreases total - i,
        {
            proof {
                if side == 0 {
                    assert((side as nat) * (side as nat) == 0);
                }
            }
            let r = i / side;
            let c = i % side;
            let v = if c as i128 - r as i128 == k as i128 {
                let t = if k >= 0 {
                    r
                } else {
                    c
                };
                proof {
                    assert((i as nat) / (side as nat) < side as nat) by (nonlinear_arith)
                        requires
                            (i as nat) < (side as nat) * (side as nat),
                    ;
                }
                assert(t < n);
                let p = position_of(&self.layout, t);
                proof {
                    crate::layout::lemma_index_within_reach(
                        t as nat,
                        self.layout.shape@,
                        self.layout.strides@,
                    );
                }
                st.data[p]
            } else {
                0
            };
            out.push(v);
            i = i + 1;
        }
        proof {
            assert forall|t: int| 0 <= t < total implies #[trigger] out_layout.position(t as nat) == t by {
                crate::layout::lemma_contiguous_index(out_shape@, t as nat);
            }
        }
        let res = CpuStorage { dtype: self.dtype, data: out };
        Ok(emit(ctx, op, OpParams::Diagonal(k), ids, layouts, out_layout, self.dtype, self.device, self.requires_grad, Some(res), None))
    }

    /// The `k`-th diagonal of the matrices spanned by dimensions `dim1` and
    /// `dim2` (negative ones count from the end); the output has the other
    /// dimensions, in order, followed by the diagonal's length.
    pub fn diagonal(&self, offset: i32, dim1: i32, dim2: i32, ctx: &mut Engine) -> (r: Result<
        Tensor,
        HoduError,
    >)
        requires
            self.wf(),
            old(ctx).has_ids(),
        ensures
            diagonal_outcome(old(ctx), final(ctx), *self, offset, dim1, dim2, r),
    {
        let nd = self.layout.shape.len();
        if nd < 2 {
            return Err(HoduError::InvalidArgument(String::from_str("diagonal requires at least 2D tensor")));
        }
        let a: i128 = if dim1 < 0 {
            nd as i128 + dim1 as i128
        } else {
            dim1 as i128
        };
        let b: i128 = if dim2 < 0 {
            nd as i128 + dim2 as i128
        } else {
            dim2 as i128
        };
        if a == b {
            return Err(HoduError::InvalidArgument(String::from_str("diagonal dimensions must be different")));
        }
        if a < 0 || b < 0 || a >= nd as i128 || b >= nd as i128 {
            let mut m = String::from_str("diagonal dimensions out of range for ");
            append_decimal(&mut m, nd);
            m.append("D tensor");
            return Err(HoduError::InvalidArgument(m));
        }
        self.diagonal_impl(offset, a as usize, b as usize, ctx)
    }

    /// For a vector, the square matrix holding it on its `k`-th diagonal; for
    /// a matrix, its `k`-th diagonal as a vector.
    pub fn diag(&self, diagonal: i32, ctx: &mut Engine) -> (r: Result<Tensor, HoduError>)
        requires
            self.wf(),
            old(ctx).has_ids(),
        ensures
            self.shape().len() == 1 ==> embed_outcome(old(ctx), final(ctx), *self, diagonal, r),
            self.shape().len() == 2 ==> extract_outcome(old(ctx), final(ctx), *self, diagonal, 0, 1, r),
            self.shape().len() != 1 && self.shape().len() != 2 ==> r is Err && r->Err_0 is InvalidArgument
                && r->Err_0->InvalidArgument_0@ == "diag requires 1D or 2D tensor"@ && unchanged(
                old(ctx),
                final(ctx),
            ),
    {
        let nd = self.layout.shape.len();
        if nd == 1 {
            self.diag_1d_to_2d(diagonal, ctx)
        } else if nd == 2 {
            self.diagonal_impl(diagonal, 0, 1, ctx)
        } else {
            Err(HoduError::InvalidArgument(String::from_str("diag requires 1D or 2D tensor")))
        }
    }
}

} // verus!
