//! Linear-algebra operations of the tensor façade: determinant, inverse,
//! trace and solve on batches of square matrices, and the triangular masks
//! `tril` and `triu`.
//!
//! This library has no primitive ops (`arange`, `ge`, `mul`, `scatter`,
//! `gather`, ...) to build the masks from. Each mask is therefore one
//! operation of its own: one snapshot node when recorded, a computation of
//! every element on the host, and otherwise one launch of a dedicated
//! kernel (`hodu_<backend>_tril_<dtype>`) that the device runtime provides.

use crate::device::{append_decimal, decimal_digits};
use crate::dtype::is_float_dtype;
use crate::error::HoduError;
use crate::kernel::{linalg_kernel_op, mangle, KernelId, KernelOp};
use crate::layout::{check_shape_fits, shape_fits, Layout};
use crate::metadata::{unary_metadata, unary_metadata_view};
use crate::ops::{validate_dtype_for_op, validate_requires_grad_for_op, CompositeOp, LinalgOp, Op, OpParams};
use crate::bitwise::runs_on_host;
use crate::layout::position_of;
use crate::be_cpu::CpuStorage;
use crate::tensor::{backend_of, contiguous_view, emit, emitted, queued, unchanged, Engine, KernelLaunch, Tensor};
use vstd::prelude::*;

verus! {

pub open spec fn float_only_msg() -> Seq<char> {
    "linear algebra operations only support floating-point types"@
}

pub open spec fn linalg_name(op: LinalgOp) -> Seq<char> {
    match op {
        LinalgOp::Det => "det"@,
        LinalgOp::Inv => "inv"@,
        LinalgOp::Trace => "trace"@,
        LinalgOp::Matmul => "matmul"@,
    }
}

fn linalg_name_exec(op: LinalgOp) -> (r: &'static str)
    ensures
        r@ == linalg_name(op),
{
    match op {
        LinalgOp::Det => "det",
        LinalgOp::Inv => "inv",
        LinalgOp::Trace => "trace",
        LinalgOp::Matmul => "matmul",
    }
}

/// A batch of square matrices: rank at least 2, last two dimensions equal.
pub open spec fn is_square_batch(s: Seq<usize>) -> bool {
    s.len() >= 2 && s[s.len() - 1] == s[s.len() - 2]
}

/// Shape of a per-matrix scalar result: the batch dimensions, or `[1]` for
/// a single matrix.
pub open spec fn batch_shape(s: Seq<usize>) -> Seq<usize> {
    if s.len() == 2 {
        seq![1usize]
    } else {
        s.subrange(0, s.len() - 2)
    }
}

/// Output shape of a linear-algebra op on a batch of square matrices.
pub open spec fn linalg_out_shape(op: LinalgOp, s: Seq<usize>) -> Seq<usize> {
    match op {
        LinalgOp::Inv => s,
        _ => batch_shape(s),
    }
}

/// The outcome of `det`, `inv` or `trace`: which error, or a tensor of the
/// output shape that is recorded, or whose kernel launch is queued.
pub open spec fn linalg_outcome(
    old_ctx: &Engine,
    new_ctx: &Engine,
    x: Tensor,
    op: LinalgOp,
    r: Result<Tensor, HoduError>,
) -> bool {
    let out_shape = linalg_out_shape(op, x.shape());
    &&& r is Ok <==> (is_float_dtype(x.dtype) && is_square_batch(x.shape()) && shape_fits(out_shape))
    &&& r is Err ==> unchanged(old_ctx, new_ctx) && if !is_float_dtype(x.dtype) {
        r->Err_0 is BackendError && r->Err_0->BackendError_0@ == float_only_msg()
    } else if x.shape().len() < 2 {
        r->Err_0 is InvalidArgument && r->Err_0->InvalidArgument_0@ == linalg_name(op)
            + " requires at least 2D tensor"@
    } else if !is_square_batch(x.shape()) {
        r->Err_0 is InvalidArgument && r->Err_0->InvalidArgument_0@ == linalg_name(op)
            + " requires square matrix, got "@ + decimal_digits(x.shape()[x.shape().len() - 2] as nat)
            + "×"@ + decimal_digits(x.shape()[x.shape().len() - 1] as nat)
    } else {
        r->Err_0 is InvalidArgument
    }
    &&& r is Ok ==> {
        let out = r->Ok_0;
        &&& out.wf()
        &&& out.layout@ == contiguous_view(out_shape)
        &&& out.dtype == x.dtype
        &&& out.device == x.device
        &&& out.requires_grad == x.requires_grad
        &&& out.storage is None
        &&& emitted(
            old_ctx,
            new_ctx,
            Op::Linalg(op),
            OpParams::NoParams,
            seq![x.id],
            seq![x.layout@],
            &out,
            !old_ctx.capturing,
        )
        &&& !old_ctx.capturing ==> queued(
            new_ctx,
            KernelId { backend: backend_of(x.device), op: linalg_kernel_op(op), dtype: x.dtype },
            unary_metadata_view(x.layout@, contiguous_view(out_shape)),
            None,
        )
    }
}

fn last_two_equal(s: &Vec<usize>) -> (r: bool)
    ensures
        r == is_square_batch(s@),
{
    let n = s.len();
    n >= 2 && s[n - 1] == s[n - 2]
}

fn linalg_shape(op: LinalgOp, s: &Vec<usize>) -> (r: Vec<usize>)
    requires
        s@.len() >= 2,
    ensures
        r@ == linalg_out_shape(op, s@),
{
    match op {
        LinalgOp::Inv => s.clone(),
        _ => {
            let n = s.len();
            if n == 2 {
                vec![1usize]
            } else {
                let mut out: Vec<usize> = Vec::new();
                let mut i: usize = 0;
                while i < n - 2
                    invariant
                        n == s@.len(),
                        n >= 2,
                        i <= n - 2,
                        out@ == s@.subrange(0, i as int),
                    decreases n - 2 - i,
                {
                    out.push(s[i]);
                    i = i + 1;
                    assert(out@ =~= s@.subrange(0, i as int));
                }
                out
            }
        },
    }
}

impl Tensor {
    fn linalg_square(&self, op: LinalgOp, ctx: &mut Engine) -> (r: Result<Tensor, HoduError>)
        requires
            self.wf(),
            old(ctx).has_ids(),
        ensures
            linalg_outcome(old(ctx), final(ctx), *self, op, r),
    {
        let lop = Op::Linalg(op);
        if !validate_dtype_for_op(self.dtype, lop) {
            return Err(
                HoduError::BackendError(
                    String::from_str("linear algebra operations only support floating-point types"),
                ),
            );
        }
        let nd = self.layout.shape.len();
        if nd < 2 {
            let mut m = String::from_str(linalg_name_exec(op));
            m.append(" requires at least 2D tensor");
            return Err(HoduError::InvalidArgument(m));
        }
        if !last_two_equal(&self.layout.shape) {
            let mut m = String::from_str(linalg_name_exec(op));
            m.append(" requires square matrix, got ");
            append_decimal(&mut m, self.layout.shape[nd - 2]);
            m.append("×");
            append_decimal(&mut m, self.layout.shape[nd - 1]);
            return Err(HoduError::InvalidArgument(m));
        }
        let out_shape = linalg_shape(op, &self.layout.shape);
        if !check_shape_fits(&out_shape) {
            return Err(HoduError::InvalidArgument(String::from_str("output shape is too large")));
        }
        let out_layout = Layout::from_shape(&out_shape);
        let ids = vec![self.id];
        assert(ids@ =~= seq![self.id]);
        let ghost views = seq![self.layout@];
        let layouts = vec![self.layout.copy()];
        assert(layouts@.map_values(|l: Layout| l@) =~= views);
        let requires_grad = self.requires_grad && validate_requires_grad_for_op(lop);
        if ctx.capturing {
            Ok(emit(ctx, lop, OpParams::NoParams, ids, layouts, out_layout, self.dtype, self.device, requires_grad, None, None))
        } else {
            let kernel = KernelId { backend: self.device.backend(), op: KernelOp::from_linalg(op), dtype: self.dtype };
            let metadata = unary_metadata(&self.layout, &out_layout);
            let launch = KernelLaunch { kernel, name: mangle(kernel), metadata, inputs: Vec::new(), output: 0, scalar: None, params: OpParams::NoParams };
            Ok(emit(ctx, lop, OpParams::NoParams, ids, layouts, out_layout, self.dtype, self.device, requires_grad, None, Some(launch)))
        }
    }

    /// Determinant of each matrix of a batch `[..., N, N]`; the output has the
    /// batch shape, `[1]` for a single matrix.
    pub fn det(&self, ctx: &mut Engine) -> (r: Result<Tensor, HoduError>)
        requires
            self.wf(),
            old(ctx).has_ids(),
        ensures
            linalg_outcome(old(ctx), final(ctx), *self, LinalgOp::Det, r),
    {
        self.linalg_square(LinalgOp::Det, ctx)
    }

    /// Inverse of each matrix of a batch `[..., N, N]`; the output has the
    /// input's shape. Singular matrices give inf or nan elements, not an error.
    pub fn inv(&self, ctx: &mut Engine) -> (r: Result<Tensor, HoduError>)
        requires
            self.wf(),
            old(ctx).has_ids(),
        ensures
            linalg_outcome(old(ctx), final(ctx), *self, LinalgOp::Inv, r),
    {
        self.linalg_square(LinalgOp::Inv, ctx)
    }

    /// Sum of the diagonal of each matrix of a batch `[..., N, N]`; the output
    /// has the batch shape, `[1]` for a single matrix.
    pub fn trace(&self, ctx: &mut Engine) -> (r: Result<Tensor, HoduError>)
        requires
            self.wf(),
            old(ctx).has_ids(),
        ensures
            linalg_outcome(old(ctx), final(ctx), *self, LinalgOp::Trace, r),
    {
        self.linalg_square(LinalgOp::Trace, ctx)
    }
}

/// The right-hand side of `solve` against a batch `a` of `N × N` matrices:
/// a vector of length `N`, or matrices `[..., N, K]` with `a`'s batch dimensions.
pub open spec fn solve_rhs_ok(a: Seq<usize>, b: Seq<usize>) -> bool {
    let n = a[a.len() - 1];
    ||| b.len() == 1 && b[0] == n
    ||| b.len() == a.len() && b.subrange(0, b.len() - 2) == a.subrange(0, a.len() - 2) && b[b.len()
        - 2] == n
}

/// Shape of the solution: `[..., N]` for a vector, the right-hand side's shape otherwise.
pub open spec fn solve_out_shape(a: Seq<usize>, b: Seq<usize>) -> Seq<usize> {
    if b.len() == 1 {
        a.subrange(0, a.len() - 1)
    } else {
        b
    }
}

fn solve_rhs_check(a: &Vec<usize>, b: &Vec<usize>) -> (r: bool)
    requires
        a@.len() >= 2,
    ensures
        r == solve_rhs_ok(a@, b@),
{
    let la = a.len();
    let lb = b.len();
    let n = a[la - 1];
    if lb == 1 {
        return b[0] == n;
    }
    if lb != la || b[lb - 2] != n {
        return false;
    }
    let mut i: usize = 0;
    while i < la - 2
        invariant
            la == a@.len(),
            lb == b@.len(),
            la == lb,
            la >= 2,
            i <= la - 2,
            b@.subrange(0, i as int) == a@.subrange(0, i as int),
        decreases la - 2 - i,
    {
        if a[i] != b[i] {
            assert(b@.subrange(0, lb - 2)[i as int] != a@.subrange(0, la - 2)[i as int]);
            return false;
        }
        i = i + 1;
        assert(b@.subrange(0, i as int) =~= a@.subrange(0, i as int));
    }
    assert(b@.subrange(0, lb - 2) =~= a@.subrange(0, la - 2));
    true
}

fn prefix(s: &Vec<usize>, k: usize) -> (r: Vec<usize>)
    requires
        k <= s@.len(),
    ensures
        r@ == s@.subrange(0, k as int),
{
    let mut out: Vec<usize> = Vec::new();
    let mut i: usize = 0;
    while i < k
        invariant
            k <= s@.len(),
            i <= k,
            out@ == s@.subrange(0, i as int),
        decreases k - i,
    {
        out.push(s[i]);
        i = i + 1;
        assert(out@ =~= s@.subrange(0, i as int));
    }
    out
}

impl Tensor {
    /// Solves `self · x = b` as `inv(self) · b`; a vector `b` is treated as a
    /// column. Both the inversion and the product are recorded, or queued.
    pub fn solve(&self, b: &Tensor, ctx: &mut Engine) -> (r: Result<Tensor, HoduError>)
        requires
            self.wf(),
            b.wf(),
            old(ctx).next_id < u64::MAX - 1,
        ensures
            r is Ok <==> (is_float_dtype(self.dtype) && is_square_batch(self.shape()) && b.dtype
                == self.dtype && b.device == self.device && solve_rhs_ok(self.shape(), b.shape())
                && shape_fits(solve_out_shape(self.shape(), b.shape()))),
            r is Err ==> unchanged(old(ctx), final(ctx)),
            !(is_float_dtype(self.dtype) && is_square_batch(self.shape())) ==> linalg_outcome(
                old(ctx),
                final(ctx),
                *self,
                LinalgOp::Inv,
                r,
            ),
            is_float_dtype(self.dtype) && is_square_batch(self.shape()) && r is Err ==> r->Err_0 is InvalidArgument,
            r is Ok ==> {
                let out = r->Ok_0;
                &&& out.wf()
                &&& out.layout@ == contiguous_view(solve_out_shape(self.shape(), b.shape()))
                &&& out.dtype == self.dtype
                &&& out.device == self.device
                &&& out.requires_grad == (self.requires_grad || b.requires_grad)
                &&& out.storage is None
                &&& out.id == old(ctx).next_id + 1
                &&& final(ctx).next_id == old(ctx).next_id + 2
                &&& old(ctx).capturing ==> final(ctx).nodes@.len() == old(ctx).nodes@.len() + 2
                    && final(ctx).nodes@.last().op == Op::Linalg(LinalgOp::Matmul)
                    && final(ctx).nodes@.last().inputs@ == seq![old(ctx).next_id, b.id]
                &&& !old(ctx).capturing ==> final(ctx).launches@.len() == old(ctx).launches@.len()
                    + 2 && queued(
                    final(ctx),
                    KernelId { backend: backend_of(self.device), op: KernelOp::Matmul, dtype: self.dtype },
                    unary_metadata_view(
                        contiguous_view(self.shape()),
                        contiguous_view(solve_out_shape(self.shape(), b.shape())),
                    ) + unary_metadata_view(
                        b.layout@,
                        contiguous_view(solve_out_shape(self.shape(), b.shape())),
                    ),
                    None,
                )
            },
    {
        if !self.dtype.is_float() || !last_two_equal(&self.layout.shape) {
            return self.linalg_square(LinalgOp::Inv, ctx);
        }
        if b.dtype != self.dtype || b.device != self.device {
            return Err(
                HoduError::InvalidArgument(String::from_str("solve operands must share dtype and device")),
            );
        }
        if !solve_rhs_check(&self.layout.shape, &b.layout.shape) {
            return Err(HoduError::InvalidArgument(String::from_str("right-hand side does not match")));
        }
        let out_shape = if b.layout.shape.len() == 1 {
            prefix(&self.layout.shape, self.layout.shape.len() - 1)
        } else {
            b.layout.shape.clone()
        };
        if !check_shape_fits(&out_shape) {
            return Err(HoduError::InvalidArgument(String::from_str("output shape is too large")));
        }
        let inv_a = match self.linalg_square(LinalgOp::Inv, ctx) {
            Ok(t) => t,
            Err(e) => {
                return Err(e);
            },
        };
        let out_layout = Layout::from_shape(&out_shape);
        let ids = vec![inv_a.id, b.id];
        assert(ids@ =~= seq![inv_a.id, b.id]);
        let layouts = vec![inv_a.layout.copy(), b.layout.copy()];
        let op = Op::Linalg(LinalgOp::Matmul);
        let requires_grad = self.requires_grad || b.requires_grad;
        if ctx.capturing {
            Ok(emit(ctx, op, OpParams::NoParams, ids, layouts, out_layout, self.dtype, self.device, requires_grad, None, None))
        } else {
            let kernel = KernelId { backend: self.device.backend(), op: KernelOp::Matmul, dtype: self.dtype };
            // Both operands' descriptors, the inverse's first.
            let mut metadata = unary_metadata(&inv_a.layout, &out_layout);
            let rhs_metadata = unary_metadata(&b.layout, &out_layout);
            crate::metadata::append_all(&mut metadata, &rhs_metadata);
            let launch = KernelLaunch { kernel, name: mangle(kernel), metadata, inputs: Vec::new(), output: 0, scalar: None, params: OpParams::NoParams };
            Ok(emit(ctx, op, OpParams::NoParams, ids, layouts, out_layout, self.dtype, self.device, requires_grad, None, Some(launch)))
        }
    }
}

/// Whether element `i`, in row-major order, of a batch of `[..., N, M]`
/// matrices lies on or below the `k`-th diagonal (`upper` false), or on or
/// above it (`upper` true).
pub open spec fn in_triangle(s: Seq<usize>, i: nat, k: i32, upper: bool) -> bool {
    let m = s[s.len() - 1] as nat;
    let n = s[s.len() - 2] as nat;
    let col = i % m;
    let row = (i / m) % n;
    if upper {
        col as int >= row as int + k as int
    } else {
        row as int + k as int >= col as int
    }
}

/// The outcome of `tril` (`upper` false) or `triu` (`upper` true).
pub open spec fn triangle_outcome(
    old_ctx: &Engine,
    new_ctx: &Engine,
    x: Tensor,
    k: i32,
    upper: bool,
    r: Result<Tensor, HoduError>,
) -> bool {
    &&& r is Ok <==> x.shape().len() >= 2
    &&& r is Err ==> unchanged(old_ctx, new_ctx) && r->Err_0 is InvalidArgument
        && r->Err_0->InvalidArgument_0@ == (if upper {
        "triu"@
    } else {
        "tril"@
    }) + " requires at least 2D tensor"@
    &&& r is Ok ==> {
        let out = r->Ok_0;
        &&& out.wf()
        &&& out.layout@ == contiguous_view(x.shape())
        &&& out.dtype == x.dtype
        &&& out.device == x.device
        &&& out.requires_grad == x.requires_grad
        &&& emitted(
            old_ctx,
            new_ctx,
            Op::Composite(
                if upper {
                    CompositeOp::Triu
                } else {
                    CompositeOp::Tril
                },
            ),
            OpParams::Diagonal(k),
            seq![x.id],
            seq![x.layout@],
            &out,
            !old_ctx.capturing && !runs_on_host(old_ctx, seq![x]),
        )
        &&& !old_ctx.capturing && !runs_on_host(old_ctx, seq![x]) ==> queued(
            new_ctx,
            KernelId {
                backend: backend_of(x.device),
                op: if upper {
                    KernelOp::Triu
                } else {
                    KernelOp::Tril
                },
                dtype: x.dtype,
            },
            unary_metadata_view(x.layout@, contiguous_view(x.shape())),
            None,
        )
        &&& runs_on_host(old_ctx, seq![x]) ==> out.storage is Some && forall|i: int|
            0 <= i < x.layout.size() ==> #[trigger] out.elem(i as nat) == if in_triangle(
                x.shape(),
                i as nat,
                k,
                upper,
            ) {
                x.elem(i as nat)
            } else {
                0
            }
    }
}

impl Tensor {
    fn triangle(&self, k: i32, upper: bool, ctx: &mut Engine) -> (r: Result<Tensor, HoduError>)
        requires
            self.wf(),
            old(ctx).has_ids(),
        ensures
            triangle_outcome(old(ctx), final(ctx), *self, k, upper, r),
    {
        let nd = self.layout.shape.len();
        if nd < 2 {
            let mut m = String::from_str(
                if upper {
                    "triu"
                } else {
                    "tril"
                },
            );
            m.append(" requires at least 2D tensor");
            return Err(HoduError::InvalidArgument(m));
        }
        let host = crate::bitwise::host_ready(ctx, self);
        let out_layout = Layout::from_shape(&self.layout.shape);
        proof {
            crate::layout::lemma_contiguous_reach(self.layout.shape@);
            assert forall|i: int| 0 <= i < self.layout.size() implies #[trigger] out_layout.position(
                i as nat,
            ) == i by {
                crate::layout::lemma_contiguous_index(self.layout.shape@, i as nat);
            }
        }
        let ids = vec![self.id];
        assert(ids@ =~= seq![self.id]);
        let ghost views = seq![self.layout@];
        let layouts = vec![self.layout.copy()];
        assert(layouts@.map_values(|l: Layout| l@) =~= views);
        let op = Op::Composite(
            if upper {
                CompositeOp::Triu
            } else {
                CompositeOp::Tril
            },
        );
        if ctx.capturing {
            return Ok(emit(ctx, op, OpParams::Diagonal(k), ids, layouts, out_layout, self.dtype, self.device, self.requires_grad, None, None));
        }
        if !host {
            let kernel = KernelId {
                backend: self.device.backend(),
                op: if upper {
                    KernelOp::Triu
                } else {
                    KernelOp::Tril
                },
                dtype: self.dtype,
            };
            let metadata = unary_metadata(&self.layout, &out_layout);
            let launch = KernelLaunch { kernel, name: mangle(kernel), metadata, inputs: Vec::new(), output: 0, scalar: None, params: OpParams::NoParams };
            return Ok(emit(ctx, op, OpParams::Diagonal(k), ids, layouts, out_layout, self.dtype, self.device, self.requires_grad, None, Some(launch)));
        }
        assert(seq![*self][0] == *self);
        let st = self.storage.as_ref().unwrap();
        let size = self.layout.size_exec();
        let m = self.layout.shape[nd - 1];
        let n = self.layout.shape[nd - 2];
        proof {
            crate::layout::lemma_size_positive(self.layout.shape@);
        }
        let mut out: Vec<u64> = Vec::new();
        let mut i: usize = 0;
        while i < size
            invariant
                i <= size,
                size == self.layout.size(),
                self.wf(),
                self.storage == Some(*st),
                nd == self.shape().len(),
                nd >= 2,
                m == self.shape()[nd - 1],
                n == self.shape()[nd - 2],
                size > 0 ==> m > 0 && n > 0,
                out@.len() == i,
                forall|j: int| 0 <= j < i ==> #[trigger] out@[j] <= crate::elem::dtype_mask(self.dtype),
                forall|j: int|
                    0 <= j < i ==> #[trigger] out@[j] == if in_triangle(self.shape(), j as nat, k, upper) {
                        self.elem(j as nat)
                    } else {
                        0
                    },
            decreases size - i,
        {
            let col = i % m;
            let row = (i / m) % n;
            let keep = if upper {
                col as i128 >= row as i128 + k as i128
            } else {
                row as i128 + k as i128 >= col as i128
            };
            assert(col as int <= usize::MAX && row as int <= usize::MAX);
            let v = if keep {
                let p = position_of(&self.layout, i);
                proof {
                    crate::layout::lemma_index_within_reach(
                        i as nat,
                        self.layout.shape@,
                        self.layout.strides@,
                    );
                }
                st.data[p]
            } else {
                0
            };
            out.push(v);
            i = i + 1;
        }
        let res = CpuStorage { dtype: self.dtype, data: out };
        Ok(emit(ctx, op, OpParams::Diagonal(k), ids, layouts, out_layout, self.dtype, self.device, self.requires_grad, Some(res), None))
    }

    /// Lower triangle of each matrix of a batch `[..., N, M]`: elements with
    /// `row + k >= col` are kept, the others are 0.
    pub fn tril(&self, diagonal: i32, ctx: &mut Engine) -> (r: Result<Tensor, HoduError>)
        requires
            self.wf(),
            old(ctx).has_ids(),
        ensures
            triangle_outcome(old(ctx), final(ctx), *self, diagonal, false, r),
    {
        self.triangle(diagonal, false, ctx)
    }

    /// Upper triangle of each matrix of a batch `[..., N, M]`: elements with
    /// `col >= row + k` are kept, the others are 0.
    pub fn triu(&self, diagonal: i32, ctx: &mut Engine) -> (r: Result<Tensor, HoduError>)
        requires
            self.wf(),
            old(ctx).has_ids(),
        ensures
            triangle_outcome(old(ctx), final(ctx), *self, diagonal, true, r),
    {
        self.triangle(diagonal, true, ctx)
    }
}

} // verus!
