//! Bitwise operations of the tensor façade. They take integer element types
//! only and never record gradients.

use crate::be_cpu::{self, integer_only_msg, scalar_bits};
use crate::dtype::is_integer_dtype;
use crate::elem::{binary_bits, not_bits};
use crate::error::HoduError;
use crate::kernel::{binary_kernel_op, mangle, scalar_kernel_op, KernelId, KernelOp};
use crate::layout::{
    broadcast_compatible, broadcast_shape, broadcast_shapes, check_shape_fits, expand_layout,
    expanded_strides, lemma_broadcast_expands, shape_fits, shape_size, strided_index, Layout,
};
use crate::metadata::{binary_metadata, binary_metadata_view, unary_metadata, unary_metadata_view};
use crate::ops::{validate_dtype_for_op, BitwiseBinaryOp, BitwiseUnaryOp, BitwiseUnaryScalarOp, Op, OpParams};
use crate::tensor::{
    backend_of, contiguous_view, emit, emitted, queued, unchanged, Device, Engine, KernelLaunch, Tensor,
};
use vstd::prelude::*;

verus! {

/// Storage position of the `i`-th element of `l` expanded to shape `t`.
pub open spec fn expanded_position(l: Layout, t: Seq<usize>, i: nat) -> nat {
    (l.offset + strided_index(i, t, expanded_strides(l.shape@, l.strides@, t))) as nat
}

/// The host runs the operation now: the engine executes and every input
/// holds host storage.
pub open spec fn runs_on_host(ctx: &Engine, inputs: Seq<Tensor>) -> bool {
    &&& !ctx.capturing
    &&& forall|k: int| 0 <= k < inputs.len() ==> (#[trigger] inputs[k]).storage is Some
    &&& forall|k: int| 0 <= k < inputs.len() ==> (#[trigger] inputs[k]).device == Device::Cpu
}

/// When a binary bitwise operation succeeds.
pub open spec fn binary_valid(lhs: Tensor, rhs: Tensor) -> bool {
    &&& lhs.device == rhs.device
    &&& lhs.dtype == rhs.dtype
    &&& is_integer_dtype(lhs.dtype)
    &&& broadcast_compatible(lhs.shape(), rhs.shape())
    &&& shape_fits(broadcast_shape(lhs.shape(), rhs.shape()))
}

/// The outcome of a binary bitwise operation: which error, or a tensor of the
/// broadcast shape whose elements combine the broadcast operands.
pub open spec fn binary_outcome(
    old_ctx: &Engine,
    new_ctx: &Engine,
    lhs: Tensor,
    rhs: Tensor,
    op: BitwiseBinaryOp,
    r: Result<Tensor, HoduError>,
) -> bool {
    let t = broadcast_shape(lhs.shape(), rhs.shape());
    &&& r is Ok <==> binary_valid(lhs, rhs)
    &&& r is Err ==> unchanged(old_ctx, new_ctx) && if lhs.device != rhs.device || lhs.dtype
        != rhs.dtype {
        r->Err_0 is InvalidArgument
    } else if !is_integer_dtype(lhs.dtype) {
        r->Err_0 is BackendError && r->Err_0->BackendError_0@ == integer_only_msg()
    } else {
        r->Err_0 is InvalidArgument
    }
    &&& r is Ok ==> {
        let out = r->Ok_0;
        &&& out.wf()
        &&& out.layout@ == contiguous_view(t)
        &&& out.dtype == lhs.dtype
        &&& out.device == lhs.device
        &&& !out.requires_grad
        &&& emitted(
            old_ctx,
            new_ctx,
            Op::BitwiseBinary(op),
            OpParams::NoParams,
            seq![lhs.id, rhs.id],
            seq![
                crate::layout::LayoutView {
                    shape: t,
                    strides: expanded_strides(lhs.shape(), lhs.layout.strides@, t),
                    offset: lhs.layout.offset,
                },
                crate::layout::LayoutView {
                    shape: t,
                    strides: expanded_strides(rhs.shape(), rhs.layout.strides@, t),
                    offset: rhs.layout.offset,
                },
            ],
            &out,
            !old_ctx.capturing && !runs_on_host(old_ctx, seq![lhs, rhs]),
        )
        &&& runs_on_host(old_ctx, seq![lhs, rhs]) ==> out.storage is Some && forall|i: int|
            0 <= i < shape_size(t) ==> #[trigger] out.elem(i as nat) == binary_bits(
                op,
                lhs.dtype,
                lhs.storage->Some_0.at(expanded_position(lhs.layout, t, i as nat)),
                rhs.storage->Some_0.at(expanded_position(rhs.layout, t, i as nat)),
            )
        &&& !old_ctx.capturing && !runs_on_host(old_ctx, seq![lhs, rhs]) ==> queued(
            new_ctx,
            KernelId { backend: backend_of(lhs.device), op: binary_kernel_op(op), dtype: lhs.dtype },
            binary_metadata_view(
                crate::layout::LayoutView {
                    shape: t,
                    strides: expanded_strides(lhs.shape(), lhs.layout.strides@, t),
                    offset: lhs.layout.offset,
                },
                crate::layout::LayoutView {
                    shape: t,
                    strides: expanded_strides(rhs.shape(), rhs.layout.strides@, t),
                    offset: rhs.layout.offset,
                },
                contiguous_view(t),
            ),
            None,
        )
    }
}

/// The outcome of a unary bitwise operation or scalar shift whose element
/// result is `f`: which error, or a tensor of the input's shape.
pub open spec fn unary_outcome(
    old_ctx: &Engine,
    new_ctx: &Engine,
    x: Tensor,
    op: Op,
    params: OpParams,
    kop: KernelOp,
    scalar: Option<u32>,
    err_msg: Seq<char>,
    f: spec_fn(u64) -> u64,
    r: Result<Tensor, HoduError>,
) -> bool {
    &&& r is Ok <==> is_integer_dtype(x.dtype)
    &&& r is Err ==> unchanged(old_ctx, new_ctx) && r->Err_0 is BackendError
        && r->Err_0->BackendError_0@ == err_msg
    &&& r is Ok ==> {
        let out = r->Ok_0;
        &&& out.wf()
        &&& out.layout@ == contiguous_view(x.shape())
        &&& out.dtype == x.dtype
        &&& out.device == x.device
        &&& !out.requires_grad
        &&& emitted(
            old_ctx,
            new_ctx,
            op,
            params,
            seq![x.id],
            seq![x.layout@],
            &out,
            !old_ctx.capturing && !runs_on_host(old_ctx, seq![x]),
        )
        &&& runs_on_host(old_ctx, seq![x]) ==> out.storage is Some && forall|i: int|
            0 <= i < x.layout.size() ==> #[trigger] out.elem(i as nat) == f(x.elem(i as nat))
        &&& !old_ctx.capturing && !runs_on_host(old_ctx, seq![x]) ==> queued(
            new_ctx,
            KernelId { backend: backend_of(x.device), op: kop, dtype: x.dtype },
            unary_metadata_view(x.layout@, contiguous_view(x.shape())),
            scalar,
        )
    }
}

pub fn host_ready(ctx: &Engine, x: &Tensor) -> (r: bool)
    ensures
        r == runs_on_host(ctx, seq![*x]),
{
    let r = !ctx.capturing && x.storage.is_some() && x.device == Device::Cpu;
    proof {
        if !r && !ctx.capturing {
            let s = seq![*x];
            assert(s[0] == *x);
        }
    }
    r
}

fn host_ready2(ctx: &Engine, x: &Tensor, y: &Tensor) -> (r: bool)
    ensures
        r == runs_on_host(ctx, seq![*x, *y]),
{
    let r = !ctx.capturing && x.storage.is_some() && x.device == Device::Cpu && y.storage.is_some()
        && y.device == Device::Cpu;
    proof {
        let s = seq![*x, *y];
        assert(s[0] == *x && s[1] == *y);
    }
    r
}

impl Tensor {
    fn bitwise_binary(&self, rhs: &Tensor, op: BitwiseBinaryOp, ctx: &mut Engine) -> (r: Result<
        Tensor,
        HoduError,
    >)
        requires
            self.wf(),
            rhs.wf(),
            old(ctx).has_ids(),
        ensures
            binary_outcome(old(ctx), final(ctx), *self, *rhs, op, r),
    {
        if self.device != rhs.device {
            return Err(HoduError::InvalidArgument(String::from_str("operands are on different devices")));
        }
        if self.dtype != rhs.dtype {
            return Err(HoduError::InvalidArgument(String::from_str("operands have different dtypes")));
        }
        let bop = Op::BitwiseBinary(op);
        if !validate_dtype_for_op(self.dtype, bop) {
            return Err(be_cpu::integer_only_error());
        }
        let t = match broadcast_shapes(&self.layout.shape, &rhs.layout.shape) {
            Some(t) => t,
            None => {
                return Err(HoduError::InvalidArgument(String::from_str("shapes cannot be broadcast")));
            },
        };
        if !check_shape_fits(&t) {
            return Err(HoduError::InvalidArgument(String::from_str("broadcast shape is too large")));
        }
        proof {
            lemma_broadcast_expands(self.layout.shape@, rhs.layout.shape@);
        }
        let lb = expand_layout(&self.layout, &t);
        let rb = expand_layout(&rhs.layout, &t);
        let out_layout = Layout::from_shape(&t);
        let ids = vec![self.id, rhs.id];
        let ghost views = seq![lb@, rb@];
        if host_ready2(ctx, self, rhs) {
            let ls = self.storage.as_ref().unwrap();
            let rs = rhs.storage.as_ref().unwrap();
            let st = match be_cpu::call_ops_bitwise_binary(ls, rs, &lb, &rb, bop) {
                Ok(st) => st,
                Err(e) => {
                    return Err(e);
                },
            };
            proof {
                crate::layout::lemma_contiguous_reach(t@);
                assert forall|i: int| 0 <= i < shape_size(t@) implies #[trigger] out_layout.position(i as nat)
                    == i by {
                    crate::layout::lemma_contiguous_index(t@, i as nat);
                }
            }
            let layouts = vec![lb, rb];
            assert(layouts@.map_values(|l: Layout| l@) =~= views);
            let out = emit(ctx, bop, OpParams::NoParams, ids, layouts, out_layout, self.dtype, self.device, false, Some(st), None);
            Ok(out)
        } else if ctx.capturing {
            let layouts = vec![lb, rb];
            assert(layouts@.map_values(|l: Layout| l@) =~= views);
            let out = emit(ctx, bop, OpParams::NoParams, ids, layouts, out_layout, self.dtype, self.device, false, None, None);
            Ok(out)
        } else {
            let kernel = KernelId { backend: self.device.backend(), op: KernelOp::from_binary(op), dtype: self.dtype };
            let metadata = binary_metadata(&lb, &rb, &out_layout);
            let launch = KernelLaunch { kernel, name: mangle(kernel), metadata, inputs: Vec::new(), output: 0, scalar: None, params: OpParams::NoParams };
            let layouts = vec![lb, rb];
            assert(layouts@.map_values(|l: Layout| l@) =~= views);
            let out = emit(ctx, bop, OpParams::NoParams, ids, layouts, out_layout, self.dtype, self.device, false, None, Some(launch));
            Ok(out)
        }
    }

    fn bitwise_unary_like(
        &self,
        op: Op,
        params: OpParams,
        kop: KernelOp,
        shift: u32,
        ctx: &mut Engine,
    ) -> (r: Result<Tensor, HoduError>)
        requires
            self.wf(),
            old(ctx).has_ids(),
            op is BitwiseUnary || op is BitwiseUnaryScalar,
            op is BitwiseUnary ==> kop == KernelOp::BitwiseNot,
            op is BitwiseUnaryScalar ==> kop == scalar_kernel_op(op->BitwiseUnaryScalar_0),
        ensures
            op is BitwiseUnary ==> unary_outcome(
                old(ctx),
                final(ctx),
                *self,
                op,
                params,
                kop,
                None,
                integer_only_msg(),
                |v: u64| not_bits(self.dtype, v),
                r,
            ),
            op is BitwiseUnaryScalar ==> unary_outcome(
                old(ctx),
                final(ctx),
                *self,
                op,
                params,
                kop,
                Some(shift),
                be_cpu::scalar_integer_only_msg(),
                |v: u64| scalar_bits(op->BitwiseUnaryScalar_0, self.dtype, v, shift),
                r,
            ),
    {
        if !validate_dtype_for_op(self.dtype, op) {
            return match op {
                Op::BitwiseUnary(_) => Err(be_cpu::integer_only_error()),
                _ => Err(be_cpu::scalar_integer_only_error()),
            };
        }
        let out_layout = Layout::from_shape(&self.layout.shape);
        proof {
            crate::layout::lemma_contiguous_reach(self.layout.shape@);
            assert forall|i: int| 0 <= i < self.layout.size() implies #[trigger] out_layout.position(
                i as nat,
            ) == i by {
                crate::layout::lemma_contiguous_index(self.layout.shape@, i as nat);
            }
        }
        let ids = vec![self.id];
        assert(ids@ =~= seq![self.id]);
        let ghost views = seq![self.layout@];
        let layouts = vec![self.layout.copy()];
        assert(layouts@.map_values(|l: Layout| l@) =~= views);
        if host_ready(ctx, self) {
            assert(seq![*self][0] == *self);
            let st = self.storage.as_ref().unwrap();
            let res = match op {
                Op::BitwiseUnary(_) => be_cpu::call_ops_bitwise_unary(st, &self.layout, op),
                _ => be_cpu::call_ops_bitwise_unary_scalar(st, &self.layout, shift, op),
            };
            let out_st = match res {
                Ok(o) => o,
                Err(e) => {
                    return Err(e);
                },
            };
            let out = emit(ctx, op, params, ids, layouts, out_layout, self.dtype, self.device, false, Some(out_st), None);
            Ok(out)
        } else if ctx.capturing {
            let out = emit(ctx, op, params, ids, layouts, out_layout, self.dtype, self.device, false, None, None);
            Ok(out)
        } else {
            let kernel = KernelId { backend: self.device.backend(), op: kop, dtype: self.dtype };
            let metadata = unary_metadata(&self.layout, &out_layout);
            let scalar = match op {
                Op::BitwiseUnaryScalar(_) => Some(shift),
                _ => None,
            };
            let launch = KernelLaunch { kernel, name: mangle(kernel), metadata, inputs: Vec::new(), output: 0, scalar, params: OpParams::NoParams };
            Ok(emit(ctx, op, params, ids, layouts, out_layout, self.dtype, self.device, false, None, Some(launch)))
        }
    }

    /// Element-wise left shift by the broadcast right operand.
    pub fn shl(&self, rhs: &Tensor, ctx: &mut Engine) -> (r: Result<Tensor, HoduError>)
        requires
            self.wf(),
            rhs.wf(),
            old(ctx).has_ids(),
        ensures
            binary_outcome(old(ctx), final(ctx), *self, *rhs, BitwiseBinaryOp::Shl, r),
    {
        self.bitwise_binary(rhs, BitwiseBinaryOp::Shl, ctx)
    }

    /// Element-wise right shift by the broadcast right operand.
    pub fn shr(&self, rhs: &Tensor, ctx: &mut Engine) -> (r: Result<Tensor, HoduError>)
        requires
            self.wf(),
            rhs.wf(),
            old(ctx).has_ids(),
        ensures
            binary_outcome(old(ctx), final(ctx), *self, *rhs, BitwiseBinaryOp::Shr, r),
    {
        self.bitwise_binary(rhs, BitwiseBinaryOp::Shr, ctx)
    }

    /// Element-wise and.
    pub fn bitwise_and(&self, rhs: &Tensor, ctx: &mut Engine) -> (r: Result<Tensor, HoduError>)
        requires
            self.wf(),
            rhs.wf(),
            old(ctx).has_ids(),
        ensures
            binary_outcome(old(ctx), final(ctx), *self, *rhs, BitwiseBinaryOp::And, r),
    {
        self.bitwise_binary(rhs, BitwiseBinaryOp::And, ctx)
    }

    /// Element-wise or.
    pub fn bitwise_or(&self, rhs: &Tensor, ctx: &mut Engine) -> (r: Result<Tensor, HoduError>)
        requires
            self.wf(),
            rhs.wf(),
            old(ctx).has_ids(),
        ensures
            binary_outcome(old(ctx), final(ctx), *self, *rhs, BitwiseBinaryOp::Or, r),
    {
        self.bitwise_binary(rhs, BitwiseBinaryOp::Or, ctx)
    }

    /// Element-wise exclusive or.
    pub fn bitwise_xor(&self, rhs: &Tensor, ctx: &mut Engine) -> (r: Result<Tensor, HoduError>)
        requires
            self.wf(),
            rhs.wf(),
            old(ctx).has_ids(),
        ensures
            binary_outcome(old(ctx), final(ctx), *self, *rhs, BitwiseBinaryOp::Xor, r),
    {
        self.bitwise_binary(rhs, BitwiseBinaryOp::Xor, ctx)
    }

    /// Element-wise complement.
    pub fn bitwise_not(&self, ctx: &mut Engine) -> (r: Result<Tensor, HoduError>)
        requires
            self.wf(),
            old(ctx).has_ids(),
        ensures
            unary_outcome(
                old(ctx),
                final(ctx),
                *self,
                Op::BitwiseUnary(BitwiseUnaryOp::Not),
                OpParams::NoParams,
                KernelOp::BitwiseNot,
                None,
                integer_only_msg(),
                |v: u64| not_bits(self.dtype, v),
                r,
            ),
    {
        self.bitwise_unary_like(
            Op::BitwiseUnary(BitwiseUnaryOp::Not),
            OpParams::NoParams,
            KernelOp::BitwiseNot,
            0,
            ctx,
        )
    }

    /// Every element shifted left by `shift`.
    pub fn shl_scalar(&self, shift: u32, ctx: &mut Engine) -> (r: Result<Tensor, HoduError>)
        requires
            self.wf(),
            old(ctx).has_ids(),
        ensures
            unary_outcome(
                old(ctx),
                final(ctx),
                *self,
                Op::BitwiseUnaryScalar(BitwiseUnaryScalarOp::ShlScalar),
                OpParams::Shift(shift),
                KernelOp::ShlScalar,
                Some(shift),
                be_cpu::scalar_integer_only_msg(),
                |v: u64| scalar_bits(BitwiseUnaryScalarOp::ShlScalar, self.dtype, v, shift),
                r,
            ),
    {
        self.bitwise_unary_like(
            Op::BitwiseUnaryScalar(BitwiseUnaryScalarOp::ShlScalar),
            OpParams::Shift(shift),
            KernelOp::ShlScalar,
            shift,
            ctx,
        )
    }

    /// Every element shifted right by `shift`.
    pub fn shr_scalar(&self, shift: u32, ctx: &mut Engine) -> (r: Result<Tensor, HoduError>)
        requires
            self.wf(),
            old(ctx).has_ids(),
        ensures
            unary_outcome(
                old(ctx),
                final(ctx),
                *self,
                Op::BitwiseUnaryScalar(BitwiseUnaryScalarOp::ShrScalar),
                OpParams::Shift(shift),
                KernelOp::ShrScalar,
                Some(shift),
                be_cpu::scalar_integer_only_msg(),
                |v: u64| scalar_bits(BitwiseUnaryScalarOp::ShrScalar, self.dtype, v, shift),
                r,
            ),
    {
        self.bitwise_unary_like(
            Op::BitwiseUnaryScalar(BitwiseUnaryScalarOp::ShrScalar),
            OpParams::Shift(shift),
            KernelOp::ShrScalar,
            shift,
            ctx,
        )
    }
}

} // verus!
