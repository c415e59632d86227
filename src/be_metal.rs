//! Command-encoder backend: validates a bitwise dispatch and describes what
//! an encoder runtime encodes: the pipeline name, the buffers bound in a
//! fixed order with their usage, and a linear split of the elements into
//! thread groups.

use crate::be_cpu::{expects_error, expects_msg, integer_only_error, integer_only_msg, scalar_integer_only_error, scalar_integer_only_msg};
use crate::dtype::{is_integer_dtype, DType};
use crate::error::HoduError;
use crate::kernel::{binary_kernel_op, mangle, mangle_of, scalar_kernel_op, Backend, KernelId, KernelOp};
use crate::layout::Layout;
use crate::metadata::{binary_metadata, binary_metadata_of, unary_metadata, unary_metadata_of};
use crate::ops::Op;
use vstd::prelude::*;

verus! {

/// A buffer of `len` elements of one type on the encoder device.
#[derive(Clone, Copy, Debug, PartialEq, Eq, Structural)]
pub struct MetalStorage {
    pub dtype: DType,
    pub len: usize,
}

/// What a bound buffer holds.
#[derive(Clone, Copy, Debug, PartialEq, Eq, Structural)]
pub enum Slot {
    Lhs,
    Rhs,
    Input,
    Output,
    Metadata,
    Shift,
}

/// How the kernel uses a bound buffer.
#[derive(Clone, Copy, Debug, PartialEq, Eq, Structural)]
pub enum Usage {
    Read,
    Write,
    Constant,
}

#[derive(Clone, Copy, Debug, PartialEq, Eq, Structural)]
pub struct Binding {
    pub slot: Slot,
    pub usage: Usage,
}

/// What the encoder runtime encodes for one dispatch.
#[derive(Clone, Debug)]
pub struct MetalLaunch {
    pub kernel: KernelId,
    pub name: String,
    pub metadata: Vec<usize>,
    pub output: MetalStorage,
    pub bindings: Vec<Binding>,
    pub thread_group_count: usize,
    pub thread_group_size: usize,
    pub shift: Option<u32>,
}

/// Threads per group: the pipeline's limit, at most the element count, at least 1.
pub open spec fn group_size(max_threads: nat, n: nat) -> nat {
    let w = if max_threads < n {
        max_threads
    } else {
        n
    };
    if w == 0 {
        1
    } else {
        w
    }
}

/// Groups covering `n` elements.
pub open spec fn group_count(max_threads: nat, n: nat) -> nat {
    let w = group_size(max_threads, n);
    ((n + w - 1) / (w as int)) as nat
}

/// Splits `n` elements into thread groups of at most `max_threads` threads.
pub fn linear_split(max_threads: usize, n: usize) -> (r: (usize, usize))
    ensures
        r.1 as nat == group_size(max_threads as nat, n as nat),
        r.0 as nat == group_count(max_threads as nat, n as nat),
{
    let w0 = if max_threads < n {
        max_threads
    } else {
        n
    };
    let w = if w0 == 0 {
        1
    } else {
        w0
    };
    let count = if n == 0 {
        0
    } else {
        (n - 1) / w + 1
    };
    proof {
        if n > 0 {
            assert(((n - 1) as nat) / (w as nat) + 1 == ((n + w - 1) as nat) / (w as nat)) by (nonlinear_arith)
                requires
                    w > 0,
                    n > 0,
            ;
        } else {
            assert(((w - 1) as nat) / (w as nat) == 0) by (nonlinear_arith)
                requires
                    w > 0,
            ;
        }
    }
    (count, w)
}

pub open spec fn binary_bindings() -> Seq<Binding> {
    seq![
        Binding { slot: Slot::Lhs, usage: Usage::Read },
        Binding { slot: Slot::Rhs, usage: Usage::Read },
        Binding { slot: Slot::Output, usage: Usage::Write },
        Binding { slot: Slot::Metadata, usage: Usage::Constant },
    ]
}

pub open spec fn unary_bindings(with_shift: bool) -> Seq<Binding> {
    let base = seq![
        Binding { slot: Slot::Input, usage: Usage::Read },
        Binding { slot: Slot::Output, usage: Usage::Write },
        Binding { slot: Slot::Metadata, usage: Usage::Constant },
    ];
    if with_shift {
        base.push(Binding { slot: Slot::Shift, usage: Usage::Constant })
    } else {
        base
    }
}

/// The pipeline, output and thread groups of a launch over `n` elements.
pub open spec fn launch_ok(l: MetalLaunch, k: KernelId, max_threads: usize, n: nat) -> bool {
    &&& l.kernel == k
    &&& l.name@ == mangle_of(k)
    &&& l.output == (MetalStorage { dtype: k.dtype, len: n as usize })
    &&& l.thread_group_size as nat == group_size(max_threads as nat, n)
    &&& l.thread_group_count as nat == group_count(max_threads as nat, n)
}

fn make_launch(
    kernel: KernelId,
    metadata: Vec<usize>,
    bindings: Vec<Binding>,
    max_threads: usize,
    n: usize,
    shift: Option<u32>,
) -> (r: MetalLaunch)
    ensures
        launch_ok(r, kernel, max_threads, n as nat),
        r.metadata@ == metadata@,
        r.bindings@ == bindings@,
        r.shift == shift,
{
    let (count, size) = linear_split(max_threads, n);
    MetalLaunch {
        kernel,
        name: mangle(kernel),
        metadata,
        output: MetalStorage { dtype: kernel.dtype, len: n },
        bindings,
        thread_group_count: count,
        thread_group_size: size,
        shift,
    }
}

/// Describes a binary bitwise dispatch over two views of one shape, for a
/// pipeline that takes at most `max_threads` threads per group.
pub fn call_ops_bitwise_binary(
    lhs_storage: &MetalStorage,
    rhs_storage: &MetalStorage,
    lhs_layout: &Layout,
    rhs_layout: &Layout,
    op: Op,
    max_threads: usize,
) -> (r: Result<MetalLaunch, HoduError>)
    requires
        lhs_layout.wf(),
        rhs_layout.wf(),
        rhs_layout.shape@ == lhs_layout.shape@,
    ensures
        !(op is BitwiseBinary) ==> r is Err && r->Err_0 is BackendError && r->Err_0->BackendError_0@
            == expects_msg("bitwise_binary"@, "bitwise binary"@),
        op is BitwiseBinary && (lhs_storage.dtype != rhs_storage.dtype || !is_integer_dtype(
            lhs_storage.dtype,
        )) ==> r is Err && r->Err_0 is BackendError && r->Err_0->BackendError_0@
            == integer_only_msg(),
        op is BitwiseBinary && lhs_storage.dtype == rhs_storage.dtype && is_integer_dtype(
            lhs_storage.dtype,
        ) ==> r is Ok && {
            let l = r->Ok_0;
            &&& launch_ok(
                l,
                KernelId {
                    backend: Backend::Metal,
                    op: binary_kernel_op(op->BitwiseBinary_0),
                    dtype: lhs_storage.dtype,
                },
                max_threads,
                lhs_layout.size(),
            )
            &&& l.metadata@ == binary_metadata_of(*lhs_layout, *rhs_layout, *lhs_layout)
            &&& l.metadata@.len() == 2 + 4 * lhs_layout.shape@.len() + 2
            &&& l.bindings@ == binary_bindings()
            &&& l.shift is None
        },
{
    let bop = match op {
        Op::BitwiseBinary(b) => b,
        _ => {
            return Err(expects_error("bitwise_binary", "bitwise binary"));
        },
    };
    let dtype = lhs_storage.dtype;
    if dtype != rhs_storage.dtype || !dtype.is_integer() {
        return Err(integer_only_error());
    }
    let metadata = binary_metadata(lhs_layout, rhs_layout, lhs_layout);
    let n = lhs_layout.size_exec();
    let kernel = KernelId { backend: Backend::Metal, op: KernelOp::from_binary(bop), dtype };
    let bindings = vec![
        Binding { slot: Slot::Lhs, usage: Usage::Read },
        Binding { slot: Slot::Rhs, usage: Usage::Read },
        Binding { slot: Slot::Output, usage: Usage::Write },
        Binding { slot: Slot::Metadata, usage: Usage::Constant },
    ];
    assert(bindings@ =~= binary_bindings());
    Ok(make_launch(kernel, metadata, bindings, max_threads, n, None))
}

/// Describes a bitwise complement dispatch over a view.
pub fn call_ops_bitwise_unary(storage: &MetalStorage, layout: &Layout, op: Op, max_threads: usize) -> (r:
    Result<MetalLaunch, HoduError>)
    requires
        layout.wf(),
    ensures
        !(op is BitwiseUnary) ==> r is Err && r->Err_0 is BackendError && r->Err_0->BackendError_0@
            == expects_msg("bitwise_unary"@, "bitwise unary"@),
        op is BitwiseUnary && !is_integer_dtype(storage.dtype) ==> r is Err && r->Err_0 is BackendError
            && r->Err_0->BackendError_0@ == integer_only_msg(),
        op is BitwiseUnary && is_integer_dtype(storage.dtype) ==> r is Ok && {
            let l = r->Ok_0;
            &&& launch_ok(
                l,
                KernelId { backend: Backend::Metal, op: KernelOp::BitwiseNot, dtype: storage.dtype },
                max_threads,
                layout.size(),
            )
            &&& l.metadata@ == unary_metadata_of(*layout, *layout)
            &&& l.metadata@.len() == 2 + 2 * layout.shape@.len() + 1
            &&& l.bindings@ == unary_bindings(false)
            &&& l.shift is None
        },
{
    match op {
        Op::BitwiseUnary(_) => {},
        _ => {
            return Err(expects_error("bitwise_unary", "bitwise unary"));
        },
    }
    if !storage.dtype.is_integer() {
        return Err(integer_only_error());
    }
    let metadata = unary_metadata(layout, layout);
    let n = layout.size_exec();
    let kernel = KernelId { backend: Backend::Metal, op: KernelOp::BitwiseNot, dtype: storage.dtype };
    let bindings = vec![
        Binding { slot: Slot::Input, usage: Usage::Read },
        Binding { slot: Slot::Output, usage: Usage::Write },
        Binding { slot: Slot::Metadata, usage: Usage::Constant },
    ];
    assert(bindings@ =~= unary_bindings(false));
    Ok(make_launch(kernel, metadata, bindings, max_threads, n, None))
}

/// Describes a scalar shift dispatch over a view.
pub fn call_ops_bitwise_unary_scalar(
    storage: &MetalStorage,
    layout: &Layout,
    shift: u32,
    op: Op,
    max_threads: usize,
) -> (r: Result<MetalLaunch, HoduError>)
    requires
        layout.wf(),
    ensures
        !(op is BitwiseUnaryScalar) ==> r is Err && r->Err_0 is BackendError
            && r->Err_0->BackendError_0@ == expects_msg("bitwise_unary_scalar"@, "bitwise unary scalar"@),
        op is BitwiseUnaryScalar && !is_integer_dtype(storage.dtype) ==> r is Err && r->Err_0 is BackendError
            && r->Err_0->BackendError_0@ == scalar_integer_only_msg(),
        op is BitwiseUnaryScalar && is_integer_dtype(storage.dtype) ==> r is Ok && {
            let l = r->Ok_0;
            &&& launch_ok(
                l,
                KernelId {
                    backend: Backend::Metal,
                    op: scalar_kernel_op(op->BitwiseUnaryScalar_0),
                    dtype: storage.dtype,
                },
                max_threads,
                layout.size(),
            )
            &&& l.metadata@ == unary_metadata_of(*layout, *layout)
            &&& l.metadata@.len() == 2 + 2 * layout.shape@.len() + 1
            &&& l.bindings@ == unary_bindings(true)
            &&& l.shift == Some(shift)
        },
{
    let sop = match op {
        Op::BitwiseUnaryScalar(s) => s,
        _ => {
            return Err(expects_error("bitwise_unary_scalar", "bitwise unary scalar"));
        },
    };
    if !storage.dtype.is_integer() {
        return Err(scalar_integer_only_error());
    }
    let metadata = unary_metadata(layout, layout);
    let n = layout.size_exec();
    let kernel = KernelId { backend: Backend::Metal, op: KernelOp::from_scalar(sop), dtype: storage.dtype };
    let bindings = vec![
        Binding { slot: Slot::Input, usage: Usage::Read },
        Binding { slot: Slot::Output, usage: Usage::Write },
        Binding { slot: Slot::Metadata, usage: Usage::Constant },
        Binding { slot: Slot::Shift, usage: Usage::Constant },
    ];
    assert(bindings@ =~= unary_bindings(true));
    Ok(make_launch(kernel, metadata, bindings, max_threads, n, Some(shift)))
}

} // verus!
