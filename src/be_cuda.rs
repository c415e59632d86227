//! GPU-driver backend: validates a bitwise dispatch and describes the launch
//! that a driver runtime performs: kernel, metadata, output allocation and
//! launch shape (`block = 256`, `grid = max(ceil(num_els / 256), 1)`, no
//! shared memory).

use crate::be_cpu::{expects_error, expects_msg, integer_only_error, integer_only_msg, scalar_integer_only_error, scalar_integer_only_msg};
use crate::dtype::{is_integer_dtype, DType};
use crate::error::HoduError;
use crate::kernel::{binary_kernel_op, mangle, mangle_of, scalar_kernel_op, Backend, KernelId, KernelOp};
use crate::layout::Layout;
use crate::metadata::{binary_metadata, binary_metadata_of, unary_metadata, unary_metadata_of};
use crate::ops::Op;
use vstd::prelude::*;

verus! {

/// Threads per block of every launch.
pub const BLOCK_SIZE: u32 = 256;

/// A buffer of `len` elements of one type on GPU `device_id`.
#[derive(Clone, Copy, Debug, PartialEq, Eq, Structural)]
pub struct CudaStorage {
    pub device_id: usize,
    pub dtype: DType,
    pub len: usize,
}

/// A kernel launch for the driver runtime: it allocates `output`, copies
/// `metadata` to the device on the default stream and launches `name`.
#[derive(Clone, Debug)]
pub struct CudaLaunch {
    pub kernel: KernelId,
    pub name: String,
    pub metadata: Vec<usize>,
    pub output: CudaStorage,
    pub grid_dim: u32,
    pub block_dim: u32,
    pub shared_mem_bytes: u32,
    pub shift: Option<u32>,
}

/// Blocks needed for `n` elements: `max(ceil(n / 256), 1)`.
pub open spec fn grid_for(n: nat) -> nat {
    if n == 0 {
        1
    } else {
        ((n + 255) / 256) as nat
    }
}

/// The launch shape and output of a launch over `n` elements of type `d`.
pub open spec fn launch_shape_ok(l: CudaLaunch, device_id: usize, d: DType, n: nat) -> bool {
    &&& l.output == (CudaStorage { device_id, dtype: d, len: n as usize })
    &&& l.grid_dim as nat == grid_for(n)
    &&& l.block_dim == 256
    &&& l.shared_mem_bytes == 0
}

pub open spec fn too_large_msg() -> Seq<char> {
    "too many elements for one launch"@
}

fn grid_dim_for(n: usize) -> (r: Option<u32>)
    ensures
        r is Some <==> grid_for(n as nat) <= u32::MAX,
        r is Some ==> r->Some_0 as nat == grid_for(n as nat),
{
    let g: u64 = if n == 0 {
        1
    } else {
        ((n as u64 - 1) / 256) + 1
    };
    assert(n > 0 ==> ((n as nat - 1) / 256) + 1 == (n as nat + 255) / 256);
    if g > u32::MAX as u64 {
        None
    } else {
        Some(g as u32)
    }
}

fn launch(
    kernel: KernelId,
    metadata: Vec<usize>,
    device_id: usize,
    n: usize,
    shift: Option<u32>,
) -> (r: Result<CudaLaunch, HoduError>)
    ensures
        r is Ok <==> grid_for(n as nat) <= u32::MAX,
        r is Err ==> r->Err_0 is DeviceError && r->Err_0->DeviceError_0@ == too_large_msg(),
        r is Ok ==> launch_shape_ok(r->Ok_0, device_id, kernel.dtype, n as nat) && r->Ok_0.kernel
            == kernel && r->Ok_0.name@ == mangle_of(kernel) && r->Ok_0.metadata@ == metadata@
            && r->Ok_0.shift == shift,
{
    match grid_dim_for(n) {
        Some(g) => Ok(
            CudaLaunch {
                kernel,
                name: mangle(kernel),
                metadata,
                output: CudaStorage { device_id, dtype: kernel.dtype, len: n },
                grid_dim: g,
                block_dim: BLOCK_SIZE,
                shared_mem_bytes: 0,
                shift,
            },
        ),
        None => Err(HoduError::DeviceError(String::from_str("too many elements for one launch"))),
    }
}

/// Describes a binary bitwise launch over two views of one shape.
pub fn call_ops_bitwise_binary(
    lhs_storage: &CudaStorage,
    rhs_storage: &CudaStorage,
    lhs_layout: &Layout,
    rhs_layout: &Layout,
    op: Op,
) -> (r: Result<CudaLaunch, HoduError>)
    requires
        lhs_layout.wf(),
        rhs_layout.wf(),
        rhs_layout.shape@ == lhs_layout.shape@,
    ensures
        !(op is BitwiseBinary) ==> r is Err && r->Err_0 is BackendError && r->Err_0->BackendError_0@
            == expects_msg("bitwise_binary"@, "bitwise binary"@),
        op is BitwiseBinary && (lhs_storage.dtype != rhs_storage.dtype || !is_integer_dtype(
            lhs_storage.dtype,
        )) ==> r is Err && r->Err_0 is BackendError && r->Err_0->BackendError_0@
            == integer_only_msg(),
        op is BitwiseBinary && lhs_storage.dtype == rhs_storage.dtype && is_integer_dtype(
            lhs_storage.dtype,
        ) ==> (r is Ok <==> grid_for(lhs_layout.size()) <= u32::MAX) && (r is Err ==> r->Err_0 is DeviceError && r->Err_0->DeviceError_0@
            == too_large_msg()) && (r is Ok ==> {
            let l = r->Ok_0;
            let k = KernelId {
                backend: Backend::Cuda,
                op: binary_kernel_op(op->BitwiseBinary_0),
                dtype: lhs_storage.dtype,
            };
            &&& l.kernel == k
            &&& l.name@ == mangle_of(k)
            &&& l.metadata@ == binary_metadata_of(*lhs_layout, *rhs_layout, *lhs_layout)
            &&& l.metadata@.len() == 2 + 4 * lhs_layout.shape@.len() + 2
            &&& launch_shape_ok(l, lhs_storage.device_id, lhs_storage.dtype, lhs_layout.size())
            &&& l.shift is None
        }),
{
    let bop = match op {
        Op::BitwiseBinary(b) => b,
        _ => {
            return Err(expects_error("bitwise_binary", "bitwise binary"));
        },
    };
    let dtype = lhs_storage.dtype;
    if dtype != rhs_storage.dtype || !dtype.is_integer() {
        return Err(integer_only_error());
    }
    let metadata = binary_metadata(lhs_layout, rhs_layout, lhs_layout);
    let n = lhs_layout.size_exec();
    let kernel = KernelId { backend: Backend::Cuda, op: KernelOp::from_binary(bop), dtype };
    launch(kernel, metadata, lhs_storage.device_id, n, None)
}

/// Describes a bitwise complement launch over a view.
pub fn call_ops_bitwise_unary(storage: &CudaStorage, layout: &Layout, op: Op) -> (r: Result<
    CudaLaunch,
    HoduError,
>)
    requires
        layout.wf(),
    ensures
        !(op is BitwiseUnary) ==> r is Err && r->Err_0 is BackendError && r->Err_0->BackendError_0@
            == expects_msg("bitwise_unary"@, "bitwise unary"@),
        op is BitwiseUnary && !is_integer_dtype(storage.dtype) ==> r is Err && r->Err_0 is BackendError
            && r->Err_0->BackendError_0@ == integer_only_msg(),
        op is BitwiseUnary && is_integer_dtype(storage.dtype) ==> (r is Ok <==> grid_for(layout.size())
            <= u32::MAX) && (r is Err ==> r->Err_0 is DeviceError && r->Err_0->DeviceError_0@
            == too_large_msg()) && (r is Ok ==> {
            let l = r->Ok_0;
            let k = KernelId { backend: Backend::Cuda, op: KernelOp::BitwiseNot, dtype: storage.dtype };
            &&& l.kernel == k
            &&& l.name@ == mangle_of(k)
            &&& l.metadata@ == unary_metadata_of(*layout, *layout)
            &&& l.metadata@.len() == 2 + 2 * layout.shape@.len() + 1
            &&& launch_shape_ok(l, storage.device_id, storage.dtype, layout.size())
            &&& l.shift is None
        }),
{
    match op {
        Op::BitwiseUnary(_) => {},
        _ => {
            return Err(expects_error("bitwise_unary", "bitwise unary"));
        },
    }
    if !storage.dtype.is_integer() {
        return Err(integer_only_error());
    }
    let metadata = unary_metadata(layout, layout);
    let n = layout.size_exec();
    let kernel = KernelId { backend: Backend::Cuda, op: KernelOp::BitwiseNot, dtype: storage.dtype };
    launch(kernel, metadata, storage.device_id, n, None)
}

/// Describes a scalar shift launch over a view.
pub fn call_ops_bitwise_unary_scalar(storage: &CudaStorage, layout: &Layout, shift: u32, op: Op) -> (r:
    Result<CudaLaunch, HoduError>)
    requires
        layout.wf(),
    ensures
        !(op is BitwiseUnaryScalar) ==> r is Err && r->Err_0 is BackendError
            && r->Err_0->BackendError_0@ == expects_msg("bitwise_unary_scalar"@, "bitwise unary scalar"@),
        op is BitwiseUnaryScalar && !is_integer_dtype(storage.dtype) ==> r is Err && r->Err_0 is BackendError
            && r->Err_0->BackendError_0@ == scalar_integer_only_msg(),
        op is BitwiseUnaryScalar && is_integer_dtype(storage.dtype) ==> (r is Ok <==> grid_for(
            layout.size(),
        ) <= u32::MAX) && (r is Err ==> r->Err_0 is DeviceError && r->Err_0->DeviceError_0@
            == too_large_msg()) && (r is Ok ==> {
            let l = r->Ok_0;
            let k = KernelId {
                backend: Backend::Cuda,
                op: scalar_kernel_op(op->BitwiseUnaryScalar_0),
                dtype: storage.dtype,
            };
            &&& l.kernel == k
            &&& l.name@ == mangle_of(k)
            &&& l.metadata@ == unary_metadata_of(*layout, *layout)
            &&& l.metadata@.len() == 2 + 2 * layout.shape@.len() + 1
            &&& launch_shape_ok(l, storage.device_id, storage.dtype, layout.size())
            &&& l.shift == Some(shift)
        }),
{
    let sop = match op {
        Op::BitwiseUnaryScalar(s) => s,
        _ => {
            return Err(expects_error("bitwise_unary_scalar", "bitwise unary scalar"));
        },
    };
    if !storage.dtype.is_integer() {
        return Err(scalar_integer_only_error());
    }
    let metadata = unary_metadata(layout, layout);
    let n = layout.size_exec();
    let kernel = KernelId { backend: Backend::Cuda, op: KernelOp::from_scalar(sop), dtype: storage.dtype };
    launch(kernel, metadata, storage.device_id, n, Some(shift))
}

} // verus!
