use hodu::be_cuda::{self, CudaStorage};
use hodu::be_metal::{self, linear_split, MetalStorage};
use hodu::dtype::DType;
use hodu::kernel::{demangle, mangle, Backend, KernelId, KernelOp};
use hodu::layout::{broadcast_shapes, Layout};
use hodu::metadata::{binary_metadata, unary_metadata};
use hodu::ops::{BitwiseBinaryOp, BitwiseUnaryScalarOp, Op};
use hodu::error::HoduError;

#[test]
fn mangled_names() {
    let k = KernelId { backend: Backend::Cpu, op: KernelOp::Shl, dtype: DType::U32 };
    assert_eq!(mangle(k), "hodu_cpu_shl_u32");
    let k2 = KernelId { backend: Backend::Metal, op: KernelOp::BitwiseAnd, dtype: DType::I64 };
    assert_eq!(mangle(k2), "hodu_metal_bitwise_and_i64");
}

#[test]
fn demangle_round_trips_every_kernel() {
    let backends = [Backend::Cpu, Backend::Cuda, Backend::Metal];
    let ops = [
        KernelOp::Shl, KernelOp::Shr, KernelOp::BitwiseAnd, KernelOp::BitwiseOr, KernelOp::BitwiseXor,
        KernelOp::BitwiseNot, KernelOp::ShlScalar, KernelOp::ShrScalar, KernelOp::Det, KernelOp::Inv,
        KernelOp::Trace, KernelOp::Matmul,
    ];
    let dtypes = [
        DType::BOOL, DType::F8E4M3, DType::F8E5M2, DType::BF16, DType::F16, DType::F32, DType::F64,
        DType::U8, DType::U16, DType::U32, DType::U64, DType::I8, DType::I16, DType::I32, DType::I64,
    ];
    for b in backends {
        for o in ops {
            for d in dtypes {
                let k = KernelId { backend: b, op: o, dtype: d };
                assert_eq!(demangle(&mangle(k)), Some(k));
            }
        }
    }
}

#[test]
fn demangle_rejects_foreign_names() {
    assert_eq!(demangle("hodu_cpu_shl"), None);
    assert_eq!(demangle("hodu_gpu_shl_u32"), None);
    assert_eq!(demangle("kern_cpu_shl_u32"), None);
    assert_eq!(demangle("hodu_cpu_rotate_u32"), None);
    assert_eq!(demangle("hodu_cpu_shl_u128"), None);
}

fn layout(shape: Vec<usize>) -> Layout {
    Layout::from_shape(&shape)
}

#[test]
fn metadata_lengths_and_contents() {
    let l = layout(vec![2, 3]);
    let m = binary_metadata(&l, &l, &l);
    assert_eq!(m.len(), 2 + 4 * 2 + 2);
    assert_eq!(m, vec![6, 2, 2, 3, 2, 3, 3, 1, 3, 1, 0, 0]);
    let u = unary_metadata(&l, &l);
    assert_eq!(u.len(), 2 + 2 * 2 + 1);
    assert_eq!(u, vec![6, 2, 2, 3, 3, 1, 0]);
    let scalar = layout(vec![]);
    assert_eq!(unary_metadata(&scalar, &scalar), vec![1, 0, 0]);
}

#[test]
fn broadcast_of_shapes() {
    assert_eq!(broadcast_shapes(&vec![3, 1], &vec![1, 4]), Some(vec![3, 4]));
    assert_eq!(broadcast_shapes(&vec![2, 3], &vec![3]), Some(vec![2, 3]));
    assert_eq!(broadcast_shapes(&vec![], &vec![5]), Some(vec![5]));
    assert_eq!(broadcast_shapes(&vec![2, 3], &vec![4]), None);
}

#[test]
fn contiguous_strides() {
    let l = layout(vec![2, 3, 4]);
    assert_eq!(l.strides, vec![12, 4, 1]);
    assert_eq!(l.offset, 0);
}

#[test]
fn cuda_launch_shape() {
    let s = CudaStorage { device_id: 1, dtype: DType::U32, len: 600 };
    let l = layout(vec![600]);
    let launch = be_cuda::call_ops_bitwise_binary(&s, &s, &l, &l, Op::BitwiseBinary(BitwiseBinaryOp::Xor)).unwrap();
    assert_eq!(launch.name, "hodu_cuda_bitwise_xor_u32");
    assert_eq!(launch.grid_dim, 3);
    assert_eq!(launch.block_dim, 256);
    assert_eq!(launch.shared_mem_bytes, 0);
    assert_eq!(launch.output, CudaStorage { device_id: 1, dtype: DType::U32, len: 600 });
    let empty = layout(vec![0]);
    let e = be_cuda::call_ops_bitwise_unary(&s, &empty, Op::BitwiseUnary(hodu::ops::BitwiseUnaryOp::Not)).unwrap();
    assert_eq!(e.grid_dim, 1);
}

#[test]
fn cuda_rejects_float_and_wrong_op() {
    let s = CudaStorage { device_id: 0, dtype: DType::F32, len: 4 };
    let l = layout(vec![4]);
    let r = be_cuda::call_ops_bitwise_binary(&s, &s, &l, &l, Op::BitwiseBinary(BitwiseBinaryOp::And));
    assert_eq!(r.unwrap_err(), HoduError::BackendError("bitwise operations only support integer types".to_string()));
    let i = CudaStorage { device_id: 0, dtype: DType::I8, len: 4 };
    let r2 = be_cuda::call_ops_bitwise_unary(&i, &l, Op::BitwiseBinary(BitwiseBinaryOp::And));
    assert_eq!(r2.unwrap_err(), HoduError::BackendError("call_ops_bitwise_unary expects bitwise unary op".to_string()));
    let r3 = be_cuda::call_ops_bitwise_binary(&i, &i, &l, &l, Op::BitwiseUnary(hodu::ops::BitwiseUnaryOp::Not));
    assert_eq!(r3.unwrap_err(), HoduError::BackendError("call_ops_bitwise_binary expects bitwise binary op".to_string()));
    let r4 = be_cuda::call_ops_bitwise_unary_scalar(&i, &l, 1, Op::BitwiseUnary(hodu::ops::BitwiseUnaryOp::Not));
    assert_eq!(r4.unwrap_err(), HoduError::BackendError("call_ops_bitwise_unary_scalar expects bitwise unary scalar op".to_string()));
}

#[test]
fn metal_split_and_bindings() {
    assert_eq!(linear_split(256, 1000), (4, 256));
    assert_eq!(linear_split(1024, 10), (1, 10));
    assert_eq!(linear_split(64, 0), (0, 1));
    let s = MetalStorage { dtype: DType::I16, len: 10 };
    let l = layout(vec![10]);
    let launch = be_metal::call_ops_bitwise_unary_scalar(&s, &l, 3, Op::BitwiseUnaryScalar(BitwiseUnaryScalarOp::ShrScalar), 4).unwrap();
    assert_eq!(launch.name, "hodu_metal_shr_scalar_i16");
    assert_eq!(launch.bindings.len(), 4);
    assert_eq!(launch.thread_group_count, 3);
    assert_eq!(launch.thread_group_size, 4);
    assert_eq!(launch.shift, Some(3));
}
