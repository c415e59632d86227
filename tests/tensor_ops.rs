use hodu::dtype::{DType, PluginDType};
use hodu::error::HoduError;
use hodu::kernel::{Backend, KernelOp};
use hodu::ops::{CompositeOp, LinalgOp, Op};
use hodu::tensor::{Device, Engine, Tensor};
use hodu::tensor_data::{load_tensor_data, save_tensor_data, TensorData};

fn host(ctx: &mut Engine, data: Vec<u64>, shape: Vec<usize>, dtype: DType) -> Tensor {
    Tensor::from_bits(ctx, data, shape, dtype, false).unwrap()
}

#[test]
fn element_wise_shift_scalar() {
    let mut ctx = Engine::new();
    let x = host(&mut ctx, vec![1, 2, 3, 4, 5, 6, 7, 8], vec![8], DType::U32);
    let y = x.shl_scalar(2, &mut ctx).unwrap();
    assert_eq!(y.to_bits().unwrap(), vec![4, 8, 12, 16, 20, 24, 28, 32]);
    assert_eq!(y.layout, x.layout);
    assert_eq!(y.dtype, DType::U32);
    assert!(!y.requires_grad);
}

#[test]
fn shifts_wrap_within_width_and_fill_sign() {
    let mut ctx = Engine::new();
    let x = host(&mut ctx, vec![0x81, 0x01], vec![2], DType::U8);
    assert_eq!(x.shl_scalar(1, &mut ctx).unwrap().to_bits().unwrap(), vec![0x02, 0x02]);
    assert_eq!(x.shl_scalar(8, &mut ctx).unwrap().to_bits().unwrap(), vec![0, 0]);
    // -8 as i8 is 0xf8; an arithmetic right shift by 2 gives -2 (0xfe).
    let s = host(&mut ctx, vec![0xf8, 0x08], vec![2], DType::I8);
    assert_eq!(s.shr_scalar(2, &mut ctx).unwrap().to_bits().unwrap(), vec![0xfe, 0x02]);
    assert_eq!(s.shr_scalar(9, &mut ctx).unwrap().to_bits().unwrap(), vec![0xff, 0x00]);
}

#[test]
fn binary_bitwise_with_broadcast() {
    let mut ctx = Engine::new();
    let a = host(&mut ctx, vec![0b1100, 0b1010, 0b0110], vec![3, 1], DType::U16);
    let b = host(&mut ctx, vec![0b1000, 0b0010], vec![1, 2], DType::U16);
    let and = a.bitwise_and(&b, &mut ctx).unwrap();
    assert_eq!(and.layout.shape, vec![3, 2]);
    assert_eq!(and.to_bits().unwrap(), vec![0b1000, 0, 0b1000, 0b0010, 0, 0b0010]);
    let or = a.bitwise_or(&b, &mut ctx).unwrap();
    assert_eq!(or.to_bits().unwrap(), vec![0b1100, 0b1110, 0b1010, 0b1010, 0b1110, 0b0110]);
    let xor = a.bitwise_xor(&b, &mut ctx).unwrap();
    assert_eq!(xor.to_bits().unwrap(), vec![0b0100, 0b1110, 0b0010, 0b1000, 0b1110, 0b0100]);
}

#[test]
fn binary_shift_by_tensor() {
    let mut ctx = Engine::new();
    let a = host(&mut ctx, vec![1, 1, 0x80, 0xffff_ffff], vec![4], DType::U32);
    let s = host(&mut ctx, vec![0, 4, 7, 40], vec![4], DType::U32);
    assert_eq!(a.shl(&s, &mut ctx).unwrap().to_bits().unwrap(), vec![1, 16, 0x4000, 0]);
    assert_eq!(a.shr(&s, &mut ctx).unwrap().to_bits().unwrap(), vec![1, 0, 1, 0]);
}

#[test]
fn bitwise_not_within_width() {
    let mut ctx = Engine::new();
    let a = host(&mut ctx, vec![0, 0xf0], vec![2], DType::U8);
    assert_eq!(a.bitwise_not(&mut ctx).unwrap().to_bits().unwrap(), vec![0xff, 0x0f]);
    let b = host(&mut ctx, vec![5], vec![1], DType::I64);
    assert_eq!(b.bitwise_not(&mut ctx).unwrap().to_bits().unwrap(), vec![0xffff_ffff_ffff_fffa]);
}

#[test]
fn bitwise_on_float_is_rejected() {
    let mut ctx = Engine::new();
    let x = host(&mut ctx, vec![0x3f80_0000], vec![1], DType::F32);
    let y = host(&mut ctx, vec![0x4000_0000], vec![1], DType::F32);
    let before = ctx.next_id;
    let r = x.bitwise_and(&y, &mut ctx);
    assert_eq!(r.unwrap_err(), HoduError::BackendError("bitwise operations only support integer types".to_string()));
    assert_eq!(ctx.next_id, before);
}

#[test]
fn every_integer_type_is_accepted_and_others_rejected() {
    let all = [
        DType::BOOL, DType::F8E4M3, DType::F8E5M2, DType::BF16, DType::F16, DType::F32, DType::F64,
        DType::U8, DType::U16, DType::U32, DType::U64, DType::I8, DType::I16, DType::I32, DType::I64,
    ];
    for d in all {
        let mut ctx = Engine::new();
        let x = host(&mut ctx, vec![1], vec![1], d);
        let r = x.bitwise_or(&x, &mut ctx);
        let n = x.bitwise_not(&mut ctx);
        let s = x.shr_scalar(1, &mut ctx);
        if d.is_integer() {
            assert!(r.is_ok() && n.is_ok() && s.is_ok());
        } else {
            assert!(matches!(r, Err(HoduError::BackendError(_))));
            assert!(matches!(n, Err(HoduError::BackendError(_))));
            assert!(matches!(s, Err(HoduError::BackendError(_))));
        }
    }
}

#[test]
fn incompatible_shapes_are_invalid() {
    let mut ctx = Engine::new();
    let a = host(&mut ctx, vec![1, 2, 3], vec![3], DType::I32);
    let b = host(&mut ctx, vec![1, 2], vec![2], DType::I32);
    assert!(matches!(a.shl(&b, &mut ctx), Err(HoduError::InvalidArgument(_))));
    let c = host(&mut ctx, vec![1, 2, 3], vec![3], DType::I16);
    assert!(matches!(a.shl(&c, &mut ctx), Err(HoduError::InvalidArgument(_))));
}

#[test]
fn triangular_masks() {
    let mut ctx = Engine::new();
    let x = host(&mut ctx, (1..=9).collect(), vec![3, 3], DType::I32);
    let lower = x.tril(0, &mut ctx).unwrap();
    assert_eq!(lower.to_bits().unwrap(), vec![1, 0, 0, 4, 5, 0, 7, 8, 9]);
    let upper = x.triu(1, &mut ctx).unwrap();
    assert_eq!(upper.to_bits().unwrap(), vec![0, 2, 3, 0, 0, 6, 0, 0, 0]);
    let below = x.tril(-1, &mut ctx).unwrap();
    assert_eq!(below.to_bits().unwrap(), vec![0, 0, 0, 4, 0, 0, 7, 8, 0]);
    let v = host(&mut ctx, vec![1, 2], vec![2], DType::I32);
    assert!(matches!(v.tril(0, &mut ctx), Err(HoduError::InvalidArgument(_))));
}

#[test]
fn triangular_mask_on_a_batch() {
    let mut ctx = Engine::new();
    let x = host(&mut ctx, (1..=8).collect(), vec![2, 2, 2], DType::U8);
    let upper = x.triu(0, &mut ctx).unwrap();
    assert_eq!(upper.to_bits().unwrap(), vec![1, 2, 0, 4, 5, 6, 0, 8]);
}

#[test]
fn diagonal_round_trip() {
    let mut ctx = Engine::new();
    let v = host(&mut ctx, vec![7, 8, 9], vec![3], DType::I64);
    let m = v.diag(0, &mut ctx).unwrap();
    assert_eq!(m.layout.shape, vec![3, 3]);
    assert_eq!(m.to_bits().unwrap(), vec![7, 0, 0, 0, 8, 0, 0, 0, 9]);
    let back = m.diag(0, &mut ctx).unwrap();
    assert_eq!(back.layout.shape, vec![3]);
    assert_eq!(back.to_bits().unwrap(), vec![7, 8, 9]);
}

#[test]
fn offset_diagonals() {
    let mut ctx = Engine::new();
    let v = host(&mut ctx, vec![1, 2], vec![2], DType::U8);
    let up = v.diag(1, &mut ctx).unwrap();
    assert_eq!(up.layout.shape, vec![3, 3]);
    assert_eq!(up.to_bits().unwrap(), vec![0, 1, 0, 0, 0, 2, 0, 0, 0]);
    assert_eq!(up.diag(1, &mut ctx).unwrap().to_bits().unwrap(), vec![1, 2]);
    let down = v.diag(-1, &mut ctx).unwrap();
    assert_eq!(down.to_bits().unwrap(), vec![0, 0, 0, 1, 0, 0, 0, 2, 0]);
    assert_eq!(down.diag(-1, &mut ctx).unwrap().to_bits().unwrap(), vec![1, 2]);
    let m = host(&mut ctx, (1..=9).collect(), vec![3, 3], DType::U8);
    assert_eq!(m.diag(1, &mut ctx).unwrap().to_bits().unwrap(), vec![2, 6]);
    let far = m.diag(5, &mut ctx).unwrap();
    assert_eq!(far.layout.shape, vec![0]);
    let cube = host(&mut ctx, vec![0; 8], vec![2, 2, 2], DType::U8);
    assert!(matches!(cube.diag(0, &mut ctx), Err(HoduError::InvalidArgument(_))));
}

#[test]
fn batched_diagonal() {
    let mut ctx = Engine::new();
    let x = host(&mut ctx, (0..12).collect(), vec![2, 2, 3], DType::U32);
    let d = x.diagonal(0, 1, 2, &mut ctx).unwrap();
    assert_eq!(d.layout.shape, vec![2, 2]);
    assert_eq!(d.to_bits().unwrap(), vec![0, 4, 6, 10]);
    let e = x.diagonal(0, 0, -1, &mut ctx).unwrap();
    assert_eq!(e.layout.shape, vec![2, 2]);
    assert_eq!(e.to_bits().unwrap(), vec![0, 7, 3, 10]);
    assert!(matches!(x.diagonal(0, 1, -2, &mut ctx), Err(HoduError::InvalidArgument(_))));
    assert!(matches!(x.diagonal(0, 0, 3, &mut ctx), Err(HoduError::InvalidArgument(_))));
}

#[test]
fn capture_records_the_same_layouts() {
    let mut exec = Engine::new();
    let a = host(&mut exec, vec![1, 2, 3, 4, 5, 6], vec![2, 3], DType::I32);
    let b = host(&mut exec, vec![1, 1, 1], vec![3], DType::I32);
    let mut cap = Engine::new();
    let a2 = host(&mut cap, vec![1, 2, 3, 4, 5, 6], vec![2, 3], DType::I32);
    let b2 = host(&mut cap, vec![1, 1, 1], vec![3], DType::I32);
    cap.start_capture();
    let e1 = a.shl(&b, &mut exec).unwrap();
    let c1 = a2.shl(&b2, &mut cap).unwrap();
    assert_eq!(e1.layout, c1.layout);
    assert_eq!(e1.dtype, c1.dtype);
    assert_eq!(e1.id, c1.id);
    let e2 = e1.tril(0, &mut exec).unwrap();
    let c2 = c1.tril(0, &mut cap).unwrap();
    assert_eq!(e2.layout, c2.layout);
    assert!(c2.storage.is_none());
    let nodes = cap.stop_capture();
    assert_eq!(nodes.len(), 2);
    assert_eq!(nodes[0].op, Op::BitwiseBinary(hodu::ops::BitwiseBinaryOp::Shl));
    assert_eq!(nodes[0].inputs, vec![a2.id, b2.id]);
    assert_eq!(nodes[1].op, Op::Composite(CompositeOp::Tril));
    assert_eq!(nodes[1].output, c2.id);
    assert_eq!(exec.nodes.len(), 0);
}

#[test]
fn linear_algebra_shapes_and_launches() {
    let mut ctx = Engine::new();
    let m = host(&mut ctx, vec![0; 2 * 3 * 3], vec![2, 3, 3], DType::F32);
    let det = m.det(&mut ctx).unwrap();
    assert_eq!(det.layout.shape, vec![2]);
    let single = host(&mut ctx, vec![0; 4], vec![2, 2], DType::F64);
    assert_eq!(single.trace(&mut ctx).unwrap().layout.shape, vec![1]);
    let inv = single.inv(&mut ctx).unwrap();
    assert_eq!(inv.layout.shape, vec![2, 2]);
    assert!(inv.requires_grad == single.requires_grad);
    let last = ctx.launches.last().unwrap();
    assert_eq!(last.kernel.op, KernelOp::Inv);
    assert_eq!(last.kernel.backend, Backend::Cpu);
    assert_eq!(last.name, "hodu_cpu_inv_f64");
    let rect = host(&mut ctx, vec![0; 12], vec![3, 4], DType::F32);
    assert!(matches!(rect.det(&mut ctx), Err(HoduError::InvalidArgument(_))));
    let ints = host(&mut ctx, vec![0; 4], vec![2, 2], DType::I32);
    assert!(matches!(ints.inv(&mut ctx), Err(HoduError::BackendError(_))));
    let b = host(&mut ctx, vec![0; 2], vec![2], DType::F64);
    let x = single.solve(&b, &mut ctx).unwrap();
    assert_eq!(x.layout.shape, vec![2]);
    assert_eq!(ctx.launches.last().unwrap().kernel.op, KernelOp::Matmul);
}

#[test]
fn gradients_are_recorded_for_linear_algebra_only() {
    let mut ctx = Engine::new();
    let m = Tensor::from_bits(&mut ctx, vec![0; 4], vec![2, 2], DType::F32, true).unwrap();
    let d = m.det(&mut ctx).unwrap();
    assert!(d.requires_grad);
    assert_eq!(ctx.tape.len(), 1);
    assert_eq!(ctx.tape[0].op, Op::Linalg(LinalgOp::Det));
    let i = Tensor::from_bits(&mut ctx, vec![1, 2], vec![2], DType::U8, true).unwrap();
    let n = i.bitwise_not(&mut ctx).unwrap();
    assert!(!n.requires_grad);
    assert_eq!(ctx.tape.len(), 1);
}

#[test]
fn device_tensors_queue_launches() {
    let mut ctx = Engine::new();
    let x = Tensor::input(&mut ctx, vec![4], DType::I32, Device::Cuda(0), false).unwrap();
    let y = x.shl_scalar(1, &mut ctx).unwrap();
    assert!(y.storage.is_none());
    let l = ctx.launches.last().unwrap();
    assert_eq!(l.name, "hodu_cuda_shl_scalar_i32");
    assert_eq!(l.scalar, Some(1));
    assert_eq!(l.inputs, vec![x.id]);
    assert_eq!(l.output, y.id);
    assert!(matches!(x.tril(0, &mut ctx), Err(HoduError::InvalidArgument(_))));
    let m = Tensor::input(&mut ctx, vec![2, 2], DType::I32, Device::Metal, false).unwrap();
    let t = m.tril(0, &mut ctx).unwrap();
    assert_eq!(t.layout.shape, vec![2, 2]);
    assert!(t.storage.is_none());
    assert_eq!(ctx.launches.last().unwrap().name, "hodu_metal_tril_i32");
    let d = m.diagonal(1, 0, 1, &mut ctx).unwrap();
    assert_eq!(d.layout.shape, vec![1]);
    assert_eq!(ctx.launches.last().unwrap().name, "hodu_metal_diagonal_i32");
    let v = Tensor::input(&mut ctx, vec![3], DType::U8, Device::Cuda(1), false).unwrap();
    let e = v.diag(-1, &mut ctx).unwrap();
    assert_eq!(e.layout.shape, vec![4, 4]);
    assert_eq!(ctx.launches.last().unwrap().name, "hodu_cuda_diag_u8");
}

#[test]
fn composites_apply_to_pending_results() {
    let mut ctx = Engine::new();
    let a = host(&mut ctx, vec![0; 9], vec![3, 3], DType::F32);
    let inv = a.inv(&mut ctx).unwrap();
    let lower = inv.tril(0, &mut ctx).unwrap();
    assert_eq!(lower.layout.shape, vec![3, 3]);
    assert_eq!(ctx.launches.last().unwrap().name, "hodu_cpu_tril_f32");
}

#[test]
fn linear_algebra_messages() {
    let mut ctx = Engine::new();
    let rect = host(&mut ctx, vec![0; 12], vec![3, 4], DType::F32);
    assert_eq!(rect.det(&mut ctx).unwrap_err(), HoduError::InvalidArgument("det requires square matrix, got 3×4".to_string()));
    let v = host(&mut ctx, vec![0; 2], vec![2], DType::F64);
    assert_eq!(v.trace(&mut ctx).unwrap_err(), HoduError::InvalidArgument("trace requires at least 2D tensor".to_string()));
    assert_eq!(v.triu(0, &mut ctx).unwrap_err(), HoduError::InvalidArgument("triu requires at least 2D tensor".to_string()));
}

#[test]
fn malformed_tensor_data_is_rejected() {
    let mut ctx = Engine::new();
    let before = ctx.next_id;
    let odd = TensorData::new(vec![1, 2, 3], vec![1], PluginDType::U16);
    assert!(matches!(save_tensor_data(&mut ctx, &odd), Err(HoduError::InvalidArgument(_))));
    let short = TensorData::new(vec![1, 2], vec![2], PluginDType::U16);
    assert!(matches!(save_tensor_data(&mut ctx, &short), Err(HoduError::InvalidArgument(_))));
    assert_eq!(ctx.next_id, before);
    let neg = TensorData::new(vec![0xff, 0x7f], vec![2], PluginDType::I8);
    let t = save_tensor_data(&mut ctx, &neg).unwrap();
    assert_eq!(t.to_bits().unwrap(), vec![0xff, 0x7f]);
    assert_eq!(load_tensor_data(&t).unwrap(), neg);
}

#[test]
fn tensor_data_round_trip() {
    let mut ctx = Engine::new();
    let x = host(&mut ctx, vec![0x0102, 0xfffe], vec![2], DType::U16);
    let td = load_tensor_data(&x).unwrap();
    assert_eq!(td.data, vec![0x02, 0x01, 0xfe, 0xff]);
    assert_eq!(td.shape, vec![2]);
    let y = save_tensor_data(&mut ctx, &td).unwrap();
    assert_eq!(y.to_bits().unwrap(), vec![0x0102, 0xfffe]);
    assert_eq!(y.dtype, DType::U16);
}

#[test]
fn malformed_construction_is_rejected() {
    let mut ctx = Engine::new();
    assert!(matches!(Tensor::from_bits(&mut ctx, vec![1, 2], vec![3], DType::U8, false), Err(HoduError::InvalidArgument(_))));
    assert!(matches!(Tensor::from_bits(&mut ctx, vec![256], vec![1], DType::U8, false), Err(HoduError::InvalidArgument(_))));
}

#[test]
fn device_strings() {
    assert_eq!(Device::parse("cpu"), Some(Device::Cpu));
    assert_eq!(Device::parse("cuda"), Some(Device::Cuda(0)));
    assert_eq!(Device::parse("cuda::3"), Some(Device::Cuda(3)));
    assert_eq!(Device::parse("cuda::x"), None);
    assert_eq!(Device::parse("metal"), Some(Device::Metal));
    assert_eq!(Device::parse("cpu::1"), None);
    assert_eq!(Device::parse("webgpu"), None);
}

#[test]
fn solve_returns_the_inverse_error() {
    let mut ctx = Engine::new();
    let rect = host(&mut ctx, vec![0; 6], vec![2, 3], DType::F32);
    let b = host(&mut ctx, vec![0; 2], vec![2], DType::F32);
    assert_eq!(rect.solve(&b, &mut ctx).unwrap_err(), HoduError::InvalidArgument("inv requires square matrix, got 2×3".to_string()));
    let v = host(&mut ctx, vec![0; 2], vec![2], DType::F32);
    assert_eq!(v.solve(&b, &mut ctx).unwrap_err(), HoduError::InvalidArgument("inv requires at least 2D tensor".to_string()));
}

#[test]
fn diagonal_messages() {
    let mut ctx = Engine::new();
    let x = host(&mut ctx, vec![0; 8], vec![2, 2, 2], DType::U8);
    assert_eq!(x.diagonal(0, 0, 5, &mut ctx).unwrap_err(), HoduError::InvalidArgument("diagonal dimensions out of range for 3D tensor".to_string()));
    assert_eq!(x.diagonal(0, 1, -2, &mut ctx).unwrap_err(), HoduError::InvalidArgument("diagonal dimensions must be different".to_string()));
    assert_eq!(x.diag(0, &mut ctx).unwrap_err(), HoduError::InvalidArgument("diag requires 1D or 2D tensor".to_string()));
}

#[test]
fn queued_launches_carry_metadata_and_shift() {
    let mut ctx = Engine::new();
    let x = Tensor::input(&mut ctx, vec![2, 3], DType::U16, Device::Metal, false).unwrap();
    x.shr_scalar(3, &mut ctx).unwrap();
    let l = ctx.launches.last().unwrap();
    assert_eq!(l.name, "hodu_metal_shr_scalar_u16");
    assert_eq!(l.scalar, Some(3));
    assert_eq!(l.metadata, vec![6, 2, 2, 3, 3, 1, 0]);
    let m = host(&mut ctx, vec![0; 4], vec![2, 2], DType::F32);
    m.det(&mut ctx).unwrap();
    let d = ctx.launches.last().unwrap();
    assert_eq!(d.metadata, vec![1, 2, 2, 2, 2, 1, 0]);
    assert_eq!(d.scalar, None);
}
