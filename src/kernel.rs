//! Kernel identifiers: `hodu_<backend>_<op>_<dtype>`, the sole binding
//! between the operation catalogue and the kernel tables.

use crate::device::str_eq;
use crate::dtype::{dtype_name, DType};
use crate::ops::{BitwiseBinaryOp, BitwiseUnaryOp, BitwiseUnaryScalarOp, LinalgOp};
use vstd::prelude::*;

verus! {

/// An execution target with its own kernel library.
#[derive(Clone, Copy, Debug, PartialEq, Eq, Structural)]
pub enum Backend {
    Cpu,
    Cuda,
    Metal,
}

/// The operation part of a kernel identifier.
#[derive(Clone, Copy, Debug, PartialEq, Eq, Structural)]
pub enum KernelOp {
    Shl,
    Shr,
    BitwiseAnd,
    BitwiseOr,
    BitwiseXor,
    BitwiseNot,
    ShlScalar,
    ShrScalar,
    Det,
    Inv,
    Trace,
    Matmul,
    Tril,
    Triu,
    Diag,
    Diagonal,
}

/// A kernel: backend, operation and element type.
#[derive(Clone, Copy, Debug, PartialEq, Eq, Structural)]
pub struct KernelId {
    pub backend: Backend,
    pub op: KernelOp,
    pub dtype: DType,
}

pub open spec fn backend_name(b: Backend) -> Seq<char> {
    match b {
        Backend::Cpu => "cpu"@,
        Backend::Cuda => "cuda"@,
        Backend::Metal => "metal"@,
    }
}

pub open spec fn kernel_op_name(o: KernelOp) -> Seq<char> {
    match o {
        KernelOp::Shl => "shl"@,
        KernelOp::Shr => "shr"@,
        KernelOp::BitwiseAnd => "bitwise_and"@,
        KernelOp::BitwiseOr => "bitwise_or"@,
        KernelOp::BitwiseXor => "bitwise_xor"@,
        KernelOp::BitwiseNot => "bitwise_not"@,
        KernelOp::ShlScalar => "shl_scalar"@,
        KernelOp::ShrScalar => "shr_scalar"@,
        KernelOp::Det => "det"@,
        KernelOp::Inv => "inv"@,
        KernelOp::Trace => "trace"@,
        KernelOp::Matmul => "matmul"@,
        KernelOp::Tril => "tril"@,
        KernelOp::Triu => "triu"@,
        KernelOp::Diag => "diag"@,
        KernelOp::Diagonal => "diagonal"@,
    }
}

/// The mangled identifier of a kernel.
pub open spec fn mangle_of(k: KernelId) -> Seq<char> {
    "hodu_"@ + backend_name(k.backend) + "_"@ + kernel_op_name(k.op) + "_"@ + dtype_name(k.dtype)
}

pub open spec fn binary_kernel_op(op: BitwiseBinaryOp) -> KernelOp {
    match op {
        BitwiseBinaryOp::Shl => KernelOp::Shl,
        BitwiseBinaryOp::Shr => KernelOp::Shr,
        BitwiseBinaryOp::And => KernelOp::BitwiseAnd,
        BitwiseBinaryOp::Or => KernelOp::BitwiseOr,
        BitwiseBinaryOp::Xor => KernelOp::BitwiseXor,
    }
}

pub open spec fn scalar_kernel_op(op: BitwiseUnaryScalarOp) -> KernelOp {
    match op {
        BitwiseUnaryScalarOp::ShlScalar => KernelOp::ShlScalar,
        BitwiseUnaryScalarOp::ShrScalar => KernelOp::ShrScalar,
    }
}

pub open spec fn linalg_kernel_op(op: LinalgOp) -> KernelOp {
    match op {
        LinalgOp::Det => KernelOp::Det,
        LinalgOp::Inv => KernelOp::Inv,
        LinalgOp::Trace => KernelOp::Trace,
        LinalgOp::Matmul => KernelOp::Matmul,
    }
}

impl Backend {
    pub fn as_str(self) -> (r: &'static str)
        ensures
            r@ == backend_name(self),
    {
        match self {
            Backend::Cpu => "cpu",
            Backend::Cuda => "cuda",
            Backend::Metal => "metal",
        }
    }
}

impl KernelOp {
    pub fn as_str(self) -> (r: &'static str)
        ensures
            r@ == kernel_op_name(self),
    {
        match self {
            KernelOp::Shl => "shl",
            KernelOp::Shr => "shr",
            KernelOp::BitwiseAnd => "bitwise_and",
            KernelOp::BitwiseOr => "bitwise_or",
            KernelOp::BitwiseXor => "bitwise_xor",
            KernelOp::BitwiseNot => "bitwise_not",
            KernelOp::ShlScalar => "shl_scalar",
            KernelOp::ShrScalar => "shr_scalar",
            KernelOp::Det => "det",
            KernelOp::Inv => "inv",
            KernelOp::Trace => "trace",
            KernelOp::Matmul => "matmul",
            KernelOp::Tril => "tril",
            KernelOp::Triu => "triu",
            KernelOp::Diag => "diag",
            KernelOp::Diagonal => "diagonal",
        }
    }

    pub fn from_binary(op: BitwiseBinaryOp) -> (r: KernelOp)
        ensures
            r == binary_kernel_op(op),
    {
        match op {
            BitwiseBinaryOp::Shl => KernelOp::Shl,
            BitwiseBinaryOp::Shr => KernelOp::Shr,
            BitwiseBinaryOp::And => KernelOp::BitwiseAnd,
            BitwiseBinaryOp::Or => KernelOp::BitwiseOr,
            BitwiseBinaryOp::Xor => KernelOp::BitwiseXor,
        }
    }

    pub fn from_unary(op: BitwiseUnaryOp) -> (r: KernelOp)
        ensures
            r == KernelOp::BitwiseNot,
    {
        match op {
            BitwiseUnaryOp::Not => KernelOp::BitwiseNot,
        }
    }

    pub fn from_scalar(op: BitwiseUnaryScalarOp) -> (r: KernelOp)
        ensures
            r == scalar_kernel_op(op),
    {
        match op {
            BitwiseUnaryScalarOp::ShlScalar => KernelOp::ShlScalar,
            BitwiseUnaryScalarOp::ShrScalar => KernelOp::ShrScalar,
        }
    }

    pub fn from_linalg(op: LinalgOp) -> (r: KernelOp)
        ensures
            r == linalg_kernel_op(op),
    {
        match op {
            LinalgOp::Det => KernelOp::Det,
            LinalgOp::Inv => KernelOp::Inv,
            LinalgOp::Trace => KernelOp::Trace,
            LinalgOp::Matmul => KernelOp::Matmul,
        }
    }
}

/// The mangled identifier `hodu_<backend>_<op>_<dtype>` of a kernel.
pub fn mangle(k: KernelId) -> (r: String)
    ensures
        r@ == mangle_of(k),
{
    let mut s = String::from_str("hodu_");
    s.append(k.backend.as_str());
    s.append("_");
    s.append(k.op.as_str());
    s.append("_");
    s.append(k.dtype.as_str());
    s
}

pub open spec fn backend_of_name(s: Seq<char>) -> Option<Backend> {
    if s == "cpu"@ {
        Some(Backend::Cpu)
    } else if s == "cuda"@ {
        Some(Backend::Cuda)
    } else if s == "metal"@ {
        Some(Backend::Metal)
    } else {
        None
    }
}

pub open spec fn kernel_op_of_name(s: Seq<char>) -> Option<KernelOp> {
    if s == "shl"@ {
        Some(KernelOp::Shl)
    } else if s == "shr"@ {
        Some(KernelOp::Shr)
    } else if s == "bitwise_and"@ {
        Some(KernelOp::BitwiseAnd)
    } else if s == "bitwise_or"@ {
        Some(KernelOp::BitwiseOr)
    } else if s == "bitwise_xor"@ {
        Some(KernelOp::BitwiseXor)
    } else if s == "bitwise_not"@ {
        Some(KernelOp::BitwiseNot)
    } else if s == "shl_scalar"@ {
        Some(KernelOp::ShlScalar)
    } else if s == "shr_scalar"@ {
        Some(KernelOp::ShrScalar)
    } else if s == "det"@ {
        Some(KernelOp::Det)
    } else if s == "inv"@ {
        Some(KernelOp::Inv)
    } else if s == "trace"@ {
        Some(KernelOp::Trace)
    } else if s == "matmul"@ {
        Some(KernelOp::Matmul)
    } else if s == "tril"@ {
        Some(KernelOp::Tril)
    } else if s == "triu"@ {
        Some(KernelOp::Triu)
    } else if s == "diag"@ {
        Some(KernelOp::Diag)
    } else if s == "diagonal"@ {
        Some(KernelOp::Diagonal)
    } else {
        None
    }
}

pub open spec fn dtype_of_name(s: Seq<char>) -> Option<DType> {
    if s == "bool"@ {
        Some(DType::BOOL)
    } else if s == "f8e4m3"@ {
        Some(DType::F8E4M3)
    } else if s == "f8e5m2"@ {
        Some(DType::F8E5M2)
    } else if s == "bf16"@ {
        Some(DType::BF16)
    } else if s == "f16"@ {
        Some(DType::F16)
    } else if s == "f32"@ {
        Some(DType::F32)
    } else if s == "f64"@ {
        Some(DType::F64)
    } else if s == "u8"@ {
        Some(DType::U8)
    } else if s == "u16"@ {
        Some(DType::U16)
    } else if s == "u32"@ {
        Some(DType::U32)
    } else if s == "u64"@ {
        Some(DType::U64)
    } else if s == "i8"@ {
        Some(DType::I8)
    } else if s == "i16"@ {
        Some(DType::I16)
    } else if s == "i32"@ {
        Some(DType::I32)
    } else if s == "i64"@ {
        Some(DType::I64)
    } else {
        None
    }
}

fn backend_from_name(s: &str) -> (r: Option<Backend>)
    ensures
        r == backend_of_name(s@),
{
    if str_eq(s, "cpu") {
        Some(Backend::Cpu)
    } else if str_eq(s, "cuda") {
        Some(Backend::Cuda)
    } else if str_eq(s, "metal") {
        Some(Backend::Metal)
    } else {
        None
    }
}

fn kernel_op_from_name(s: &str) -> (r: Option<KernelOp>)
    ensures
        r == kernel_op_of_name(s@),
{
    if str_eq(s, "shl") {
        Some(KernelOp::Shl)
    } else if str_eq(s, "shr") {
        Some(KernelOp::Shr)
    } else if str_eq(s, "bitwise_and") {
        Some(KernelOp::BitwiseAnd)
    } else if str_eq(s, "bitwise_or") {
        Some(KernelOp::BitwiseOr)
    } else if str_eq(s, "bitwise_xor") {
        Some(KernelOp::BitwiseXor)
    } else if str_eq(s, "bitwise_not") {
        Some(KernelOp::BitwiseNot)
    } else if str_eq(s, "shl_scalar") {
        Some(KernelOp::ShlScalar)
    } else if str_eq(s, "shr_scalar") {
        Some(KernelOp::ShrScalar)
    } else if str_eq(s, "det") {
        Some(KernelOp::Det)
    } else if str_eq(s, "inv") {
        Some(KernelOp::Inv)
    } else if str_eq(s, "trace") {
        Some(KernelOp::Trace)
    } else if str_eq(s, "matmul") {
        Some(KernelOp::Matmul)
    } else if str_eq(s, "tril") {
        Some(KernelOp::Tril)
    } else if str_eq(s, "triu") {
        Some(KernelOp::Triu)
    } else if str_eq(s, "diag") {
        Some(KernelOp::Diag)
    } else if str_eq(s, "diagonal") {
        Some(KernelOp::Diagonal)
    } else {
        None
    }
}

fn dtype_from_name(s: &str) -> (r: Option<DType>)
    ensures
        r == dtype_of_name(s@),
{
    if str_eq(s, "bool") {
        Some(DType::BOOL)
    } else if str_eq(s, "f8e4m3") {
        Some(DType::F8E4M3)
    } else if str_eq(s, "f8e5m2") {
        Some(DType::F8E5M2)
    } else if str_eq(s, "bf16") {
        Some(DType::BF16)
    } else if str_eq(s, "f16") {
        Some(DType::F16)
    } else if str_eq(s, "f32") {
        Some(DType::F32)
    } else if str_eq(s, "f64") {
        Some(DType::F64)
    } else if str_eq(s, "u8") {
        Some(DType::U8)
    } else if str_eq(s, "u16") {
        Some(DType::U16)
    } else if str_eq(s, "u32") {
        Some(DType::U32)
    } else if str_eq(s, "u64") {
        Some(DType::U64)
    } else if str_eq(s, "i8") {
        Some(DType::I8)
    } else if str_eq(s, "i16") {
        Some(DType::I16)
    } else if str_eq(s, "i32") {
        Some(DType::I32)
    } else if str_eq(s, "i64") {
        Some(DType::I64)
    } else {
        None
    }
}

proof fn lemma_backend_names(b: Backend)
    ensures
        backend_of_name(backend_name(b)) == Some(b),
        no_underscore(backend_name(b)),
{
    reveal_strlit("cpu");
    reveal_strlit("cuda");
    reveal_strlit("metal");
    match b {
        Backend::Cpu => {
            assert(no_underscore("cpu"@));
        },
        Backend::Cuda => {
            assert("cuda"@.len() != "cpu"@.len());
            assert(no_underscore("cuda"@));
        },
        Backend::Metal => {
            assert("metal"@.len() != "cpu"@.len());
            assert("metal"@.len() != "cuda"@.len());
            assert(no_underscore("metal"@));
        },
    }
}

proof fn lemma_kernel_op_names(o: KernelOp)
    ensures
        kernel_op_of_name(kernel_op_name(o)) == Some(o),
{
    reveal_strlit("shl");
    reveal_strlit("shr");
    reveal_strlit("bitwise_and");
    reveal_strlit("bitwise_or");
    reveal_strlit("bitwise_xor");
    reveal_strlit("bitwise_not");
    reveal_strlit("shl_scalar");
    reveal_strlit("shr_scalar");
    reveal_strlit("det");
    reveal_strlit("inv");
    reveal_strlit("trace");
    reveal_strlit("matmul");
    reveal_strlit("tril");
    reveal_strlit("triu");
    reveal_strlit("diag");
    reveal_strlit("diagonal");
    match o {
        KernelOp::Shl => {
        },
        KernelOp::Shr => {
            assert("shr"@[2] != "shl"@[2]);
        },
        KernelOp::BitwiseAnd => {
            assert("bitwise_and"@.len() != "shl"@.len());
            assert("bitwise_and"@.len() != "shr"@.len());
        },
        KernelOp::BitwiseOr => {
            assert("bitwise_or"@.len() != "shl"@.len());
            assert("bitwise_or"@.len() != "shr"@.len());
            assert("bitwise_or"@.len() != "bitwise_and"@.len());
        },
        KernelOp::BitwiseXor => {
            assert("bitwise_xor"@.len() != "shl"@.len());
            assert("bitwise_xor"@.len() != "shr"@.len());
            assert("bitwise_xor"@[8] != "bitwise_and"@[8]);
            assert("bitwise_xor"@.len() != "bitwise_or"@.len());
        },
        KernelOp::BitwiseNot => {
            assert("bitwise_not"@.len() != "shl"@.len());
            assert("bitwise_not"@.len() != "shr"@.len());
            assert("bitwise_not"@[8] != "bitwise_and"@[8]);
            assert("bitwise_not"@.len() != "bitwise_or"@.len());
            assert("bitwise_not"@[8] != "bitwise_xor"@[8]);
        },
        KernelOp::ShlScalar => {
            assert("shl_scalar"@.len() != "shl"@.len());
            assert("shl_scalar"@.len() != "shr"@.len());
            assert("shl_scalar"@.len() != "bitwise_and"@.len());
            assert("shl_scalar"@[0] != "bitwise_or"@[0]);
            assert("shl_scalar"@.len() != "bitwise_xor"@.len());
            assert("shl_scalar"@.len() != "bitwise_not"@.len());
        },
        KernelOp::ShrScalar => {
            assert("shr_scalar"@.len() != "shl"@.len());
            assert("shr_scalar"@.len() != "shr"@.len());
            assert("shr_scalar"@.len() != "bitwise_and"@.len());
            assert("shr_scalar"@[0] != "bitwise_or"@[0]);
            assert("shr_scalar"@.len() != "bitwise_xor"@.len());
            assert("shr_scalar"@.len() != "bitwise_not"@.len());
            assert("shr_scalar"@[2] != "shl_scalar"@[2]);
        },
        KernelOp::Det => {
            assert("det"@[0] != "shl"@[0]);
            assert("det"@[0] != "shr"@[0]);
            assert("det"@.len() != "bitwise_and"@.len());
            assert("det"@.len() != "bitwise_or"@.len());
            assert("det"@.len() != "bitwise_xor"@.len());
            assert("det"@.len() != "bitwise_not"@.len());
            assert("det"@.len() != "shl_scalar"@.len());
            assert("det"@.len() != "shr_scalar"@.len());
        },
        KernelOp::Inv => {
            assert("inv"@[0] != "shl"@[0]);
            assert("inv"@[0] != "shr"@[0]);
            assert("inv"@.len() != "bitwise_and"@.len());
            assert("inv"@.len() != "bitwise_or"@.len());
            assert("inv"@.len() != "bitwise_xor"@.len());
            assert("inv"@.len() != "bitwise_not"@.len());
            assert("inv"@.len() != "shl_scalar"@.len());
            assert("inv"@.len() != "shr_scalar"@.len());
            assert("inv"@[0] != "det"@[0]);
        },
        KernelOp::Trace => {
            assert("trace"@.len() != "shl"@.len());
            assert("trace"@.len() != "shr"@.len());
            assert("trace"@.len() != "bitwise_and"@.len());
            assert("trace"@.len() != "bitwise_or"@.len());
            assert("trace"@.len() != "bitwise_xor"@.len());
            assert("trace"@.len() != "bitwise_not"@.len());
            assert("trace"@.len() != "shl_scalar"@.len());
            assert("trace"@.len() != "shr_scalar"@.len());
            assert("trace"@.len() != "det"@.len());
            assert("trace"@.len() != "inv"@.len());
        },
        KernelOp::Matmul => {
            assert("matmul"@.len() != "shl"@.len());
            assert("matmul"@.len() != "shr"@.len());
            assert("matmul"@.len() != "bitwise_and"@.len());
            assert("matmul"@.len() != "bitwise_or"@.len());
            assert("matmul"@.len() != "bitwise_xor"@.len());
            assert("matmul"@.len() != "bitwise_not"@.len());
            assert("matmul"@.len() != "shl_scalar"@.len());
            assert("matmul"@.len() != "shr_scalar"@.len());
            assert("matmul"@.len() != "det"@.len());
            assert("matmul"@.len() != "inv"@.len());
            assert("matmul"@.len() != "trace"@.len());
        },
        KernelOp::Tril => {
            assert("tril"@.len() != "shl"@.len());
            assert("tril"@.len() != "shr"@.len());
            assert("tril"@.len() != "bitwise_and"@.len());
            assert("tril"@.len() != "bitwise_or"@.len());
            assert("tril"@.len() != "bitwise_xor"@.len());
            assert("tril"@.len() != "bitwise_not"@.len());
            assert("tril"@.len() != "shl_scalar"@.len());
            assert("tril"@.len() != "shr_scalar"@.len());
            assert("tril"@.len() != "det"@.len());
            assert("tril"@.len() != "inv"@.len());
            assert("tril"@.len() != "trace"@.len());
            assert("tril"@.len() != "matmul"@.len());
        },
        KernelOp::Triu => {
            assert("triu"@.len() != "shl"@.len());
            assert("triu"@.len() != "shr"@.len());
            assert("triu"@.len() != "bitwise_and"@.len());
            assert("triu"@.len() != "bitwise_or"@.len());
            assert("triu"@.len() != "bitwise_xor"@.len());
            assert("triu"@.len() != "bitwise_not"@.len());
            assert("triu"@.len() != "shl_scalar"@.len());
            assert("triu"@.len() != "shr_scalar"@.len());
            assert("triu"@.len() != "det"@.len());
            assert("triu"@.len() != "inv"@.len());
            assert("triu"@.len() != "trace"@.len());
            assert("triu"@.len() != "matmul"@.len());
            assert("triu"@[3] != "tril"@[3]);
        },
        KernelOp::Diag => {
            assert("diag"@.len() != "shl"@.len());
            assert("diag"@.len() != "shr"@.len());
            assert("diag"@.len() != "bitwise_and"@.len());
            assert("diag"@.len() != "bitwise_or"@.len());
            assert("diag"@.len() != "bitwise_xor"@.len());
            assert("diag"@.len() != "bitwise_not"@.len());
            assert("diag"@.len() != "shl_scalar"@.len());
            assert("diag"@.len() != "shr_scalar"@.len());
            assert("diag"@.len() != "det"@.len());
            assert("diag"@.len() != "inv"@.len());
            assert("diag"@.len() != "trace"@.len());
            assert("diag"@.len() != "matmul"@.len());
            assert("diag"@[0] != "tril"@[0]);
            assert("diag"@[0] != "triu"@[0]);
        },
        KernelOp::Diagonal => {
            assert("diagonal"@.len() != "shl"@.len());
            assert("diagonal"@.len() != "shr"@.len());
            assert("diagonal"@.len() != "bitwise_and"@.len());
            assert("diagonal"@.len() != "bitwise_or"@.len());
            assert("diagonal"@.len() != "bitwise_xor"@.len());
            assert("diagonal"@.len() != "bitwise_not"@.len());
            assert("diagonal"@.len() != "shl_scalar"@.len());
            assert("diagonal"@.len() != "shr_scalar"@.len());
            assert("diagonal"@.len() != "det"@.len());
            assert("diagonal"@.len() != "inv"@.len());
            assert("diagonal"@.len() != "trace"@.len());
            assert("diagonal"@.len() != "matmul"@.len());
            assert("diagonal"@.len() != "tril"@.len());
            assert("diagonal"@.len() != "triu"@.len());
            assert("diagonal"@.len() != "diag"@.len());
        },
    }
}

proof fn lemma_dtype_names(d: DType)
    ensures
        dtype_of_name(dtype_name(d)) == Some(d),
        no_underscore(dtype_name(d)),
{
    reveal_strlit("bool");
    reveal_strlit("f8e4m3");
    reveal_strlit("f8e5m2");
    reveal_strlit("bf16");
    reveal_strlit("f16");
    reveal_strlit("f32");
    reveal_strlit("f64");
    reveal_strlit("u8");
    reveal_strlit("u16");
    reveal_strlit("u32");
    reveal_strlit("u64");
    reveal_strlit("i8");
    reveal_strlit("i16");
    reveal_strlit("i32");
    reveal_strlit("i64");
    match d {
        DType::BOOL => {
            assert(no_underscore("bool"@));
        },
        DType::F8E4M3 => {
            assert("f8e4m3"@.len() != "bool"@.len());
            assert(no_underscore("f8e4m3"@));
        },
        DType::F8E5M2 => {
            assert("f8e5m2"@.len() != "bool"@.len());
            assert("f8e5m2"@[3] != "f8e4m3"@[3]);
            assert(no_underscore("f8e5m2"@));
        },
        DType::BF16 => {
            assert("bf16"@[1] != "bool"@[1]);
            assert("bf16"@.len() != "f8e4m3"@.len());
            assert("bf16"@.len() != "f8e5m2"@.len());
            assert(no_underscore("bf16"@));
        },
        DType::F16 => {
            assert("f16"@.len() != "bool"@.len());
            assert("f16"@.len() != "f8e4m3"@.len());
            assert("f16"@.len() != "f8e5m2"@.len());
            assert("f16"@.len() != "bf16"@.len());
            assert(no_underscore("f16"@));
        },
        DType::F32 => {
            assert("f32"@.len() != "bool"@.len());
            assert("f32"@.len() != "f8e4m3"@.len());
            assert("f32"@.len() != "f8e5m2"@.len());
            assert("f32"@.len() != "bf16"@.len());
            assert("f32"@[1] != "f16"@[1]);
            assert(no_underscore("f32"@));
        },
        DType::F64 => {
            assert("f64"@.len() != "bool"@.len());
            assert("f64"@.len() != "f8e4m3"@.len());
            assert("f64"@.len() != "f8e5m2"@.len());
            assert("f64"@.len() != "bf16"@.len());
            assert("f64"@[1] != "f16"@[1]);
            assert("f64"@[1] != "f32"@[1]);
            assert(no_underscore("f64"@));
        },
        DType::U8 => {
            assert("u8"@.len() != "bool"@.len());
            assert("u8"@.len() != "f8e4m3"@.len());
            assert("u8"@.len() != "f8e5m2"@.len());
            assert("u8"@.len() != "bf16"@.len());
            assert("u8"@.len() != "f16"@.len());
            assert("u8"@.len() != "f32"@.len());
            assert("u8"@.len() != "f64"@.len());
            assert(no_underscore("u8"@));
        },
        DType::U16 => {
            assert("u16"@.len() != "bool"@.len());
            assert("u16"@.len() != "f8e4m3"@.len());
            assert("u16"@.len() != "f8e5m2"@.len());
            assert("u16"@.len() != "bf16"@.len());
            assert("u16"@[0] != "f16"@[0]);
            assert("u16"@[0] != "f32"@[0]);
            assert("u16"@[0] != "f64"@[0]);
            assert("u16"@.len() != "u8"@.len());
            assert(no_underscore("u16"@));
        },
        DType::U32 => {
            assert("u32"@.len() != "bool"@.len());
            assert("u32"@.len() != "f8e4m3"@.len());
            assert("u32"@.len() != "f8e5m2"@.len());
            assert("u32"@.len() != "bf16"@.len());
            assert("u32"@[0] != "f16"@[0]);
            assert("u32"@[0] != "f32"@[0]);
            assert("u32"@[0] != "f64"@[0]);
            assert("u32"@.len() != "u8"@.len());
            assert("u32"@[1] != "u16"@[1]);
            assert(no_underscore("u32"@));
        },
        DType::U64 => {
            assert("u64"@.len() != "bool"@.len());
            assert("u64"@.len() != "f8e4m3"@.len());
            assert("u64"@.len() != "f8e5m2"@.len());
            assert("u64"@.len() != "bf16"@.len());
            assert("u64"@[0] != "f16"@[0]);
            assert("u64"@[0] != "f32"@[0]);
            assert("u64"@[0] != "f64"@[0]);
            assert("u64"@.len() != "u8"@.len());
            assert("u64"@[1] != "u16"@[1]);
            assert("u64"@[1] != "u32"@[1]);
            assert(no_underscore("u64"@));
        },
        DType::I8 => {
            assert("i8"@.len() != "bool"@.len());
            assert("i8"@.len() != "f8e4m3"@.len());
            assert("i8"@.len() != "f8e5m2"@.len());
            assert("i8"@.len() != "bf16"@.len());
            assert("i8"@.len() != "f16"@.len());
            assert("i8"@.len() != "f32"@.len());
            assert("i8"@.len() != "f64"@.len());
            assert("i8"@[0] != "u8"@[0]);
            assert("i8"@.len() != "u16"@.len());
            assert("i8"@.len() != "u32"@.len());
            assert("i8"@.len() != "u64"@.len());
            assert(no_underscore("i8"@));
        },
        DType::I16 => {
            assert("i16"@.len() != "bool"@.len());
            assert("i16"@.len() != "f8e4m3"@.len());
            assert("i16"@.len() != "f8e5m2"@.len());
            assert("i16"@.len() != "bf16"@.len());
            assert("i16"@[0] != "f16"@[0]);
            assert("i16"@[0] != "f32"@[0]);
            assert("i16"@[0] != "f64"@[0]);
            assert("i16"@.len() != "u8"@.len());
            assert("i16"@[0] != "u16"@[0]);
            assert("i16"@[0] != "u32"@[0]);
            assert("i16"@[0] != "u64"@[0]);
            assert("i16"@.len() != "i8"@.len());
            assert(no_underscore("i16"@));
        },
        DType::I32 => {
            assert("i32"@.len() != "bool"@.len());
            assert("i32"@.len() != "f8e4m3"@.len());
            assert("i32"@.len() != "f8e5m2"@.len());
            assert("i32"@.len() != "bf16"@.len());
            assert("i32"@[0] != "f16"@[0]);
            assert("i32"@[0] != "f32"@[0]);
            assert("i32"@[0] != "f64"@[0]);
            assert("i32"@.len() != "u8"@.len());
            assert("i32"@[0] != "u16"@[0]);
            assert("i32"@[0] != "u32"@[0]);
            assert("i32"@[0] != "u64"@[0]);
            assert("i32"@.len() != "i8"@.len());
            assert("i32"@[1] != "i16"@[1]);
            assert(no_underscore("i32"@));
        },
        DType::I64 => {
            assert("i64"@.len() != "bool"@.len());
            assert("i64"@.len() != "f8e4m3"@.len());
            assert("i64"@.len() != "f8e5m2"@.len());
            assert("i64"@.len() != "bf16"@.len());
            assert("i64"@[0] != "f16"@[0]);
            assert("i64"@[0] != "f32"@[0]);
            assert("i64"@[0] != "f64"@[0]);
            assert("i64"@.len() != "u8"@.len());
            assert("i64"@[0] != "u16"@[0]);
            assert("i64"@[0] != "u32"@[0]);
            assert("i64"@[0] != "u64"@[0]);
            assert("i64"@.len() != "i8"@.len());
            assert("i64"@[1] != "i16"@[1]);
            assert("i64"@[1] != "i32"@[1]);
            assert(no_underscore("i64"@));
        },
    }
}

pub open spec fn no_underscore(s: Seq<char>) -> bool {
    forall|i: int| 0 <= i < s.len() ==> #[trigger] s[i] != '_'
}

/// First position at or after `i` holding `_`, or the length when there is none.
pub open spec fn first_underscore(s: Seq<char>, i: int) -> int
    decreases s.len() - i,
{
    if i < 0 || i >= s.len() {
        s.len() as int
    } else if s[i] == '_' {
        i
    } else {
        first_underscore(s, i + 1)
    }
}

/// Last position before `j` holding `_`, or -1 when there is none.
pub open spec fn last_underscore(s: Seq<char>, j: int) -> int
    decreases j,
{
    if j <= 0 || j > s.len() {
        -1
    } else if s[j - 1] == '_' {
        j - 1
    } else {
        last_underscore(s, j - 1)
    }
}

/// The kernel a mangled identifier names: after the prefix `hodu_`, the
/// backend runs up to the first `_`, the element type follows the last `_`,
/// and the operation lies between them.
pub open spec fn demangle_of(s: Seq<char>) -> Option<KernelId> {
    if s.len() < 5 || s.subrange(0, 5) != "hodu_"@ {
        None
    } else {
        let r = s.subrange(5, s.len() as int);
        let p = first_underscore(r, 0);
        let q = last_underscore(r, r.len() as int);
        if q <= p {
            None
        } else {
            match (
                backend_of_name(r.subrange(0, p)),
                kernel_op_of_name(r.subrange(p + 1, q)),
                dtype_of_name(r.subrange(q + 1, r.len() as int)),
            ) {
                (Some(b), Some(o), Some(d)) => Some(KernelId { backend: b, op: o, dtype: d }),
                _ => None,
            }
        }
    }
}

proof fn lemma_first_underscore_at(s: Seq<char>, i: int, b: int)
    requires
        0 <= i <= b < s.len(),
        s[b] == '_',
        forall|k: int| i <= k < b ==> s[k] != '_',
    ensures
        first_underscore(s, i) == b,
    decreases b - i,
{
    if i < b {
        lemma_first_underscore_at(s, i + 1, b);
    }
}

proof fn lemma_first_underscore_bounds(s: Seq<char>, i: int)
    requires
        0 <= i <= s.len(),
    ensures
        i <= first_underscore(s, i) <= s.len(),
        first_underscore(s, i) < s.len() ==> s[first_underscore(s, i)] == '_',
    decreases s.len() - i,
{
    if i < s.len() && s[i] != '_' {
        lemma_first_underscore_bounds(s, i + 1);
    }
}

proof fn lemma_last_underscore_at(s: Seq<char>, e: int, j: int)
    requires
        0 <= e < j <= s.len(),
        s[e] == '_',
        forall|k: int| e < k < j ==> s[k] != '_',
    ensures
        last_underscore(s, j) == e,
    decreases j - e,
{
    if j - 1 > e {
        lemma_last_underscore_at(s, e, j - 1);
    }
}

proof fn lemma_last_underscore_bounds(s: Seq<char>, j: int)
    requires
        0 <= j <= s.len(),
    ensures
        -1 <= last_underscore(s, j) < j,
        last_underscore(s, j) >= 0 ==> s[last_underscore(s, j)] == '_',
    decreases j,
{
    if j > 0 && s[j - 1] != '_' {
        lemma_last_underscore_bounds(s, j - 1);
    }
}

/// Demangling a mangled identifier gives back its backend, operation and
/// element type.
pub proof fn lemma_mangle_round_trip(k: KernelId)
    ensures
        demangle_of(mangle_of(k)) == Some(k),
{
    let bn = backend_name(k.backend);
    let on = kernel_op_name(k.op);
    let dn = dtype_name(k.dtype);
    lemma_backend_names(k.backend);
    lemma_kernel_op_names(k.op);
    lemma_dtype_names(k.dtype);
    reveal_strlit("hodu_");
    reveal_strlit("_");
    let s = mangle_of(k);
    assert(s =~= "hodu_"@ + (bn + "_"@ + on + "_"@ + dn));
    let r = s.subrange(5, s.len() as int);
    assert(r =~= bn + "_"@ + on + "_"@ + dn);
    let p = bn.len() as int;
    let q = r.len() - dn.len() - 1;
    assert(r[p] == '_');
    assert(r[q] == '_');
    assert forall|i: int| 0 <= i < p implies r[i] != '_' by {
        assert(r[i] == bn[i]);
    }
    assert forall|i: int| q < i < r.len() implies r[i] != '_' by {
        assert(r[i] == dn[i - q - 1]);
    }
    lemma_first_underscore_at(r, 0, p);
    lemma_last_underscore_at(r, q, r.len() as int);
    assert(r.subrange(0, p) =~= bn);
    assert(r.subrange(p + 1, q) =~= on);
    assert(r.subrange(q + 1, r.len() as int) =~= dn);
    assert(s.subrange(0, 5) =~= "hodu_"@);
}

fn first_underscore_exec(s: &str, i: usize) -> (r: usize)
    requires
        i <= s@.len(),
    ensures
        r as int == first_underscore(s@, i as int),
        i <= r <= s@.len(),
{
    proof {
        lemma_first_underscore_bounds(s@, i as int);
    }
    let n = s.unicode_len();
    let mut k = i;
    while k < n
        invariant
            i <= k <= n,
            n == s@.len(),
            first_underscore(s@, k as int) == first_underscore(s@, i as int),
        decreases n - k,
    {
        if s.get_char(k) == '_' {
            return k;
        }
        k = k + 1;
    }
    n
}

fn last_underscore_exec(s: &str) -> (r: Option<usize>)
    ensures
        match r {
            Some(e) => e as int == last_underscore(s@, s@.len() as int) && e < s@.len(),
            None => last_underscore(s@, s@.len() as int) == -1,
        },
{
    proof {
        lemma_last_underscore_bounds(s@, s@.len() as int);
    }
    let n = s.unicode_len();
    let mut j = n;
    while j > 0
        invariant
            j <= n,
            n == s@.len(),
            last_underscore(s@, j as int) == last_underscore(s@, n as int),
        decreases j,
    {
        if s.get_char(j - 1) == '_' {
            return Some(j - 1);
        }
        j = j - 1;
    }
    None
}

/// The kernel that a mangled identifier names, if it names one.
pub fn demangle(name: &str) -> (r: Option<KernelId>)
    ensures
        r == demangle_of(name@),
{
    let n = name.unicode_len();
    if n < 5 {
        return None;
    }
    if !str_eq(name.substring_char(0, 5), "hodu_") {
        return None;
    }
    let rest = name.substring_char(5, n);
    let p = first_underscore_exec(rest, 0);
    let q = match last_underscore_exec(rest) {
        Some(q) => q,
        None => {
            return None;
        },
    };
    if q <= p {
        return None;
    }
    let m = rest.unicode_len();
    let b = backend_from_name(rest.substring_char(0, p));
    let o = kernel_op_from_name(rest.substring_char(p + 1, q));
    let d = dtype_from_name(rest.substring_char(q + 1, m));
    match (b, o, d) {
        (Some(b), Some(o), Some(d)) => Some(KernelId { backend: b, op: o, dtype: d }),
        _ => None,
    }
}

} // verus!
