//! Laws that relate several calls of the façade: the same operation on the
//! same inputs, once recorded and once executed, hands out tensors with the
//! same layout, element type and id; and the bitwise family takes exactly the
//! integer element types.

use crate::bitwise::{binary_outcome, unary_outcome};
use crate::dtype::DType;
use crate::error::HoduError;
use crate::kernel::KernelOp;
use crate::diag::diagonal_outcome;
use crate::linalg::{linalg_outcome, triangle_outcome};
use crate::ops::{op_accepts, BitwiseBinaryOp, BitwiseUnaryOp, BitwiseUnaryScalarOp, LinalgOp, Op, OpParams};
use crate::tensor::{Engine, Tensor};
use vstd::prelude::*;

verus! {

/// Two results agree on everything user code observes besides storage.
pub open spec fn same_handle(a: Result<Tensor, HoduError>, b: Result<Tensor, HoduError>) -> bool {
    &&& (a is Ok <==> b is Ok)
    &&& a is Ok ==> a->Ok_0.layout@ == b->Ok_0.layout@ && a->Ok_0.dtype == b->Ok_0.dtype
        && a->Ok_0.id == b->Ok_0.id && a->Ok_0.requires_grad == b->Ok_0.requires_grad
}

/// A binary bitwise operation gives the same handle whether it is recorded
/// (`c0` capturing) or executed (`e0` executing), from engines at the same id.
pub proof fn lemma_capture_execute_binary(
    lhs: Tensor,
    rhs: Tensor,
    op: BitwiseBinaryOp,
    e0: &Engine,
    e1: &Engine,
    re: Result<Tensor, HoduError>,
    c0: &Engine,
    c1: &Engine,
    rc: Result<Tensor, HoduError>,
)
    requires
        !e0.capturing,
        c0.capturing,
        e0.next_id == c0.next_id,
        binary_outcome(e0, e1, lhs, rhs, op, re),
        binary_outcome(c0, c1, lhs, rhs, op, rc),
    ensures
        same_handle(re, rc),
{
}

/// A unary bitwise operation or scalar shift gives the same handle whether
/// it is recorded or executed.
pub proof fn lemma_capture_execute_unary(
    x: Tensor,
    op: Op,
    params: OpParams,
    kop: KernelOp,
    scalar: Option<u32>,
    msg: Seq<char>,
    f: spec_fn(u64) -> u64,
    e0: &Engine,
    e1: &Engine,
    re: Result<Tensor, HoduError>,
    c0: &Engine,
    c1: &Engine,
    rc: Result<Tensor, HoduError>,
)
    requires
        !e0.capturing,
        c0.capturing,
        e0.next_id == c0.next_id,
        unary_outcome(e0, e1, x, op, params, kop, scalar, msg, f, re),
        unary_outcome(c0, c1, x, op, params, kop, scalar, msg, f, rc),
    ensures
        same_handle(re, rc),
{
}

/// `det`, `inv` and `trace` give the same handle whether recorded or executed.
pub proof fn lemma_capture_execute_linalg(
    x: Tensor,
    op: LinalgOp,
    e0: &Engine,
    e1: &Engine,
    re: Result<Tensor, HoduError>,
    c0: &Engine,
    c1: &Engine,
    rc: Result<Tensor, HoduError>,
)
    requires
        !e0.capturing,
        c0.capturing,
        e0.next_id == c0.next_id,
        linalg_outcome(e0, e1, x, op, re),
        linalg_outcome(c0, c1, x, op, rc),
    ensures
        same_handle(re, rc),
{
}

/// `tril` and `triu` give the same handle whether recorded or executed.
pub proof fn lemma_capture_execute_triangle(
    x: Tensor,
    k: i32,
    upper: bool,
    e0: &Engine,
    e1: &Engine,
    re: Result<Tensor, HoduError>,
    c0: &Engine,
    c1: &Engine,
    rc: Result<Tensor, HoduError>,
)
    requires
        !e0.capturing,
        c0.capturing,
        e0.next_id == c0.next_id,
        triangle_outcome(e0, e1, x, k, upper, re),
        triangle_outcome(c0, c1, x, k, upper, rc),
    ensures
        same_handle(re, rc),
{
}

/// `diagonal` gives the same handle whether recorded or executed.
pub proof fn lemma_capture_execute_diagonal(
    x: Tensor,
    k: i32,
    dim1: i32,
    dim2: i32,
    e0: &Engine,
    e1: &Engine,
    re: Result<Tensor, HoduError>,
    c0: &Engine,
    c1: &Engine,
    rc: Result<Tensor, HoduError>,
)
    requires
        !e0.capturing,
        c0.capturing,
        e0.next_id == c0.next_id,
        diagonal_outcome(e0, e1, x, k, dim1, dim2, re),
        diagonal_outcome(c0, c1, x, k, dim1, dim2, rc),
    ensures
        same_handle(re, rc),
{
}

/// The integer element types.
pub open spec fn integer_types() -> Set<DType> {
    set![DType::U8, DType::U16, DType::U32, DType::U64, DType::I8, DType::I16, DType::I32, DType::I64]
}

/// Every bitwise operation accepts exactly the integer element types.
pub proof fn lemma_bitwise_dtype_discipline(d: DType)
    ensures
        forall|b: BitwiseBinaryOp| op_accepts(Op::BitwiseBinary(b), d) <==> integer_types().contains(d),
        op_accepts(Op::BitwiseUnary(BitwiseUnaryOp::Not), d) <==> integer_types().contains(d),
        forall|s: BitwiseUnaryScalarOp| op_accepts(Op::BitwiseUnaryScalar(s), d) <==> integer_types().contains(d),
{
}

} // verus!
