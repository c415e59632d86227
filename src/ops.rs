//! The operation catalogue: op tags, their parameters, and which element
//! types and gradients each accepts.

use crate::dtype::{is_float_dtype, is_integer_dtype, DType};
use vstd::prelude::*;

verus! {

#[derive(Clone, Copy, Debug, PartialEq, Eq, Structural)]
pub enum BitwiseBinaryOp {
    Shl,
    Shr,
    And,
    Or,
    Xor,
}

#[derive(Clone, Copy, Debug, PartialEq, Eq, Structural)]
pub enum BitwiseUnaryOp {
    Not,
}

#[derive(Clone, Copy, Debug, PartialEq, Eq, Structural)]
pub enum BitwiseUnaryScalarOp {
    ShlScalar,
    ShrScalar,
}

#[derive(Clone, Copy, Debug, PartialEq, Eq, Structural)]
pub enum LinalgOp {
    Det,
    Inv,
    Trace,
    Matmul,
}

/// Composite operations that the façade records as one node.
#[derive(Clone, Copy, Debug, PartialEq, Eq, Structural)]
pub enum CompositeOp {
    Tril,
    Triu,
    Diag,
    Diagonal,
}

/// An operation tag.
#[derive(Clone, Copy, Debug, PartialEq, Eq, Structural)]
pub enum Op {
    BitwiseBinary(BitwiseBinaryOp),
    BitwiseUnary(BitwiseUnaryOp),
    BitwiseUnaryScalar(BitwiseUnaryScalarOp),
    Linalg(LinalgOp),
    Composite(CompositeOp),
}

/// Op-specific scalars recorded with a node.
#[derive(Clone, Copy, Debug, PartialEq, Eq, Structural)]
pub enum OpParams {
    NoParams,
    Shift(u32),
    Diagonal(i32),
    DiagonalDims(i32, usize, usize),
}

/// Element types an operation accepts: bitwise operations take integers,
/// linear algebra takes floating point, and the index-moving composites take any.
pub open spec fn op_accepts(op: Op, d: DType) -> bool {
    match op {
        Op::BitwiseBinary(_) | Op::BitwiseUnary(_) | Op::BitwiseUnaryScalar(_) => is_integer_dtype(d),
        Op::Linalg(_) => is_float_dtype(d),
        Op::Composite(_) => true,
    }
}

/// Whether an operation records gradients: linear algebra does, bitwise does not.
pub open spec fn op_supports_grad(op: Op) -> bool {
    match op {
        Op::Linalg(_) => true,
        Op::Composite(_) => true,
        _ => false,
    }
}

/// Whether `dtype` is legal for `op`.
pub fn validate_dtype_for_op(dtype: DType, op: Op) -> (r: bool)
    ensures
        r == op_accepts(op, dtype),
{
    match op {
        Op::BitwiseBinary(_) | Op::BitwiseUnary(_) | Op::BitwiseUnaryScalar(_) => dtype.is_integer(),
        Op::Linalg(_) => dtype.is_float(),
        Op::Composite(_) => true,
    }
}

/// Whether `op` records gradients.
pub fn validate_requires_grad_for_op(op: Op) -> (r: bool)
    ensures
        r == op_supports_grad(op),
{
    match op {
        Op::Linalg(_) => true,
        Op::Composite(_) => true,
        _ => false,
    }
}

} // verus!
