//! Host backend: bitwise kernels that walk strided views and write a
//! contiguous output of the same element type.

use crate::dtype::{is_integer_dtype, DType};
use crate::elem::{
    binary_bits, binary_elem, dtype_mask, lemma_binary_bits_within, lemma_not_bits_within,
    lemma_shl_shr_within, mask_exec, not_bits, shl_bits, shl_elem, shr_bits, shr_elem,
};
use crate::error::HoduError;
use crate::layout::{position_of, Layout};
use crate::ops::{BitwiseUnaryScalarOp, Op};
use vstd::prelude::*;

verus! {

/// Elements of one type held on the host, as raw bit patterns.
#[derive(Clone, Debug, PartialEq, Eq)]
pub struct CpuStorage {
    pub dtype: DType,
    pub data: Vec<u64>,
}

impl CpuStorage {
    /// Every element lies within its type's width.
    pub open spec fn wf(&self) -> bool {
        forall|i: int| 0 <= i < self.data@.len() ==> #[trigger] self.data@[i] <= dtype_mask(self.dtype)
    }

    /// The storage can back the view `l`.
    pub open spec fn backs(&self, l: &Layout) -> bool {
        self.wf() && l.wf() && l.fits_in(self.data@.len())
    }

    /// The element at position `p` of the storage.
    pub open spec fn at(&self, p: nat) -> u64 {
        self.data@[p as int]
    }
}

/// The message of the dispatch `call_ops_<name>` when it receives an op
/// outside its `family`.
pub open spec fn expects_msg(name: Seq<char>, family: Seq<char>) -> Seq<char> {
    "call_ops_"@ + name + " expects "@ + family + " op"@
}

pub open spec fn integer_only_msg() -> Seq<char> {
    "bitwise operations only support integer types"@
}

pub open spec fn scalar_integer_only_msg() -> Seq<char> {
    "bitwise scalar shift operations only support integer types"@
}

/// Result of a scalar shift on one element.
pub open spec fn scalar_bits(op: BitwiseUnaryScalarOp, d: DType, x: u64, s: u32) -> u64 {
    match op {
        BitwiseUnaryScalarOp::ShlScalar => shl_bits(d, x, s as u64),
        BitwiseUnaryScalarOp::ShrScalar => shr_bits(d, x, s as u64),
    }
}

pub fn expects_error(name: &str, family: &str) -> (r: HoduError)
    ensures
        r == HoduError::BackendError(r->BackendError_0),
        r->BackendError_0@ == expects_msg(name@, family@),
{
    let mut m = String::from_str("call_ops_");
    m.append(name);
    m.append(" expects ");
    m.append(family);
    m.append(" op");
    HoduError::BackendError(m)
}

pub fn integer_only_error() -> (r: HoduError)
    ensures
        r is BackendError,
        r->BackendError_0@ == integer_only_msg(),
{
    HoduError::BackendError(String::from_str("bitwise operations only support integer types"))
}

pub fn scalar_integer_only_error() -> (r: HoduError)
    ensures
        r is BackendError,
        r->BackendError_0@ == scalar_integer_only_msg(),
{
    HoduError::BackendError(
        String::from_str("bitwise scalar shift operations only support integer types"),
    )
}

/// Binary bitwise kernel over two views of one shape.
pub fn call_ops_bitwise_binary(
    lhs_storage: &CpuStorage,
    rhs_storage: &CpuStorage,
    lhs_layout: &Layout,
    rhs_layout: &Layout,
    op: Op,
) -> (r: Result<CpuStorage, HoduError>)
    requires
        lhs_storage.backs(lhs_layout),
        rhs_storage.backs(rhs_layout),
        rhs_layout.shape@ == lhs_layout.shape@,
    ensures
        !(op is BitwiseBinary) ==> r is Err && r->Err_0 is BackendError && r->Err_0->BackendError_0@
            == expects_msg("bitwise_binary"@, "bitwise binary"@),
        op is BitwiseBinary && (lhs_storage.dtype != rhs_storage.dtype || !is_integer_dtype(
            lhs_storage.dtype,
        )) ==> r is Err && r->Err_0 is BackendError && r->Err_0->BackendError_0@
            == integer_only_msg(),
        op is BitwiseBinary && lhs_storage.dtype == rhs_storage.dtype && is_integer_dtype(
            lhs_storage.dtype,
        ) ==> r is Ok && {
            let out = r->Ok_0;
            &&& out.dtype == lhs_storage.dtype
            &&& out.wf()
            &&& out.data@.len() == lhs_layout.size()
            &&& forall|i: int|
                0 <= i < out.data@.len() ==> #[trigger] out.data@[i] == binary_bits(
                    op->BitwiseBinary_0,
                    lhs_storage.dtype,
                    lhs_storage.at(lhs_layout.position(i as nat)),
                    rhs_storage.at(rhs_layout.position(i as nat)),
                )
        },
{
    let bop = match op {
        Op::BitwiseBinary(b) => b,
        _ => {
            return Err(expects_error("bitwise_binary", "bitwise binary"));
        },
    };
    let dtype = lhs_storage.dtype;
    if dtype != rhs_storage.dtype || !dtype.is_integer() {
        return Err(integer_only_error());
    }
    let n = lhs_layout.size_exec();
    let mut out: Vec<u64> = Vec::new();
    let mut i: usize = 0;
    while i < n
        invariant
            i <= n,
            n == lhs_layout.size(),
            n == rhs_layout.size(),
            lhs_storage.backs(lhs_layout),
            rhs_storage.backs(rhs_layout),
            dtype == lhs_storage.dtype,
            dtype == rhs_storage.dtype,
            out@.len() == i,
            forall|j: int| 0 <= j < i ==> #[trigger] out@[j] <= dtype_mask(dtype),
            forall|j: int|
                0 <= j < i ==> #[trigger] out@[j] == binary_bits(
                    bop,
                    dtype,
                    lhs_storage.at(lhs_layout.position(j as nat)),
                    rhs_storage.at(rhs_layout.position(j as nat)),
                ),
        decreases n - i,
    {
        let pl = position_of(lhs_layout, i);
        let pr = position_of(rhs_layout, i);
        proof {
            crate::layout::lemma_index_within_reach(i as nat, lhs_layout.shape@, lhs_layout.strides@);
            crate::layout::lemma_index_within_reach(i as nat, rhs_layout.shape@, rhs_layout.strides@);
        }
        let x = lhs_storage.data[pl];
        let y = rhs_storage.data[pr];
        proof {
            lemma_binary_bits_within(bop, dtype, x, y);
        }
        out.push(binary_elem(bop, dtype, x, y));
        i = i + 1;
    }
    Ok(CpuStorage { dtype, data: out })
}

/// Unary bitwise kernel: the complement of every element of a view.
pub fn call_ops_bitwise_unary(storage: &CpuStorage, layout: &Layout, op: Op) -> (r: Result<
    CpuStorage,
    HoduError,
>)
    requires
        storage.backs(layout),
    ensures
        !(op is BitwiseUnary) ==> r is Err && r->Err_0 is BackendError && r->Err_0->BackendError_0@
            == expects_msg("bitwise_unary"@, "bitwise unary"@),
        op is BitwiseUnary && !is_integer_dtype(storage.dtype) ==> r is Err && r->Err_0 is BackendError
            && r->Err_0->BackendError_0@ == integer_only_msg(),
        op is BitwiseUnary && is_integer_dtype(storage.dtype) ==> r is Ok && {
            let out = r->Ok_0;
            &&& out.dtype == storage.dtype
            &&& out.wf()
            &&& out.data@.len() == layout.size()
            &&& forall|i: int|
                0 <= i < out.data@.len() ==> #[trigger] out.data@[i] == not_bits(
                    storage.dtype,
                    storage.at(layout.position(i as nat)),
                )
        },
{
    match op {
        Op::BitwiseUnary(_) => {},
        _ => {
            return Err(expects_error("bitwise_unary", "bitwise unary"));
        },
    }
    let dtype = storage.dtype;
    if !dtype.is_integer() {
        return Err(integer_only_error());
    }
    let m = mask_exec(dtype);
    let n = layout.size_exec();
    let mut out: Vec<u64> = Vec::new();
    let mut i: usize = 0;
    while i < n
        invariant
            i <= n,
            n == layout.size(),
            storage.backs(layout),
            dtype == storage.dtype,
            m == dtype_mask(dtype),
            out@.len() == i,
            forall|j: int| 0 <= j < i ==> #[trigger] out@[j] <= dtype_mask(dtype),
            forall|j: int|
                0 <= j < i ==> #[trigger] out@[j] == not_bits(
                    dtype,
                    storage.at(layout.position(j as nat)),
                ),
        decreases n - i,
    {
        let p = position_of(layout, i);
        proof {
            crate::layout::lemma_index_within_reach(i as nat, layout.shape@, layout.strides@);
        }
        let x = storage.data[p];
        proof {
            lemma_not_bits_within(dtype, x);
        }
        out.push(!x & m);
        i = i + 1;
    }
    Ok(CpuStorage { dtype, data: out })
}

/// Scalar shift kernel: every element of a view shifted by `shift`.
pub fn call_ops_bitwise_unary_scalar(storage: &CpuStorage, layout: &Layout, shift: u32, op: Op) -> (r:
    Result<CpuStorage, HoduError>)
    requires
        storage.backs(layout),
    ensures
        !(op is BitwiseUnaryScalar) ==> r is Err && r->Err_0 is BackendError
            && r->Err_0->BackendError_0@ == expects_msg("bitwise_unary_scalar"@, "bitwise unary scalar"@),
        op is BitwiseUnaryScalar && !is_integer_dtype(storage.dtype) ==> r is Err && r->Err_0 is BackendError
            && r->Err_0->BackendError_0@ == scalar_integer_only_msg(),
        op is BitwiseUnaryScalar && is_integer_dtype(storage.dtype) ==> r is Ok && {
            let out = r->Ok_0;
            &&& out.dtype == storage.dtype
            &&& out.wf()
            &&& out.data@.len() == layout.size()
            &&& forall|i: int|
                0 <= i < out.data@.len() ==> #[trigger] out.data@[i] == scalar_bits(
                    op->BitwiseUnaryScalar_0,
                    storage.dtype,
                    storage.at(layout.position(i as nat)),
                    shift,
                )
        },
{
    let sop = match op {
        Op::BitwiseUnaryScalar(s) => s,
        _ => {
            return Err(expects_error("bitwise_unary_scalar", "bitwise unary scalar"));
        },
    };
    let dtype = storage.dtype;
    if !dtype.is_integer() {
        return Err(scalar_integer_only_error());
    }
    let n = layout.size_exec();
    let mut out: Vec<u64> = Vec::new();
    let mut i: usize = 0;
    while i < n
        invariant
            i <= n,
            n == layout.size(),
            storage.backs(layout),
            dtype == storage.dtype,
            out@.len() == i,
            forall|j: int| 0 <= j < i ==> #[trigger] out@[j] <= dtype_mask(dtype),
            forall|j: int|
                0 <= j < i ==> #[trigger] out@[j] == scalar_bits(
                    sop,
                    dtype,
                    storage.at(layout.position(j as nat)),
                    shift,
                ),
        decreases n - i,
    {
        let p = position_of(layout, i);
        proof {
            crate::layout::lemma_index_within_reach(i as nat, layout.shape@, layout.strides@);
        }
        let x = storage.data[p];
        proof {
            lemma_shl_shr_within(dtype, x, shift as u64);
        }
        let v = match sop {
            BitwiseUnaryScalarOp::ShlScalar => shl_elem(dtype, x, shift as u64),
            BitwiseUnaryScalarOp::ShrScalar => shr_elem(dtype, x, shift as u64),
        };
        out.push(v);
        i = i + 1;
    }
    Ok(CpuStorage { dtype, data: out })
}

} // verus!
