//! Launch metadata: the flat array of sizes, shapes, strides and offsets that
//! every kernel receives, the same on every backend.

use crate::layout::{shape_size, Layout, LayoutView};
use vstd::prelude::*;

verus! {

/// `[num_els, num_dims, lhs_shape.., rhs_shape.., lhs_strides.., rhs_strides.., lhs_offset, rhs_offset]`,
/// where `num_els` counts the elements of the output.
pub open spec fn binary_metadata_of(lhs: Layout, rhs: Layout, out: Layout) -> Seq<usize> {
    binary_metadata_view(lhs@, rhs@, out@)
}

/// `binary_metadata_of` over layouts as plain values.
pub open spec fn binary_metadata_view(lhs: LayoutView, rhs: LayoutView, out: LayoutView) -> Seq<usize> {
    seq![shape_size(out.shape) as usize, lhs.shape.len() as usize] + lhs.shape + rhs.shape
        + lhs.strides + rhs.strides + seq![lhs.offset, rhs.offset]
}

/// `[num_els, num_dims, shape.., strides.., offset]`, where `num_els` counts
/// the elements of the output.
pub open spec fn unary_metadata_of(input: Layout, out: Layout) -> Seq<usize> {
    unary_metadata_view(input@, out@)
}

/// `unary_metadata_of` over layouts as plain values.
pub open spec fn unary_metadata_view(input: LayoutView, out: LayoutView) -> Seq<usize> {
    seq![shape_size(out.shape) as usize, input.shape.len() as usize] + input.shape + input.strides
        + seq![input.offset]
}

pub fn append_all(v: &mut Vec<usize>, s: &Vec<usize>)
    ensures
        final(v)@ == old(v)@ + s@,
{
    let mut i: usize = 0;
    while i < s.len()
        invariant
            i <= s@.len(),
            v@ == old(v)@ + s@.subrange(0, i as int),
        decreases s@.len() - i,
    {
        v.push(s[i]);
        i = i + 1;
        assert(s@.subrange(0, i as int) =~= s@.subrange(0, i - 1).push(s@[i - 1]));
    }
    assert(s@.subrange(0, i as int) =~= s@);
}

/// Metadata of a binary kernel launch over two views of equal rank.
pub fn binary_metadata(lhs_layout: &Layout, rhs_layout: &Layout, out_layout: &Layout) -> (r: Vec<usize>)
    requires
        lhs_layout.wf(),
        rhs_layout.wf(),
        out_layout.wf(),
        rhs_layout.shape@.len() == lhs_layout.shape@.len(),
    ensures
        r@ == binary_metadata_of(*lhs_layout, *rhs_layout, *out_layout),
        r@.len() == 2 + 4 * lhs_layout.shape@.len() + 2,
{
    let mut r: Vec<usize> = Vec::new();
    r.push(out_layout.size_exec());
    r.push(lhs_layout.ndim());
    append_all(&mut r, &lhs_layout.shape);
    append_all(&mut r, &rhs_layout.shape);
    append_all(&mut r, &lhs_layout.strides);
    append_all(&mut r, &rhs_layout.strides);
    r.push(lhs_layout.offset);
    r.push(rhs_layout.offset);
    assert(r@ =~= binary_metadata_of(*lhs_layout, *rhs_layout, *out_layout));
    r
}

/// Metadata of a unary kernel launch.
pub fn unary_metadata(in_layout: &Layout, out_layout: &Layout) -> (r: Vec<usize>)
    requires
        in_layout.wf(),
        out_layout.wf(),
    ensures
        r@ == unary_metadata_of(*in_layout, *out_layout),
        r@.len() == 2 + 2 * in_layout.shape@.len() + 1,
{
    let mut r: Vec<usize> = Vec::new();
    r.push(out_layout.size_exec());
    r.push(in_layout.ndim());
    append_all(&mut r, &in_layout.shape);
    append_all(&mut r, &in_layout.strides);
    r.push(in_layout.offset);
    assert(r@ =~= unary_metadata_of(*in_layout, *out_layout));
    r
}

} // verus!
