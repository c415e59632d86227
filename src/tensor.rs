//! The tensor façade. Every operation validates its inputs and computes its
//! output layout, then, under the engine's capture flag, either records a
//! snapshot node or dispatches: host kernels run at once, other work is
//! queued as a kernel launch for the device runtime. Composite operations
//! (`tril`, `triu`, `diag`, `diagonal`, `solve`) are not decomposed into
//! primitive ops, which this library does not have: each records one node
//! (two for `solve`) and queues dedicated kernels.

use crate::be_cpu::CpuStorage;
use crate::device::{device_id_of, device_type, device_type_of, index_segment, parse_device_id};
use crate::dtype::DType;
use crate::elem::dtype_mask;
use crate::error::HoduError;
use crate::kernel::{mangle_of, Backend, KernelId};
use crate::layout::{
    check_shape_fits, checked_shape_size, contiguous_strides, position_of, shape_fits, shape_size,
    Layout, LayoutView,
};
use crate::ops::{Op, OpParams};
use vstd::prelude::*;

verus! {

/// Where a tensor lives.
#[derive(Clone, Copy, Debug, PartialEq, Eq, Structural)]
pub enum Device {
    Cpu,
    Cuda(usize),
    Metal,
}

pub open spec fn backend_of(d: Device) -> Backend {
    match d {
        Device::Cpu => Backend::Cpu,
        Device::Cuda(_) => Backend::Cuda,
        Device::Metal => Backend::Metal,
    }
}

/// The device a device string names: `cpu`, `metal`, or `cuda` with an
/// optional index (`cuda` alone is GPU 0).
pub open spec fn device_of(s: Seq<char>) -> Option<Device> {
    let t = device_type_of(s);
    if t == "cuda"@ {
        match index_segment(s) {
            None => Some(Device::Cuda(0)),
            Some(_) => match device_id_of(s) {
                Some(n) => Some(Device::Cuda(n)),
                None => None,
            },
        }
    } else if t == "cpu"@ && index_segment(s) is None {
        Some(Device::Cpu)
    } else if t == "metal"@ && index_segment(s) is None {
        Some(Device::Metal)
    } else {
        None
    }
}

impl Device {
    /// Parses a device string.
    pub fn parse(s: &str) -> (r: Option<Device>)
        ensures
            r == device_of(s@),
    {
        let t = device_type(s);
        let has_index = t.unicode_len() < s.unicode_len();
        proof {
            crate::device::lemma_find_sep_bounds(s@, 0);
        }
        if crate::device::str_eq(t, "cuda") {
            if !has_index {
                return Some(Device::Cuda(0));
            }
            match parse_device_id(s) {
                Some(n) => Some(Device::Cuda(n)),
                None => None,
            }
        } else if crate::device::str_eq(t, "cpu") && !has_index {
            Some(Device::Cpu)
        } else if crate::device::str_eq(t, "metal") && !has_index {
            Some(Device::Metal)
        } else {
            None
        }
    }

    pub fn backend(self) -> (r: Backend)
        ensures
            r == backend_of(self),
    {
        match self {
            Device::Cpu => Backend::Cpu,
            Device::Cuda(_) => Backend::Cuda,
            Device::Metal => Backend::Metal,
        }
    }
}

/// One recorded operation of a snapshot.
#[derive(Clone, Debug)]
pub struct SnapshotNode {
    pub op: Op,
    pub params: OpParams,
    pub inputs: Vec<u64>,
    pub output: u64,
    pub input_layouts: Vec<Layout>,
    pub output_layout: Layout,
}

/// One entry of the gradient tape.
#[derive(Clone, Debug)]
pub struct TapeEntry {
    pub inputs: Vec<u64>,
    pub output: u64,
    pub op: Op,
    pub params: OpParams,
}

/// A kernel call handed to a device runtime: which kernel, its metadata,
/// the tensors it reads and the tensor it fills.
#[derive(Clone, Debug)]
pub struct KernelLaunch {
    pub kernel: KernelId,
    pub name: String,
    pub metadata: Vec<usize>,
    pub inputs: Vec<u64>,
    pub output: u64,
    pub scalar: Option<u32>,
    pub params: OpParams,
}

/// The explicit capture context threaded through the façade: the capture
/// flag, the id counter, the snapshot being recorded, the gradient tape and
/// the launches queued for device runtimes.
#[derive(Debug)]
pub struct Engine {
    pub capturing: bool,
    pub next_id: u64,
    pub nodes: Vec<SnapshotNode>,
    pub tape: Vec<TapeEntry>,
    pub launches: Vec<KernelLaunch>,
}

/// A tensor: a view over storage, its element type and device, whether it
/// records gradients, and its id. Host tensors that were computed hold their
/// storage; recorded placeholders and results awaiting a device runtime hold none.
#[derive(Clone, Debug)]
pub struct Tensor {
    pub id: u64,
    pub layout: Layout,
    pub dtype: DType,
    pub device: Device,
    pub requires_grad: bool,
    pub storage: Option<CpuStorage>,
}

impl Tensor {
    pub open spec fn wf(&self) -> bool {
        &&& self.layout.wf()
        &&& self.storage is Some ==> {
            let s = self.storage->Some_0;
            s.dtype == self.dtype && s.backs(&self.layout) && self.device == Device::Cpu
        }
    }

    /// The `i`-th element in row-major order, when the tensor holds storage.
    pub open spec fn elem(&self, i: nat) -> u64 {
        self.storage->Some_0.at(self.layout.position(i))
    }

    pub open spec fn shape(&self) -> Seq<usize> {
        self.layout.shape@
    }

    pub fn ndim(&self) -> (r: usize)
        ensures
            r == self.layout.shape@.len(),
    {
        self.layout.shape.len()
    }

    pub fn dims(&self) -> (r: &Vec<usize>)
        ensures
            r@ == self.layout.shape@,
    {
        &self.layout.shape
    }
}

impl Engine {
    /// An engine that executes, with no recorded nodes.
    pub fn new() -> (r: Engine)
        ensures
            !r.capturing,
            r.next_id == 1,
            r.nodes@.len() == 0,
            r.tape@.len() == 0,
            r.launches@.len() == 0,
    {
        Engine { capturing: false, next_id: 1, nodes: Vec::new(), tape: Vec::new(), launches: Vec::new() }
    }

    /// Starts recording: later operations append snapshot nodes instead of executing.
    pub fn start_capture(&mut self)
        ensures
            final(self).capturing,
            final(self).next_id == old(self).next_id,
            final(self).nodes@.len() == 0,
            final(self).tape@ == old(self).tape@,
            final(self).launches@ == old(self).launches@,
    {
        self.capturing = true;
        self.nodes = Vec::new();
    }

    /// Stops recording and hands out the recorded snapshot.
    pub fn stop_capture(&mut self) -> (r: Vec<SnapshotNode>)
        ensures
            !final(self).capturing,
            r@ == old(self).nodes@,
            final(self).nodes@.len() == 0,
            final(self).next_id == old(self).next_id,
            final(self).tape@ == old(self).tape@,
            final(self).launches@ == old(self).launches@,
    {
        self.capturing = false;
        let mut nodes = Vec::new();
        std::mem::swap(&mut nodes, &mut self.nodes);
        nodes
    }

    /// Ids left before the counter runs out.
    pub open spec fn has_ids(&self) -> bool {
        self.next_id < u64::MAX
    }

    fn fresh_id(&mut self) -> (r: u64)
        requires
            old(self).has_ids(),
        ensures
            r == old(self).next_id,
            final(self).next_id == old(self).next_id + 1,
            final(self).capturing == old(self).capturing,
            final(self).nodes@ == old(self).nodes@,
            final(self).tape@ == old(self).tape@,
            final(self).launches@ == old(self).launches@,
    {
        let id = self.next_id;
        self.next_id = self.next_id + 1;
        id
    }
}

/// What an operation did to the engine when it produced `out` from inputs
/// with ids `ids` and layouts `layouts`: in capture mode one snapshot node,
/// otherwise a tape entry when `out` records gradients; and, when `launched`,
/// one queued launch. The id counter moves past `out`'s id.
pub open spec fn emitted(
    old_ctx: &Engine,
    new_ctx: &Engine,
    op: Op,
    params: OpParams,
    ids: Seq<u64>,
    layouts: Seq<LayoutView>,
    out: &Tensor,
    launched: bool,
) -> bool {
    &&& out.id == old_ctx.next_id
    &&& new_ctx.next_id == old_ctx.next_id + 1
    &&& new_ctx.capturing == old_ctx.capturing
    &&& if old_ctx.capturing {
        &&& new_ctx.nodes@.len() == old_ctx.nodes@.len() + 1
        &&& new_ctx.nodes@.drop_last() == old_ctx.nodes@
        &&& {
            let n = new_ctx.nodes@.last();
            &&& n.op == op
            &&& n.params == params
            &&& n.inputs@ == ids
            &&& n.output == out.id
            &&& n.input_layouts@.map_values(|l: Layout| l@) == layouts
            &&& n.output_layout@ == out.layout@
        }
        &&& new_ctx.tape@ == old_ctx.tape@
        &&& new_ctx.launches@ == old_ctx.launches@
        &&& out.storage is None
    } else {
        &&& new_ctx.nodes@ == old_ctx.nodes@
        &&& if out.requires_grad {
            &&& new_ctx.tape@.len() == old_ctx.tape@.len() + 1
            &&& new_ctx.tape@.drop_last() == old_ctx.tape@
            &&& new_ctx.tape@.last().op == op
            &&& new_ctx.tape@.last().output == out.id
            &&& new_ctx.tape@.last().inputs@ == ids
        } else {
            new_ctx.tape@ == old_ctx.tape@
        }
        &&& if launched {
            &&& new_ctx.launches@.len() == old_ctx.launches@.len() + 1
            &&& new_ctx.launches@.drop_last() == old_ctx.launches@
            &&& new_ctx.launches@.last().output == out.id
            &&& new_ctx.launches@.last().inputs@ == ids
            &&& new_ctx.launches@.last().params == params
        } else {
            new_ctx.launches@ == old_ctx.launches@
        }
    }
}

/// The contiguous row-major view of a shape.
pub open spec fn contiguous_view(shape: Seq<usize>) -> LayoutView {
    LayoutView { shape, strides: contiguous_strides(shape), offset: 0 }
}

/// The last queued launch runs kernel `k`, under its mangled name, with
/// `metadata` and the scalar argument `scalar`.
pub open spec fn queued(ctx: &Engine, k: KernelId, metadata: Seq<usize>, scalar: Option<u32>) -> bool {
    &&& ctx.launches@.last().kernel == k
    &&& ctx.launches@.last().name@ == mangle_of(k)
    &&& ctx.launches@.last().metadata@ == metadata
    &&& ctx.launches@.last().scalar == scalar
}

/// The engine is as it was.
pub open spec fn unchanged(old_ctx: &Engine, new_ctx: &Engine) -> bool {
    &&& new_ctx.capturing == old_ctx.capturing
    &&& new_ctx.next_id == old_ctx.next_id
    &&& new_ctx.nodes@ == old_ctx.nodes@
    &&& new_ctx.tape@ == old_ctx.tape@
    &&& new_ctx.launches@ == old_ctx.launches@
}

/// Finishes an operation whose output layout, element type and gradient flag
/// are known: records it, or wraps the host result, or queues `launch`.
pub fn emit(
    ctx: &mut Engine,
    op: Op,
    params: OpParams,
    ids: Vec<u64>,
    layouts: Vec<Layout>,
    out_layout: Layout,
    dtype: DType,
    device: Device,
    requires_grad: bool,
    storage: Option<CpuStorage>,
    launch: Option<KernelLaunch>,
) -> (r: Tensor)
    requires
        old(ctx).has_ids(),
        out_layout.wf(),
        storage is Some ==> {
            let s = storage->Some_0;
            s.dtype == dtype && s.backs(&out_layout) && device == Device::Cpu
        },
        old(ctx).capturing ==> storage is None && launch is None,
        launch is Some ==> storage is None,
    ensures
        r.wf(),
        r.layout == out_layout,
        r.dtype == dtype,
        r.device == device,
        r.requires_grad == requires_grad,
        r.storage == storage,
        emitted(
            old(ctx),
            final(ctx),
            op,
            params,
            ids@,
            layouts@.map_values(|l: Layout| l@),
            &r,
            launch is Some,
        ),
        launch is Some ==> final(ctx).launches@.last().kernel == launch->Some_0.kernel
            && final(ctx).launches@.last().name@ == launch->Some_0.name@
            && final(ctx).launches@.last().metadata@ == launch->Some_0.metadata@
            && final(ctx).launches@.last().scalar == launch->Some_0.scalar,
{
    let id = ctx.fresh_id();
    let out = Tensor { id, layout: out_layout, dtype, device, requires_grad, storage };
    if ctx.capturing {
        let node = SnapshotNode {
            op,
            params,
            inputs: ids,
            output: id,
            input_layouts: layouts,
            output_layout: out.layout.copy(),
        };
        ctx.nodes.push(node);
        assert(ctx.nodes@.drop_last() =~= old(ctx).nodes@);
    } else {
        if requires_grad {
            let ids2 = ids.clone();
            assert(ids2@ =~= ids@);
            ctx.tape.push(TapeEntry { inputs: ids2, output: id, op, params });
            assert(ctx.tape@.drop_last() =~= old(ctx).tape@);
        }
        match launch {
            Some(l) => {
                let l2 = KernelLaunch {
                    kernel: l.kernel,
                    name: l.name,
                    metadata: l.metadata,
                    inputs: ids,
                    output: id,
                    scalar: l.scalar,
                    params,
                };
                ctx.launches.push(l2);
                assert(ctx.launches@.drop_last() =~= old(ctx).launches@);
            },
            None => {},
        }
    }
    out
}

impl Tensor {
    /// A host tensor holding `data`, raw element bits in row-major order, with
    /// the given shape. Fails when the shape is too large, when `data` does not
    /// hold one element per position, or when an element exceeds its type's width.
    pub fn from_bits(
        ctx: &mut Engine,
        data: Vec<u64>,
        shape: Vec<usize>,
        dtype: DType,
        requires_grad: bool,
    ) -> (r: Result<Tensor, HoduError>)
        requires
            old(ctx).has_ids(),
        ensures
            r is Ok <==> (shape_fits(shape@) && data@.len() == shape_size(shape@) && forall|i: int|
                0 <= i < data@.len() ==> #[trigger] data@[i] <= dtype_mask(dtype)),
            r is Err ==> r->Err_0 is InvalidArgument && unchanged(old(ctx), final(ctx)),
            r is Ok ==> {
                let t = r->Ok_0;
                &&& t.wf()
                &&& t.id == old(ctx).next_id
                &&& t.layout.shape@ == shape@
                &&& t.layout.is_contiguous()
                &&& t.dtype == dtype
                &&& t.device == Device::Cpu
                &&& t.requires_grad == requires_grad
                &&& t.storage is Some
                &&& t.storage->Some_0.data@ == data@
                &&& final(ctx).next_id == old(ctx).next_id + 1
                &&& final(ctx).capturing == old(ctx).capturing
                &&& final(ctx).nodes@ == old(ctx).nodes@
                &&& final(ctx).tape@ == old(ctx).tape@
                &&& final(ctx).launches@ == old(ctx).launches@
            },
    {
        if !check_shape_fits(&shape) {
            return Err(HoduError::InvalidArgument(String::from_str("shape is too large")));
        }
        let n = checked_shape_size(&shape).unwrap();
        if data.len() != n {
            return Err(
                HoduError::InvalidArgument(String::from_str("element count does not match shape")),
            );
        }
        let m = crate::elem::mask_exec(dtype);
        let mut i: usize = 0;
        while i < data.len()
            invariant
                i <= data@.len(),
                m == dtype_mask(dtype),
                forall|j: int| 0 <= j < i ==> #[trigger] data@[j] <= dtype_mask(dtype),
            decreases data@.len() - i,
        {
            if data[i] > m {
                return Err(
                    HoduError::InvalidArgument(String::from_str("element exceeds its type's width")),
                );
            }
            i = i + 1;
        }
        let layout = Layout::from_shape(&shape);
        proof {
            crate::layout::lemma_contiguous_reach(shape@);
        }
        let id = ctx.fresh_id();
        Ok(
            Tensor {
                id,
                layout,
                dtype,
                device: Device::Cpu,
                requires_grad,
                storage: Some(CpuStorage { dtype, data }),
            },
        )
    }

    /// A tensor without storage, standing for an input of a recorded snapshot.
    pub fn input(
        ctx: &mut Engine,
        shape: Vec<usize>,
        dtype: DType,
        device: Device,
        requires_grad: bool,
    ) -> (r: Result<Tensor, HoduError>)
        requires
            old(ctx).has_ids(),
        ensures
            r is Ok <==> shape_fits(shape@),
            r is Err ==> r->Err_0 is InvalidArgument && unchanged(old(ctx), final(ctx)),
            r is Ok ==> {
                let t = r->Ok_0;
                &&& t.wf()
                &&& t.id == old(ctx).next_id
                &&& t.layout.shape@ == shape@
                &&& t.layout.is_contiguous()
                &&& t.dtype == dtype
                &&& t.device == device
                &&& t.requires_grad == requires_grad
                &&& t.storage is None
                &&& final(ctx).next_id == old(ctx).next_id + 1
                &&& final(ctx).capturing == old(ctx).capturing
                &&& final(ctx).nodes@ == old(ctx).nodes@
                &&& final(ctx).tape@ == old(ctx).tape@
                &&& final(ctx).launches@ == old(ctx).launches@
            },
    {
        if !check_shape_fits(&shape) {
            return Err(HoduError::InvalidArgument(String::from_str("shape is too large")));
        }
        let layout = Layout::from_shape(&shape);
        let id = ctx.fresh_id();
        Ok(Tensor { id, layout, dtype, device, requires_grad, storage: None })
    }

    /// The elements in row-major order, when the tensor holds storage.
    pub fn to_bits(&self) -> (r: Option<Vec<u64>>)
        requires
            self.wf(),
        ensures
            r is Some <==> self.storage is Some,
            r is Some ==> r->Some_0@.len() == self.layout.size() && forall|i: int|
                0 <= i < r->Some_0@.len() ==> #[trigger] r->Some_0@[i] == self.elem(i as nat),
    {
        match &self.storage {
            None => None,
            Some(st) => {
                let n = self.layout.size_exec();
                let mut out: Vec<u64> = Vec::new();
                let mut i: usize = 0;
                while i < n
                    invariant
                        i <= n,
                        n == self.layout.size(),
                        self.wf(),
                        self.storage == Some(*st),
                        out@.len() == i,
                        forall|j: int| 0 <= j < i ==> #[trigger] out@[j] == self.elem(j as nat),
                    decreases n - i,
                {
                    let p = position_of(&self.layout, i);
                    proof {
                        crate::layout::lemma_index_within_reach(
                            i as nat,
                            self.layout.shape@,
                            self.layout.strides@,
                        );
                    }
                    out.push(st.data[p]);
                    i = i + 1;
                }
                Some(out)
            },
        }
    }
}

} // verus!
