//! Tensor data as exchanged with plugins: raw little-endian bytes, a shape
//! and a protocol element type.

use crate::dtype::{core_dtype_to_plugin, core_to_plugin, dtype_bits, plugin_dtype_to_core, plugin_to_core, DType, PluginDType};
use crate::elem::dtype_mask;
use crate::error::{HoduError, PluginError};
use crate::layout::{shape_fits, shape_size};
use crate::tensor::{unchanged, Device, Engine, Tensor};
use vstd::prelude::*;

verus! {

/// Raw tensor contents: each element's bytes, least significant first.
#[derive(Clone, Debug, PartialEq, Eq)]
pub struct TensorData {
    pub data: Vec<u8>,
    pub shape: Vec<usize>,
    pub dtype: PluginDType,
}

impl TensorData {
    pub fn new(data: Vec<u8>, shape: Vec<usize>, dtype: PluginDType) -> (r: TensorData)
        ensures
            r.data == data,
            r.shape == shape,
            r.dtype == dtype,
    {
        TensorData { data, shape, dtype }
    }

    /// Tensor data whose element type is given as a core element type.
    pub fn from_core(data: Vec<u8>, shape: Vec<usize>, dtype: DType) -> (r: TensorData)
        ensures
            r.data == data,
            r.shape == shape,
            r.dtype == core_to_plugin(dtype),
    {
        TensorData::new(data, shape, core_dtype_to_plugin(dtype))
    }

    /// The element type as a core element type; every protocol element type
    /// has one.
    pub fn core_element_type(&self) -> (r: Result<DType, PluginError>)
        ensures
            r == Ok::<DType, PluginError>(plugin_to_core(self.dtype)),
    {
        match plugin_dtype_to_core(self.dtype) {
            Ok(d) => Ok(d),
            Err(e) => Err(PluginError::Load(e.message())),
        }
    }
}

/// Conversions of tensor data to and from core element types.
pub trait TensorDataExt: Sized {
    /// The raw bytes held.
    spec fn bytes(&self) -> Seq<u8>;

    /// The shape held.
    spec fn dims(&self) -> Seq<usize>;

    /// The protocol element type held.
    spec fn element_type(&self) -> PluginDType;

    /// Tensor data whose element type is given as a core element type.
    fn from_core_dtype(data: Vec<u8>, shape: Vec<usize>, dtype: DType) -> (r: Self)
        ensures
            r.bytes() == data@,
            r.dims() == shape@,
            r.element_type() == core_to_plugin(dtype),
    ;

    /// The element type as a core element type; every protocol element type has one.
    fn core_dtype(&self) -> (r: Result<DType, PluginError>)
        ensures
            r == Ok::<DType, PluginError>(plugin_to_core(self.element_type())),
    ;
}

impl TensorDataExt for TensorData {
    open spec fn bytes(&self) -> Seq<u8> {
        self.data@
    }

    open spec fn dims(&self) -> Seq<usize> {
        self.shape@
    }

    open spec fn element_type(&self) -> PluginDType {
        self.dtype
    }

    fn from_core_dtype(data: Vec<u8>, shape: Vec<usize>, dtype: DType) -> (r: TensorData) {
        TensorData::from_core(data, shape, dtype)
    }

    fn core_dtype(&self) -> (r: Result<DType, PluginError>) {
        self.core_element_type()
    }
}

/// Byte `b` (least significant first) of an element.
pub open spec fn elem_byte(v: u64, b: nat) -> u8 {
    ((v >> (8 * b) as u64) & 0xffu64) as u8
}

/// Bytes per element.
pub open spec fn elem_bytes(d: DType) -> nat {
    dtype_bits(d) / 8
}

/// The bytes of a sequence of elements, each least significant byte first.
pub open spec fn encode(vals: Seq<u64>, d: DType) -> Seq<u8> {
    let w = elem_bytes(d);
    Seq::new(vals.len() * w, |i: int| elem_byte(vals[i / (w as int)], (i % (w as int)) as nat))
}

/// The element held by `w` bytes starting at `start`, least significant first.
pub open spec fn decode_elem(bytes: Seq<u8>, start: int, w: nat) -> u64
    decreases w,
{
    if w == 0 {
        0
    } else {
        decode_elem(bytes, start, (w - 1) as nat) | ((bytes[start + w - 1] as u64) << (8 * (w - 1)) as u64)
    }
}

pub open spec fn decode(bytes: Seq<u8>, d: DType) -> Seq<u64> {
    let w = elem_bytes(d);
    Seq::new(bytes.len() / w, |i: int| decode_elem(bytes, i * w, w))
}

/// All-ones in the low `k` bytes.
pub open spec fn byte_mask(k: nat) -> u64 {
    if k == 0 {
        0u64
    } else if k == 1 {
        0xffu64
    } else if k == 2 {
        0xffffu64
    } else if k == 3 {
        0xff_ffffu64
    } else if k == 4 {
        0xffff_ffffu64
    } else if k == 5 {
        0xff_ffff_ffffu64
    } else if k == 6 {
        0xffff_ffff_ffffu64
    } else if k == 7 {
        0xff_ffff_ffff_ffffu64
    } else {
        0xffff_ffff_ffff_ffffu64
    }
}

/// Adding byte `k - 1` to a value held in `k - 1` bytes gives one held in `k` bytes.
proof fn lemma_add_byte(x: u64, b: u8, k: nat)
    requires
        1 <= k <= 8,
        x <= byte_mask((k - 1) as nat),
    ensures
        x | ((b as u64) << (8 * (k - 1)) as u64) <= byte_mask(k),
{
    let y = b as u64;
    assert(y <= 0xffu64);
    if k == 1 {
        assert(x <= 0u64 && y <= 0xffu64 ==> (x | (y << 0u64)) <= 0xffu64) by (bit_vector);
    } else if k == 2 {
        assert(x <= 0xffu64 && y <= 0xffu64 ==> (x | (y << 8u64)) <= 0xffffu64) by (bit_vector);
    } else if k == 3 {
        assert(x <= 0xffffu64 && y <= 0xffu64 ==> (x | (y << 16u64)) <= 0xff_ffffu64) by (bit_vector);
    } else if k == 4 {
        assert(x <= 0xff_ffffu64 && y <= 0xffu64 ==> (x | (y << 24u64)) <= 0xffff_ffffu64) by (bit_vector);
    } else if k == 5 {
        assert(x <= 0xffff_ffffu64 && y <= 0xffu64 ==> (x | (y << 32u64)) <= 0xff_ffff_ffffu64) by (bit_vector);
    } else if k == 6 {
        assert(x <= 0xff_ffff_ffffu64 && y <= 0xffu64 ==> (x | (y << 40u64)) <= 0xffff_ffff_ffffu64) by (bit_vector);
    } else if k == 7 {
        assert(x <= 0xffff_ffff_ffffu64 && y <= 0xffu64 ==> (x | (y << 48u64)) <= 0xff_ffff_ffff_ffffu64) by (bit_vector);
    } else if k == 8 {
        assert(x <= 0xff_ffff_ffff_ffffu64 && y <= 0xffu64 ==> (x | (y << 56u64)) <= 0xffff_ffff_ffff_ffffu64) by (bit_vector);
    }
}

/// An element decoded from `w` bytes fits in `w` bytes.
proof fn lemma_decode_within(bytes: Seq<u8>, start: int, w: nat)
    requires
        w <= 8,
        0 <= start,
        start + w <= bytes.len(),
    ensures
        decode_elem(bytes, start, w) <= byte_mask(w),
    decreases w,
{
    if w > 0 {
        lemma_decode_within(bytes, start, (w - 1) as nat);
        lemma_add_byte(decode_elem(bytes, start, (w - 1) as nat), bytes[start + w - 1], w);
    }
}

proof fn lemma_take_byte(x: u64, k: nat)
    requires
        1 <= k <= 8,
    ensures
        (x & byte_mask((k - 1) as nat)) | (((x >> (8 * (k - 1)) as u64) & 0xffu64) << (8 * (k - 1)) as u64)
            == x & byte_mask(k),
{
    if k == 1 {
        assert((x & 0u64) | (((x >> 0u64) & 0xffu64) << 0u64) == x & 0xffu64) by (bit_vector);
    } else if k == 2 {
        assert((x & 0xffu64) | (((x >> 8u64) & 0xffu64) << 8u64) == x & 0xffffu64) by (bit_vector);
    } else if k == 3 {
        assert((x & 0xffffu64) | (((x >> 16u64) & 0xffu64) << 16u64) == x & 0xff_ffffu64) by (bit_vector);
    } else if k == 4 {
        assert((x & 0xff_ffffu64) | (((x >> 24u64) & 0xffu64) << 24u64) == x & 0xffff_ffffu64) by (bit_vector);
    } else if k == 5 {
        assert((x & 0xffff_ffffu64) | (((x >> 32u64) & 0xffu64) << 32u64) == x & 0xff_ffff_ffffu64) by (bit_vector);
    } else if k == 6 {
        assert((x & 0xff_ffff_ffffu64) | (((x >> 40u64) & 0xffu64) << 40u64) == x & 0xffff_ffff_ffffu64) by (bit_vector);
    } else if k == 7 {
        assert((x & 0xffff_ffff_ffffu64) | (((x >> 48u64) & 0xffu64) << 48u64) == x & 0xff_ffff_ffff_ffffu64) by (bit_vector);
    } else if k == 8 {
        assert((x & 0xff_ffff_ffff_ffffu64) | (((x >> 56u64) & 0xffu64) << 56u64) == x & 0xffff_ffff_ffff_ffffu64) by (bit_vector);
    }
}

proof fn lemma_decode_encoded(v: Seq<u64>, d: DType, i: int, k: nat)
    requires
        0 <= i < v.len(),
        1 <= elem_bytes(d) <= 8,
        k <= elem_bytes(d),
    ensures
        decode_elem(encode(v, d), i * elem_bytes(d), k) == v[i] & byte_mask(k),
    decreases k,
{
    let w = elem_bytes(d);
    let x = v[i];
    if k == 0 {
        assert(x & 0u64 == 0u64) by (bit_vector);
    } else {
        lemma_decode_encoded(v, d, i, (k - 1) as nat);
        let p = i * w + k - 1;
        assert(p / (w as int) == i && p % (w as int) == k - 1) by (nonlinear_arith)
            requires
                p == i * w + k - 1,
                1 <= k <= w,
                i >= 0,
        ;
        assert(0 <= p < v.len() * w) by (nonlinear_arith)
            requires
                p == i * w + k - 1,
                1 <= k <= w,
                0 <= i < v.len(),
        ;
        let sh = (8 * (k - 1)) as u64;
        let y = (x >> sh) & 0xffu64;
        assert(y <= 0xffu64) by (bit_vector)
            requires
                y == (x >> sh) & 0xffu64,
        ;
        assert(encode(v, d)[p] as u64 == y);
        lemma_take_byte(x, k);
    }
}

/// Encoding elements that fit their type and decoding the bytes gives the
/// elements back: saving what was loaded keeps the data.
pub proof fn lemma_encode_decode(v: Seq<u64>, d: DType)
    requires
        forall|i: int| 0 <= i < v.len() ==> #[trigger] v[i] <= dtype_mask(d),
    ensures
        decode(encode(v, d), d) == v,
        encode(v, d).len() % elem_bytes(d) == 0,
        encode(v, d).len() / elem_bytes(d) == v.len(),
{
    let w = elem_bytes(d);
    assert(w == 1 || w == 2 || w == 4 || w == 8);
    let n = v.len();
    assert((n * w) / w == n && (n * w) % w == 0) by (nonlinear_arith)
        requires
            w >= 1,
    ;
    assert forall|i: int| 0 <= i < n implies #[trigger] decode(encode(v, d), d)[i] == v[i] by {
        lemma_decode_encoded(v, d, i, w);
        let x = v[i];
        if w == 1 {
            assert(x <= 0xffu64 ==> x & 0xffu64 == x) by (bit_vector);
        } else if w == 2 {
            assert(x <= 0xffffu64 ==> x & 0xffffu64 == x) by (bit_vector);
        } else if w == 4 {
            assert(x <= 0xffff_ffffu64 ==> x & 0xffff_ffffu64 == x) by (bit_vector);
        } else {
            assert(x & 0xffff_ffff_ffff_ffffu64 == x) by (bit_vector);
        }
    }
    assert(decode(encode(v, d), d) =~= v);
}

fn bytes_per_elem(d: DType) -> (r: usize)
    ensures
        r as nat == elem_bytes(d),
        1 <= r <= 8,
{
    (d.bits() / 8) as usize
}

/// The contents of a host tensor as tensor data: its shape, its element type,
/// and the bytes of its elements in row-major order.
pub fn load_tensor_data(tensor: &Tensor) -> (r: Option<TensorData>)
    requires
        tensor.wf(),
    ensures
        r is Some <==> (tensor.storage is Some && tensor.layout.size() * elem_bytes(tensor.dtype)
            <= usize::MAX),
        r is Some ==> {
            let td = r->Some_0;
            &&& td.shape@ == tensor.shape()
            &&& td.dtype == core_to_plugin(tensor.dtype)
            &&& td.data@ == encode(crate::diag::values(*tensor), tensor.dtype)
        },
{
    let vals = match tensor.to_bits() {
        Some(v) => v,
        None => {
            return None;
        },
    };
    let w = bytes_per_elem(tensor.dtype);
    let n = vals.len();
    let total = match n.checked_mul(w) {
        Some(t) => t,
        None => {
            return None;
        },
    };
    let ghost vs = crate::diag::values(*tensor);
    assert(vals@ =~= vs);
    let mut out: Vec<u8> = Vec::new();
    let mut i: usize = 0;
    while i < total
        invariant
            i <= total,
            total as nat == n * w,
            n == vals@.len(),
            1 <= w <= 8,
            w as nat == elem_bytes(tensor.dtype),
            out@.len() == i,
            forall|t: int| 0 <= t < i ==> #[trigger] out@[t] == elem_byte(vals@[t / (w as int)], (t % (w as int)) as nat),
        decreases total - i,
    {
        let e = i / w;
        let b = i % w;
        assert((e as int) < n) by (nonlinear_arith)
            requires
                (i as int) < (n as int) * (w as int),
                w >= 1,
                e == i / w,
        ;
        let v = vals[e];
        let byte = ((v >> ((8 * b) as u64)) & 0xff) as u8;
        out.push(byte);
        i = i + 1;
    }
    let shape = tensor.layout.shape.clone();
    assert(out@ =~= encode(vs, tensor.dtype));
    Some(TensorData::new(out, shape, core_dtype_to_plugin(tensor.dtype)))
}

/// A host tensor from tensor data. Fails when the byte count is not a
/// whole number of elements of the shape.
pub fn save_tensor_data(ctx: &mut Engine, tensor_data: &TensorData) -> (r: Result<Tensor, HoduError>)
    requires
        old(ctx).has_ids(),
    ensures
        ({
            let e = elem_bytes(plugin_to_core(tensor_data.dtype));
            r is Ok <==> (tensor_data.data@.len() % e == 0 && shape_fits(tensor_data.shape@)
                && tensor_data.data@.len() / e == shape_size(tensor_data.shape@))
        }),
        r is Err ==> r->Err_0 is InvalidArgument && unchanged(old(ctx), final(ctx)),
        r is Ok ==> {
            let t = r->Ok_0;
            &&& t.wf()
            &&& t.id == old(ctx).next_id
            &&& t.layout.shape@ == tensor_data.shape@
            &&& t.layout.is_contiguous()
            &&& t.dtype == plugin_to_core(tensor_data.dtype)
            &&& t.device == Device::Cpu
            &&& !t.requires_grad
            &&& t.storage is Some
            &&& t.storage->Some_0.data@ == decode(tensor_data.data@, t.dtype)
            &&& final(ctx).next_id == old(ctx).next_id + 1
            &&& final(ctx).capturing == old(ctx).capturing
            &&& final(ctx).nodes@ == old(ctx).nodes@
            &&& final(ctx).tape@ == old(ctx).tape@
            &&& final(ctx).launches@ == old(ctx).launches@
        },
{
    let dtype = match plugin_dtype_to_core(tensor_data.dtype) {
        Ok(d) => d,
        Err(_) => {
            return Err(HoduError::InvalidArgument(String::from_str("unknown element type")));
        },
    };
    let w = bytes_per_elem(dtype);
    let bytes = &tensor_data.data;
    if bytes.len() % w != 0 {
        return Err(HoduError::InvalidArgument(String::from_str("byte count is not a whole number of elements")));
    }
    let n = bytes.len() / w;
    let mut vals: Vec<u64> = Vec::new();
    let mut e: usize = 0;
    while e < n
        invariant
            e <= n,
            n == (bytes@.len() as int) / (w as int),
            (bytes@.len() as int) % (w as int) == 0,
            1 <= w <= 8,
            w as nat == elem_bytes(dtype),
            vals@.len() == e,
            forall|t: int| 0 <= t < e ==> #[trigger] vals@[t] == decode_elem(bytes@, t * (w as int), w as nat),
            forall|t: int| 0 <= t < e ==> #[trigger] vals@[t] <= byte_mask(w as nat),
        decreases n - e,
    {
        let len = bytes.len();
        assert((e as int) * (w as int) + (w as int) <= len) by (nonlinear_arith)
            requires
                (e as int) < n,
                n == (len as int) / (w as int),
                (len as int) % (w as int) == 0,
                w >= 1,
        ;
        let start = e * w;
        let mut v: u64 = 0;
        let mut b: usize = 0;
        while b < w
            invariant
                b <= w,
                1 <= w <= 8,
                start as int == (e as int) * (w as int),
                start as int + w as int <= bytes@.len(),
                len == bytes@.len(),
                v == decode_elem(bytes@, start as int, b as nat),
            decreases w - b,
        {
            assert((start as int) + (b as int) < bytes@.len());
            v = v | ((bytes[start + b] as u64) << ((8 * b) as u64));
            b = b + 1;
        }
        proof {
            lemma_decode_within(bytes@, start as int, w as nat);
        }
        vals.push(v);
        e = e + 1;
    }
    assert(vals@ =~= decode(bytes@, dtype));
    assert(byte_mask(w as nat) == dtype_mask(dtype));
    let r = Tensor::from_bits(ctx, vals, tensor_data.shape.clone(), dtype, false);
    r
}

/// A name that can be used as an output file name: non-empty, with no path
/// separator, no `..` and no NUL character.
pub open spec fn valid_output_name(s: Seq<char>) -> bool {
    &&& s.len() > 0
    &&& forall|i: int| 0 <= i < s.len() ==> #[trigger] s[i] != '/' && s[i] != '\\' && s[i] != '\0'
    &&& forall|i: int| 0 <= i < s.len() - 1 ==> !(#[trigger] s[i] == '.' && s[i + 1] == '.')
}

/// Checks an output tensor name before it becomes part of a file path.
pub fn validate_output_name(name: &str) -> (r: Result<(), PluginError>)
    ensures
        r is Ok <==> valid_output_name(name@),
        r is Err ==> r->Err_0 is InvalidInput,
{
    let n = name.unicode_len();
    if n == 0 {
        return Err(PluginError::InvalidInput(String::from_str("Output tensor name cannot be empty")));
    }
    let mut i: usize = 0;
    while i < n
        invariant
            i <= n,
            n == name@.len(),
            forall|j: int| 0 <= j < i ==> #[trigger] name@[j] != '/' && name@[j] != '\\' && name@[j] != '\0',
            forall|j: int| 0 <= j < i && j < n - 1 ==> !(#[trigger] name@[j] == '.' && name@[j + 1] == '.'),
        decreases n - i,
    {
        let c = name.get_char(i);
        if c == '/' || c == '\\' || c == '\0' {
            return Err(
                PluginError::InvalidInput(
                    String::from_str("Output tensor name contains a path separator or a null byte"),
                ),
            );
        }
        if c == '.' && i + 1 < n && name.get_char(i + 1) == '.' {
            return Err(
                PluginError::InvalidInput(String::from_str("Output tensor name contains '..'")),
            );
        }
        i = i + 1;
    }
    Ok(())
}

} // verus!
