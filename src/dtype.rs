//! Element types and their stable string forms.

use vstd::prelude::*;

verus! {

/// Element type of a tensor.
#[derive(Clone, Copy, Debug, PartialEq, Eq, Structural, Hash)]
pub enum DType {
    BOOL,
    F8E4M3,
    F8E5M2,
    BF16,
    F16,
    F32,
    F64,
    U8,
    U16,
    U32,
    U64,
    I8,
    I16,
    I32,
    I64,
}

/// Element type as carried over the plugin protocol.
#[derive(Clone, Copy, Debug, PartialEq, Eq, Structural, Hash)]
#[non_exhaustive]
pub enum PluginDType {
    BOOL,
    F8E4M3,
    F8E5M2,
    BF16,
    F16,
    F32,
    F64,
    U8,
    U16,
    U32,
    U64,
    I8,
    I16,
    I32,
    I64,
}

/// A protocol element type that has no counterpart among the core element types.
#[derive(Clone, Copy, Debug, PartialEq, Eq, Structural)]
pub struct UnknownDTypeError(pub PluginDType);

/// The stable lowercase name of an element type.
pub open spec fn dtype_name(d: DType) -> Seq<char> {
    match d {
        DType::BOOL => "bool"@,
        DType::F8E4M3 => "f8e4m3"@,
        DType::F8E5M2 => "f8e5m2"@,
        DType::BF16 => "bf16"@,
        DType::F16 => "f16"@,
        DType::F32 => "f32"@,
        DType::F64 => "f64"@,
        DType::U8 => "u8"@,
        DType::U16 => "u16"@,
        DType::U32 => "u32"@,
        DType::U64 => "u64"@,
        DType::I8 => "i8"@,
        DType::I16 => "i16"@,
        DType::I32 => "i32"@,
        DType::I64 => "i64"@,
    }
}

/// Integer element types: the only ones bitwise operations accept.
pub open spec fn is_integer_dtype(d: DType) -> bool {
    match d {
        DType::U8 | DType::U16 | DType::U32 | DType::U64 | DType::I8 | DType::I16 | DType::I32
        | DType::I64 => true,
        _ => false,
    }
}

pub open spec fn is_signed_dtype(d: DType) -> bool {
    match d {
        DType::I8 | DType::I16 | DType::I32 | DType::I64 => true,
        _ => false,
    }
}

pub open spec fn is_float_dtype(d: DType) -> bool {
    match d {
        DType::F8E4M3 | DType::F8E5M2 | DType::BF16 | DType::F16 | DType::F32 | DType::F64 => true,
        _ => false,
    }
}

/// Width of one element in bits.
pub open spec fn dtype_bits(d: DType) -> nat {
    match d {
        DType::BOOL | DType::F8E4M3 | DType::F8E5M2 | DType::U8 | DType::I8 => 8,
        DType::BF16 | DType::F16 | DType::U16 | DType::I16 => 16,
        DType::F32 | DType::U32 | DType::I32 => 32,
        DType::F64 | DType::U64 | DType::I64 => 64,
    }
}

/// Smallest value an element of this type holds. Floating-point elements
/// are held as their raw bit patterns, and `BOOL` as 0 or 1.
pub open spec fn dtype_min(d: DType) -> int {
    match d {
        DType::I8 => -0x80,
        DType::I16 => -0x8000,
        DType::I32 => -0x8000_0000,
        DType::I64 => -0x8000_0000_0000_0000,
        _ => 0,
    }
}

/// Largest value an element of this type holds.
pub open spec fn dtype_max(d: DType) -> int {
    match d {
        DType::BOOL => 1,
        DType::I8 => 0x7f,
        DType::I16 => 0x7fff,
        DType::I32 => 0x7fff_ffff,
        DType::I64 => 0x7fff_ffff_ffff_ffff,
        DType::F8E4M3 | DType::F8E5M2 | DType::U8 => 0xff,
        DType::BF16 | DType::F16 | DType::U16 => 0xffff,
        DType::F32 | DType::U32 => 0xffff_ffff,
        DType::F64 | DType::U64 => 0xffff_ffff_ffff_ffff,
    }
}

pub open spec fn in_dtype_range(d: DType, v: int) -> bool {
    dtype_min(d) <= v <= dtype_max(d)
}

pub open spec fn core_to_plugin(d: DType) -> PluginDType {
    match d {
        DType::BOOL => PluginDType::BOOL,
        DType::F8E4M3 => PluginDType::F8E4M3,
        DType::F8E5M2 => PluginDType::F8E5M2,
        DType::BF16 => PluginDType::BF16,
        DType::F16 => PluginDType::F16,
        DType::F32 => PluginDType::F32,
        DType::F64 => PluginDType::F64,
        DType::U8 => PluginDType::U8,
        DType::U16 => PluginDType::U16,
        DType::U32 => PluginDType::U32,
        DType::U64 => PluginDType::U64,
        DType::I8 => PluginDType::I8,
        DType::I16 => PluginDType::I16,
        DType::I32 => PluginDType::I32,
        DType::I64 => PluginDType::I64,
    }
}

pub open spec fn plugin_to_core(d: PluginDType) -> DType {
    match d {
        PluginDType::BOOL => DType::BOOL,
        PluginDType::F8E4M3 => DType::F8E4M3,
        PluginDType::F8E5M2 => DType::F8E5M2,
        PluginDType::BF16 => DType::BF16,
        PluginDType::F16 => DType::F16,
        PluginDType::F32 => DType::F32,
        PluginDType::F64 => DType::F64,
        PluginDType::U8 => DType::U8,
        PluginDType::U16 => DType::U16,
        PluginDType::U32 => DType::U32,
        PluginDType::U64 => DType::U64,
        PluginDType::I8 => DType::I8,
        PluginDType::I16 => DType::I16,
        PluginDType::I32 => DType::I32,
        PluginDType::I64 => DType::I64,
    }
}

impl DType {
    /// The stable lowercase name used in kernel identifiers.
    pub fn as_str(self) -> (r: &'static str)
        ensures
            r@ == dtype_name(self),
    {
        match self {
            DType::BOOL => "bool",
            DType::F8E4M3 => "f8e4m3",
            DType::F8E5M2 => "f8e5m2",
            DType::BF16 => "bf16",
            DType::F16 => "f16",
            DType::F32 => "f32",
            DType::F64 => "f64",
            DType::U8 => "u8",
            DType::U16 => "u16",
            DType::U32 => "u32",
            DType::U64 => "u64",
            DType::I8 => "i8",
            DType::I16 => "i16",
            DType::I32 => "i32",
            DType::I64 => "i64",
        }
    }

    pub fn is_integer(self) -> (r: bool)
        ensures
            r == is_integer_dtype(self),
    {
        match self {
            DType::U8 | DType::U16 | DType::U32 | DType::U64 | DType::I8 | DType::I16
            | DType::I32 | DType::I64 => true,
            _ => false,
        }
    }

    pub fn is_signed(self) -> (r: bool)
        ensures
            r == is_signed_dtype(self),
    {
        match self {
            DType::I8 | DType::I16 | DType::I32 | DType::I64 => true,
            _ => false,
        }
    }

    pub fn is_float(self) -> (r: bool)
        ensures
            r == is_float_dtype(self),
    {
        match self {
            DType::F8E4M3 | DType::F8E5M2 | DType::BF16 | DType::F16 | DType::F32
            | DType::F64 => true,
            _ => false,
        }
    }

    /// Width of one element in bits.
    pub fn bits(self) -> (r: u32)
        ensures
            r as nat == dtype_bits(self),
    {
        match self {
            DType::BOOL | DType::F8E4M3 | DType::F8E5M2 | DType::U8 | DType::I8 => 8,
            DType::BF16 | DType::F16 | DType::U16 | DType::I16 => 16,
            DType::F32 | DType::U32 | DType::I32 => 32,
            DType::F64 | DType::U64 | DType::I64 => 64,
        }
    }

    pub fn min_value(self) -> (r: i128)
        ensures
            r as int == dtype_min(self),
    {
        match self {
            DType::I8 => -0x80,
            DType::I16 => -0x8000,
            DType::I32 => -0x8000_0000,
            DType::I64 => -0x8000_0000_0000_0000,
            _ => 0,
        }
    }

    pub fn max_value(self) -> (r: i128)
        ensures
            r as int == dtype_max(self),
    {
        match self {
            DType::BOOL => 1,
            DType::I8 => 0x7f,
            DType::I16 => 0x7fff,
            DType::I32 => 0x7fff_ffff,
            DType::I64 => 0x7fff_ffff_ffff_ffff,
            DType::F8E4M3 | DType::F8E5M2 | DType::U8 => 0xff,
            DType::BF16 | DType::F16 | DType::U16 => 0xffff,
            DType::F32 | DType::U32 => 0xffff_ffff,
            DType::F64 | DType::U64 => 0xffff_ffff_ffff_ffff,
        }
    }
}

/// Converts a core element type to its protocol counterpart.
pub fn core_dtype_to_plugin(dtype: DType) -> (r: PluginDType)
    ensures
        r == core_to_plugin(dtype),
        plugin_to_core(r) == dtype,
{
    match dtype {
        DType::BOOL => PluginDType::BOOL,
        DType::F8E4M3 => PluginDType::F8E4M3,
        DType::F8E5M2 => PluginDType::F8E5M2,
        DType::BF16 => PluginDType::BF16,
        DType::F16 => PluginDType::F16,
        DType::F32 => PluginDType::F32,
        DType::F64 => PluginDType::F64,
        DType::U8 => PluginDType::U8,
        DType::U16 => PluginDType::U16,
        DType::U32 => PluginDType::U32,
        DType::U64 => PluginDType::U64,
        DType::I8 => PluginDType::I8,
        DType::I16 => PluginDType::I16,
        DType::I32 => PluginDType::I32,
        DType::I64 => PluginDType::I64,
    }
}

/// Converts a protocol element type to the core one. Every protocol element
/// type known to this library has a core counterpart, so this always succeeds.
pub fn plugin_dtype_to_core(dtype: PluginDType) -> (r: Result<DType, UnknownDTypeError>)
    ensures
        r == Ok::<DType, UnknownDTypeError>(plugin_to_core(dtype)),
        core_to_plugin(plugin_to_core(dtype)) == dtype,
{
    match dtype {
        PluginDType::BOOL => Ok(DType::BOOL),
        PluginDType::F8E4M3 => Ok(DType::F8E4M3),
        PluginDType::F8E5M2 => Ok(DType::F8E5M2),
        PluginDType::BF16 => Ok(DType::BF16),
        PluginDType::F16 => Ok(DType::F16),
        PluginDType::F32 => Ok(DType::F32),
        PluginDType::F64 => Ok(DType::F64),
        PluginDType::U8 => Ok(DType::U8),
        PluginDType::U16 => Ok(DType::U16),
        PluginDType::U32 => Ok(DType::U32),
        PluginDType::U64 => Ok(DType::U64),
        PluginDType::I8 => Ok(DType::I8),
        PluginDType::I16 => Ok(DType::I16),
        PluginDType::I32 => Ok(DType::I32),
        PluginDType::I64 => Ok(DType::I64),
    }
}

impl UnknownDTypeError {
    /// The error's message.
    pub fn message(&self) -> (r: String)
        ensures
            r@ == "Unknown PluginDType variant"@,
    {
        String::from_str("Unknown PluginDType variant")
    }
}

} // verus!
