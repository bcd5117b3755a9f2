//! Integer representations and the scalar types of the canonical ABI.
use vstd::prelude::*;

verus! {

/// An unsigned integer type by its width.
#[derive(Clone, Copy, Debug, PartialEq, Eq, Structural)]
pub enum Int {
    U8,
    U16,
    U32,
    U64,
}

/// A scalar type of the canonical ABI.
#[derive(Clone, Copy, Debug, PartialEq, Eq, Structural)]
pub enum WasmType {
    I32,
    I64,
    F32,
    F64,
}

/// A reinterpretation of one scalar as another.
#[derive(Clone, Copy, Debug, PartialEq, Eq, Structural)]
pub enum Bitcast {
    F32ToI32,
    F64ToI64,
    I32ToI64,
    F32ToI64,
    I32ToF32,
    I64ToF64,
    I64ToI32,
    I64ToF32,
    Identity,
}

/// Whose side of the boundary a function is on.
#[derive(Clone, Copy, Debug, PartialEq, Eq, Structural)]
pub enum Direction {
    Import,
    Export,
}

/// The flavour of the canonical ABI that a function is called with.
#[derive(Clone, Copy, Debug, PartialEq, Eq, Structural)]
pub enum AbiVariant {
    GuestImport,
    GuestExport,
}

/// The scalar parameters and results of a function under the canonical ABI.
#[derive(Clone, Debug)]
pub struct WasmSignature {
    pub params: Vec<WasmType>,
    pub results: Vec<WasmType>,
}

/// The C name of an unsigned integer type.
pub open spec fn int_name(ty: Int) -> Seq<char> {
    match ty {
        Int::U8 => "uint8_t"@,
        Int::U16 => "uint16_t"@,
        Int::U32 => "uint32_t"@,
        Int::U64 => "uint64_t"@,
    }
}

/// The C name of a scalar type of the canonical ABI.
pub open spec fn wasm_name(ty: WasmType) -> Seq<char> {
    match ty {
        WasmType::I32 => "int32_t"@,
        WasmType::I64 => "int64_t"@,
        WasmType::F32 => "float"@,
        WasmType::F64 => "double"@,
    }
}

/// The largest value of an unsigned integer type.
pub open spec fn int_max(ty: Int) -> nat {
    match ty {
        Int::U8 => 0xff,
        Int::U16 => 0xffff,
        Int::U32 => 0xffff_ffff,
        Int::U64 => 0xffff_ffff_ffff_ffff,
    }
}

/// The number of bits of an unsigned integer type.
pub open spec fn int_bits(ty: Int) -> nat {
    match ty {
        Int::U8 => 8,
        Int::U16 => 16,
        Int::U32 => 32,
        Int::U64 => 64,
    }
}

/// The narrowest type with a bit for each of `count` flags.
pub open spec fn flags_width(count: nat) -> Int {
    if count <= 8 {
        Int::U8
    } else if count <= 16 {
        Int::U16
    } else if count <= 32 {
        Int::U32
    } else {
        Int::U64
    }
}

/// The narrowest type whose largest value is at least `cases`.
pub open spec fn tag_width(cases: nat) -> Int {
    if cases <= 0xff {
        Int::U8
    } else if cases <= 0xffff {
        Int::U16
    } else {
        Int::U32
    }
}

/// The ABI flavour of a direction.
pub open spec fn variant_of(dir: Direction) -> AbiVariant {
    match dir {
        Direction::Export => AbiVariant::GuestExport,
        Direction::Import => AbiVariant::GuestImport,
    }
}

/// The C name of a scalar type of the canonical ABI.
pub fn wasm_type(ty: WasmType) -> (r: &'static str)
    ensures
        r@ == wasm_name(ty),
{
    match ty {
        WasmType::I32 => "int32_t",
        WasmType::I64 => "int64_t",
        WasmType::F32 => "float",
        WasmType::F64 => "double",
    }
}

/// The C name of an unsigned integer type.
pub fn int_repr(ty: Int) -> (r: &'static str)
    ensures
        r@ == int_name(ty),
{
    match ty {
        Int::U8 => "uint8_t",
        Int::U16 => "uint16_t",
        Int::U32 => "uint32_t",
        Int::U64 => "uint64_t",
    }
}

/// The integer type that holds a set of flags: the narrowest with a bit for
/// each.
pub fn flags_repr(flags: &Vec<String>) -> (r: Int)
    requires
        flags@.len() <= 64,
    ensures
        r == flags_width(flags@.len()),
        flags@.len() <= int_bits(r),
{
    let n = flags.len();
    if n <= 8 {
        Int::U8
    } else if n <= 16 {
        Int::U16
    } else if n <= 32 {
        Int::U32
    } else {
        Int::U64
    }
}

/// The integer type of a discriminant that tells `cases` cases apart: the
/// narrowest whose largest value is at least `cases`.
pub fn tag_repr(cases: usize) -> (r: Int)
    requires
        cases <= u32::MAX,
    ensures
        r == tag_width(cases as nat),
        cases <= int_max(r),
{
    if cases <= 0xff {
        Int::U8
    } else if cases <= 0xffff {
        Int::U16
    } else {
        Int::U32
    }
}

} // verus!
