//! The instructions that an ABI walker hands to the generator.
use vstd::prelude::*;
use crate::ir::Function;
use crate::ir::Type;
use crate::repr::Bitcast;
use crate::repr::WasmSignature;
use crate::repr::WasmType;

verus! {

/// One step of lifting or lowering. Each instruction takes operands and
/// yields results, all of them C expressions, and may print statements.
#[derive(Clone, Debug)]
pub enum Instruction {
    /// Yields the `nth` parameter.
    GetArg { nth: usize },
    /// Yields a constant.
    I32Const { val: i32 },
    /// Reinterprets each operand.
    Bitcasts { casts: Vec<Bitcast> },
    /// Yields a zero for each type.
    ConstZero { tys: Vec<WasmType> },
    I32Load { offset: i32 },
    I32Load8U { offset: i32 },
    I32Load8S { offset: i32 },
    I32Load16U { offset: i32 },
    I32Load16S { offset: i32 },
    I64Load { offset: i32 },
    F32Load { offset: i32 },
    F64Load { offset: i32 },
    I32Store { offset: i32 },
    I32Store8 { offset: i32 },
    I32Store16 { offset: i32 },
    I64Store { offset: i32 },
    F32Store { offset: i32 },
    F64Store { offset: i32 },
    I32FromChar,
    I64FromU64,
    I64FromS64,
    I32FromU32,
    I32FromS32,
    I32FromU16,
    I32FromS16,
    I32FromU8,
    I32FromS8,
    F32FromFloat32,
    F64FromFloat64,
    S8FromI32,
    U8FromI32,
    S16FromI32,
    U16FromI32,
    S32FromI32,
    U32FromI32,
    S64FromI64,
    U64FromI64,
    CharFromI32,
    Float32FromF32,
    Float64FromF64,
    BoolFromI32,
    I32FromBool,
    /// Lowers a list whose elements are passed as they lie in memory.
    ListCanonLower,
    StringLower,
    /// Lowers a list element by element; the block before it handles one
    /// element.
    ListLower,
    /// Lifts a list of `element`; `ty` is the list's definition.
    ListCanonLift { element: Type, ty: usize },
    StringLift,
    ListLift { element: Type, ty: usize },
    IterElem,
    IterBasePointer,
    /// Takes a record apart; `ty` is its definition.
    RecordLower { ty: usize },
    RecordLift { ty: usize },
    TupleLower { ty: usize },
    TupleLift { ty: usize },
    FlagsLower { ty: usize },
    FlagsLift { ty: usize },
    /// Binds a name to the payload of the case that a block handles.
    VariantPayloadName,
    /// Lowers the variant that `ty` defines to values of types `results`;
    /// a block for each case precedes it.
    VariantLower { ty: usize, results: Vec<WasmType> },
    VariantLift { ty: usize },
    UnionLower { ty: usize, results: Vec<WasmType> },
    UnionLift { ty: usize },
    EnumLower,
    EnumLift,
    OptionLower { ty: usize, results: Vec<WasmType> },
    OptionLift { ty: usize },
    ResultLower { ty: usize, results: Vec<WasmType> },
    ResultLift { ty: usize },
    /// Calls the trampoline.
    CallWasm { sig: WasmSignature },
    /// Calls the function that the guest implements.
    CallInterface { func: Function },
    /// Hands back `amt` operands.
    Return { amt: usize },
    /// Allocates memory. The generator has no code for it.
    Malloc,
    GuestDeallocate,
    GuestDeallocateString,
    /// Frees a list whose elements take `element_size` bytes each; the block
    /// before it frees one element.
    GuestDeallocateList { element_size: usize },
    /// Frees a variant; a block for each of the `blocks` cases precedes it.
    GuestDeallocateVariant { blocks: usize },
}

} // verus!
