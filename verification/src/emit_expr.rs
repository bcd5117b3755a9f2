//! Instructions that yield expressions or print a plain statement.
use vstd::prelude::*;
use crate::abi::Instruction;
use crate::bindgen::load_expr;
use crate::bindgen::gave;
use crate::bindgen::printed;
use crate::bindgen::store_pieces;
use crate::bindgen::yields;
use crate::bindgen::BindState;
use crate::bindgen::Error;
use crate::bindgen::FunctionBindgen;
use crate::bindgen::Outcome;
use crate::gen::GenState;
use crate::ir::Field;
use crate::ir::Interface;
use crate::ir::TypeDefKind;
use crate::repr::Bitcast;
use crate::text::concat3;
use crate::text::decimal;
use crate::text::decimal_string;
use crate::text::extend_strings;
use crate::text::group_render;
use crate::text::push_string;
use crate::text::snake;
use crate::text::snake_case;
use crate::text::strs;

verus! {

broadcast use group_render;

/// What stands before and behind the operand of a conversion between a
/// value and its scalar, where the instruction is one.
pub open spec fn cast_wrap(inst: Instruction) -> Option<(Seq<char>, Seq<char>)> {
    match inst {
        Instruction::U8FromI32 => Some(("(uint8_t) ("@, ")"@)),
        Instruction::S8FromI32 => Some(("(int8_t) ("@, ")"@)),
        Instruction::U16FromI32 => Some(("(uint16_t) ("@, ")"@)),
        Instruction::S16FromI32 => Some(("(int16_t) ("@, ")"@)),
        Instruction::U32FromI32 => Some(("(uint32_t) ("@, ")"@)),
        Instruction::S32FromI32 | Instruction::S64FromI64 => Some((""@, ""@)),
        Instruction::U64FromI64 => Some(("(uint64_t) ("@, ")"@)),
        Instruction::I32FromU8
        | Instruction::I32FromS8
        | Instruction::I32FromU16
        | Instruction::I32FromS16
        | Instruction::I32FromU32 => Some(("(int32_t) ("@, ")"@)),
        Instruction::I32FromS32 | Instruction::I64FromS64 => Some((""@, ""@)),
        Instruction::I64FromU64 => Some(("(int64_t) ("@, ")"@)),
        Instruction::F32FromFloat32
        | Instruction::F64FromFloat64
        | Instruction::Float32FromF32
        | Instruction::Float64FromF64 => Some((""@, ""@)),
        Instruction::CharFromI32 => Some(("(uint32_t) ("@, ")"@)),
        Instruction::I32FromChar => Some(("(int32_t) ("@, ")"@)),
        Instruction::BoolFromI32 | Instruction::I32FromBool => Some((""@, ""@)),
        Instruction::EnumLower => Some(("(int32_t) "@, ""@)),
        _ => None,
    }
}

/// The C type, the offset and whether the value is widened, where the
/// instruction is a load.
pub open spec fn load_kind(inst: Instruction) -> Option<(Seq<char>, int, bool)> {
    match inst {
        Instruction::I32Load { offset } => Some(("int32_t"@, offset as int, false)),
        Instruction::I64Load { offset } => Some(("int64_t"@, offset as int, false)),
        Instruction::F32Load { offset } => Some(("float"@, offset as int, false)),
        Instruction::F64Load { offset } => Some(("double"@, offset as int, false)),
        Instruction::I32Load8U { offset } => Some(("uint8_t"@, offset as int, true)),
        Instruction::I32Load8S { offset } => Some(("int8_t"@, offset as int, true)),
        Instruction::I32Load16U { offset } => Some(("uint16_t"@, offset as int, true)),
        Instruction::I32Load16S { offset } => Some(("int16_t"@, offset as int, true)),
        _ => None,
    }
}

/// The C type and the offset, where the instruction is a store.
pub open spec fn store_kind(inst: Instruction) -> Option<(Seq<char>, int)> {
    match inst {
        Instruction::I32Store { offset } => Some(("int32_t"@, offset as int)),
        Instruction::I64Store { offset } => Some(("int64_t"@, offset as int)),
        Instruction::F32Store { offset } => Some(("float"@, offset as int)),
        Instruction::F64Store { offset } => Some(("double"@, offset as int)),
        Instruction::I32Store8 { offset } => Some(("int8_t"@, offset as int)),
        Instruction::I32Store16 { offset } => Some(("int16_t"@, offset as int)),
        _ => None,
    }
}

/// The expression that reinterprets `op`: a pun through a union between a
/// float and an integer, a cast between integers.
pub open spec fn bitcast_expr(cast: Bitcast, op: Seq<char>) -> Seq<char> {
    match cast {
        Bitcast::I32ToF32 | Bitcast::I64ToF32 => "((union { int32_t a; float b; }){ "@ + op
            + " }).b"@,
        Bitcast::F32ToI32 | Bitcast::F32ToI64 => "((union { float a; int32_t b; }){ "@ + op
            + " }).b"@,
        Bitcast::I64ToF64 => "((union { int64_t a; double b; }){ "@ + op + " }).b"@,
        Bitcast::F64ToI64 => "((union { double a; int64_t b; }){ "@ + op + " }).b"@,
        Bitcast::I32ToI64 => "(int64_t) "@ + op + ""@,
        Bitcast::I64ToI32 => "(int32_t) "@ + op + ""@,
        Bitcast::Identity => ""@ + op + ""@,
    }
}

/// The address and the length of a list value, as scalars.
pub open spec fn ptr_len(op: Seq<char>) -> Seq<Seq<char>> {
    seq!["(int32_t) ("@ + op + ").ptr"@].push("(int32_t) ("@ + op + ").len"@)
}

/// What a conversion yields: the operand between what [`cast_wrap`] gives.
pub open spec fn cast_results(wrap: (Seq<char>, Seq<char>), ops: Seq<Seq<char>>) -> Result<
    Seq<Seq<char>>,
    Error,
> {
    if ops.len() < 1 {
        Err(Error::Malformed)
    } else {
        Ok(seq![wrap.0 + ops[0] + wrap.1])
    }
}

/// What a load yields.
pub open spec fn load_results(kind: (Seq<char>, int, bool), ops: Seq<Seq<char>>) -> Result<
    Seq<Seq<char>>,
    Error,
> {
    if ops.len() < 1 {
        Err(Error::Malformed)
    } else if kind.2 {
        Ok(seq!["(int32_t) ("@ + load_expr(kind.0, kind.1, ops[0]) + ")"@])
    } else {
        Ok(seq![load_expr(kind.0, kind.1, ops[0])])
    }
}

/// What a store prints.
pub open spec fn store_stmt(kind: (Seq<char>, int), ops: Seq<Seq<char>>) -> Result<
    Seq<Seq<char>>,
    Error,
> {
    if ops.len() < 2 {
        Err(Error::Malformed)
    } else {
        Ok(store_pieces(kind.0, kind.1, ops[0], ops[1]))
    }
}

/// What `GetArg` yields: the parameter, if there is one of that number.
pub open spec fn get_arg_results(params: Seq<Seq<char>>, nth: usize) -> Result<
    Seq<Seq<char>>,
    Error,
> {
    if nth < params.len() {
        Ok(seq![params[nth as int]])
    } else {
        Err(Error::Malformed)
    }
}

/// What `Bitcasts` yields: each operand reinterpreted.
pub open spec fn bitcasts_results(casts: Seq<Bitcast>, ops: Seq<Seq<char>>) -> Result<
    Seq<Seq<char>>,
    Error,
> {
    if ops.len() < casts.len() {
        Err(Error::Malformed)
    } else {
        Ok(Seq::new(casts.len(), |i: int| bitcast_expr(casts[i], ops[i])))
    }
}

/// What lowering a list or a string yields: its address and its length.
pub open spec fn ptr_len_results(ops: Seq<Seq<char>>) -> Result<Seq<Seq<char>>, Error> {
    if ops.len() < 1 {
        Err(Error::Malformed)
    } else {
        Ok(ptr_len(ops[0]))
    }
}

/// The outcome of `ListLower`: the block for the element is dropped.
pub open spec fn list_lower_outcome(b: BindState, g: GenState, ops: Seq<Seq<char>>) -> Result<
    Outcome,
    Error,
> {
    if ops.len() < 1 || b.blocks.len() < 1 {
        Err(Error::Malformed)
    } else {
        yields(BindState { blocks: b.blocks.drop_last(), ..b }, g, ptr_len(ops[0]))
    }
}

/// The fields of the record that definition `ty` is.
pub open spec fn record_fields(iface: Interface, ty: usize) -> Option<Seq<Field>> {
    if ty < iface.types@.len() {
        match iface.types@[ty as int].kind {
            TypeDefKind::Record(fields) => Some(fields@),
            _ => None,
        }
    } else {
        None
    }
}

/// The number of elements of the tuple that definition `ty` is.
pub open spec fn tuple_len(iface: Interface, ty: usize) -> Option<nat> {
    if ty < iface.types@.len() {
        match iface.types@[ty as int].kind {
            TypeDefKind::Tuple(types) => Some(types@.len()),
            _ => None,
        }
    } else {
        None
    }
}

/// What `RecordLower` yields: each field of the operand.
pub open spec fn record_lower_results(iface: Interface, ty: usize, ops: Seq<Seq<char>>) -> Result<
    Seq<Seq<char>>,
    Error,
> {
    match record_fields(iface, ty) {
        Some(fields) => if ops.len() < 1 {
            Err(Error::Malformed)
        } else {
            Ok(Seq::new(fields.len(), |i: int| "("@ + ops[0] + ")."@ + snake_case(fields[i].name@)))
        },
        None => Err(Error::Malformed),
    }
}

/// What `TupleLower` yields: each element of the operand.
pub open spec fn tuple_lower_results(iface: Interface, ty: usize, ops: Seq<Seq<char>>) -> Result<
    Seq<Seq<char>>,
    Error,
> {
    match tuple_len(iface, ty) {
        Some(n) => if ops.len() < 1 {
            Err(Error::Malformed)
        } else {
            Ok(Seq::new(n, |i: int| "("@ + ops[0] + ").f"@ + decimal(i as nat)))
        },
        None => Err(Error::Malformed),
    }
}

/// The statement that frees what the operand points to.
pub open spec fn dealloc_pieces(op: Seq<char>) -> Seq<Seq<char>> {
    seq!["free((void*) ("@].push(op).push("));\n"@)
}

/// What `GuestDeallocate` prints.
pub open spec fn dealloc_stmt(ops: Seq<Seq<char>>) -> Result<Seq<Seq<char>>, Error> {
    if ops.len() < 1 {
        Err(Error::Malformed)
    } else {
        Ok(dealloc_pieces(ops[0]))
    }
}

/// What `GuestDeallocateString` prints: the string is freed unless its
/// length is 0.
pub open spec fn dealloc_string_stmt(ops: Seq<Seq<char>>) -> Result<Seq<Seq<char>>, Error> {
    if ops.len() < 2 {
        Err(Error::Malformed)
    } else {
        Ok(
            (seq!["if (("@].push(ops[1]).push(") > 0) {\n"@) + dealloc_pieces(ops[0])).push(
                "}\n"@,
            ),
        )
    }
}

pub(crate) fn cast_strs(inst: &Instruction) -> (r: Option<(&'static str, &'static str)>)
    ensures
        match cast_wrap(*inst) {
            Some(w) => r matches Some(p) && p.0@ == w.0 && p.1@ == w.1,
            None => r is None,
        },
{
    match inst {
        Instruction::U8FromI32 => Some(("(uint8_t) (", ")")),
        Instruction::S8FromI32 => Some(("(int8_t) (", ")")),
        Instruction::U16FromI32 => Some(("(uint16_t) (", ")")),
        Instruction::S16FromI32 => Some(("(int16_t) (", ")")),
        Instruction::U32FromI32 => Some(("(uint32_t) (", ")")),
        Instruction::S32FromI32 | Instruction::S64FromI64 => Some(("", "")),
        Instruction::U64FromI64 => Some(("(uint64_t) (", ")")),
        Instruction::I32FromU8
        | Instruction::I32FromS8
        | Instruction::I32FromU16
        | Instruction::I32FromS16
        | Instruction::I32FromU32 => Some(("(int32_t) (", ")")),
        Instruction::I32FromS32 | Instruction::I64FromS64 => Some(("", "")),
        Instruction::I64FromU64 => Some(("(int64_t) (", ")")),
        Instruction::F32FromFloat32
        | Instruction::F64FromFloat64
        | Instruction::Float32FromF32
        | Instruction::Float64FromF64 => Some(("", "")),
        Instruction::CharFromI32 => Some(("(uint32_t) (", ")")),
        Instruction::I32FromChar => Some(("(int32_t) (", ")")),
        Instruction::BoolFromI32 | Instruction::I32FromBool => Some(("", "")),
        Instruction::EnumLower => Some(("(int32_t) ", "")),
        _ => None,
    }
}

pub(crate) fn bitcast_strs(cast: Bitcast) -> (p: (&'static str, &'static str))
    ensures
        forall|op: Seq<char>| p.0@ + op + p.1@ == #[trigger] bitcast_expr(cast, op),
{
    match cast {
        Bitcast::I32ToF32 | Bitcast::I64ToF32 => ("((union { int32_t a; float b; }){ ", " }).b"),
        Bitcast::F32ToI32 | Bitcast::F32ToI64 => ("((union { float a; int32_t b; }){ ", " }).b"),
        Bitcast::I64ToF64 => ("((union { int64_t a; double b; }){ ", " }).b"),
        Bitcast::F64ToI64 => ("((union { double a; int64_t b; }){ ", " }).b"),
        Bitcast::I32ToI64 => ("(int64_t) ", ""),
        Bitcast::I64ToI32 => ("(int32_t) ", ""),
        Bitcast::Identity => ("", ""),
    }
}

pub(crate) fn load_strs(inst: &Instruction) -> (r: Option<(&'static str, i32, bool)>)
    ensures
        match load_kind(*inst) {
            Some(k) => r matches Some(p) && p.0@ == k.0 && p.1 as int == k.1 && p.2 == k.2,
            None => r is None,
        },
{
    match inst {
        Instruction::I32Load { offset } => Some(("int32_t", *offset, false)),
        Instruction::I64Load { offset } => Some(("int64_t", *offset, false)),
        Instruction::F32Load { offset } => Some(("float", *offset, false)),
        Instruction::F64Load { offset } => Some(("double", *offset, false)),
        Instruction::I32Load8U { offset } => Some(("uint8_t", *offset, true)),
        Instruction::I32Load8S { offset } => Some(("int8_t", *offset, true)),
        Instruction::I32Load16U { offset } => Some(("uint16_t", *offset, true)),
        Instruction::I32Load16S { offset } => Some(("int16_t", *offset, true)),
        _ => None,
    }
}

pub(crate) fn store_strs(inst: &Instruction) -> (r: Option<(&'static str, i32)>)
    ensures
        match store_kind(*inst) {
            Some(k) => r matches Some(p) && p.0@ == k.0 && p.1 as int == k.1,
            None => r is None,
        },
{
    match inst {
        Instruction::I32Store { offset } => Some(("int32_t", *offset)),
        Instruction::I64Store { offset } => Some(("int64_t", *offset)),
        Instruction::F32Store { offset } => Some(("float", *offset)),
        Instruction::F64Store { offset } => Some(("double", *offset)),
        Instruction::I32Store8 { offset } => Some(("int8_t", *offset)),
        Instruction::I32Store16 { offset } => Some(("int16_t", *offset)),
        _ => None,
    }
}

impl FunctionBindgen {
    /// Yields the operand of a conversion between what stands before and
    /// behind it.
    pub(crate) fn emit_cast(wrap: (&str, &str), operands: &Vec<String>, results: &mut Vec<String>) -> (r:
        Result<(), Error>)
        ensures
            gave(
                cast_results((wrap.0@, wrap.1@), strs(operands@)),
                r,
                strs(old(results)@),
                strs(final(results)@),
            ),
    {
        if operands.len() < 1 {
            return Err(Error::Malformed);
        }
        let e = concat3(wrap.0, operands[0].as_str(), wrap.1);
        push_string(results, e);
        assert(strs(old(results)@).push(e@) =~= strs(old(results)@) + seq![e@]);
        Ok(())
    }

    /// Yields the expression of a load.
    pub(crate) fn emit_load(
        kind: (&str, i32, bool),
        operands: &Vec<String>,
        results: &mut Vec<String>,
    ) -> (r: Result<(), Error>)
        ensures
            gave(
                load_results((kind.0@, kind.1 as int, kind.2), strs(operands@)),
                r,
                strs(old(results)@),
                strs(final(results)@),
            ),
    {
        if operands.len() < 1 {
            return Err(Error::Malformed);
        }
        if kind.2 {
            FunctionBindgen::load_ext(kind.0, kind.1, operands, results);
        } else {
            FunctionBindgen::load(kind.0, kind.1, operands, results);
        }
        let ghost e = strs(results@).last();
        assert(strs(old(results)@).push(e) =~= strs(old(results)@) + seq![e]);
        Ok(())
    }

    /// Prints the statement of a store.
    pub(crate) fn emit_store(&mut self, kind: (&str, i32), operands: &Vec<String>) -> (r: Result<
        (),
        Error,
    >)
        ensures
            printed(
                store_stmt((kind.0@, kind.1 as int), strs(operands@)),
                r,
                old(self)@,
                final(self)@,
            ),
    {
        if operands.len() < 2 {
            return Err(Error::Malformed);
        }
        self.store(kind.0, kind.1, operands);
        Ok(())
    }

    /// Yields the parameter of the given number.
    pub(crate) fn emit_get_arg(&self, nth: usize, results: &mut Vec<String>) -> (r: Result<(), Error>)
        ensures
            gave(
                get_arg_results(self@.params, nth),
                r,
                strs(old(results)@),
                strs(final(results)@),
            ),
    {
        if nth >= self.params.len() {
            return Err(Error::Malformed);
        }
        let e = self.params[nth].clone();
        push_string(results, e);
        assert(strs(old(results)@).push(e@) =~= strs(old(results)@) + seq![e@]);
        Ok(())
    }

    /// Yields one constant.
    pub(crate) fn emit_literal(text: &str, results: &mut Vec<String>)
        ensures
            strs(final(results)@) == strs(old(results)@) + seq![text@],
    {
        push_string(results, String::from_str(text));
        assert(strs(old(results)@).push(text@) =~= strs(old(results)@) + seq![text@]);
    }

    /// Yields a zero for each of `n` types.
    pub(crate) fn emit_zeros(n: usize, results: &mut Vec<String>)
        ensures
            strs(final(results)@) == strs(old(results)@) + Seq::new(n as nat, |i: int| "0"@),
    {
        let mut out: Vec<String> = Vec::new();
        let mut k: usize = 0;
        while k < n
            invariant
                k <= n,
                out@.len() == k,
                forall|j: int| 0 <= j < k ==> out@[j]@ == "0"@,
            decreases n - k,
        {
            out.push(String::from_str("0"));
            k += 1;
        }
        assert(strs(out@) =~= Seq::new(n as nat, |i: int| "0"@));
        extend_strings(results, out);
    }

    /// Yields each operand reinterpreted.
    pub(crate) fn emit_bitcasts(casts: &Vec<Bitcast>, operands: &Vec<String>, results: &mut Vec<String>) -> (r:
        Result<(), Error>)
        ensures
            gave(
                bitcasts_results(casts@, strs(operands@)),
                r,
                strs(old(results)@),
                strs(final(results)@),
            ),
    {
        if operands.len() < casts.len() {
            return Err(Error::Malformed);
        }
        let mut out: Vec<String> = Vec::new();
        let mut k: usize = 0;
        while k < casts.len()
            invariant
                k <= casts@.len(),
                casts@.len() <= operands@.len(),
                out@.len() == k,
                forall|j: int| 0 <= j < k ==> out@[j]@ == bitcast_expr(casts@[j], operands@[j]@),
            decreases casts@.len() - k,
        {
            let p = bitcast_strs(casts[k]);
            out.push(concat3(p.0, operands[k].as_str(), p.1));
            k += 1;
        }
        assert(strs(out@) =~= Seq::new(
            casts@.len(),
            |i: int| bitcast_expr(casts@[i], strs(operands@)[i]),
        ));
        extend_strings(results, out);
        Ok(())
    }

    /// Yields the address and the length of the list that the operand is.
    pub(crate) fn emit_ptr_len(operands: &Vec<String>, results: &mut Vec<String>) -> (r: Result<
        (),
        Error,
    >)
        ensures
            gave(ptr_len_results(strs(operands@)), r, strs(old(results)@), strs(final(results)@)),
    {
        if operands.len() < 1 {
            return Err(Error::Malformed);
        }
        let p = concat3("(int32_t) (", operands[0].as_str(), ").ptr");
        let l = concat3("(int32_t) (", operands[0].as_str(), ").len");
        push_string(results, p);
        push_string(results, l);
        assert(strs(old(results)@).push(p@).push(l@) =~= strs(old(results)@) + ptr_len(
            operands@[0]@,
        ));
        Ok(())
    }

    /// Lowers a list element by element: drops the block for the element and
    /// yields the list's address and length.
    pub(crate) fn emit_list_lower(&mut self, operands: &Vec<String>, results: &mut Vec<String>) -> (r:
        Result<(), Error>)
        ensures
            r is Ok <==> operands@.len() >= 1 && old(self)@.blocks.len() >= 1,
            r is Err ==> r == Err::<(), Error>(Error::Malformed),
            r is Ok ==> final(self)@ == (BindState {
                blocks: old(self)@.blocks.drop_last(),
                ..old(self)@
            }) && strs(final(results)@) == strs(old(results)@) + ptr_len(operands@[0]@),
    {
        if operands.len() < 1 || self.blocks.len() < 1 {
            return Err(Error::Malformed);
        }
        let _body = self.blocks.pop();
        assert(self@.blocks =~= old(self)@.blocks.drop_last());
        let r = FunctionBindgen::emit_ptr_len(operands, results);
        r
    }

    /// Yields each field of the record that the operand is.
    pub(crate) fn emit_record_lower(
        iface: &Interface,
        ty: usize,
        operands: &Vec<String>,
        results: &mut Vec<String>,
    ) -> (r: Result<(), Error>)
        ensures
            gave(
                record_lower_results(*iface, ty, strs(operands@)),
                r,
                strs(old(results)@),
                strs(final(results)@),
            ),
    {
        if ty >= iface.types.len() {
            return Err(Error::Malformed);
        }
        let fields = match &iface.types[ty].kind {
            TypeDefKind::Record(fields) => fields,
            _ => {
                return Err(Error::Malformed);
            },
        };
        if operands.len() < 1 {
            return Err(Error::Malformed);
        }
        let mut out: Vec<String> = Vec::new();
        let mut k: usize = 0;
        while k < fields.len()
            invariant
                k <= fields@.len(),
                operands@.len() >= 1,
                out@.len() == k,
                forall|j: int|
                    0 <= j < k ==> out@[j]@ == "("@ + operands@[0]@ + ")."@ + snake_case(
                        fields@[j].name@,
                    ),
            decreases fields@.len() - k,
        {
            let mut e = concat3("(", operands[0].as_str(), ").");
            let n = snake(fields[k].name.as_str());
            e.append(n.as_str());
            out.push(e);
            k += 1;
        }
        assert(strs(out@) =~= Seq::new(
            fields@.len(),
            |i: int| "("@ + strs(operands@)[0] + ")."@ + snake_case(fields@[i].name@),
        ));
        extend_strings(results, out);
        Ok(())
    }

    /// Yields each element of the tuple that the operand is.
    pub(crate) fn emit_tuple_lower(
        iface: &Interface,
        ty: usize,
        operands: &Vec<String>,
        results: &mut Vec<String>,
    ) -> (r: Result<(), Error>)
        ensures
            gave(
                tuple_lower_results(*iface, ty, strs(operands@)),
                r,
                strs(old(results)@),
                strs(final(results)@),
            ),
    {
        if ty >= iface.types.len() {
            return Err(Error::Malformed);
        }
        let types = match &iface.types[ty].kind {
            TypeDefKind::Tuple(types) => types,
            _ => {
                return Err(Error::Malformed);
            },
        };
        if operands.len() < 1 {
            return Err(Error::Malformed);
        }
        let mut out: Vec<String> = Vec::new();
        let mut k: usize = 0;
        while k < types.len()
            invariant
                k <= types@.len(),
                operands@.len() >= 1,
                out@.len() == k,
                forall|j: int|
                    0 <= j < k ==> out@[j]@ == "("@ + operands@[0]@ + ").f"@ + decimal(j as nat),
            decreases types@.len() - k,
        {
            let mut e = concat3("(", operands[0].as_str(), ").f");
            let n = decimal_string(k);
            e.append(n.as_str());
            out.push(e);
            k += 1;
        }
        assert(strs(out@) =~= Seq::new(
            types@.len(),
            |i: int| "("@ + strs(operands@)[0] + ").f"@ + decimal(i as nat),
        ));
        extend_strings(results, out);
        Ok(())
    }

    /// Prints the statement that frees what the operand points to.
    pub(crate) fn emit_dealloc(&mut self, operands: &Vec<String>) -> (r: Result<(), Error>)
        ensures
            printed(dealloc_stmt(strs(operands@)), r, old(self)@, final(self)@),
    {
        if operands.len() < 1 {
            return Err(Error::Malformed);
        }
        self.s("free((void*) (");
        self.s(operands[0].as_str());
        self.s("));\n");
        Ok(())
    }

    /// Prints the statements that free the string that the operands are,
    /// unless it is empty.
    pub(crate) fn emit_dealloc_string(&mut self, operands: &Vec<String>) -> (r: Result<(), Error>)
        ensures
            printed(dealloc_string_stmt(strs(operands@)), r, old(self)@, final(self)@),
    {
        if operands.len() < 2 {
            return Err(Error::Malformed);
        }
        self.s("if ((");
        self.s(operands[1].as_str());
        self.s(") > 0) {\n");
        self.s("free((void*) (");
        self.s(operands[0].as_str());
        self.s("));\n");
        self.s("}\n");
        proof {
            let a = seq!["if (("@].push(operands@[1]@).push(") > 0) {\n"@);
            let d = dealloc_pieces(operands@[0]@);
            assert((a + d).push("}\n"@) =~= a.push("free((void*) ("@).push(operands@[0]@).push(
                "));\n"@,
            ).push("}\n"@));
        }
        Ok(())
    }
}

} // verus!
