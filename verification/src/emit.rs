//! What each instruction does, and the function that does it.
use vstd::prelude::*;
use crate::abi::Instruction;
use crate::bindgen::met;
use crate::bindgen::pure;
use crate::bindgen::stmt;
use crate::bindgen::yields;
use crate::bindgen::BindState;
use crate::bindgen::Error;
use crate::bindgen::FunctionBindgen;
use crate::bindgen::Outcome;
use crate::emit_call::call_wasm_outcome;
use crate::emit_call::dealloc_list_outcome;
use crate::emit_call::dealloc_variant_outcome;
use crate::emit_call::return_stmt;
use crate::emit_expr::bitcasts_results;
use crate::emit_expr::cast_results;
use crate::emit_expr::cast_strs;
use crate::emit_expr::cast_wrap;
use crate::emit_expr::dealloc_stmt;
use crate::emit_expr::dealloc_string_stmt;
use crate::emit_expr::get_arg_results;
use crate::emit_expr::list_lower_outcome;
use crate::emit_expr::load_kind;
use crate::emit_expr::load_results;
use crate::emit_expr::load_strs;
use crate::emit_expr::ptr_len_results;
use crate::emit_expr::record_lower_results;
use crate::emit_expr::store_kind;
use crate::emit_expr::store_stmt;
use crate::emit_expr::store_strs;
use crate::emit_expr::tuple_lower_results;
use crate::emit_iface::call_interface_outcome;
use crate::emit_lift::flags_len;
use crate::emit_lift::flags_lift_outcome;
use crate::emit_lift::flags_lower_outcome;
use crate::emit_lift::list_lift_outcome;
use crate::emit_lift::payload_name_outcome;
use crate::emit_lift::string_lift_outcome;
use crate::emit_lift::struct_lift_outcome;
use crate::emit_option::option_lift_outcome;
use crate::emit_option::option_lower_outcome;
use crate::emit_option::result_lift_outcome;
use crate::emit_option::result_lower_outcome;
use crate::emit_variant::union_lift_outcome;
use crate::emit_variant::union_lower_outcome;
use crate::emit_variant::variant_lift_outcome;
use crate::emit_variant::variant_lower_outcome;
use crate::gen::GenState;
use crate::gen::C;
use crate::ir::Interface;
use crate::ir::TypeDefKind;
use crate::text::push_string;
use crate::text::signed_decimal;
use crate::text::signed_decimal_string;
use crate::text::strs;

verus! {

/// The instruction hands its last operand on as its result.
pub open spec fn hands_on(iface: Interface, inst: Instruction) -> bool {
    match inst {
        Instruction::EnumLift => true,
        Instruction::FlagsLower { ty } => flags_len(iface, ty) matches Some(n) && n <= 32,
        Instruction::FlagsLift { ty } => flags_len(iface, ty) matches Some(n) && n <= 32,
        _ => false,
    }
}

/// The operands as an instruction leaves them: without the last one where
/// the instruction hands it on.
pub open spec fn operands_after(iface: Interface, inst: Instruction, ops: Seq<Seq<char>>) -> Seq<
    Seq<char>,
> {
    if hands_on(iface, inst) && ops.len() > 0 {
        ops.drop_last()
    } else {
        ops
    }
}

/// What an instruction does in the states `b` and `g` with the operands
/// `ops`: the states after it and the operands it yields, or why it fails.
pub open spec fn emitted(
    b: BindState,
    g: GenState,
    iface: Interface,
    inst: Instruction,
    ops: Seq<Seq<char>>,
) -> Result<Outcome, Error> {
    if let Some(wrap) = cast_wrap(inst) {
        pure(b, g, cast_results(wrap, ops))
    } else if let Some(kind) = load_kind(inst) {
        pure(b, g, load_results(kind, ops))
    } else if let Some(kind) = store_kind(inst) {
        stmt(b, g, store_stmt(kind, ops))
    } else {
        match inst {
            Instruction::GetArg { nth } => pure(b, g, get_arg_results(b.params, nth)),
            Instruction::I32Const { val } => yields(b, g, seq![signed_decimal(val as int)]),
            Instruction::ConstZero { tys } => yields(b, g, Seq::new(tys@.len(), |i: int| "0"@)),
            Instruction::Bitcasts { casts } => pure(b, g, bitcasts_results(casts@, ops)),
            Instruction::ListCanonLower | Instruction::StringLower => pure(
                b,
                g,
                ptr_len_results(ops),
            ),
            Instruction::ListLower => list_lower_outcome(b, g, ops),
            Instruction::ListCanonLift { element, ty } => list_lift_outcome(
                b,
                g,
                iface,
                element,
                ty,
                false,
                ops,
            ),
            Instruction::StringLift => string_lift_outcome(b, g, iface, ops),
            Instruction::ListLift { element, ty } => list_lift_outcome(
                b,
                g,
                iface,
                element,
                ty,
                true,
                ops,
            ),
            Instruction::IterElem => yields(b, g, seq!["e"@]),
            Instruction::IterBasePointer => yields(b, g, seq!["base"@]),
            Instruction::RecordLower { ty } => pure(b, g, record_lower_results(iface, ty, ops)),
            Instruction::RecordLift { ty } => struct_lift_outcome(b, g, iface, ty, ops),
            Instruction::TupleLower { ty } => pure(b, g, tuple_lower_results(iface, ty, ops)),
            Instruction::TupleLift { ty } => struct_lift_outcome(b, g, iface, ty, ops),
            Instruction::FlagsLower { ty } => flags_lower_outcome(b, g, iface, ty, ops),
            Instruction::FlagsLift { ty } => flags_lift_outcome(b, g, iface, ty, ops),
            Instruction::VariantPayloadName => payload_name_outcome(b, g),
            Instruction::VariantLower { ty, results } => variant_lower_outcome(
                b,
                g,
                iface,
                ty,
                results@,
                ops,
            ),
            Instruction::VariantLift { ty } => variant_lift_outcome(b, g, iface, ty, ops),
            Instruction::UnionLower { ty, results } => union_lower_outcome(
                b,
                g,
                iface,
                ty,
                results@,
                ops,
            ),
            Instruction::UnionLift { ty } => union_lift_outcome(b, g, iface, ty, ops),
            Instruction::EnumLift => if ops.len() < 1 {
                Err(Error::Malformed)
            } else {
                yields(b, g, seq![ops.last()])
            },
            Instruction::OptionLower { ty, results } => option_lower_outcome(
                b,
                g,
                iface,
                ty,
                results@,
                ops,
            ),
            Instruction::OptionLift { ty } => option_lift_outcome(b, g, iface, ty, ops),
            Instruction::ResultLower { ty, results } => result_lower_outcome(
                b,
                g,
                iface,
                ty,
                results@,
                ops,
            ),
            Instruction::ResultLift { ty } => result_lift_outcome(b, g, iface, ty, ops),
            Instruction::CallWasm { sig } => call_wasm_outcome(b, g, sig.results@, ops),
            Instruction::CallInterface { func } => call_interface_outcome(b, g, iface, func, ops),
            Instruction::Return { amt } => stmt(b, g, return_stmt(g.in_import, b.sig, amt, ops)),
            Instruction::GuestDeallocate => stmt(b, g, dealloc_stmt(ops)),
            Instruction::GuestDeallocateString => stmt(b, g, dealloc_string_stmt(ops)),
            Instruction::GuestDeallocateList { element_size } => dealloc_list_outcome(
                b,
                g,
                element_size,
                ops,
            ),
            Instruction::GuestDeallocateVariant { blocks } => dealloc_variant_outcome(
                b,
                g,
                blocks,
                ops,
            ),
            _ => Err(Error::Unsupported),
        }
    }
}

impl FunctionBindgen {
    /// Hands the last operand on as the result.
    fn hand_on(operands: &mut Vec<String>, results: &mut Vec<String>) -> (r: Result<(), Error>)
        ensures
            r is Ok <==> old(operands)@.len() >= 1,
            r is Err ==> r == Err::<(), Error>(Error::Malformed),
            r is Ok ==> strs(final(operands)@) == strs(old(operands)@).drop_last() && strs(
                final(results)@,
            ) == strs(old(results)@) + seq![strs(old(operands)@).last()],
    {
        match operands.pop() {
            Some(op) => {
                push_string(results, op);
                assert(strs(operands@) =~= strs(old(operands)@).drop_last());
                assert(strs(old(results)@).push(op@) =~= strs(old(results)@) + seq![op@]);
                Ok(())
            },
            None => Err(Error::Malformed),
        }
    }

    /// The number of flags that `ty` defines, if it defines flags.
    fn flags_count(iface: &Interface, ty: usize) -> (r: Option<usize>)
        ensures
            match flags_len(*iface, ty) {
                Some(n) => r matches Some(c) && c as nat == n,
                None => r is None,
            },
    {
        if ty >= iface.types.len() {
            return None;
        }
        match &iface.types[ty].kind {
            TypeDefKind::Flags(flags) => Some(flags.len()),
            _ => None,
        }
    }

    /// Lowers flags, or lifts them.
    fn emit_flags(
        &mut self,
        gen: &mut C,
        iface: &Interface,
        ty: usize,
        lift: bool,
        operands: &mut Vec<String>,
        results: &mut Vec<String>,
    ) -> (r: Result<(), Error>)
        requires
            iface.wf(),
        ensures
            met(
                if lift {
                    flags_lift_outcome(old(self)@, old(gen)@, *iface, ty, strs(old(operands)@))
                } else {
                    flags_lower_outcome(old(self)@, old(gen)@, *iface, ty, strs(old(operands)@))
                },
                r,
                final(self)@,
                final(gen)@,
                strs(old(results)@),
                strs(final(results)@),
            ),
            r is Ok ==> strs(final(operands)@) == if flags_len(*iface, ty)->0 <= 32 {
                strs(old(operands)@).drop_last()
            } else {
                strs(old(operands)@)
            },
    {
        match FunctionBindgen::flags_count(iface, ty) {
            Some(n) => if n > 64 {
                Err(Error::Unsupported)
            } else if n <= 32 {
                FunctionBindgen::hand_on(operands, results)
            } else if lift {
                self.emit_wide_flags_lift(gen, iface, ty, operands, results)
            } else {
                self.emit_wide_flags_lower(gen, iface, ty, operands, results)
            },
            None => Err(Error::Malformed),
        }
    }

    /// Prints the statements for one instruction and yields its results.
    /// `gen` is the generator that the function is printed for. An
    /// instruction that the state or the operands do not fit fails as
    /// malformed, one that the generator has no code for as unsupported.
    #[verifier::rlimit(50)]
    pub fn emit(
        &mut self,
        gen: &mut C,
        iface: &Interface,
        inst: &Instruction,
        operands: &mut Vec<String>,
        results: &mut Vec<String>,
    ) -> (r: Result<(), Error>)
        requires
            iface.wf(),
        ensures
            met(
                emitted(old(self)@, old(gen)@, *iface, *inst, strs(old(operands)@)),
                r,
                final(self)@,
                final(gen)@,
                strs(old(results)@),
                strs(final(results)@),
            ),
            r is Ok ==> strs(final(operands)@) == operands_after(
                *iface,
                *inst,
                strs(old(operands)@),
            ),
    {
        if let Some(wrap) = cast_strs(inst) {
            return FunctionBindgen::emit_cast(wrap, operands, results);
        }
        if let Some(kind) = load_strs(inst) {
            return FunctionBindgen::emit_load(kind, operands, results);
        }
        if let Some(kind) = store_strs(inst) {
            let r = self.emit_store(kind, operands);
            assert(strs(results@) =~= strs(old(results)@) + Seq::<Seq<char>>::empty());
            return r;
        }
        match inst {
            Instruction::GetArg { nth } => self.emit_get_arg(*nth, results),
            Instruction::I32Const { val } => {
                let text = signed_decimal_string(*val);
                FunctionBindgen::emit_literal(text.as_str(), results);
                Ok(())
            },
            Instruction::ConstZero { tys } => {
                FunctionBindgen::emit_zeros(tys.len(), results);
                Ok(())
            },
            Instruction::Bitcasts { casts } => FunctionBindgen::emit_bitcasts(
                casts,
                operands,
                results,
            ),
            Instruction::ListCanonLower | Instruction::StringLower => FunctionBindgen::emit_ptr_len(
                operands,
                results,
            ),
            Instruction::ListLower => self.emit_list_lower(operands, results),
            Instruction::ListCanonLift { element, ty } => self.emit_list_lift(
                gen,
                iface,
                element,
                *ty,
                false,
                operands,
                results,
            ),
            Instruction::StringLift => self.emit_string_lift(gen, iface, operands, results),
            Instruction::ListLift { element, ty } => self.emit_list_lift(
                gen,
                iface,
                element,
                *ty,
                true,
                operands,
                results,
            ),
            Instruction::IterElem => {
                FunctionBindgen::emit_literal("e", results);
                Ok(())
            },
            Instruction::IterBasePointer => {
                FunctionBindgen::emit_literal("base", results);
                Ok(())
            },
            Instruction::RecordLower { ty } => FunctionBindgen::emit_record_lower(
                iface,
                *ty,
                operands,
                results,
            ),
            Instruction::RecordLift { ty } => self.emit_struct_lift(
                gen,
                iface,
                *ty,
                operands,
                results,
            ),
            Instruction::TupleLower { ty } => FunctionBindgen::emit_tuple_lower(
                iface,
                *ty,
                operands,
                results,
            ),
            Instruction::TupleLift { ty } => self.emit_struct_lift(
                gen,
                iface,
                *ty,
                operands,
                results,
            ),
            Instruction::FlagsLower { ty } => self.emit_flags(
                gen,
                iface,
                *ty,
                false,
                operands,
                results,
            ),
            Instruction::FlagsLift { ty } => self.emit_flags(
                gen,
                iface,
                *ty,
                true,
                operands,
                results,
            ),
            Instruction::VariantPayloadName => self.emit_payload_name(gen, results),
            Instruction::VariantLower { ty, results: result_types } => self.emit_variant_lower(
                gen,
                iface,
                *ty,
                result_types,
                operands,
                results,
            ),
            Instruction::VariantLift { ty } => self.emit_variant_lift(
                gen,
                iface,
                *ty,
                operands,
                results,
            ),
            Instruction::UnionLower { ty, results: result_types } => self.emit_union_lower(
                gen,
                iface,
                *ty,
                result_types,
                operands,
                results,
            ),
            Instruction::UnionLift { ty } => self.emit_union_lift(gen, iface, *ty, operands, results),
            Instruction::EnumLift => FunctionBindgen::hand_on(operands, results),
            Instruction::OptionLower { ty, results: result_types } => self.emit_option_lower(
                gen,
                iface,
                *ty,
                result_types,
                operands,
                results,
            ),
            Instruction::OptionLift { ty } => self.emit_option_lift(
                gen,
                iface,
                *ty,
                operands,
                results,
            ),
            Instruction::ResultLower { ty, results: result_types } => self.emit_result_lower(
                gen,
                iface,
                *ty,
                result_types,
                operands,
                results,
            ),
            Instruction::ResultLift { ty } => self.emit_result_lift(
                gen,
                iface,
                *ty,
                operands,
                results,
            ),
            Instruction::CallWasm { sig } => self.emit_call_wasm(
                gen,
                &sig.results,
                operands,
                results,
            ),
            Instruction::CallInterface { func } => self.emit_call_interface(
                gen,
                iface,
                func,
                operands,
                results,
            ),
            Instruction::Return { amt } => {
                let r = self.emit_return(gen, *amt, operands);
                assert(strs(results@) =~= strs(old(results)@) + Seq::<Seq<char>>::empty());
                r
            },
            Instruction::GuestDeallocate => {
                let r = self.emit_dealloc(operands);
                assert(strs(results@) =~= strs(old(results)@) + Seq::<Seq<char>>::empty());
                r
            },
            Instruction::GuestDeallocateString => {
                let r = self.emit_dealloc_string(operands);
                assert(strs(results@) =~= strs(old(results)@) + Seq::<Seq<char>>::empty());
                r
            },
            Instruction::GuestDeallocateList { element_size } => self.emit_dealloc_list(
                gen,
                *element_size,
                operands,
                results,
            ),
            Instruction::GuestDeallocateVariant { blocks } => self.emit_dealloc_variant(
                gen,
                *blocks,
                operands,
                results,
            ),
            _ => Err(Error::Unsupported),
        }
    }
}

} // verus!
