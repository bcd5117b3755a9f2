//! Calls, returns and the freeing of what an export handed out.
use vstd::prelude::*;
use crate::bindgen::block_texts;
use crate::bindgen::met;
use crate::bindgen::printed;
use crate::bindgen::retptr_stores;
use crate::bindgen::BindState;
use crate::bindgen::BlockText;
use crate::bindgen::Error;
use crate::bindgen::FunctionBindgen;
use crate::bindgen::Outcome;
use crate::bindgen::SigView;
use crate::gen::GenState;
use crate::gen::C;
use crate::ir::Type;
use crate::pool::fresh;
use crate::repr::wasm_name;
use crate::repr::wasm_type;
use crate::repr::WasmType;
use crate::ret::Scalar;
use crate::text::concat2;
use crate::text::decimal;
use crate::text::decimal_string;
use crate::text::gather;
use crate::text::group_render;
use crate::text::push_string;
use crate::text::row3;
use crate::text::row4;
use crate::text::row5;
use crate::text::row7;
use crate::text::strs;

verus! {

broadcast use group_render;

/// The first `n` operands as arguments of a call, with `, ` between them.
pub open spec fn arg_pieces(ops: Seq<Seq<char>>, n: nat) -> Seq<Seq<char>>
    decreases n,
{
    if n == 0 {
        Seq::empty()
    } else if n == 1 {
        arg_pieces(ops, 0).push(ops[0])
    } else {
        arg_pieces(ops, (n - 1) as nat).push(", "@).push(ops[n - 1])
    }
}

/// The outcome of `CallWasm`: the trampoline is called with the operands;
/// where it returns a scalar, a fresh local takes it and is yielded. It
/// fails where the trampoline has more than one result.
pub open spec fn call_wasm_outcome(
    b: BindState,
    g: GenState,
    result_types: Seq<WasmType>,
    ops: Seq<Seq<char>>,
) -> Result<Outcome, Error> {
    if result_types.len() == 0 {
        Ok(
            Outcome {
                bind: b.wrote(
                    (seq![b.func_to_call].push("("@) + arg_pieces(ops, ops.len())).push(");\n"@),
                ),
                gen: g,
                results: Seq::empty(),
            },
        )
    } else if result_types.len() == 1 {
        let ret = fresh(b.locals, "ret"@);
        Ok(
            Outcome {
                bind: BindState { wasm_return: Some(ret), ..b.took("ret"@) }.wrote(
                    (seq![wasm_name(result_types[0])].push(" "@).push(ret).push(" = "@).push(
                        b.func_to_call,
                    ).push("("@) + arg_pieces(ops, ops.len())).push(");\n"@),
                ),
                gen: g,
                results: seq![ret],
            },
        )
    } else {
        Err(Error::Unsupported)
    }
}

/// What `Return` prints in an import: the operands go where the signature
/// says, through the pointer parameters or in a `return`. It fails where the
/// number of operands does not fit the signature.
pub open spec fn import_return_stmt(sig: SigView, ops: Seq<Seq<char>>) -> Result<
    Seq<Seq<char>>,
    Error,
> {
    match sig.ret.scalar {
        None => if ops.len() == sig.retptrs.len() {
            Ok(retptr_stores(ops, sig.retptrs, ops.len()))
        } else {
            Err(Error::Malformed)
        },
        Some(Scalar::Void) => if ops.len() == 0 {
            Ok(Seq::empty())
        } else {
            Err(Error::Malformed)
        },
        Some(Scalar::Type(_)) => if ops.len() == 1 {
            Ok(seq!["return "@].push(ops[0]).push(";\n"@))
        } else {
            Err(Error::Malformed)
        },
        Some(Scalar::OptionBool(_)) => if ops.len() == 1 && sig.retptrs.len() == 1 {
            Ok(
                retptr_stores(seq![ops[0] + ".val"@], sig.retptrs, 1).push("return "@).push(
                    ops[0],
                ).push(".is_some;\n"@),
            )
        } else {
            Err(Error::Malformed)
        },
        Some(Scalar::ResultEnum { .. }) => if ops.len() == 1 && sig.retptrs.len() <= 1 {
            Ok(
                retptr_stores(seq![ops[0] + ".val.ok"@], sig.retptrs, sig.retptrs.len()).push(
                    "return "@,
                ).push(ops[0]).push(".is_err ? "@).push(ops[0]).push(".val.err : -1;\n"@),
            )
        } else {
            Err(Error::Malformed)
        },
    }
}

/// What `Return` prints in an export: a `return` of the operand, if there
/// is one. It fails where more than one operand is handed back.
pub open spec fn export_return_stmt(amt: usize, ops: Seq<Seq<char>>) -> Result<
    Seq<Seq<char>>,
    Error,
> {
    if amt == 0 {
        Ok(Seq::empty())
    } else if amt == 1 && ops.len() >= 1 {
        Ok(seq!["return "@].push(ops[0]).push(";\n"@))
    } else {
        Err(Error::Malformed)
    }
}

/// What `Return` prints.
pub open spec fn return_stmt(in_import: bool, sig: SigView, amt: usize, ops: Seq<Seq<char>>) -> Result<
    Seq<Seq<char>>,
    Error,
> {
    if in_import {
        import_return_stmt(sig, ops)
    } else {
        export_return_stmt(amt, ops)
    }
}

/// The arm that frees case `i` of a variant: the block's statements.
pub open spec fn dealloc_arm(blocks: Seq<BlockText>) -> spec_fn(int) -> Seq<Seq<char>> {
    |i: int| seq!["case "@].push(decimal(i as nat)).push(": {\n"@).push(blocks[i].body).push(
        "break;\n}\n"@,
    )
}

/// None of the blocks yields an operand.
pub open spec fn yield_nothing(blocks: Seq<BlockText>) -> bool {
    forall|i: int| 0 <= i < blocks.len() ==> (#[trigger] blocks[i]).results.len() == 0
}

/// The outcome of `GuestDeallocateVariant`: a switch on the operand with an
/// arm for each of the last `n` blocks, which are used up. It fails where a
/// block yields an operand.
pub open spec fn dealloc_variant_outcome(
    b: BindState,
    g: GenState,
    n: usize,
    ops: Seq<Seq<char>>,
) -> Result<Outcome, Error> {
    if ops.len() < 1 || b.blocks.len() < n || !yield_nothing(b.blocks.skip(b.blocks.len() - n)) {
        Err(Error::Malformed)
    } else {
        Ok(
            Outcome {
                bind: BindState {
                    blocks: b.blocks.take(b.blocks.len() - n),
                    ..b.wrote(
                        (seq!["switch ((int32_t) "@].push(ops[0]).push(") {\n"@) + gather(
                            n as nat,
                            dealloc_arm(b.blocks.skip(b.blocks.len() - n)),
                        )).push("}\n"@),
                    )
                },
                gen: g,
                results: Seq::empty(),
            },
        )
    }
}

/// The outcome of `GuestDeallocateList`: the address and the length are
/// bound to fresh locals, a loop runs the last block, which is used up, on
/// each element, and the list is freed unless it is empty. It fails where
/// the block yields an operand.
pub open spec fn dealloc_list_outcome(
    b: BindState,
    g: GenState,
    element_size: usize,
    ops: Seq<Seq<char>>,
) -> Result<Outcome, Error> {
    if ops.len() < 2 || b.blocks.len() < 1 || b.blocks.last().results.len() != 0 {
        Err(Error::Malformed)
    } else {
        let ptr = fresh(b.locals, "ptr"@);
        let b1 = b.took("ptr"@);
        let len = fresh(b1.locals, "len"@);
        let b2 = b1.took("len"@);
        let i = fresh(b2.locals, "i"@);
        Ok(
            Outcome {
                bind: BindState {
                    blocks: b.blocks.drop_last(),
                    ..b2.took("i"@).wrote(
                        row5("int32_t "@, ptr, " = "@, ops[0], ";\n"@) + row5(
                            "int32_t "@,
                            len,
                            " = "@,
                            ops[1],
                            ";\n"@,
                        ) + row4("for (int32_t "@, i, " = 0; "@, i) + row5(
                            " < "@,
                            len,
                            "; "@,
                            i,
                            "++) {\n"@,
                        ) + row7(
                            "int32_t base = "@,
                            ptr,
                            " + "@,
                            i,
                            " * "@,
                            decimal(element_size as nat),
                            ";\n"@,
                        ) + row3("(void) base;\n"@, b.blocks.last().body, "}\n"@) + row3(
                            "if ("@,
                            len,
                            " > 0) {\n"@,
                        ) + row4("free((void*) ("@, ptr, "));\n"@, "}\n"@),
                    )
                },
                gen: g,
                results: Seq::empty(),
            },
        )
    }
}

impl FunctionBindgen {
    /// Prints the operands as the arguments of a call.
    pub(crate) fn write_args(&mut self, operands: &Vec<String>)
        ensures
            final(self)@ == old(self)@.wrote(arg_pieces(strs(operands@), operands@.len() as nat)),
    {
        let mut i: usize = 0;
        while i < operands.len()
            invariant
                i <= operands@.len(),
                self@ == old(self)@.wrote(arg_pieces(strs(operands@), i as nat)),
            decreases operands@.len() - i,
        {
            if i > 0 {
                self.s(", ");
            }
            self.s(operands[i].as_str());
            i += 1;
        }
    }

    /// Calls the trampoline with the operands.
    pub(crate) fn emit_call_wasm(
        &mut self,
        gen: &C,
        result_types: &Vec<WasmType>,
        operands: &Vec<String>,
        results: &mut Vec<String>,
    ) -> (r: Result<(), Error>)
        ensures
            met(
                call_wasm_outcome(old(self)@, gen@, result_types@, strs(operands@)),
                r,
                final(self)@,
                gen@,
                strs(old(results)@),
                strs(final(results)@),
            ),
    {
        if result_types.len() > 1 {
            return Err(Error::Unsupported);
        }
        if result_types.len() == 1 {
            self.s(wasm_type(result_types[0]));
            let ret = self.tmp("ret");
            self.wasm_return = Some(ret.clone());
            self.s(" ");
            self.s(ret.as_str());
            self.s(" = ");
            push_string(results, ret);
            assert(strs(results@) =~= strs(old(results)@) + seq![ret@]);
        } else {
            assert(strs(results@) =~= strs(old(results)@) + Seq::<Seq<char>>::empty());
        }
        let callee = self.func_to_call.clone();
        self.s(callee.as_str());
        self.s("(");
        self.write_args(operands);
        self.s(");\n");
        Ok(())
    }

    /// Hands back the operands as the signature says.
    #[verifier::rlimit(50)]
    pub(crate) fn emit_return(&mut self, gen: &C, amt: usize, operands: &Vec<String>) -> (r: Result<
        (),
        Error,
    >)
        ensures
            printed(
                return_stmt(gen@.in_import, old(self)@.sig, amt, strs(operands@)),
                r,
                old(self)@,
                final(self)@,
            ),
    {
        if gen.in_import {
            match self.sig.ret.scalar {
                None => {
                    let r = self.store_in_retptrs(operands);
                    assert(old(self)@.wrote(Seq::empty()) == old(self)@);
                    r
                },
                Some(Scalar::Void) => {
                    if operands.len() != 0 {
                        return Err(Error::Malformed);
                    }
                    assert(old(self)@.wrote(Seq::empty()) == old(self)@);
                    Ok(())
                },
                Some(Scalar::Type(_)) => {
                    if operands.len() != 1 {
                        return Err(Error::Malformed);
                    }
                    self.s("return ");
                    self.s(operands[0].as_str());
                    self.s(";\n");
                    Ok(())
                },
                Some(Scalar::OptionBool(_)) => {
                    if operands.len() != 1 || self.sig.retptrs.len() != 1 {
                        return Err(Error::Malformed);
                    }
                    let mut vals: Vec<String> = Vec::new();
                    push_string(&mut vals, concat2(operands[0].as_str(), ".val"));
                    let r = self.store_in_retptrs(&vals);
                    assert(strs(vals@) =~= seq![operands@[0]@ + ".val"@]);
                    self.s("return ");
                    self.s(operands[0].as_str());
                    self.s(".is_some;\n");
                    Ok(())
                },
                Some(Scalar::ResultEnum { .. }) => {
                    if operands.len() != 1 || self.sig.retptrs.len() > 1 {
                        return Err(Error::Malformed);
                    }
                    if self.sig.retptrs.len() > 0 {
                        let mut vals: Vec<String> = Vec::new();
                        push_string(&mut vals, concat2(operands[0].as_str(), ".val.ok"));
                        let r = self.store_in_retptrs(&vals);
                        assert(strs(vals@) =~= seq![operands@[0]@ + ".val.ok"@]);
                    }
                    self.s("return ");
                    self.s(operands[0].as_str());
                    self.s(".is_err ? ");
                    self.s(operands[0].as_str());
                    self.s(".val.err : -1;\n");
                    Ok(())
                },
            }
        } else {
            if amt > 1 || (amt == 1 && operands.len() < 1) {
                return Err(Error::Malformed);
            }
            if amt == 1 {
                self.s("return ");
                self.s(operands[0].as_str());
                self.s(";\n");
            } else {
                assert(old(self)@.wrote(Seq::empty()) == old(self)@);
            }
            Ok(())
        }
    }

    /// Frees a variant case by case.
    #[verifier::rlimit(50)]
    pub(crate) fn emit_dealloc_variant(
        &mut self,
        gen: &C,
        n: usize,
        operands: &Vec<String>,
        results: &mut Vec<String>,
    ) -> (r: Result<(), Error>)
        ensures
            met(
                dealloc_variant_outcome(old(self)@, gen@, n, strs(operands@)),
                r,
                final(self)@,
                gen@,
                strs(old(results)@),
                strs(final(results)@),
            ),
    {
        if operands.len() < 1 || self.blocks.len() < n {
            return Err(Error::Malformed);
        }
        let blocks = match self.take_blocks(n) {
            Ok(b) => b,
            Err(e) => {
                return Err(e);
            },
        };
        let ghost bt = block_texts(blocks@);
        assert(bt == old(self)@.blocks.skip(old(self)@.blocks.len() - n));
        let mut i: usize = 0;
        while i < n
            invariant
                i <= n,
                blocks@.len() == n,
                operands@.len() >= 1,
                old(self)@.blocks.len() >= n,
                bt == old(self)@.blocks.skip(old(self)@.blocks.len() - n),
                bt == block_texts(blocks@),
                forall|j: int| 0 <= j < i ==> (#[trigger] bt[j]).results.len() == 0,
            decreases n - i,
        {
            assert(bt[i as int].results.len() == blocks@[i as int].1@.len());
            if blocks[i].1.len() != 0 {
                assert(!yield_nothing(bt));
                return Err(Error::Malformed);
            }
            i += 1;
        }
        self.s("switch ((int32_t) ");
        self.s(operands[0].as_str());
        self.s(") {\n");
        let ghost b1 = self@;
        let ghost arm = dealloc_arm(bt);
        let mut i: usize = 0;
        while i < n
            invariant
                i <= n,
                blocks@.len() == n,
                bt == block_texts(blocks@),
                arm == dealloc_arm(bt),
                self@ == b1.wrote(gather(i as nat, arm)),
            decreases n - i,
        {
            let ghost seen = gather(i as nat, arm);
            self.s("case ");
            let num = decimal_string(i);
            self.s(num.as_str());
            self.s(": {\n");
            self.s(blocks[i].0.as_str());
            self.s("break;\n}\n");
            proof {
                assert(bt[i as int].body == blocks@[i as int].0@);
                assert(arm(i as int) == seq!["case "@].push(decimal(i as nat)).push(": {\n"@).push(
                    bt[i as int].body,
                ).push("break;\n}\n"@));
                assert(gather((i + 1) as nat, arm) == seen + arm(i as int));
                assert(seen + arm(i as int) =~= seen.push("case "@).push(decimal(i as nat)).push(
                    ": {\n"@,
                ).push(bt[i as int].body).push("break;\n}\n"@));
            }
            i += 1;
        }
        self.s("}\n");
        assert(strs(results@) =~= strs(old(results)@) + Seq::<Seq<char>>::empty());
        Ok(())
    }

    /// Frees a list element by element.
    #[verifier::rlimit(50)]
    pub(crate) fn emit_dealloc_list(
        &mut self,
        gen: &C,
        element_size: usize,
        operands: &Vec<String>,
        results: &mut Vec<String>,
    ) -> (r: Result<(), Error>)
        ensures
            met(
                dealloc_list_outcome(old(self)@, gen@, element_size, strs(operands@)),
                r,
                final(self)@,
                gen@,
                strs(old(results)@),
                strs(final(results)@),
            ),
    {
        if operands.len() < 2 || self.blocks.len() < 1 {
            return Err(Error::Malformed);
        }
        let at = self.blocks.len();
        assert(self@.blocks.last().results == strs(self.blocks@[at - 1].1@));
        if self.blocks[at - 1].1.len() != 0 {
            return Err(Error::Malformed);
        }
        let blocks = match self.take_blocks(1) {
            Ok(b) => b,
            Err(e) => {
                return Err(e);
            },
        };
        assert(block_texts(blocks@)[0] == old(self)@.blocks.last());
        assert(old(self)@.blocks.take(at - 1) =~= old(self)@.blocks.drop_last());
        let ptr = self.tmp("ptr");
        let len = self.tmp("len");
        self.line5("int32_t ", ptr.as_str(), " = ", operands[0].as_str(), ";\n");
        self.line5("int32_t ", len.as_str(), " = ", operands[1].as_str(), ";\n");
        let i = self.tmp("i");
        let size = decimal_string(element_size);
        self.line4("for (int32_t ", i.as_str(), " = 0; ", i.as_str());
        self.line5(" < ", len.as_str(), "; ", i.as_str(), "++) {\n");
        self.line7("int32_t base = ", ptr.as_str(), " + ", i.as_str(), " * ", size.as_str(), ";\n");
        self.line3("(void) base;\n", blocks[0].0.as_str(), "}\n");
        self.line3("if (", len.as_str(), " > 0) {\n");
        self.line4("free((void*) (", ptr.as_str(), "));\n", "}\n");
        assert(strs(results@) =~= strs(old(results)@) + Seq::<Seq<char>>::empty());
        Ok(())
    }
}

} // verus!
