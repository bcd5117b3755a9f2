//! Instructions that build a value of a named C type, and those that bind
//! fresh local names.
use vstd::prelude::*;
use crate::bindgen::met;
use crate::bindgen::BindState;
use crate::bindgen::Error;
use crate::bindgen::FunctionBindgen;
use crate::bindgen::Outcome;
use crate::gen::GenState;
use crate::gen::C;
use crate::ir::Interface;
use crate::ir::Type;
use crate::ir::TypeDefKind;
use crate::pool::fresh;
use crate::text::concat2;
use crate::text::concat3;
use crate::text::group_render;
use crate::text::push_string;
use crate::text::strs;

verus! {

broadcast use group_render;

/// The first `n` operands, each followed by a comma and a line break.
pub open spec fn members(ops: Seq<Seq<char>>, n: nat) -> Seq<char>
    decreases n,
{
    if n == 0 {
        Seq::empty()
    } else {
        members(ops, (n - 1) as nat) + ops[n - 1] + ",\n"@
    }
}

/// The compound literal of type `name` with the operands as its members.
pub open spec fn compound(name: Seq<char>, ops: Seq<Seq<char>>) -> Seq<char> {
    "("@ + name + ") {\n"@ + members(ops, ops.len()) + "}"@
}

/// The compound literal of a list of type `list` from an address and a
/// length, the address cast to a pointer to `elem`.
pub open spec fn list_literal(list: Seq<char>, elem: Seq<char>, ptr: Seq<char>, len: Seq<char>) -> Seq<
    char,
> {
    "("@ + list + ") { ("@ + elem + "*)("@ + ptr + "), (size_t)("@ + len + ") }"@
}

/// The outcome of `RecordLift` and `TupleLift`: a compound literal of the
/// type that `ty` defines.
pub open spec fn struct_lift_outcome(
    b: BindState,
    g: GenState,
    iface: Interface,
    ty: usize,
    ops: Seq<Seq<char>>,
) -> Result<Outcome, Error> {
    if ty < iface.types@.len() {
        Ok(
            Outcome {
                bind: b,
                gen: g.noted_private(iface, Type::Id(ty)),
                results: seq![compound(iface.ty_text(Type::Id(ty)), ops)],
            },
        )
    } else {
        Err(Error::Malformed)
    }
}

/// The number of flags of the set that definition `ty` is.
pub open spec fn flags_len(iface: Interface, ty: usize) -> Option<nat> {
    if ty < iface.types@.len() {
        match iface.types@[ty as int].kind {
            TypeDefKind::Flags(flags) => Some(flags@.len()),
            _ => None,
        }
    } else {
        None
    }
}

/// The set of flags that `ty` defines takes two 32-bit scalars.
pub open spec fn wide_flags(iface: Interface, ty: usize) -> bool {
    flags_len(iface, ty) matches Some(n) && 32 < n <= 64
}

/// The outcome of `FlagsLower`: the operand itself where the flags fit 32
/// bits; else the operand is bound to a local, and its low and high halves
/// are yielded. More than 64 flags are unsupported.
pub open spec fn flags_lower_outcome(
    b: BindState,
    g: GenState,
    iface: Interface,
    ty: usize,
    ops: Seq<Seq<char>>,
) -> Result<Outcome, Error> {
    match flags_len(iface, ty) {
        Some(n) => if n > 64 {
            Err(Error::Unsupported)
        } else if ops.len() < 1 {
            Err(Error::Malformed)
        } else if n <= 32 {
            Ok(Outcome { bind: b, gen: g, results: seq![ops.last()] })
        } else {
            let name = iface.ty_text(Type::Id(ty));
            let tmp = fresh(b.locals, "flags"@);
            Ok(
                Outcome {
                    bind: b.took("flags"@).wrote(
                        seq![name].push(" "@).push(tmp).push(" = "@).push(ops[0]).push(";\n"@),
                    ),
                    gen: g.noted_private(iface, Type::Id(ty)),
                    results: seq![tmp + " & 0xffffffff"@].push("("@ + tmp + " >> 32) & 0xffffffff"@),
                },
            )
        },
        None => Err(Error::Malformed),
    }
}

/// The outcome of `FlagsLift`: the operand itself where the flags fit 32
/// bits; else the two halves put together. More than 64 flags are
/// unsupported.
pub open spec fn flags_lift_outcome(
    b: BindState,
    g: GenState,
    iface: Interface,
    ty: usize,
    ops: Seq<Seq<char>>,
) -> Result<Outcome, Error> {
    match flags_len(iface, ty) {
        Some(n) => if n > 64 {
            Err(Error::Unsupported)
        } else if n <= 32 {
            if ops.len() < 1 {
                Err(Error::Malformed)
            } else {
                Ok(Outcome { bind: b, gen: g, results: seq![ops.last()] })
            }
        } else if ops.len() < 2 {
            Err(Error::Malformed)
        } else {
            let name = iface.ty_text(Type::Id(ty));
            Ok(
                Outcome {
                    bind: b,
                    gen: g.noted_private(iface, Type::Id(ty)),
                    results: seq![
                        "(("@ + name + ") ("@ + ops[0] + ")) | ((("@ + name + ") ("@ + ops[1]
                            + ")) << 32)"@,
                    ],
                },
            )
        },
        None => Err(Error::Malformed),
    }
}

/// The outcome of `ListCanonLift` and, with `block` set, of `ListLift`,
/// which drops the block for the element first: a list literal.
pub open spec fn list_lift_outcome(
    b: BindState,
    g: GenState,
    iface: Interface,
    element: Type,
    ty: usize,
    block: bool,
    ops: Seq<Seq<char>>,
) -> Result<Outcome, Error> {
    if ty >= iface.types@.len() || !iface.has(element) || ops.len() < 2 || (block && b.blocks.len()
        < 1) {
        Err(Error::Malformed)
    } else {
        Ok(
            Outcome {
                bind: if block {
                    BindState { blocks: b.blocks.drop_last(), ..b }
                } else {
                    b
                },
                gen: g.noted_private(iface, Type::Id(ty)).noted_private(iface, element),
                results: seq![
                    list_literal(
                        iface.ty_text(Type::Id(ty)),
                        iface.ty_text(element),
                        ops[0],
                        ops[1],
                    ),
                ],
            },
        )
    }
}

/// The outcome of `StringLift`: a string literal from an address and a
/// length.
pub open spec fn string_lift_outcome(
    b: BindState,
    g: GenState,
    iface: Interface,
    ops: Seq<Seq<char>>,
) -> Result<Outcome, Error> {
    if ops.len() < 2 {
        Err(Error::Malformed)
    } else {
        Ok(
            Outcome {
                bind: b,
                gen: g.noted_private(iface, Type::String),
                results: seq![list_literal(iface.ty_text(Type::String), "char"@, ops[0], ops[1])],
            },
        )
    }
}

/// The outcome of `VariantPayloadName`: a fresh name is bound to the
/// payload, and the payload behind it is yielded.
pub open spec fn payload_name_outcome(b: BindState, g: GenState) -> Result<Outcome, Error> {
    let name = fresh(b.locals, "payload"@);
    Ok(
        Outcome {
            bind: BindState { payloads: b.payloads.push(name), ..b.took("payload"@) },
            gen: g,
            results: seq!["*"@ + name],
        },
    )
}

/// The compound literal of type `name` with the operands as its members.
pub(crate) fn compound_string(name: &str, operands: &Vec<String>) -> (r: String)
    ensures
        r@ == compound(name@, strs(operands@)),
{
    let mut r = concat3("(", name, ") {\n");
    let ghost head = r@;
    let mut k: usize = 0;
    while k < operands.len()
        invariant
            k <= operands@.len(),
            r@ == head + members(strs(operands@), k as nat),
        decreases operands@.len() - k,
    {
        r.append(operands[k].as_str());
        r.append(",\n");
        assert(r@ =~= head + members(strs(operands@), (k + 1) as nat)) by {
            assert(members(strs(operands@), (k + 1) as nat) == members(strs(operands@), k as nat)
                + operands@[k as int]@ + ",\n"@);
        }
        k += 1;
    }
    r.append("}");
    r
}

/// The compound literal of a list from an address and a length.
pub(crate) fn list_literal_string(list: &str, elem: &str, ptr: &str, len: &str) -> (r: String)
    ensures
        r@ == list_literal(list@, elem@, ptr@, len@),
{
    let mut r = concat3("(", list, ") { (");
    r.append(elem);
    r.append("*)(");
    r.append(ptr);
    r.append("), (size_t)(");
    r.append(len);
    r.append(") }");
    r
}

impl FunctionBindgen {
    /// Yields a compound literal of the type that `ty` defines, with the
    /// operands as its members.
    pub(crate) fn emit_struct_lift(
        &self,
        gen: &mut C,
        iface: &Interface,
        ty: usize,
        operands: &Vec<String>,
        results: &mut Vec<String>,
    ) -> (r: Result<(), Error>)
        requires
            iface.wf(),
        ensures
            met(
                struct_lift_outcome(self@, old(gen)@, *iface, ty, strs(operands@)),
                r,
                self@,
                final(gen)@,
                strs(old(results)@),
                strs(final(results)@),
            ),
    {
        if ty >= iface.types.len() {
            return Err(Error::Malformed);
        }
        let name = gen.type_string(iface, &Type::Id(ty));
        let e = compound_string(name.as_str(), operands);
        push_string(results, e);
        assert(strs(old(results)@).push(e@) =~= strs(old(results)@) + seq![e@]);
        Ok(())
    }

    /// Lowers flags that take two 32-bit scalars.
    pub(crate) fn emit_wide_flags_lower(
        &mut self,
        gen: &mut C,
        iface: &Interface,
        ty: usize,
        operands: &Vec<String>,
        results: &mut Vec<String>,
    ) -> (r: Result<(), Error>)
        requires
            iface.wf(),
            wide_flags(*iface, ty),
        ensures
            met(
                flags_lower_outcome(old(self)@, old(gen)@, *iface, ty, strs(operands@)),
                r,
                final(self)@,
                final(gen)@,
                strs(old(results)@),
                strs(final(results)@),
            ),
    {
        if operands.len() < 1 {
            return Err(Error::Malformed);
        }
        let name = gen.type_string(iface, &Type::Id(ty));
        let tmp = self.tmp("flags");
        self.s(name.as_str());
        self.s(" ");
        self.s(tmp.as_str());
        self.s(" = ");
        self.s(operands[0].as_str());
        self.s(";\n");
        let lo = concat2(tmp.as_str(), " & 0xffffffff");
        let hi = concat3("(", tmp.as_str(), " >> 32) & 0xffffffff");
        push_string(results, lo);
        push_string(results, hi);
        assert(strs(old(results)@).push(lo@).push(hi@) =~= strs(old(results)@) + seq![lo@].push(
            hi@,
        ));
        Ok(())
    }

    /// Lifts flags that take two 32-bit scalars.
    pub(crate) fn emit_wide_flags_lift(
        &self,
        gen: &mut C,
        iface: &Interface,
        ty: usize,
        operands: &Vec<String>,
        results: &mut Vec<String>,
    ) -> (r: Result<(), Error>)
        requires
            iface.wf(),
            wide_flags(*iface, ty),
        ensures
            met(
                flags_lift_outcome(self@, old(gen)@, *iface, ty, strs(operands@)),
                r,
                self@,
                final(gen)@,
                strs(old(results)@),
                strs(final(results)@),
            ),
    {
        if operands.len() < 2 {
            return Err(Error::Malformed);
        }
        let name = gen.type_string(iface, &Type::Id(ty));
        let mut e = concat3("((", name.as_str(), ") (");
        e.append(operands[0].as_str());
        e.append(")) | (((");
        e.append(name.as_str());
        e.append(") (");
        e.append(operands[1].as_str());
        e.append(")) << 32)");
        push_string(results, e);
        assert(strs(old(results)@).push(e@) =~= strs(old(results)@) + seq![e@]);
        Ok(())
    }

    /// Lifts a list: yields a list literal from an address and a length.
    /// With `block` set, the block for the element is dropped first.
    pub(crate) fn emit_list_lift(
        &mut self,
        gen: &mut C,
        iface: &Interface,
        element: &Type,
        ty: usize,
        block: bool,
        operands: &Vec<String>,
        results: &mut Vec<String>,
    ) -> (r: Result<(), Error>)
        requires
            iface.wf(),
        ensures
            met(
                list_lift_outcome(
                    old(self)@,
                    old(gen)@,
                    *iface,
                    *element,
                    ty,
                    block,
                    strs(operands@),
                ),
                r,
                final(self)@,
                final(gen)@,
                strs(old(results)@),
                strs(final(results)@),
            ),
    {
        let known = match element {
            Type::Id(e) => *e < iface.types.len(),
            _ => true,
        };
        if ty >= iface.types.len() || !known || operands.len() < 2 || (block && self.blocks.len()
            < 1) {
            return Err(Error::Malformed);
        }
        if block {
            let _body = self.blocks.pop();
            assert(self@.blocks =~= old(self)@.blocks.drop_last());
        }
        let list_name = gen.type_string(iface, &Type::Id(ty));
        let elem_name = gen.type_string(iface, element);
        let e = list_literal_string(
            list_name.as_str(),
            elem_name.as_str(),
            operands[0].as_str(),
            operands[1].as_str(),
        );
        push_string(results, e);
        assert(strs(old(results)@).push(e@) =~= strs(old(results)@) + seq![e@]);
        Ok(())
    }

    /// Lifts a string: yields a string literal from an address and a length.
    pub(crate) fn emit_string_lift(
        &self,
        gen: &mut C,
        iface: &Interface,
        operands: &Vec<String>,
        results: &mut Vec<String>,
    ) -> (r: Result<(), Error>)
        requires
            iface.wf(),
        ensures
            met(
                string_lift_outcome(self@, old(gen)@, *iface, strs(operands@)),
                r,
                self@,
                final(gen)@,
                strs(old(results)@),
                strs(final(results)@),
            ),
    {
        if operands.len() < 2 {
            return Err(Error::Malformed);
        }
        let list_name = gen.type_string(iface, &Type::String);
        let e = list_literal_string(
            list_name.as_str(),
            "char",
            operands[0].as_str(),
            operands[1].as_str(),
        );
        push_string(results, e);
        assert(strs(old(results)@).push(e@) =~= strs(old(results)@) + seq![e@]);
        Ok(())
    }

    /// Binds a fresh name to the payload of the case at hand and yields the
    /// payload behind it.
    pub(crate) fn emit_payload_name(&mut self, gen: &C, results: &mut Vec<String>) -> (r: Result<
        (),
        Error,
    >)
        ensures
            met(
                payload_name_outcome(old(self)@, gen@),
                r,
                final(self)@,
                gen@,
                strs(old(results)@),
                strs(final(results)@),
            ),
    {
        let name = self.tmp("payload");
        let e = concat2("*", name.as_str());
        push_string(results, e);
        push_string(&mut self.payloads, name);
        assert(strs(old(results)@).push(e@) =~= strs(old(results)@) + seq![e@]);
        Ok(())
    }
}

} // verus!
