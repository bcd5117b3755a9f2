//! Lowering and lifting of options and results.
use vstd::prelude::*;
use crate::bindgen::block_texts;
use crate::bindgen::met;
use crate::bindgen::BindState;
use crate::bindgen::Error;
use crate::bindgen::FunctionBindgen;
use crate::bindgen::Outcome;
use crate::emit_variant::decls;
use crate::emit_variant::fresh_n;
use crate::emit_variant::noted_payload;
use crate::emit_variant::took_n;
use crate::gen::GenState;
use crate::gen::C;
use crate::ir::Interface;
use crate::ir::Type;
use crate::ir::TypeDefKind;
use crate::pool::fresh;
use crate::repr::WasmType;
use crate::text::group_render;
use crate::text::push_string;
use crate::text::render;
use crate::text::strs;

verus! {

broadcast use group_render;

/// The payload type of the option that definition `ty` is.
pub open spec fn option_payload(iface: Interface, ty: usize) -> Option<Type> {
    if ty < iface.types@.len() {
        match iface.types@[ty as int].kind {
            TypeDefKind::Option(t) => Some(t),
            _ => None,
        }
    } else {
        None
    }
}

/// The success and error types of the result that definition `ty` is.
pub open spec fn result_payloads(iface: Interface, ty: usize) -> Option<(Option<Type>, Option<Type>)> {
    if ty < iface.types@.len() {
        match iface.types@[ty as int].kind {
            TypeDefKind::Result { ok, err } => Some((ok, err)),
            _ => None,
        }
    } else {
        None
    }
}

/// The statements, as one text, that assign to each of the first `n` names
/// the value of its position.
pub open spec fn assigns_text(names: Seq<Seq<char>>, values: Seq<Seq<char>>, n: nat) -> Seq<char>
    decreases n,
{
    if n == 0 {
        Seq::empty()
    } else {
        assigns_text(names, values, (n - 1) as nat) + names[n - 1] + " = "@ + values[n - 1] + ";\n"@
    }
}

/// The statement, as one text, that binds `payload` to the address of the
/// member `member` of `op`, whose type is written `ty`; nothing where `ty`
/// is absent.
pub open spec fn bind_text(ty: Option<Seq<char>>, payload: Seq<char>, op: Seq<char>, member: Seq<char>) -> Seq<
    char,
> {
    match ty {
        Some(t) => "const "@ + t + " *"@ + payload + " = &("@ + op + member,
        None => Seq::empty(),
    }
}

/// The statement, as one text, that sets the member `member` of `result`
/// to `value`; nothing unless `set`.
pub open spec fn set_text(set: bool, result: Seq<char>, member: Seq<char>, value: Seq<char>) -> Seq<
    char,
> {
    if set {
        result + member + value + ";"@
    } else {
        Seq::empty()
    }
}

/// The text of a type that is there and holds something.
pub open spec fn held_text(iface: Interface, ty: Option<Type>) -> Option<Seq<char>> {
    match iface.nonempty(ty) {
        Some(t) => Some(iface.ty_text(t)),
        None => None,
    }
}

/// The outcome of `OptionLower`: a local is declared for each result type,
/// and an `if` on the presence of a value runs the block for `some`, with
/// the payload bound, or the block for `none`; either assigns what it yields
/// to the locals. The last two blocks and payload names are used up.
pub open spec fn option_lower_outcome(
    b: BindState,
    g: GenState,
    iface: Interface,
    ty: usize,
    result_types: Seq<WasmType>,
    ops: Seq<Seq<char>>,
) -> Result<Outcome, Error> {
    match option_payload(iface, ty) {
        Some(payload) => {
            let r = result_types.len();
            if ops.len() < 1 || b.blocks.len() < 2 || b.payloads.len() < 2 || b.blocks.last().results.len()
                < r || b.blocks[b.blocks.len() - 2].results.len() < r {
                Err(Error::Malformed)
            } else {
                let some = b.blocks.last();
                let none = b.blocks[b.blocks.len() - 2];
                let names = fresh_n(b.locals, "option"@, r);
                let some_body = some.body + assigns_text(names, some.results, r);
                let none_body = none.body + assigns_text(names, none.results, r);
                let bind = bind_text(
                    if iface.is_empty(payload) {
                        None
                    } else {
                        Some(iface.ty_text(payload))
                    },
                    b.payloads.last(),
                    ops[0],
                    ").val;"@,
                );
                Ok(
                    Outcome {
                        bind: BindState {
                            locals: took_n(b.locals, "option"@, r),
                            src: render(b.src, decls(result_types, names, r).push("\n                    if (("@).push(ops[0]).push(").is_some) {\n                        "@).push(bind).push("\n                        "@).push(some_body).push("\n                    } else {\n                        "@).push(none_body).push("\n                    }\n                    "@)),
                            blocks: b.blocks.take(b.blocks.len() - 2),
                            payloads: b.payloads.take(b.payloads.len() - 2),
                            ..b
                        },
                        gen: g.noted_private(iface, payload),
                        results: names,
                    },
                )
            }
        },
        None => Err(Error::Malformed),
    }
}

/// The outcome of `OptionLift`: a local of the option's type is declared,
/// and a switch on the operand runs the block for `none` or the block for
/// `some`, setting the presence accordingly and, unless the payload holds
/// nothing, the value. The last two blocks are used up. It fails unless the
/// block for `none` yields nothing and the block for `some` one operand.
pub open spec fn option_lift_outcome(
    b: BindState,
    g: GenState,
    iface: Interface,
    ty: usize,
    ops: Seq<Seq<char>>,
) -> Result<Outcome, Error> {
    match option_payload(iface, ty) {
        Some(payload) => {
            if ops.len() < 1 || b.blocks.len() < 2 || b.blocks.last().results.len() != 1
                || b.blocks[b.blocks.len() - 2].results.len() != 0 {
                Err(Error::Malformed)
            } else {
                let some = b.blocks.last();
                let none = b.blocks[b.blocks.len() - 2];
                let result = fresh(b.locals, "option"@);
                let set_some = set_text(
                    !iface.is_empty(payload),
                    result,
                    ".val = "@,
                    some.results[0],
                );
                Ok(
                    Outcome {
                        bind: BindState {
                            blocks: b.blocks.take(b.blocks.len() - 2),
                            ..b.took("option"@).wrote(
                                seq![iface.ty_text(Type::Id(ty))].push(" "@).push(result).push(
                                    ";\n"@,
                                ).push("switch ("@).push(ops[0]).push(") {\n                        case 0: {\n                            "@).push(result).push(".is_some = false;\n                            "@).push(none.body).push("\n                            break;\n                        }\n                        case 1: {\n                            "@).push(result).push(".is_some = true;\n                            "@).push(some.body).push("\n                            "@).push(set_some).push("\n                            break;\n                        }\n                    }"@),
                            )
                        },
                        gen: g.noted_private(iface, Type::Id(ty)),
                        results: seq![result],
                    },
                )
            }
        },
        None => Err(Error::Malformed),
    }
}

/// The outcome of `ResultLower`: a local is declared for each result type,
/// and an `if` on the error flag runs the block for the error or the block
/// for success, each with its payload bound if it holds something; either
/// assigns what it yields to the locals. The last two blocks and payload
/// names are used up.
pub open spec fn result_lower_outcome(
    b: BindState,
    g: GenState,
    iface: Interface,
    ty: usize,
    result_types: Seq<WasmType>,
    ops: Seq<Seq<char>>,
) -> Result<Outcome, Error> {
    match result_payloads(iface, ty) {
        Some(tys) => {
            let r = result_types.len();
            if ops.len() < 1 || b.blocks.len() < 2 || b.payloads.len() < 2 || b.blocks.last().results.len()
                < r || b.blocks[b.blocks.len() - 2].results.len() < r {
                Err(Error::Malformed)
            } else {
                let err = b.blocks.last();
                let ok = b.blocks[b.blocks.len() - 2];
                let names = fresh_n(b.locals, "result"@, r);
                let ok_body = ok.body + assigns_text(names, ok.results, r);
                let err_body = err.body + assigns_text(names, err.results, r);
                let bind_ok = bind_text(
                    held_text(iface, tys.0),
                    b.payloads[b.payloads.len() - 2],
                    ops[0],
                    ").val.ok;"@,
                );
                let bind_err = bind_text(
                    held_text(iface, tys.1),
                    b.payloads.last(),
                    ops[0],
                    ").val.err;"@,
                );
                Ok(
                    Outcome {
                        bind: BindState {
                            locals: took_n(b.locals, "result"@, r),
                            src: render(b.src, decls(result_types, names, r).push("\n                    if (("@).push(ops[0]).push(").is_err) {\n                        "@).push(bind_err).push("\n                        "@).push(err_body).push("\n                    } else {\n                        "@).push(bind_ok).push("\n                        "@).push(ok_body).push("\n                    }\n                    "@)),
                            blocks: b.blocks.take(b.blocks.len() - 2),
                            payloads: b.payloads.take(b.payloads.len() - 2),
                            ..b
                        },
                        gen: noted_payload(noted_payload(g, iface, tys.0), iface, tys.1),
                        results: names,
                    },
                )
            }
        },
        None => Err(Error::Malformed),
    }
}

/// The number of operands that the block for a payload yields: one where
/// there is a payload.
pub open spec fn yields_of(ty: Option<Type>) -> nat {
    if ty is Some {
        1
    } else {
        0
    }
}

/// The outcome of `ResultLift`: a local of the result's type is declared,
/// and a switch on the operand runs the block for success or the block for
/// the error, setting the error flag accordingly and the payload if it holds
/// something. The last two blocks are used up. It fails unless each block
/// yields one operand where its side has a payload and none where it has
/// not.
pub open spec fn result_lift_outcome(
    b: BindState,
    g: GenState,
    iface: Interface,
    ty: usize,
    ops: Seq<Seq<char>>,
) -> Result<Outcome, Error> {
    match result_payloads(iface, ty) {
        Some(tys) => {
            if ops.len() < 1 || b.blocks.len() < 2 || b.blocks.last().results.len() != yields_of(
                tys.1,
            ) || b.blocks[b.blocks.len() - 2].results.len() != yields_of(tys.0) {
                Err(Error::Malformed)
            } else {
                let err = b.blocks.last();
                let ok = b.blocks[b.blocks.len() - 2];
                let result = fresh(b.locals, "result"@);
                let set_ok = set_text(
                    iface.nonempty(tys.0) is Some,
                    result,
                    ".val.ok = "@,
                    ok.results[0],
                );
                let set_err = set_text(
                    iface.nonempty(tys.1) is Some,
                    result,
                    ".val.err = "@,
                    err.results[0],
                );
                Ok(
                    Outcome {
                        bind: BindState {
                            blocks: b.blocks.take(b.blocks.len() - 2),
                            ..b.took("result"@).wrote(
                                seq![iface.ty_text(Type::Id(ty))].push(" "@).push(result).push(
                                    ";\n"@,
                                ).push("switch ("@).push(ops[0]).push(") {\n                        case 0: {\n                            "@).push(result).push(".is_err = false;\n                            "@).push(ok.body).push("\n                            "@).push(set_ok).push("\n                            break;\n                        }\n                        case 1: {\n                            "@).push(result).push(".is_err = true;\n                            "@).push(err.body).push("\n                            "@).push(set_err).push("\n                            break;\n                        }\n                    }"@),
                            )
                        },
                        gen: g.noted_private(iface, Type::Id(ty)),
                        results: seq![result],
                    },
                )
            }
        },
        None => Err(Error::Malformed),
    }
}

/// `body` followed by the statements that assign to each of the first `n`
/// names the value of its position.
pub(crate) fn with_assigns(body: &str, names: &Vec<String>, values: &Vec<String>, n: usize) -> (r: String)
    requires
        n <= names@.len(),
        n <= values@.len(),
    ensures
        r@ == body@ + assigns_text(strs(names@), strs(values@), n as nat),
{
    let mut r = String::from_str(body);
    let mut k: usize = 0;
    assert(body@ + Seq::<char>::empty() =~= body@);
    while k < n
        invariant
            k <= n,
            n <= names@.len(),
            n <= values@.len(),
            r@ == body@ + assigns_text(strs(names@), strs(values@), k as nat),
        decreases n - k,
    {
        let ghost before = assigns_text(strs(names@), strs(values@), k as nat);
        r.append(names[k].as_str());
        r.append(" = ");
        r.append(values[k].as_str());
        r.append(";\n");
        assert(r@ =~= body@ + (before + names@[k as int]@ + " = "@ + values@[k as int]@ + ";\n"@));
        k += 1;
    }
    r
}

/// The statement that binds `payload` to the address of the member
/// `member` of `op`; nothing where `ty` is absent.
pub(crate) fn bind_string(ty: Option<String>, payload: &str, op: &str, member: &str) -> (r: String)
    ensures
        r@ == bind_text(
            match ty {
                Some(t) => Some(t@),
                None => None,
            },
            payload@,
            op@,
            member@,
        ),
{
    match ty {
        Some(t) => {
            let mut r = String::from_str("const ");
            r.append(t.as_str());
            r.append(" *");
            r.append(payload);
            r.append(" = &(");
            r.append(op);
            r.append(member);
            r
        },
        None => String::new(),
    }
}

/// The statement that sets the member `member` of `result` to `value`;
/// nothing unless `set`.
pub(crate) fn set_string(set: bool, result: &str, member: &str, value: &str) -> (r: String)
    ensures
        r@ == set_text(set, result@, member@, value@),
{
    if set {
        let mut r = String::from_str(result);
        r.append(member);
        r.append(value);
        r.append(";");
        r
    } else {
        String::new()
    }
}

impl FunctionBindgen {
    /// Lowers an option.
    #[verifier::rlimit(50)]
    pub(crate) fn emit_option_lower(
        &mut self,
        gen: &mut C,
        iface: &Interface,
        ty: usize,
        result_types: &Vec<WasmType>,
        operands: &Vec<String>,
        results: &mut Vec<String>,
    ) -> (r: Result<(), Error>)
        requires
            iface.wf(),
        ensures
            met(
                option_lower_outcome(
                    old(self)@,
                    old(gen)@,
                    *iface,
                    ty,
                    result_types@,
                    strs(operands@),
                ),
                r,
                final(self)@,
                final(gen)@,
                strs(old(results)@),
                strs(final(results)@),
            ),
    {
        if ty >= iface.types.len() {
            return Err(Error::Malformed);
        }
        let payload = match &iface.types[ty].kind {
            TypeDefKind::Option(t) => *t,
            _ => {
                return Err(Error::Malformed);
            },
        };
        proof {
            iface.lemma_slot(ty, 0);
        }
        let n = result_types.len();
        if operands.len() < 1 || self.blocks.len() < 2 || self.payloads.len() < 2 {
            return Err(Error::Malformed);
        }
        let at = self.blocks.len();
        if self.blocks[at - 1].1.len() < n || self.blocks[at - 2].1.len() < n {
            assert(self@.blocks.last().results == strs(self.blocks@[at - 1].1@));
            assert(self@.blocks[at - 2].results == strs(self.blocks@[at - 2].1@));
            return Err(Error::Malformed);
        }
        assert(self@.blocks.last().results == strs(self.blocks@[at - 1].1@));
        assert(self@.blocks[at - 2].results == strs(self.blocks@[at - 2].1@));
        let blocks = match self.take_blocks(2) {
            Ok(b) => b,
            Err(e) => {
                return Err(e);
            },
        };
        let payloads = match self.take_payloads(2) {
            Ok(p) => p,
            Err(e) => {
                return Err(e);
            },
        };
        let ghost bt = block_texts(blocks@);
        assert(bt[1] == old(self)@.blocks.last() && bt[0] == old(self)@.blocks[at - 2]);
        assert(strs(payloads@)[1] == old(self)@.payloads.last());
        let names = self.declare_results("option", result_types, results);
        let some = with_assigns(blocks[1].0.as_str(), &names, &blocks[1].1, n);
        let none = with_assigns(blocks[0].0.as_str(), &names, &blocks[0].1, n);
        let name = gen.type_string(iface, &payload);
        let held = if C::is_empty_type(iface, &payload) {
            None
        } else {
            Some(name)
        };
        let bind_some = bind_string(held, payloads[1].as_str(), operands[0].as_str(), ").val;");
        self.s("\n                    if ((");
        self.s(operands[0].as_str());
        self.s(").is_some) {\n                        ");
        self.s(bind_some.as_str());
        self.s("\n                        ");
        self.s(some.as_str());
        self.s("\n                    } else {\n                        ");
        self.s(none.as_str());
        self.s("\n                    }\n                    ");
        Ok(())
    }

    /// Lifts an option.
    #[verifier::rlimit(50)]
    pub(crate) fn emit_option_lift(
        &mut self,
        gen: &mut C,
        iface: &Interface,
        ty: usize,
        operands: &Vec<String>,
        results: &mut Vec<String>,
    ) -> (r: Result<(), Error>)
        requires
            iface.wf(),
        ensures
            met(
                option_lift_outcome(old(self)@, old(gen)@, *iface, ty, strs(operands@)),
                r,
                final(self)@,
                final(gen)@,
                strs(old(results)@),
                strs(final(results)@),
            ),
    {
        if ty >= iface.types.len() {
            return Err(Error::Malformed);
        }
        let payload = match &iface.types[ty].kind {
            TypeDefKind::Option(t) => *t,
            _ => {
                return Err(Error::Malformed);
            },
        };
        proof {
            iface.lemma_slot(ty, 0);
        }
        if operands.len() < 1 || self.blocks.len() < 2 {
            return Err(Error::Malformed);
        }
        let at = self.blocks.len();
        assert(self@.blocks.last().results == strs(self.blocks@[at - 1].1@));
        assert(self@.blocks[at - 2].results == strs(self.blocks@[at - 2].1@));
        if self.blocks[at - 1].1.len() != 1 || self.blocks[at - 2].1.len() != 0 {
            return Err(Error::Malformed);
        }
        let blocks = match self.take_blocks(2) {
            Ok(b) => b,
            Err(e) => {
                return Err(e);
            },
        };
        let ghost bt = block_texts(blocks@);
        assert(bt[1] == old(self)@.blocks.last() && bt[0] == old(self)@.blocks[at - 2]);
        assert(bt[1].results[0] == blocks@[1].1@[0]@);
        let name = gen.type_string(iface, &Type::Id(ty));
        let result = self.tmp("option");
        self.s(name.as_str());
        self.s(" ");
        self.s(result.as_str());
        self.s(";\n");
        let set_some = set_string(
            !C::is_empty_type(iface, &payload),
            result.as_str(),
            ".val = ",
            blocks[1].1[0].as_str(),
        );
        self.s("switch (");
        self.s(operands[0].as_str());
        self.s(") {\n                        case 0: {\n                            ");
        self.s(result.as_str());
        self.s(".is_some = false;\n                            ");
        self.s(blocks[0].0.as_str());
        self.s("\n                            break;\n                        }\n                        case 1: {\n                            ");
        self.s(result.as_str());
        self.s(".is_some = true;\n                            ");
        self.s(blocks[1].0.as_str());
        self.s("\n                            ");
        self.s(set_some.as_str());
        self.s("\n                            break;\n                        }\n                    }");
        push_string(results, result);
        assert(strs(old(results)@).push(result@) =~= strs(old(results)@) + seq![result@]);
        Ok(())
    }

    /// Lowers a result.
    #[verifier::rlimit(50)]
    pub(crate) fn emit_result_lower(
        &mut self,
        gen: &mut C,
        iface: &Interface,
        ty: usize,
        result_types: &Vec<WasmType>,
        operands: &Vec<String>,
        results: &mut Vec<String>,
    ) -> (r: Result<(), Error>)
        requires
            iface.wf(),
        ensures
            met(
                result_lower_outcome(
                    old(self)@,
                    old(gen)@,
                    *iface,
                    ty,
                    result_types@,
                    strs(operands@),
                ),
                r,
                final(self)@,
                final(gen)@,
                strs(old(results)@),
                strs(final(results)@),
            ),
    {
        if ty >= iface.types.len() {
            return Err(Error::Malformed);
        }
        let (ok_ty, err_ty) = match &iface.types[ty].kind {
            TypeDefKind::Result { ok, err } => (*ok, *err),
            _ => {
                return Err(Error::Malformed);
            },
        };
        proof {
            if ok_ty is Some {
                iface.lemma_slot(ty, 0);
            }
            if err_ty is Some {
                iface.lemma_slot(ty, 1);
            }
        }
        let n = result_types.len();
        if operands.len() < 1 || self.blocks.len() < 2 || self.payloads.len() < 2 {
            return Err(Error::Malformed);
        }
        let at = self.blocks.len();
        assert(self@.blocks.last().results == strs(self.blocks@[at - 1].1@));
        assert(self@.blocks[at - 2].results == strs(self.blocks@[at - 2].1@));
        if self.blocks[at - 1].1.len() < n || self.blocks[at - 2].1.len() < n {
            return Err(Error::Malformed);
        }
        let blocks = match self.take_blocks(2) {
            Ok(b) => b,
            Err(e) => {
                return Err(e);
            },
        };
        let payloads = match self.take_payloads(2) {
            Ok(p) => p,
            Err(e) => {
                return Err(e);
            },
        };
        let ghost bt = block_texts(blocks@);
        assert(bt[1] == old(self)@.blocks.last() && bt[0] == old(self)@.blocks[at - 2]);
        assert(strs(payloads@)[1] == old(self)@.payloads.last());
        assert(strs(payloads@)[0] == old(self)@.payloads[old(self)@.payloads.len() - 2]);
        let names = self.declare_results("result", result_types, results);
        let ok = with_assigns(blocks[0].0.as_str(), &names, &blocks[0].1, n);
        let err = with_assigns(blocks[1].0.as_str(), &names, &blocks[1].1, n);
        let ok_name = match C::get_nonempty_type(iface, ok_ty) {
            Some(t) => Some(gen.type_string(iface, &t)),
            None => None,
        };
        let bind_ok = bind_string(ok_name, payloads[0].as_str(), operands[0].as_str(), ").val.ok;");
        let err_name = match C::get_nonempty_type(iface, err_ty) {
            Some(t) => Some(gen.type_string(iface, &t)),
            None => None,
        };
        let bind_err = bind_string(
            err_name,
            payloads[1].as_str(),
            operands[0].as_str(),
            ").val.err;",
        );
        self.s("\n                    if ((");
        self.s(operands[0].as_str());
        self.s(").is_err) {\n                        ");
        self.s(bind_err.as_str());
        self.s("\n                        ");
        self.s(err.as_str());
        self.s("\n                    } else {\n                        ");
        self.s(bind_ok.as_str());
        self.s("\n                        ");
        self.s(ok.as_str());
        self.s("\n                    }\n                    ");
        Ok(())
    }

    /// Lifts a result.
    #[verifier::rlimit(50)]
    pub(crate) fn emit_result_lift(
        &mut self,
        gen: &mut C,
        iface: &Interface,
        ty: usize,
        operands: &Vec<String>,
        results: &mut Vec<String>,
    ) -> (r: Result<(), Error>)
        requires
            iface.wf(),
        ensures
            met(
                result_lift_outcome(old(self)@, old(gen)@, *iface, ty, strs(operands@)),
                r,
                final(self)@,
                final(gen)@,
                strs(old(results)@),
                strs(final(results)@),
            ),
    {
        if ty >= iface.types.len() {
            return Err(Error::Malformed);
        }
        let (ok_ty, err_ty) = match &iface.types[ty].kind {
            TypeDefKind::Result { ok, err } => (*ok, *err),
            _ => {
                return Err(Error::Malformed);
            },
        };
        proof {
            if ok_ty is Some {
                iface.lemma_slot(ty, 0);
            }
            if err_ty is Some {
                iface.lemma_slot(ty, 1);
            }
        }
        if operands.len() < 1 || self.blocks.len() < 2 {
            return Err(Error::Malformed);
        }
        let at = self.blocks.len();
        assert(self@.blocks.last().results == strs(self.blocks@[at - 1].1@));
        assert(self@.blocks[at - 2].results == strs(self.blocks@[at - 2].1@));
        let want_err: usize = if err_ty.is_some() {
            1
        } else {
            0
        };
        let want_ok: usize = if ok_ty.is_some() {
            1
        } else {
            0
        };
        if self.blocks[at - 1].1.len() != want_err || self.blocks[at - 2].1.len() != want_ok {
            return Err(Error::Malformed);
        }
        let blocks = match self.take_blocks(2) {
            Ok(b) => b,
            Err(e) => {
                return Err(e);
            },
        };
        let ghost bt = block_texts(blocks@);
        assert(bt[1] == old(self)@.blocks.last() && bt[0] == old(self)@.blocks[at - 2]);
        let result = self.tmp("result");
        let set_ok = match C::get_nonempty_type(iface, ok_ty) {
            Some(_) => {
                assert(bt[0].results[0] == blocks@[0].1@[0]@);
                set_string(true, result.as_str(), ".val.ok = ", blocks[0].1[0].as_str())
            },
            None => String::new(),
        };
        let set_err = match C::get_nonempty_type(iface, err_ty) {
            Some(_) => {
                assert(bt[1].results[0] == blocks@[1].1@[0]@);
                set_string(true, result.as_str(), ".val.err = ", blocks[1].1[0].as_str())
            },
            None => String::new(),
        };
        let name = gen.type_string(iface, &Type::Id(ty));
        self.s(name.as_str());
        self.s(" ");
        self.s(result.as_str());
        self.s(";\n");
        self.s("switch (");
        self.s(operands[0].as_str());
        self.s(") {\n                        case 0: {\n                            ");
        self.s(result.as_str());
        self.s(".is_err = false;\n                            ");
        self.s(blocks[0].0.as_str());
        self.s("\n                            ");
        self.s(set_ok.as_str());
        self.s("\n                            break;\n                        }\n                        case 1: {\n                            ");
        self.s(result.as_str());
        self.s(".is_err = true;\n                            ");
        self.s(blocks[1].0.as_str());
        self.s("\n                            ");
        self.s(set_err.as_str());
        self.s("\n                            break;\n                        }\n                    }");
        push_string(results, result);
        assert(strs(old(results)@).push(result@) =~= strs(old(results)@) + seq![result@]);
        Ok(())
    }
}

} // verus!
