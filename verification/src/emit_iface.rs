//! The call of the function that the guest implements.
use vstd::prelude::*;
use vstd::string::StrSliceExecFns;
use crate::bindgen::met;
use crate::bindgen::BindState;
use crate::bindgen::Error;
use crate::bindgen::FunctionBindgen;
use crate::bindgen::Outcome;
use crate::bindgen::SigView;
use crate::gen::GenState;
use crate::gen::C;
use crate::ir::Function;
use crate::ir::Interface;
use crate::ir::Type;
use crate::pool::after_fresh;
use crate::pool::fresh;
use crate::pool::Pool;
use crate::ret::Scalar;
use crate::text::concat2;
use crate::text::decimal;
use crate::text::decimal_string;
use crate::text::group_render;
use crate::text::push_string;
use crate::text::render;
use crate::emit_variant::fresh_n;
use crate::emit_variant::took_n;
use crate::text::row4;
use crate::text::row5;
use crate::text::row6;
use crate::text::row7;
use crate::text::strs;

verus! {

broadcast use group_render;

/// What has been gathered for a call: the local names in use, the
/// generator's state, the statements that precede the call, and the
/// arguments so far.
pub struct CallAcc {
    pub locals: Pool,
    pub gen: GenState,
    pub pieces: Seq<Seq<char>>,
    pub args: Seq<char>,
}

/// The arguments so far, ready for one more.
pub open spec fn more(args: Seq<char>) -> Seq<char> {
    if args.len() > 0 {
        args + ", "@
    } else {
        args
    }
}

/// The first `n` operands passed as arguments: one that the signature takes
/// by pointer is copied to a fresh local, whose address is passed.
pub open spec fn pass_args(
    start: CallAcc,
    iface: Interface,
    params: Seq<(String, Type)>,
    by_pointer: Seq<(bool, Seq<char>)>,
    ops: Seq<Seq<char>>,
    n: nat,
) -> CallAcc
    decreases n,
{
    if n == 0 {
        start
    } else {
        let a = pass_args(start, iface, params, by_pointer, ops, (n - 1) as nat);
        let args = if n - 1 > 0 {
            a.args + ", "@
        } else {
            a.args
        };
        if by_pointer[n - 1].0 {
            let name = fresh(a.locals, "arg"@);
            let ty = params[n - 1].1;
            CallAcc {
                locals: after_fresh(a.locals, "arg"@),
                gen: a.gen.noted_private(iface, ty),
                pieces: a.pieces + row6(iface.ty_text(ty), " "@, name, " = "@, ops[n - 1], ";\n"@),
                args: args + "&"@ + name,
            }
        } else {
            CallAcc { args: args + ops[n - 1], ..a }
        }
    }
}

/// A fresh local, named after `prefix`, is declared for each of the first
/// `n` of `tys`, and its address is passed as one more argument.
pub open spec fn pass_locals(
    start: CallAcc,
    iface: Interface,
    tys: Seq<Type>,
    prefix: Seq<char>,
    n: nat,
) -> CallAcc
    decreases n,
{
    if n == 0 {
        start
    } else {
        let a = pass_locals(start, iface, tys, prefix, (n - 1) as nat);
        let name = fresh(a.locals, prefix);
        CallAcc {
            locals: after_fresh(a.locals, prefix),
            gen: a.gen.noted_private(iface, tys[n - 1]),
            pieces: a.pieces + row4(iface.ty_text(tys[n - 1]), " "@, name, ";\n"@),
            args: more(a.args) + "&"@ + name,
        }
    }
}

/// The locals that [`pass_locals`] declares take the names that the pool
/// gives one after another.
pub(crate) proof fn lemma_pass_locals(
    start: CallAcc,
    iface: Interface,
    tys: Seq<Type>,
    prefix: Seq<char>,
    n: nat,
)
    ensures
        pass_locals(start, iface, tys, prefix, n).locals == took_n(start.locals, prefix, n),
    decreases n,
{
    if n > 0 {
        lemma_pass_locals(start, iface, tys, prefix, (n - 1) as nat);
    }
}

/// Every type of the list resolves.
pub open spec fn has_all(iface: Interface, tys: Seq<Type>) -> bool {
    forall|i: int| 0 <= i < tys.len() ==> iface.has(#[trigger] tys[i])
}

/// The types of the parameters of a function.
pub open spec fn param_types(params: Seq<(String, Type)>) -> Seq<Type> {
    Seq::new(params.len(), |i: int| params[i].1)
}

/// The call can be printed: the function has a parameter for each argument,
/// the types involved resolve, and the function has a result where its
/// signature returns one that has to be rebuilt.
pub open spec fn call_ready(iface: Interface, func: Function, sig: SigView, n: nat) -> bool {
    &&& n <= func.params@.len()
    &&& has_all(iface, param_types(func.params@))
    &&& has_all(iface, sig.ret.retptrs)
    &&& has_all(iface, func.results@)
    &&& match sig.ret.scalar {
        None => true,
        Some(Scalar::Void) => true,
        Some(Scalar::Type(_)) => func.results@.len() >= 1,
        Some(Scalar::OptionBool(ty)) => func.results@.len() >= 1 && iface.has(ty),
        Some(Scalar::ResultEnum { err, .. }) => func.results@.len() >= 1 && err
            < iface.types@.len(),
    }
}

/// The states and the results of a call whose statements and locals are
/// gathered in `a`.
pub open spec fn called(b: BindState, a: CallAcc, results: Seq<Seq<char>>) -> Result<
    Outcome,
    Error,
> {
    Ok(
        Outcome {
            bind: BindState { locals: a.locals, src: render(b.src, a.pieces), ..b },
            gen: a.gen,
            results,
        },
    )
}

/// The call of a function that returns nothing.
pub open spec fn call_plain(a: CallAcc, sig: SigView) -> CallAcc {
    CallAcc { pieces: a.pieces + row4(sig.name, "("@, a.args, ");\n"@), ..a }
}

/// The call of a function that hands back everything through pointers: a
/// local is declared for each.
pub open spec fn call_by_pointers(a: CallAcc, iface: Interface, sig: SigView) -> CallAcc {
    call_plain(pass_locals(a, iface, sig.ret.retptrs, "ret"@, sig.ret.retptrs.len()), sig)
}

/// The call of a function that returns a value of type `ty`, which a fresh
/// local takes.
pub open spec fn call_by_value(a: CallAcc, iface: Interface, sig: SigView, ty: Type) -> CallAcc {
    let ret = fresh(a.locals, "ret"@);
    CallAcc {
        locals: after_fresh(a.locals, "ret"@),
        gen: a.gen.noted_private(iface, ty),
        pieces: a.pieces + row4(iface.ty_text(ty), " "@, ret, " = "@) + row4(
            sig.name,
            "("@,
            a.args,
            ");\n"@,
        ),
        ..a
    }
}

/// The local that takes the rebuilt option after the call that
/// [`call_option`] describes.
pub open spec fn option_local(a: CallAcc) -> Seq<char> {
    fresh(after_fresh(after_fresh(a.locals, "ret"@), "val"@), "ret"@)
}

/// The call of a function that returns whether an option of type `whole`
/// holds a value and hands back the payload, of type `ty`, through a
/// pointer: the option is rebuilt in a local.
pub open spec fn call_option(
    a: CallAcc,
    iface: Interface,
    sig: SigView,
    ty: Type,
    whole: Type,
) -> CallAcc {
    let ret = fresh(a.locals, "ret"@);
    let l1 = after_fresh(a.locals, "ret"@);
    let val = fresh(l1, "val"@);
    let l2 = after_fresh(l1, "val"@);
    let args = more(a.args) + "&"@ + val;
    let option_ret = fresh(l2, "ret"@);
    CallAcc {
        locals: after_fresh(l2, "ret"@),
        gen: a.gen.noted_private(iface, ty).noted_private(iface, whole),
        pieces: a.pieces + row4(iface.ty_text(ty), " "@, val, ";\n"@) + row7(
            "bool "@,
            ret,
            " = "@,
            sig.name,
            "("@,
            args,
            ");\n"@,
        ) + row5(
            "\n                                "@,
            iface.ty_text(whole),
            " "@,
            option_ret,
            ";\n                                "@,
        ) + row4(option_ret, ".is_some = "@, ret, ";\n                                "@) + row4(
            option_ret,
            ".val = "@,
            val,
            ";\n                            "@,
        ),
        args,
    }
}

/// The locals, the generator's state, the statements and the arguments
/// before the call that [`call_result`] describes: a local for the error and
/// one for the success value, if there is one.
pub open spec fn result_locals(a: CallAcc, iface: Interface, sig: SigView) -> CallAcc {
    pass_locals(
        CallAcc { locals: after_fresh(a.locals, "ret"@), ..a },
        iface,
        sig.ret.retptrs,
        "ok"@,
        sig.ret.retptrs.len(),
    )
}

/// The local that takes the rebuilt result after the call that
/// [`call_result`] describes.
pub open spec fn result_local(a: CallAcc, iface: Interface, sig: SigView) -> Seq<char> {
    fresh(result_locals(a, iface, sig).locals, "ret"@)
}

/// The call of a function that returns the error of a result of type
/// `whole`, or -1, and hands back the success value through a pointer: the
/// result is rebuilt in a local. What was returned counts as an error where
/// it is below `max_err`, the number of cases: -1, the largest value of the
/// enum's type, is no case.
pub open spec fn call_result(
    a: CallAcc,
    iface: Interface,
    sig: SigView,
    err: usize,
    max_err: usize,
    whole: Type,
) -> CallAcc {
    let ret = fresh(a.locals, "ret"@);
    let p = result_locals(a, iface, sig);
    let result_ret = fresh(p.locals, "ret"@);
    let set_ok = if sig.ret.retptrs.len() == 0 {
        Seq::empty()
    } else {
        result_ret + ".val.ok = "@ + fresh_n(
            after_fresh(a.locals, "ret"@),
            "ok"@,
            sig.ret.retptrs.len(),
        ).last() + ";"@
    };
    CallAcc {
        locals: after_fresh(p.locals, "ret"@),
        gen: p.gen.noted_private(iface, Type::Id(err)).noted_private(iface, whole),
        pieces: p.pieces + row4(iface.ty_text(Type::Id(err)), " "@, ret, " = "@) + row4(
            sig.name,
            "("@,
            p.args,
            ");\n"@,
        ) + row5(
            "\n                                "@,
            iface.ty_text(whole),
            " "@,
            result_ret,
            ";\n                                if ("@,
        ) + row4(ret, " < "@, decimal(max_err as nat), ") {\n                                    "@)
            + row5(
            result_ret,
            ".is_err = true;\n                                    "@,
            result_ret,
            ".val.err = "@,
            ret,
        ) + row5(
            ";\n                                } else {\n                                    "@,
            result_ret,
            ".is_err = false;\n                                    "@,
            set_ok,
            "\n                                }\n                            "@,
        ),
        args: p.args,
    }
}

/// The outcome of `CallInterface`: the operands are passed as the
/// signature says, the function is called, and what it hands back is put
/// together again as the value that the walker expects.
pub open spec fn call_interface_outcome(
    b: BindState,
    g: GenState,
    iface: Interface,
    func: Function,
    ops: Seq<Seq<char>>,
) -> Result<Outcome, Error> {
    let n = if ops.len() <= b.sig.params.len() {
        ops.len()
    } else {
        b.sig.params.len()
    };
    if !call_ready(iface, func, b.sig, n) {
        Err(Error::Malformed)
    } else {
        let start = CallAcc {
            locals: b.locals,
            gen: g,
            pieces: Seq::empty(),
            args: Seq::empty(),
        };
        let a = pass_args(start, iface, func.params@, b.sig.params, ops, n);
        match b.sig.ret.scalar {
            None => called(
                b,
                call_by_pointers(a, iface, b.sig),
                fresh_n(a.locals, "ret"@, b.sig.ret.retptrs.len()),
            ),
            Some(Scalar::Void) => called(b, call_plain(a, b.sig), Seq::empty()),
            Some(Scalar::Type(_)) => called(
                b,
                call_by_value(a, iface, b.sig, func.results@[0]),
                seq![fresh(a.locals, "ret"@)],
            ),
            Some(Scalar::OptionBool(ty)) => called(
                b,
                call_option(a, iface, b.sig, ty, func.results@[0]),
                seq![option_local(a)],
            ),
            Some(Scalar::ResultEnum { err, max_err }) => called(
                b,
                call_result(a, iface, b.sig, err, max_err, func.results@[0]),
                seq![result_local(a, iface, b.sig)],
            ),
        }
    }
}

/// Whether a type resolves.
pub(crate) fn known(iface: &Interface, ty: &Type) -> (r: bool)
    ensures
        r == iface.has(*ty),
{
    match ty {
        Type::Id(i) => *i < iface.types.len(),
        _ => true,
    }
}

/// Whether every type of a list resolves.
pub(crate) fn all_known(iface: &Interface, tys: &Vec<Type>) -> (r: bool)
    ensures
        r == has_all(*iface, tys@),
{
    let mut i: usize = 0;
    while i < tys.len()
        invariant
            i <= tys@.len(),
            forall|j: int| 0 <= j < i ==> iface.has(#[trigger] tys@[j]),
        decreases tys@.len() - i,
    {
        if !known(iface, &tys[i]) {
            return false;
        }
        i += 1;
    }
    true
}

/// Whether the type of every parameter resolves.
pub(crate) fn params_known(iface: &Interface, params: &Vec<(String, Type)>) -> (r: bool)
    ensures
        r == has_all(*iface, param_types(params@)),
{
    let mut i: usize = 0;
    while i < params.len()
        invariant
            i <= params@.len(),
            forall|j: int| 0 <= j < i ==> iface.has(#[trigger] param_types(params@)[j]),
        decreases params@.len() - i,
    {
        if !known(iface, &params[i].1) {
            assert(!iface.has(param_types(params@)[i as int]));
            return false;
        }
        i += 1;
    }
    true
}

/// The arguments so far, ready for one more.
pub(crate) fn more_args(args: &mut String)
    ensures
        final(args)@ == more(old(args)@),
{
    if args.as_str().unicode_len() > 0 {
        args.append(", ");
    }
}

impl FunctionBindgen {
    /// The statements and arguments gathered for a call are `a`: the
    /// statement buffer holds what it held in state `b` and `a.pieces`
    /// behind it.
    pub open spec fn gathered(self, gen: C, b: BindState, a: CallAcc, args: String) -> bool {
        &&& self@ == (BindState { locals: a.locals, src: render(b.src, a.pieces), ..b })
        &&& gen@ == a.gen
        &&& args@ == a.args
    }

    /// Passes the operands as arguments.
    fn pass_args(
        &mut self,
        gen: &mut C,
        iface: &Interface,
        func: &Function,
        operands: &Vec<String>,
        n: usize,
    ) -> (args: String)
        requires
            iface.wf(),
            n <= operands@.len(),
            n <= old(self)@.sig.params.len(),
            n <= func.params@.len(),
            has_all(*iface, param_types(func.params@)),
        ensures
            final(self).gathered(
                *final(gen),
                old(self)@,
                pass_args(
                    CallAcc {
                        locals: old(self)@.locals,
                        gen: old(gen)@,
                        pieces: Seq::empty(),
                        args: Seq::empty(),
                    },
                    *iface,
                    func.params@,
                    old(self)@.sig.params,
                    strs(operands@),
                    n as nat,
                ),
                args,
            ),
    {
        let ghost b = self@;
        let ghost start = CallAcc {
            locals: b.locals,
            gen: gen@,
            pieces: Seq::empty(),
            args: Seq::empty(),
        };
        let mut args = String::new();
        let mut i: usize = 0;
        while i < n
            invariant
                iface.wf(),
                i <= n,
                n <= operands@.len(),
                n <= b.sig.params.len(),
                n <= func.params@.len(),
                has_all(*iface, param_types(func.params@)),
                self.gathered(
                    *gen,
                    b,
                    pass_args(start, *iface, func.params@, b.sig.params, strs(operands@), i as nat),
                    args,
                ),
            decreases n - i,
        {
            if i > 0 {
                args.append(", ");
            }
            assert(self@.sig.params[i as int].0 == self.sig.params@[i as int].0);
            if self.sig.params[i].0 {
                assert(iface.has(param_types(func.params@)[i as int]));
                let name = self.tmp("arg");
                let ty = gen.type_string(iface, &func.params[i].1);
                self.line6(ty.as_str(), " ", name.as_str(), " = ", operands[i].as_str(), ";\n");
                args.append("&");
                args.append(name.as_str());
            } else {
                args.append(operands[i].as_str());
            }
            i += 1;
        }
        args
    }

    /// Declares a fresh local for each type that goes through a pointer
    /// and passes its address.
    fn pass_locals(
        &mut self,
        gen: &mut C,
        iface: &Interface,
        prefix: &str,
        args: &mut String,
        Ghost(b): Ghost<BindState>,
        Ghost(a): Ghost<CallAcc>,
    ) -> (names: Vec<String>)
        requires
            iface.wf(),
            has_all(*iface, b.sig.ret.retptrs),
            old(self).gathered(*old(gen), b, a, *old(args)),
        ensures
            final(self).gathered(
                *final(gen),
                b,
                pass_locals(a, *iface, b.sig.ret.retptrs, prefix@, b.sig.ret.retptrs.len()),
                *final(args),
            ),
            strs(names@) == fresh_n(a.locals, prefix@, b.sig.ret.retptrs.len()),
            names@.len() == b.sig.ret.retptrs.len(),
    {
        let mut names: Vec<String> = Vec::new();
        let mut i: usize = 0;
        assert(strs(names@) =~= fresh_n(a.locals, prefix@, 0));
        while i < self.sig.ret.retptrs.len()
            invariant
                iface.wf(),
                has_all(*iface, b.sig.ret.retptrs),
                i <= b.sig.ret.retptrs.len(),
                names@.len() == i,
                self.gathered(
                    *gen,
                    b,
                    pass_locals(a, *iface, b.sig.ret.retptrs, prefix@, i as nat),
                    *args,
                ),
                strs(names@) == fresh_n(a.locals, prefix@, i as nat),
            decreases b.sig.ret.retptrs.len() - i,
        {
            proof {
                lemma_pass_locals(a, *iface, b.sig.ret.retptrs, prefix@, i as nat);
            }
            let t = self.sig.ret.retptrs[i];
            let name = self.tmp(prefix);
            let ty = gen.type_string(iface, &t);
            self.line4(ty.as_str(), " ", name.as_str(), ";\n");
            more_args(args);
            args.append("&");
            args.append(name.as_str());
            push_string(&mut names, name);
            i += 1;
        }
        names
    }

    /// Prints the call itself.
    fn call_plain(&mut self, gen: &C, args: &String, Ghost(b): Ghost<BindState>, Ghost(a): Ghost<CallAcc>)
        requires
            old(self).gathered(*gen, b, a, *args),
        ensures
            final(self).gathered(*gen, b, call_plain(a, b.sig), *args),
    {
        let name = self.sig.name.clone();
        self.line4(name.as_str(), "(", args.as_str(), ");\n");
    }

    /// Prints the call of a function that returns a value.
    fn call_by_value(
        &mut self,
        gen: &mut C,
        iface: &Interface,
        ty: &Type,
        args: &String,
        Ghost(b): Ghost<BindState>,
        Ghost(a): Ghost<CallAcc>,
    ) -> (ret: String)
        requires
            iface.wf(),
            iface.has(*ty),
            old(self).gathered(*old(gen), b, a, *args),
        ensures
            final(self).gathered(*final(gen), b, call_by_value(a, *iface, b.sig, *ty), *args),
            ret@ == fresh(a.locals, "ret"@),
    {
        let name = self.sig.name.clone();
        let ret = self.tmp("ret");
        let ty = gen.type_string(iface, ty);
        self.line4(ty.as_str(), " ", ret.as_str(), " = ");
        self.line4(name.as_str(), "(", args.as_str(), ");\n");
        ret
    }

    /// Prints the call of a function that returns the presence of an
    /// option's value, and rebuilds the option.
    #[verifier::rlimit(50)]
    fn call_option(
        &mut self,
        gen: &mut C,
        iface: &Interface,
        ty: &Type,
        whole: &Type,
        args: &mut String,
        Ghost(b): Ghost<BindState>,
        Ghost(a): Ghost<CallAcc>,
    ) -> (option_ret: String)
        requires
            iface.wf(),
            iface.has(*ty),
            iface.has(*whole),
            old(self).gathered(*old(gen), b, a, *old(args)),
        ensures
            final(self).gathered(
                *final(gen),
                b,
                call_option(a, *iface, b.sig, *ty, *whole),
                *final(args),
            ),
            option_ret@ == option_local(a),
    {
        let name = self.sig.name.clone();
        let ret = self.tmp("ret");
        let val = self.tmp("val");
        more_args(args);
        args.append("&");
        args.append(val.as_str());
        let payload_ty = gen.type_string(iface, ty);
        self.line4(payload_ty.as_str(), " ", val.as_str(), ";\n");
        self.line7("bool ", ret.as_str(), " = ", name.as_str(), "(", args.as_str(), ");\n");
        let option_ty = gen.type_string(iface, whole);
        let option_ret = self.tmp("ret");
        self.line5(
            "\n                                ",
            option_ty.as_str(),
            " ",
            option_ret.as_str(),
            ";\n                                ",
        );
        self.line4(
            option_ret.as_str(),
            ".is_some = ",
            ret.as_str(),
            ";\n                                ",
        );
        self.line4(option_ret.as_str(), ".val = ", val.as_str(), ";\n                            ");
        option_ret
    }

    /// Prints the call of a function that returns the error of a result,
    /// and rebuilds the result.
    #[verifier::rlimit(50)]
    fn call_result(
        &mut self,
        gen: &mut C,
        iface: &Interface,
        err: usize,
        max_err: usize,
        whole: &Type,
        args: &mut String,
        Ghost(b): Ghost<BindState>,
        Ghost(a): Ghost<CallAcc>,
    ) -> (result_ret: String)
        requires
            iface.wf(),
            err < iface.types@.len(),
            iface.has(*whole),
            has_all(*iface, b.sig.ret.retptrs),
            old(self).gathered(*old(gen), b, a, *old(args)),
        ensures
            final(self).gathered(
                *final(gen),
                b,
                call_result(a, *iface, b.sig, err, max_err, *whole),
                *final(args),
            ),
            result_ret@ == result_local(a, *iface, b.sig),
    {
        let name = self.sig.name.clone();
        let ret = self.tmp("ret");
        let ghost a1 = CallAcc { locals: after_fresh(a.locals, "ret"@), ..a };
        let ok_names = self.pass_locals(gen, iface, "ok", args, Ghost(b), Ghost(a1));
        let err_ty = gen.type_string(iface, &Type::Id(err));
        self.line4(err_ty.as_str(), " ", ret.as_str(), " = ");
        self.line4(name.as_str(), "(", args.as_str(), ");\n");
        let result_ty = gen.type_string(iface, whole);
        let result_ret = self.tmp("ret");
        let set_ok = if ok_names.len() == 0 {
            String::new()
        } else {
            let mut s = concat2(result_ret.as_str(), ".val.ok = ");
            assert(strs(ok_names@).last() == ok_names@[ok_names@.len() - 1]@);
            s.append(ok_names[ok_names.len() - 1].as_str());
            s.append(";");
            s
        };
        let max = decimal_string(max_err);
        self.line5(
            "\n                                ",
            result_ty.as_str(),
            " ",
            result_ret.as_str(),
            ";\n                                if (",
        );
        self.line4(ret.as_str(), " < ", max.as_str(), ") {\n                                    ");
        self.line5(
            result_ret.as_str(),
            ".is_err = true;\n                                    ",
            result_ret.as_str(),
            ".val.err = ",
            ret.as_str(),
        );
        self.line5(
            ";\n                                } else {\n                                    ",
            result_ret.as_str(),
            ".is_err = false;\n                                    ",
            set_ok.as_str(),
            "\n                                }\n                            ",
        );
        result_ret
    }

    /// Calls the function that the guest implements.
    #[verifier::rlimit(50)]
    pub(crate) fn emit_call_interface(
        &mut self,
        gen: &mut C,
        iface: &Interface,
        func: &Function,
        operands: &Vec<String>,
        results: &mut Vec<String>,
    ) -> (r: Result<(), Error>)
        requires
            iface.wf(),
        ensures
            met(
                call_interface_outcome(old(self)@, old(gen)@, *iface, *func, strs(operands@)),
                r,
                final(self)@,
                final(gen)@,
                strs(old(results)@),
                strs(final(results)@),
            ),
    {
        let n = if operands.len() <= self.sig.params.len() {
            operands.len()
        } else {
            self.sig.params.len()
        };
        let scalar = self.sig.ret.scalar;
        let ready = n <= func.params.len() && params_known(iface, &func.params) && all_known(
            iface,
            &self.sig.ret.retptrs,
        ) && all_known(iface, &func.results) && match scalar {
            None => true,
            Some(Scalar::Void) => true,
            Some(Scalar::Type(_)) => func.results.len() >= 1,
            Some(Scalar::OptionBool(ty)) => func.results.len() >= 1 && known(iface, &ty),
            Some(Scalar::ResultEnum { err, .. }) => func.results.len() >= 1 && err
                < iface.types.len(),
        };
        if !ready {
            return Err(Error::Malformed);
        }
        let ghost b = self@;
        let mut args = self.pass_args(gen, iface, func, operands, n);
        let ghost a = pass_args(
            CallAcc { locals: b.locals, gen: old(gen)@, pieces: Seq::empty(), args: Seq::empty() },
            *iface,
            func.params@,
            b.sig.params,
            strs(operands@),
            n as nat,
        );
        match scalar {
            None => {
                let names = self.pass_locals(gen, iface, "ret", &mut args, Ghost(b), Ghost(a));
                self.call_plain(
                    gen,
                    &args,
                    Ghost(b),
                    Ghost(
                        pass_locals(a, *iface, b.sig.ret.retptrs, "ret"@, b.sig.ret.retptrs.len()),
                    ),
                );
                crate::text::extend_strings(results, names);
            },
            Some(Scalar::Void) => {
                self.call_plain(gen, &args, Ghost(b), Ghost(a));
                assert(strs(results@) =~= strs(old(results)@) + Seq::<Seq<char>>::empty());
            },
            Some(Scalar::Type(_)) => {
                let ret = self.call_by_value(gen, iface, &func.results[0], &args, Ghost(b), Ghost(a));
                push_string(results, ret);
                assert(strs(old(results)@).push(ret@) =~= strs(old(results)@) + seq![ret@]);
            },
            Some(Scalar::OptionBool(ty)) => {
                let ret = self.call_option(
                    gen,
                    iface,
                    &ty,
                    &func.results[0],
                    &mut args,
                    Ghost(b),
                    Ghost(a),
                );
                push_string(results, ret);
                assert(strs(old(results)@).push(ret@) =~= strs(old(results)@) + seq![ret@]);
            },
            Some(Scalar::ResultEnum { err, max_err }) => {
                let ret = self.call_result(
                    gen,
                    iface,
                    err,
                    max_err,
                    &func.results[0],
                    &mut args,
                    Ghost(b),
                    Ghost(a),
                );
                push_string(results, ret);
                assert(strs(old(results)@).push(ret@) =~= strs(old(results)@) + seq![ret@]);
            },
        }
        Ok(())
    }
}

} // verus!
