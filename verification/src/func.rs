//! The glue around a function: its trampoline and where its parts go.
use vstd::prelude::*;
use crate::bindgen::BindState;
use crate::bindgen::CSig;
use crate::bindgen::Error;
use crate::bindgen::Failure;
use crate::bindgen::FunctionBindgen;
use crate::bindgen::SigView;
use crate::emit_variant::fresh_n;
use crate::emit_variant::took_n;
use crate::gen::Func;
use crate::gen::FuncText;
use crate::gen::GenState;
use crate::gen::Module;
use crate::gen::ModuleText;
use crate::gen::Sources;
use crate::gen::C;
use crate::ir::Function;
use crate::ir::Interface;
use crate::pool::after_fresh;
use crate::pool::after_reserve;
use crate::pool::fresh;
use crate::pool::ns_insert;
use crate::pool::ns_tmp;
use crate::pool::vacant;
use crate::pool::Pool;
use crate::repr::variant_of;
use crate::repr::wasm_name;
use crate::repr::wasm_type;
use crate::repr::AbiVariant;
use crate::repr::Direction;
use crate::repr::WasmSignature;
use crate::repr::WasmType;
use crate::ret::Return;
use crate::ret::Shape;
use crate::text::blank;
use crate::text::concat2;
use crate::text::decimal;
use crate::text::decimal_string;
use crate::text::group_render;
use crate::text::push;
use crate::text::push_string;
use crate::text::render;
use crate::text::row3;
use crate::text::row5;
use crate::text::snake;
use crate::text::snake_case;
use crate::text::source_str;

verus! {

broadcast use group_render;

/// The scalar that a trampoline returns, `void` where it returns none.
pub open spec fn wasm_ret(results: Seq<WasmType>) -> Seq<char> {
    if results.len() == 0 {
        "void"@
    } else {
        wasm_name(results[0])
    }
}

/// The first `n` parameter types of a trampoline that is only declared.
pub open spec fn wasm_params(params: Seq<WasmType>, n: nat) -> Seq<Seq<char>>
    decreases n,
{
    if n == 0 {
        Seq::empty()
    } else if n == 1 {
        wasm_params(params, 0).push(wasm_name(params[0]))
    } else {
        wasm_params(params, (n - 1) as nat).push(", "@).push(wasm_name(params[n - 1]))
    }
}

/// The first `n` parameters of a trampoline that is defined, each with its
/// name.
pub open spec fn named_params(params: Seq<WasmType>, names: Seq<Seq<char>>, n: nat) -> Seq<
    Seq<char>,
>
    decreases n,
{
    if n == 0 {
        Seq::empty()
    } else if n == 1 {
        named_params(params, names, 0).push(wasm_name(params[0])).push(" "@).push(names[0])
    } else {
        named_params(params, names, (n - 1) as nat).push(", "@).push(wasm_name(params[n - 1])).push(
            " "@,
        ).push(names[n - 1])
    }
}

/// `void` in place of an empty parameter list.
pub open spec fn or_void(params: Seq<Seq<char>>) -> Seq<Seq<char>> {
    if params.len() == 0 {
        seq!["void"@]
    } else {
        params
    }
}

/// The pool after the first `n` of `names` were reserved one by one, or
/// the first of them that was reserved already.
pub open spec fn reserve_all(p: Pool, names: Seq<Seq<char>>, n: nat) -> Result<Pool, Seq<char>>
    decreases n,
{
    if n == 0 {
        Ok(p)
    } else {
        match reserve_all(p, names, (n - 1) as nat) {
            Ok(q) => if q.defined.contains(names[n - 1]) {
                Err(names[n - 1])
            } else {
                Ok(after_reserve(q, names[n - 1]))
            },
            Err(name) => Err(name),
        }
    }
}

/// The names of the parameters of a signature.
pub open spec fn param_names(sig: SigView) -> Seq<Seq<char>> {
    Seq::new(sig.params.len(), |i: int| sig.params[i].1)
}

/// The parameters of a signature as the body of an import uses them: the
/// value behind a parameter that is passed by pointer.
pub open spec fn param_values(sig: SigView) -> Seq<Seq<char>> {
    Seq::new(
        sig.params.len(),
        |i: int|
            if sig.params[i].0 {
                "*"@ + sig.params[i].1
            } else {
                sig.params[i].1
            },
    )
}

/// The name of the trampoline of an import or export, before it is made
/// unique.
pub open spec fn trampoline(iface: Interface, func: Function, prefix: Seq<char>) -> Seq<char> {
    prefix + snake_case(iface.name@) + "_"@ + snake_case(func.name@)
}

/// What precedes the body of an import in the implementation: the
/// declaration of the trampoline `import_name`, and the head of the
/// function with signature text `sig`.
pub open spec fn import_head(
    iface: Interface,
    func: Function,
    wasm: WasmSignature,
    import_name: Seq<char>,
    sig: Seq<char>,
) -> Seq<Seq<char>> {
    (row5(
        "__attribute__((import_module(\""@,
        iface.name@,
        "\"), import_name(\""@,
        func.name@,
        "\")))\n"@,
    ).push(wasm_ret(wasm.results@)).push(" "@).push(import_name).push("("@) + or_void(
        wasm_params(wasm.params@, wasm.params@.len()),
    )).push(");\n"@).push(sig).push(" {\n"@)
}

/// What precedes the body of an export in the implementation: the head of
/// the trampoline `export_name`, whose parameters are `args`, and a use of
/// the linking symbol.
pub open spec fn export_head(
    func: Function,
    wasm: WasmSignature,
    export_name: Seq<char>,
    args: Seq<Seq<char>>,
    linking_symbol: Seq<char>,
) -> Seq<Seq<char>> {
    (row3("__attribute__((export_name(\""@, func.name@, "\")))\n"@).push(wasm_ret(wasm.results@)).push(
        " "@,
    ).push(export_name).push("("@) + or_void(
        named_params(wasm.params@, args, wasm.params@.len()),
    )).push(") {\n"@).push("(void) "@).push(linking_symbol).push(";"@)
}

/// The states in which the body of an import begins, or why it cannot.
/// The generator's buffers are set aside; the trampoline is declared under
/// a fresh name; the public declaration is printed; and the names of the
/// parameters are reserved as locals. It fails where the trampoline would
/// return more than one scalar, where the function's name is taken, and
/// where two parameters share a name.
pub open spec fn import_begun(g: GenState, iface: Interface, func: Function, wasm: WasmSignature) -> Result<
    (GenState, BindState),
    Failure,
> {
    let stem = trampoline(iface, func, "__wasm_import_"@);
    let import_name = fresh(g.names, stem);
    let named = GenState { names: after_fresh(g.names, stem), h: blank(), c: blank(), ..g };
    let sig = iface.sig_of(func);
    if wasm.results@.len() > 1 {
        Err(Failure::Unsupported)
    } else if named.names.defined.contains(iface.symbol(func)) {
        Err(Failure::Duplicate(iface.symbol(func)))
    } else {
        match reserve_all(
            vacant(),
            param_names(sig) + sig.retptrs,
            param_names(sig).len() + sig.retptrs.len(),
        ) {
            Ok(locals) => Ok(
                (
                    named.declared(iface, func).with_c(
                        render(blank(), import_head(iface, func, wasm, import_name, sig.sig)),
                    ),
                    BindState {
                        locals,
                        src: blank(),
                        sig,
                        func_to_call: import_name,
                        block_storage: Seq::empty(),
                        blocks: Seq::empty(),
                        payloads: Seq::empty(),
                        params: param_values(sig),
                        wasm_return: None,
                        outer_h: g.h,
                        outer_c: g.c,
                    },
                ),
            ),
            Err(name) => Err(Failure::Duplicate(name)),
        }
    }
}

/// The states in which the body of an export begins, or why it cannot.
/// The generator's buffers are set aside; the public declaration is
/// printed; and the head of the trampoline is printed under a fresh name,
/// with a fresh local for each scalar parameter. It fails where the
/// function's name is taken and where the trampoline would return more than
/// one scalar.
pub open spec fn export_begun(
    g: GenState,
    iface: Interface,
    func: Function,
    wasm: WasmSignature,
    linking_symbol: Seq<char>,
) -> Result<(GenState, BindState), Failure> {
    let fresh_bufs = GenState { h: blank(), c: blank(), ..g };
    let declared = fresh_bufs.declared(iface, func);
    let stem = trampoline(iface, func, "__wasm_export_"@);
    let export_name = fresh(declared.names, stem);
    let n = wasm.params@.len();
    let args = fresh_n(vacant(), "arg"@, n);
    if g.names.defined.contains(iface.symbol(func)) {
        Err(Failure::Duplicate(iface.symbol(func)))
    } else if wasm.results@.len() > 1 {
        Err(Failure::Unsupported)
    } else {
        Ok(
            (
                GenState {
                    names: after_fresh(declared.names, stem),
                    c: render(blank(), export_head(func, wasm, export_name, args, linking_symbol)),
                    ..declared
                },
                BindState {
                    locals: took_n(vacant(), "arg"@, n),
                    src: blank(),
                    sig: iface.sig_of(func),
                    func_to_call: export_name,
                    block_storage: Seq::empty(),
                    blocks: Seq::empty(),
                    payloads: Seq::empty(),
                    params: args,
                    wasm_return: None,
                    outer_h: g.h,
                    outer_c: g.c,
                },
            ),
        )
    }
}

/// The names of the parameters of a post-return function: `arg0`, `arg1`,
/// and so on.
pub open spec fn post_args(n: nat) -> Seq<Seq<char>> {
    Seq::new(n, |i: int| "arg"@ + decimal(i as nat))
}

/// The first `n` parameters of a post-return function.
pub open spec fn post_params(results: Seq<WasmType>, n: nat) -> Seq<Seq<char>>
    decreases n,
{
    if n == 0 {
        Seq::empty()
    } else {
        post_params(results, (n - 1) as nat).push(wasm_name(results[n - 1])).push(" "@).push(
            "arg"@ + decimal((n - 1) as nat),
        )
    }
}

/// What the implementation holds between the body of an export and the
/// body of its post-return function: the end of the one and the head of the
/// other.
pub open spec fn post_return_head(
    func: Function,
    wasm: WasmSignature,
    body: Seq<char>,
    export_name: Seq<char>,
) -> Seq<Seq<char>> {
    (seq![body].push("}\n"@) + row3(
        "__attribute__((export_name(\"cabi_post_"@,
        func.name@,
        "\")))\n"@,
    ) + row3("void "@, export_name, "_post_return("@) + post_params(
        wasm.results@,
        wasm.results@.len(),
    )).push(") {\n"@)
}

/// The signature that stands in for one while a post-return function is
/// printed.
pub open spec fn post_sig(n: nat) -> SigView {
    SigView {
        name: "INVALID"@,
        sig: "INVALID"@,
        params: Seq::new(n, |i: int| (false, "arg"@ + decimal(i as nat))),
        ret: Shape::undecided(),
        retptrs: Seq::empty(),
    }
}

/// The place of the module named `name` among the first `n` modules, if
/// one of them has that name: the first such.
pub open spec fn module_at(funcs: Seq<ModuleText>, name: Seq<char>, n: nat) -> Option<int>
    decreases n,
{
    if n == 0 {
        None
    } else {
        match module_at(funcs, name, (n - 1) as nat) {
            Some(i) => Some(i),
            None => if funcs[n - 1].name == name {
                Some(n - 1)
            } else {
                None
            },
        }
    }
}

/// The modules after `func` was filed under `name`: behind the functions
/// of the module of that name, or in a new module at the end.
pub open spec fn filed(funcs: Seq<ModuleText>, name: Seq<char>, func: FuncText) -> Seq<ModuleText> {
    match module_at(funcs, name, funcs.len()) {
        Some(i) => funcs.update(i, ModuleText { name, funcs: funcs[i].funcs.push(func) }),
        None => funcs.push(ModuleText { name, funcs: seq![func] }),
    }
}

/// The generator's state after the function whose body is in `b` was
/// finished: the body and what closes it end the implementation part, both
/// parts are filed under the interface's name, and the buffers that were
/// set aside are back.
pub open spec fn finished(g: GenState, iface: Interface, b: BindState) -> GenState {
    GenState {
        h: b.outer_h,
        c: b.outer_c,
        funcs: filed(
            g.funcs,
            iface.name@,
            FuncText { h: g.h.text, c: render(g.c, seq![b.src.text].push("}\n"@)).text },
        ),
        ..g
    }
}

impl FunctionBindgen {
    /// Reserves the names of the parameters and of the pointer parameters
    /// as locals, and notes how the body refers to each parameter. It fails
    /// at the first name that is reserved already.
    pub(crate) fn reserve_locals(&mut self) -> (r: Result<(), Error>)
        ensures
            match reserve_all(
                old(self)@.locals,
                param_names(old(self)@.sig) + old(self)@.sig.retptrs,
                param_names(old(self)@.sig).len() + old(self)@.sig.retptrs.len(),
            ) {
                Ok(locals) => r is Ok && final(self)@ == (BindState {
                    locals,
                    params: old(self)@.params + param_values(old(self)@.sig),
                    ..old(self)@
                }),
                Err(name) => r matches Err(e) && e@ == Failure::Duplicate(name),
            },
    {
        let ghost sig = self@.sig;
        let ghost names = param_names(sig) + sig.retptrs;
        let ghost begin = self@.locals;
        let n1 = self.sig.params.len();
        let n2 = self.sig.retptrs.len();
        let mut i: usize = 0;
        assert(self@.params =~= old(self)@.params + param_values(sig).take(0));
        while i < n1
            invariant
                i <= n1,
                n1 == sig.params.len(),
                n2 == sig.retptrs.len(),
                names == param_names(sig) + sig.retptrs,
                begin == old(self)@.locals,
                sig == old(self)@.sig,
                reserve_all(begin, names, i as nat) == Ok::<Pool, Seq<char>>(self@.locals),
                self@ == (BindState {
                    locals: self@.locals,
                    params: old(self)@.params + param_values(sig).take(i as int),
                    ..old(self)@
                }),
            decreases n1 - i,
        {
            assert(sig.params[i as int] == (self.sig.params@[i as int].0, self.sig.params@[i as int].1@));
            assert(names[i as int] == sig.params[i as int].1);
            let name = self.sig.params[i].1.clone();
            let pointer = self.sig.params[i].0;
            match ns_insert(&mut self.locals, name.as_str()) {
                Ok(_) => {},
                Err(_) => {
                    proof {
                        lemma_reserve_err(begin, names, (i + 1) as nat, (n1 + n2) as nat);
                    }
                    return Err(Error::Duplicate(name));
                },
            }
            let value = if pointer {
                concat2("*", name.as_str())
            } else {
                name
            };
            push_string(&mut self.params, value);
            assert(param_values(sig).take(i + 1) =~= param_values(sig).take(i as int).push(
                param_values(sig)[i as int],
            ));
            assert(old(self)@.params + param_values(sig).take(i + 1) =~= (old(self)@.params
                + param_values(sig).take(i as int)).push(param_values(sig)[i as int]));
            i += 1;
        }
        assert(param_values(sig).take(n1 as int) =~= param_values(sig));
        let mut j: usize = 0;
        while j < n2
            invariant
                j <= n2,
                n1 == sig.params.len(),
                n2 == sig.retptrs.len(),
                names == param_names(sig) + sig.retptrs,
                begin == old(self)@.locals,
                sig == old(self)@.sig,
                reserve_all(begin, names, (n1 + j) as nat) == Ok::<Pool, Seq<char>>(self@.locals),
                self@ == (BindState {
                    locals: self@.locals,
                    params: old(self)@.params + param_values(sig),
                    ..old(self)@
                }),
            decreases n2 - j,
        {
            assert(sig.retptrs[j as int] == self.sig.retptrs@[j as int]@);
            assert(names[n1 + j] == sig.retptrs[j as int]);
            let name = self.sig.retptrs[j].clone();
            match ns_insert(&mut self.locals, name.as_str()) {
                Ok(_) => {},
                Err(_) => {
                    proof {
                        lemma_reserve_err(begin, names, (n1 + j + 1) as nat, (n1 + n2) as nat);
                    }
                    return Err(Error::Duplicate(name));
                },
            }
            j += 1;
        }
        Ok(())
    }
}

impl C {
    /// Begins an import: declares its trampoline, whose scalar signature
    /// is `sig`, prints its public declaration, and gives the state that
    /// takes the instructions of its body.
    #[verifier::rlimit(50)]
    pub fn import(&mut self, iface: &Interface, func: &Function, sig: &WasmSignature) -> (r: Result<
        FunctionBindgen,
        Error,
    >)
        requires
            iface.supported(),
            iface.has_func(*func),
        ensures
            match import_begun(old(self)@, *iface, *func, *sig) {
                Ok(begun) => r matches Ok(f) && final(self)@ == begun.0 && f@ == begun.1,
                Err(fail) => r matches Err(e) && e@ == fail,
            },
    {
        let mut prev = Sources::new();
        std::mem::swap(&mut self.src, &mut prev);
        let ghost g1 = self@;

        // The trampoline is what the body calls. It has the scalar signature.
        self.c("__attribute__((import_module(\"");
        self.c(iface.name.as_str());
        self.c("\"), import_name(\"");
        self.c(func.name.as_str());
        self.c("\")))\n");
        let a = snake(iface.name.as_str());
        let b = snake(func.name.as_str());
        let mut stem = concat2("__wasm_import_", a.as_str());
        stem.append("_");
        stem.append(b.as_str());
        let import_name = ns_tmp(&mut self.names, stem.as_str());
        if sig.results.len() > 1 {
            return Err(Error::Unsupported);
        }
        self.print_wasm_ret(&sig.results);
        self.c(" ");
        self.c(import_name.as_str());
        self.c("(");
        self.print_wasm_params(&sig.params);
        self.c(");\n");
        let ghost g2 = self@;

        // The public declaration goes into the header; the function that is
        // defined here begins with the same text.
        let c_sig = match self.print_sig(iface, func) {
            Ok(s) => s,
            Err(e) => {
                return Err(e);
            },
        };
        self.c(c_sig.sig.as_str());
        self.c(" {\n");
        proof {
            let named = GenState {
                names: after_fresh(old(self)@.names, stem@),
                h: blank(),
                c: blank(),
                ..old(self)@
            };
            assert(g2 == named.with_c(g2.c));
            lemma_declared_c(named, *iface, *func, g2.c);
        }

        let mut f = FunctionBindgen::new(c_sig, import_name.as_str(), prev);
        match f.reserve_locals() {
            Ok(_) => {},
            Err(e) => {
                return Err(e);
            },
        }
        assert(Seq::<Seq<char>>::empty() + param_values(f@.sig) =~= param_values(f@.sig));
        Ok(f)
    }

    /// Prints the parameters of a trampoline that is defined, with a fresh
    /// local for each, and gives the locals.
    fn print_named_params(&mut self, f: &mut FunctionBindgen, params: &Vec<WasmType>)
        requires
            old(f)@.params.len() == 0,
        ensures
            final(self)@ == old(self)@.with_c(
                render(
                    old(self)@.c,
                    or_void(
                        named_params(
                            params@,
                            fresh_n(old(f)@.locals, "arg"@, params@.len()),
                            params@.len(),
                        ),
                    ),
                ),
            ),
            final(f)@ == (BindState {
                locals: took_n(old(f)@.locals, "arg"@, params@.len()),
                params: fresh_n(old(f)@.locals, "arg"@, params@.len()),
                ..old(f)@
            }),
    {
        let ghost begin = f@.locals;
        let mut i: usize = 0;
        assert(f@.params =~= fresh_n(begin, "arg"@, 0));
        while i < params.len()
            invariant
                i <= params@.len(),
                begin == old(f)@.locals,
                f@.params.len() == i,
                self@ == old(self)@.with_c(
                    render(old(self)@.c, named_params(params@, f@.params, i as nat)),
                ),
                f@ == (BindState {
                    locals: took_n(begin, "arg"@, i as nat),
                    params: fresh_n(begin, "arg"@, i as nat),
                    ..old(f)@
                }),
            decreases params@.len() - i,
        {
            let ghost before = f@.params;
            if i > 0 {
                self.c(", ");
            }
            let name = f.tmp("arg");
            self.c(wasm_type(params[i]));
            self.c(" ");
            self.c(name.as_str());
            push_string(&mut f.params, name);
            proof {
                lemma_named_prefix(params@, before, f@.params, i as nat);
            }
            i += 1;
        }
        if params.len() == 0 {
            self.c("void");
        }
    }

    /// Begins an export: prints its public declaration and the head of its
    /// trampoline, whose scalar signature is `sig`, and gives the state that
    /// takes the instructions of its body. The trampoline refers to
    /// `linking_symbol` once, so that the object that defines the symbol is
    /// linked whenever the export is.
    #[verifier::rlimit(50)]
    pub fn export(
        &mut self,
        iface: &Interface,
        func: &Function,
        sig: &WasmSignature,
        linking_symbol: &str,
    ) -> (r: Result<FunctionBindgen, Error>)
        requires
            iface.supported(),
            iface.has_func(*func),
        ensures
            match export_begun(old(self)@, *iface, *func, *sig, linking_symbol@) {
                Ok(begun) => r matches Ok(f) && final(self)@ == begun.0 && f@ == begun.1,
                Err(fail) => r matches Err(e) && e@ == fail,
            },
    {
        let mut prev = Sources::new();
        std::mem::swap(&mut self.src, &mut prev);

        // The public declaration is what the guest implements.
        let c_sig = match self.print_sig(iface, func) {
            Ok(s) => s,
            Err(e) => {
                return Err(e);
            },
        };

        proof {
            let fresh_bufs = GenState { h: blank(), c: blank(), ..old(self)@ };
            lemma_declared_frame(fresh_bufs, *iface, *func);
        }

        // The trampoline has the scalar signature.
        self.c("__attribute__((export_name(\"");
        self.c(func.name.as_str());
        self.c("\")))\n");
        let a = snake(iface.name.as_str());
        let b = snake(func.name.as_str());
        let mut stem = concat2("__wasm_export_", a.as_str());
        stem.append("_");
        stem.append(b.as_str());
        let import_name = ns_tmp(&mut self.names, stem.as_str());

        let mut f = FunctionBindgen::new(c_sig, import_name.as_str(), prev);
        if sig.results.len() > 1 {
            return Err(Error::Unsupported);
        }
        self.print_wasm_ret(&sig.results);
        self.c(" ");
        self.c(import_name.as_str());
        self.c("(");
        self.print_named_params(&mut f, &sig.params);
        self.c(") {\n");

        // Whoever links the export links the object with the component type.
        self.c("(void) ");
        self.c(linking_symbol);
        self.c(";");
        Ok(f)
    }

    /// Ends the body of an export, whose instructions `f` took, and begins
    /// its post-return function, which frees what the export handed out:
    /// gives the state that takes the instructions of that function.
    #[verifier::rlimit(50)]
    pub fn post_return(
        &mut self,
        func: &Function,
        sig: &WasmSignature,
        f: FunctionBindgen,
    ) -> (post: FunctionBindgen)
        ensures
            final(self)@ == old(self)@.with_c(
                render(
                    old(self)@.c,
                    post_return_head(*func, *sig, f@.src.text, f@.func_to_call),
                ),
            ),
            post@ == (BindState {
                locals: vacant(),
                src: blank(),
                sig: post_sig(sig.results@.len()),
                func_to_call: f@.func_to_call,
                block_storage: Seq::empty(),
                blocks: Seq::empty(),
                payloads: Seq::empty(),
                params: post_args(sig.results@.len()),
                wasm_return: None,
                outer_h: f@.outer_h,
                outer_c: f@.outer_c,
            }),
    {
        let FunctionBindgen { src, func_to_call, outer, .. } = f;
        self.c(source_str(&src));
        self.c("}\n");
        self.c("__attribute__((export_name(\"cabi_post_");
        self.c(func.name.as_str());
        self.c("\")))\n");
        self.c("void ");
        self.c(func_to_call.as_str());
        self.c("_post_return(");
        let ghost g1 = self@;

        let mut params: Vec<String> = Vec::new();
        let mut sig_params: Vec<(bool, String)> = Vec::new();
        let mut i: usize = 0;
        while i < sig.results.len()
            invariant
                i <= sig.results@.len(),
                self@ == g1.with_c(render(g1.c, post_params(sig.results@, i as nat))),
                params@.len() == i,
                sig_params@.len() == i,
                forall|j: int| 0 <= j < i ==> (#[trigger] params@[j])@ == "arg"@ + decimal(j as nat),
                forall|j: int|
                    0 <= j < i ==> (#[trigger] sig_params@[j]).0 == false && sig_params@[j].1@
                        == "arg"@ + decimal(j as nat),
            decreases sig.results@.len() - i,
        {
            let num = decimal_string(i);
            let name = concat2("arg", num.as_str());
            self.c(wasm_type(sig.results[i]));
            self.c(" ");
            self.c(name.as_str());
            sig_params.push((false, name.clone()));
            params.push(name);
            i += 1;
        }
        self.c(") {\n");

        let c_sig = CSig {
            name: String::from_str("INVALID"),
            sig: String::from_str("INVALID"),
            params: sig_params,
            ret: Return { return_multiple: false, scalar: None, retptrs: Vec::new() },
            retptrs: Vec::new(),
        };
        assert(c_sig@.params =~= post_sig(sig.results@.len()).params);
        assert(c_sig@.retptrs =~= Seq::<Seq<char>>::empty());
        let mut post = FunctionBindgen::new(c_sig, func_to_call.as_str(), outer);
        post.params = params;
        assert(post@.params =~= post_args(sig.results@.len()));
        post
    }

    /// Ends a function whose instructions `f` took: closes its body, files
    /// its parts under the interface's name, and takes up the buffers that
    /// were set aside when it began.
    pub fn finish_function(&mut self, iface: &Interface, f: FunctionBindgen)
        ensures
            final(self)@ == finished(old(self)@, *iface, f@),
    {
        let FunctionBindgen { src, outer, .. } = f;
        self.c(source_str(&src));
        self.c("}\n");
        let mut outer = outer;
        std::mem::swap(&mut self.src, &mut outer);
        let func = Func {
            h: String::from_str(source_str(&outer.h)),
            c: String::from_str(source_str(&outer.c)),
        };
        self.file(iface.name.as_str(), func);
    }

    /// The ABI flavour of a direction.
    pub fn abi_variant(dir: Direction) -> (r: AbiVariant)
        ensures
            r == variant_of(dir),
    {
        match dir {
            Direction::Export => AbiVariant::GuestExport,
            Direction::Import => AbiVariant::GuestImport,
        }
    }

    /// Notes the direction that is generated for.
    pub fn preprocess_one(&mut self, iface: &Interface, dir: Direction)
        ensures
            final(self)@ == (GenState {
                in_import: variant_of(dir) == AbiVariant::GuestImport,
                direction: dir,
                ..old(self)@
            }),
    {
        let variant = C::abi_variant(dir);
        self.in_import = variant == AbiVariant::GuestImport;
        self.direction = dir;
    }

    /// Prints the scalar that a trampoline returns.
    fn print_wasm_ret(&mut self, results: &Vec<WasmType>)
        requires
            results@.len() <= 1,
        ensures
            final(self)@ == old(self)@.with_c(push(old(self)@.c, wasm_ret(results@))),
    {
        if results.len() == 0 {
            self.c("void");
        } else {
            self.c(wasm_type(results[0]));
        }
    }

    /// Prints the parameter types of a trampoline that is only declared.
    fn print_wasm_params(&mut self, params: &Vec<WasmType>)
        ensures
            final(self)@ == old(self)@.with_c(
                render(old(self)@.c, or_void(wasm_params(params@, params@.len()))),
            ),
    {
        let mut i: usize = 0;
        while i < params.len()
            invariant
                i <= params@.len(),
                self@ == old(self)@.with_c(render(old(self)@.c, wasm_params(params@, i as nat))),
            decreases params@.len() - i,
        {
            if i > 0 {
                self.c(", ");
            }
            self.c(wasm_type(params[i]));
            i += 1;
        }
        if params.len() == 0 {
            self.c("void");
        }
    }

    /// Files the parts of a function under the name of its interface.
    fn file(&mut self, name: &str, func: Func)
        ensures
            final(self)@ == (GenState { funcs: filed(old(self)@.funcs, name@, func@), ..old(self)@ }),
    {
        let ghost funcs = self@.funcs;
        let wanted = String::from_str(name);
        let mut i: usize = 0;
        while i < self.funcs.len()
            invariant
                i <= self.funcs@.len(),
                self@ == old(self)@,
                funcs == self@.funcs,
                wanted@ == name@,
                module_at(funcs, name@, i as nat) is None,
            decreases self.funcs@.len() - i,
        {
            assert(funcs[i as int].name == self.funcs@[i as int].name@);
            if self.funcs[i].name == wanted {
                assert(module_at(funcs, name@, (i + 1) as nat) == Some(i as int));
                proof {
                    lemma_module_at(funcs, name@, (i + 1) as nat, funcs.len());
                }
                let mut module = Module { name: String::new(), funcs: Vec::new() };
                std::mem::swap(&mut self.funcs[i], &mut module);
                module.funcs.push(func);
                std::mem::swap(&mut self.funcs[i], &mut module);
                assert(self@.funcs =~= filed(funcs, name@, func@)) by {
                    assert(self.funcs@[i as int]@.funcs =~= funcs[i as int].funcs.push(func@));
                }
                return ;
            }
            i += 1;
        }
        let mut list: Vec<Func> = Vec::new();
        list.push(func);
        let module = Module { name: String::from_str(name), funcs: list };
        assert(module@.funcs =~= seq![func@]);
        self.funcs.push(module);
        assert(self@.funcs =~= filed(funcs, name@, func@));
    }
}

/// What the implementation buffer holds does not matter to what is noted.
pub(crate) proof fn lemma_noted_all_c(
    g: GenState,
    iface: Interface,
    tys: Seq<Option<crate::ir::Type>>,
    n: nat,
    c: crate::text::Buf,
)
    ensures
        g.with_c(c).noted_all(iface, tys, n) == g.noted_all(iface, tys, n).with_c(c),
    decreases n,
{
    if n > 0 {
        lemma_noted_all_c(g, iface, tys, (n - 1) as nat, c);
    }
}

/// Printing a declaration leaves the implementation buffer, the kept
/// definitions and the filed functions as they are.
pub(crate) proof fn lemma_declared_frame(g: GenState, iface: Interface, func: Function)
    ensures
        g.declared(iface, func).c == g.c,
        g.declared(iface, func).types == g.types,
        g.declared(iface, func).funcs == g.funcs,
        g.declared(iface, func).in_import == g.in_import,
        g.declared(iface, func).area_size == g.area_size,
        g.declared(iface, func).area_align == g.area_align,
        g.declared(iface, func).direction == g.direction,
{
    let shape = iface.classify(func.results@);
    let s0 = g.reserved(iface.symbol(func)).noted_opt(iface, iface.ret_type(shape));
    let t1 = crate::typedef::all_types(crate::emit_iface::param_types(func.params@));
    let t2 = crate::typedef::all_types(shape.retptrs);
    crate::typedef::lemma_noted_all_h(s0, iface, t1, func.params@.len(), s0.h);
    crate::typedef::lemma_noted_all_h(
        s0.noted_all(iface, t1, func.params@.len()),
        iface,
        t2,
        shape.retptrs.len(),
        s0.h,
    );
}

/// What the implementation buffer holds does not matter to the printing of
/// a declaration.
pub(crate) proof fn lemma_declared_c(g: GenState, iface: Interface, func: Function, c: crate::text::Buf)
    ensures
        g.with_c(c).declared(iface, func) == g.declared(iface, func).with_c(c),
{
    let shape = iface.classify(func.results@);
    let s0 = g.reserved(iface.symbol(func)).noted_opt(iface, iface.ret_type(shape));
    let t1 = crate::typedef::all_types(crate::emit_iface::param_types(func.params@));
    let t2 = crate::typedef::all_types(shape.retptrs);
    assert(g.with_c(c).reserved(iface.symbol(func)).noted_opt(iface, iface.ret_type(shape))
        == s0.with_c(c));
    lemma_noted_all_c(s0, iface, t1, func.params@.len(), c);
    lemma_noted_all_c(s0.noted_all(iface, t1, func.params@.len()), iface, t2, shape.retptrs.len(), c);
}

/// Once a name is found reserved, reserving more names fails with it.
pub(crate) proof fn lemma_reserve_err(p: Pool, names: Seq<Seq<char>>, n: nat, m: nat)
    requires
        n <= m,
        reserve_all(p, names, n) is Err,
    ensures
        reserve_all(p, names, m) == reserve_all(p, names, n),
    decreases m,
{
    if n < m {
        lemma_reserve_err(p, names, n, (m - 1) as nat);
    }
}

/// The first `n` named parameters do not depend on the names behind them.
pub(crate) proof fn lemma_named_prefix(
    params: Seq<WasmType>,
    a: Seq<Seq<char>>,
    b: Seq<Seq<char>>,
    n: nat,
)
    requires
        n <= a.len() <= b.len(),
        forall|i: int| 0 <= i < n ==> a[i] == b[i],
    ensures
        named_params(params, a, n) == named_params(params, b, n),
    decreases n,
{
    if n > 0 {
        lemma_named_prefix(params, a, b, (n - 1) as nat);
    }
}

/// A module that is found among the first modules is found among all.
pub(crate) proof fn lemma_module_at(funcs: Seq<ModuleText>, name: Seq<char>, n: nat, m: nat)
    requires
        n <= m,
        module_at(funcs, name, n) is Some,
    ensures
        module_at(funcs, name, m) == module_at(funcs, name, n),
    decreases m,
{
    if n < m {
        lemma_module_at(funcs, name, n, (m - 1) as nat);
    }
}

} // verus!
