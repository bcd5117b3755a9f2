//! The public signature of a function.
use vstd::prelude::*;
use crate::bindgen::CSig;
use crate::bindgen::Error;
use crate::bindgen::SigView;
use crate::emit_iface::has_all;
use crate::emit_iface::param_types;
use crate::gen::GenState;
use crate::gen::C;
use crate::ir::Function;
use crate::ir::Interface;
use crate::ir::Type;
use crate::ret::Return;
use crate::ret::Scalar;
use crate::ret::Shape;
use crate::text::blank;
use crate::text::concat2;
use crate::text::concat3;
use crate::text::decimal;
use crate::text::decimal_string;
use crate::text::gather;
use crate::text::group_render;
use crate::text::push;
use crate::text::render;
use crate::text::snake;
use crate::text::snake_case;
use crate::text::source_new;
use crate::text::source_str;
use crate::text::strs;
use crate::typedef::all_types;
use crate::typedef::lemma_noted_all_h;

verus! {

broadcast use group_render;

/// One piece, or none.
pub open spec fn maybe(cond: bool, piece: Seq<char>) -> Seq<Seq<char>> {
    if cond {
        seq![piece]
    } else {
        Seq::empty()
    }
}

impl Interface {
    /// The types of the parameters and results of a function resolve.
    pub open spec fn has_func(self, func: Function) -> bool {
        has_all(self, param_types(func.params@)) && has_all(self, func.results@)
    }

    /// The name under which a function is declared.
    pub open spec fn symbol(self, func: Function) -> Seq<char> {
        snake_case(self.name@) + "_"@ + snake_case(func.name@)
    }

    /// The type that a function of the given shape returns by value, where
    /// the header names one for it.
    pub open spec fn ret_type(self, shape: Shape) -> Option<Type> {
        match shape.scalar {
            Some(Scalar::ResultEnum { err, .. }) => Some(Type::Id(err)),
            Some(Scalar::Type(t)) => Some(t),
            _ => None,
        }
    }

    /// The return type of a function of the given shape, as the header
    /// writes it.
    pub open spec fn ret_pieces(self, shape: Shape) -> Seq<Seq<char>> {
        match shape.scalar {
            Some(Scalar::OptionBool(_)) => seq!["bool"@],
            Some(Scalar::ResultEnum { err, .. }) => self.ty_pieces(Type::Id(err)),
            Some(Scalar::Type(t)) => self.ty_pieces(t),
            _ => seq!["void"@],
        }
    }

    /// Parameter `i` as the header writes it: its type, a `*` exactly where
    /// it is passed by pointer, and its name.
    pub open spec fn param_arm(self, params: Seq<(String, Type)>) -> spec_fn(int) -> Seq<Seq<char>> {
        |i: int|
            ((maybe(i > 0, ", "@) + self.ty_pieces(params[i].1)).push(" "@) + maybe(
                self.by_pointer(params[i].1),
                "*"@,
            )).push(snake_case(params[i].0@))
    }

    /// The pointer parameter for result `i` as the header writes it.
    pub open spec fn retptr_arm(self, tys: Seq<Type>, first: bool) -> spec_fn(int) -> Seq<Seq<char>> {
        |i: int|
            (maybe(i > 0 || !first, ", "@) + self.ty_pieces(tys[i])).push(" *"@).push(
                "ret"@ + decimal(i as nat),
            )
    }

    /// The declaration of a function, without what ends it: return type,
    /// name, parameters and pointer parameters for the results, with `void`
    /// in place of an empty list.
    pub open spec fn sig_pieces(self, func: Function) -> Seq<Seq<char>> {
        let shape = self.classify(func.results@);
        (self.ret_pieces(shape).push(" "@).push(self.symbol(func)).push("("@) + gather(
            func.params@.len(),
            self.param_arm(func.params@),
        ) + gather(shape.retptrs.len(), self.retptr_arm(shape.retptrs, func.params@.len() == 0))
            + maybe(func.params@.len() == 0 && shape.retptrs.len() == 0, "void"@)).push(")"@)
    }

    /// The signature of a function.
    pub open spec fn sig_of(self, func: Function) -> SigView {
        let shape = self.classify(func.results@);
        SigView {
            name: self.symbol(func),
            sig: render(blank(), self.sig_pieces(func)).text,
            params: Seq::new(
                func.params@.len(),
                |i: int| (self.by_pointer(func.params@[i].1), snake_case(func.params@[i].0@)),
            ),
            ret: shape,
            retptrs: Seq::new(shape.retptrs.len(), |i: int| "ret"@ + decimal(i as nat)),
        }
    }
}

impl GenState {
    /// The state after the types that the signature of `func` names were
    /// noted: the type that is returned by value, the types of the
    /// parameters, and the types that go through pointers.
    pub open spec fn noted_sig(self, iface: Interface, func: Function) -> GenState {
        let shape = iface.classify(func.results@);
        self.noted_opt(iface, iface.ret_type(shape)).noted_all(
            iface,
            all_types(param_types(func.params@)),
            func.params@.len(),
        ).noted_all(iface, all_types(shape.retptrs), shape.retptrs.len())
    }

    /// The state after the signature of `func` was printed into the header
    /// buffer: the function's name is reserved, the types that the signature
    /// names are noted, and the buffer holds the declaration behind what it
    /// held.
    pub open spec fn declared(self, iface: Interface, func: Function) -> GenState {
        self.reserved(iface.symbol(func)).noted_sig(iface, func).with_h(
            push(render(self.h, iface.sig_pieces(func)), ";\n"@),
        )
    }
}

/// Noting types that are noted already changes nothing.
pub(crate) proof fn lemma_noted_absorbed(g: GenState, iface: Interface, tys: Seq<Option<Type>>, n: nat)
    requires
        n <= tys.len(),
        forall|k: int, x: usize|
            0 <= k < n && #[trigger] iface.names_anon(tys[k], x) ==> g.public.contains(x)
                && !g.private.contains(x),
        forall|k: int| 0 <= k < n && iface.names_string(#[trigger] tys[k]) ==> g.needs_string,
    ensures
        g.noted_all(iface, tys, n) == g,
{
    crate::drain::lemma_noted_all_sets(g, iface, tys, n);
    lemma_noted_all_h(g, iface, tys, n, g.h);
    let r = g.noted_all(iface, tys, n);
    assert(r.public =~= g.public);
    assert(r.private =~= g.private);
}

/// What the header buffer holds does not matter to the noting of the types
/// of a signature, which changes nothing but the sets of anonymous types and
/// the need for the string type; and noting them once more changes nothing.
pub(crate) proof fn lemma_noted_sig(g: GenState, iface: Interface, func: Function, h: crate::text::Buf)
    ensures
        g.with_h(h).noted_sig(iface, func) == g.noted_sig(iface, func).with_h(h),
        g.noted_sig(iface, func).noted_sig(iface, func) == g.noted_sig(iface, func),
        g.noted_sig(iface, func) == (GenState {
            public: g.noted_sig(iface, func).public,
            private: g.noted_sig(iface, func).private,
            needs_string: g.noted_sig(iface, func).needs_string,
            ..g
        }),
{
    let shape = iface.classify(func.results@);
    let t0 = seq![iface.ret_type(shape)];
    let t1 = all_types(param_types(func.params@));
    let t2 = all_types(shape.retptrs);
    let n1 = func.params@.len();
    let n2 = shape.retptrs.len();
    let s0 = g.noted_opt(iface, iface.ret_type(shape));
    let s1 = s0.noted_all(iface, t1, n1);
    let s2 = s1.noted_all(iface, t2, n2);
    assert(g.noted_all(iface, t0, 0) == g);
    assert(g.noted_all(iface, t0, 1) == s0);
    // The buffer does not matter.
    lemma_noted_all_h(s0, iface, t1, n1, h);
    lemma_noted_all_h(s1, iface, t2, n2, h);
    lemma_noted_all_h(g, iface, t0, 1, h);
    assert(g.with_h(h).noted_all(iface, t0, 0) == g.with_h(h));
    assert(g.with_h(h).noted_opt(iface, iface.ret_type(shape)) == s0.with_h(h));
    // What was noted once is public, not private, and needed.
    crate::drain::lemma_noted_all_sets(g, iface, t0, 1);
    crate::drain::lemma_noted_all_sets(s0, iface, t1, n1);
    crate::drain::lemma_noted_all_sets(s1, iface, t2, n2);
    lemma_noted_absorbed(s2, iface, t0, 1);
    assert(s2.noted_all(iface, t0, 0) == s2);
    assert(s2.noted_opt(iface, iface.ret_type(shape)) == s2);
    lemma_noted_absorbed(s2, iface, t1, n1);
    lemma_noted_absorbed(s2, iface, t2, n2);
}

/// The classification of a function's results names only types that
/// resolve.
pub(crate) proof fn lemma_single_known(iface: Interface, shape: Shape, ty: Type, orig: Type)
    requires
        iface.supported(),
        iface.has(ty),
        iface.has(orig),
        has_all(iface, shape.retptrs),
        iface.has_opt(iface.ret_type(shape)),
    ensures
        has_all(iface, iface.single(shape, ty, orig).retptrs),
        iface.has_opt(iface.ret_type(iface.single(shape, ty, orig))),
    decreases iface.height(ty),
{
    match ty {
        Type::Id(i) => {
            match iface.types@[i as int].kind {
                crate::ir::TypeDefKind::Type(t) => {
                    iface.lemma_slot(i, 0);
                    lemma_single_known(iface, shape, t, orig);
                },
                crate::ir::TypeDefKind::Option(t) => {
                    iface.lemma_slot(i, 0);
                },
                crate::ir::TypeDefKind::Result { ok, err } => {
                    if ok is Some {
                        iface.lemma_slot(i, 0);
                    }
                    if err is Some {
                        iface.lemma_slot(i, 1);
                    }
                },
                _ => {},
            }
        },
        _ => {},
    }
}

impl Interface {
    /// Whether the types of the parameters and results of a function
    /// resolve.
    pub fn has_function(&self, func: &Function) -> (r: bool)
        ensures
            r == self.has_func(*func),
    {
        crate::emit_iface::params_known(self, &func.params) && crate::emit_iface::all_known(
            self,
            &func.results,
        )
    }
}

impl C {
    /// Prints the declaration of `func` into the header buffer and gives
    /// the function's signature. It fails where the function's name is
    /// reserved already.
    #[verifier::rlimit(50)]
    pub fn print_sig(&mut self, iface: &Interface, func: &Function) -> (r: Result<CSig, Error>)
        requires
            iface.supported(),
            iface.has_func(*func),
        ensures
            match r {
                Ok(sig) => !old(self)@.names.defined.contains(iface.symbol(*func)) && final(self)@
                    == old(self)@.declared(*iface, *func) && sig@ == iface.sig_of(*func),
                Err(e) => old(self)@.names.defined.contains(iface.symbol(*func)) && final(self)@
                    == old(self)@ && (e matches Error::Duplicate(s) && s@ == iface.symbol(*func)),
            },
    {
        let a = snake(iface.name.as_str());
        let b = snake(func.name.as_str());
        let name = concat3(a.as_str(), "_", b.as_str());
        match crate::pool::ns_insert(&mut self.names, name.as_str()) {
            Ok(_) => {},
            Err(_) => {
                assert(self@.names.defined =~= old(self)@.names.defined);
                return Err(Error::Duplicate(name));
            },
        }
        let ghost g0 = self@;
        let ret = C::classify_ret(iface, func);

        // The text of the signature is what an empty buffer makes of it.
        let mut tmp = source_new();
        std::mem::swap(&mut self.src.h, &mut tmp);
        let (params, retptrs) = self.print_decl(iface, func, name.as_str(), &ret);
        std::mem::swap(&mut self.src.h, &mut tmp);
        let sig = String::from_str(source_str(&tmp));
        proof {
            lemma_noted_sig(g0, *iface, *func, blank());
            lemma_noted_sig(g0, *iface, *func, g0.h);
            assert(self@ == g0.noted_sig(*iface, *func));
        }

        let _ = self.print_decl(iface, func, name.as_str(), &ret);
        self.h(";\n");
        let csig = CSig { sig, name, params, ret, retptrs };
        proof {
            let want = iface.sig_of(*func);
            assert(csig@.params =~= want.params);
        }
        Ok(csig)
    }

    /// Prints the declaration of `func`, without what ends it, and gives,
    /// for each parameter, whether it is passed by pointer, and its name, and
    /// the names of the pointer parameters.
    fn print_decl(&mut self, iface: &Interface, func: &Function, name: &str, ret: &Return) -> (r: (
        Vec<(bool, String)>,
        Vec<String>,
    ))
        requires
            iface.supported(),
            iface.has_func(*func),
            name@ == iface.symbol(*func),
            ret@ == iface.classify(func.results@),
        ensures
            final(self)@ == old(self)@.noted_sig(*iface, *func).with_h(
                render(old(self)@.h, iface.sig_pieces(*func)),
            ),
            r.0@.len() == func.params@.len(),
            forall|i: int|
                0 <= i < r.0@.len() ==> (#[trigger] r.0@[i]).0 == iface.by_pointer(
                    func.params@[i].1,
                ) && r.0@[i].1@ == snake_case(func.params@[i].0@),
            strs(r.1@) == Seq::new(ret@.retptrs.len(), |i: int| "ret"@ + decimal(i as nat)),
    {
        let ghost g0 = self@;
        let ghost shape = ret@;
        proof {
            if func.results@.len() == 1 {
                lemma_single_known(*iface, Shape::undecided(), func.results@[0], func.results@[0]);
            }
            assert(has_all(*iface, shape.retptrs));
            assert(iface.has_opt(iface.ret_type(shape)));
        }
        match &ret.scalar {
            None => self.h("void"),
            Some(Scalar::Void) => self.h("void"),
            Some(Scalar::OptionBool(_)) => self.h("bool"),
            Some(Scalar::ResultEnum { err, .. }) => self.print_ty(iface, &Type::Id(*err)),
            Some(Scalar::Type(ty)) => self.print_ty(iface, ty),
        }
        self.h(" ");
        self.h(name);
        self.h("(");
        let ghost g1 = self@;
        assert(g1 == g0.noted_opt(*iface, iface.ret_type(shape)).with_h(
            render(g0.h, iface.ret_pieces(shape).push(" "@).push(name@).push("("@)),
        ));
        let params = self.print_params(iface, func);
        let ghost g2 = self@;
        let retptrs = self.print_retptrs(iface, &ret.retptrs, func.params.len() == 0);
        if func.params.len() == 0 && ret.retptrs.len() == 0 {
            self.h("void");
        }
        self.h(")");
        proof {
            let tys1 = all_types(param_types(func.params@));
            let tys2 = all_types(shape.retptrs);
            let n1 = func.params@.len();
            let n2 = shape.retptrs.len();
            let s0 = g0.noted_opt(*iface, iface.ret_type(shape));
            lemma_noted_all_h(s0, *iface, tys1, n1, g1.h);
            lemma_noted_all_h(s0.noted_all(*iface, tys1, n1), *iface, tys2, n2, g2.h);
        }
        (params, retptrs)
    }

    /// Prints parameter `i` of `func` and gives whether it is passed by
    /// pointer, and its name.
    fn print_param(&mut self, iface: &Interface, func: &Function, i: usize) -> (param: (
        bool,
        String,
    ))
        requires
            iface.supported(),
            i < func.params@.len(),
            iface.has(func.params@[i as int].1),
        ensures
            final(self)@ == old(self)@.noted(*iface, func.params@[i as int].1).with_h(
                render(old(self)@.h, iface.param_arm(func.params@)(i as int)),
            ),
            param.0 == iface.by_pointer(func.params@[i as int].1),
            param.1@ == snake_case(func.params@[i as int].0@),
    {
        let ty = &func.params[i].1;
        if i > 0 {
            self.h(", ");
        }
        self.print_ty(iface, ty);
        self.h(" ");
        let pointer = C::is_arg_by_pointer(iface, ty);
        if pointer {
            self.h("*");
        }
        let name = snake(func.params[i].0.as_str());
        self.h(name.as_str());
        proof {
            let sep = maybe(i > 0, ", "@);
            let star = maybe(pointer, "*"@);
            let t = iface.ty_pieces(*ty);
            let b = old(self)@.h;
            assert(iface.param_arm(func.params@)(i as int) == ((sep + t).push(" "@) + star).push(
                name@,
            ));
            assert(render(b, Seq::<Seq<char>>::empty() + sep) == render(b, sep));
        }
        (pointer, name)
    }

    /// Prints the parameters of `func` and gives, for each, whether it is
    /// passed by pointer, and its name.
    fn print_params(&mut self, iface: &Interface, func: &Function) -> (params: Vec<(bool, String)>)
        requires
            iface.supported(),
            has_all(*iface, param_types(func.params@)),
        ensures
            final(self)@ == old(self)@.noted_all(
                *iface,
                all_types(param_types(func.params@)),
                func.params@.len(),
            ).with_h(
                render(old(self)@.h, gather(func.params@.len(), iface.param_arm(func.params@))),
            ),
            params@.len() == func.params@.len(),
            forall|i: int|
                0 <= i < params@.len() ==> (#[trigger] params@[i]).0 == iface.by_pointer(
                    func.params@[i].1,
                ) && params@[i].1@ == snake_case(func.params@[i].0@),
    {
        let ghost arm = iface.param_arm(func.params@);
        let ghost tys = all_types(param_types(func.params@));
        let mut params: Vec<(bool, String)> = Vec::new();
        let mut i: usize = 0;
        while i < func.params.len()
            invariant
                iface.supported(),
                has_all(*iface, param_types(func.params@)),
                i <= func.params@.len(),
                arm == iface.param_arm(func.params@),
                tys == all_types(param_types(func.params@)),
                self@ == old(self)@.noted_all(*iface, tys, i as nat).with_h(
                    render(old(self)@.h, gather(i as nat, arm)),
                ),
                params@.len() == i,
                forall|j: int|
                    0 <= j < i ==> (#[trigger] params@[j]).0 == iface.by_pointer(func.params@[j].1)
                        && params@[j].1@ == snake_case(func.params@[j].0@),
            decreases func.params@.len() - i,
        {
            assert(iface.has(param_types(func.params@)[i as int]));
            assert(tys[i as int] == Some(func.params@[i as int].1));
            assert(gather((i + 1) as nat, arm) == gather(i as nat, arm) + arm(i as int));
            let param = self.print_param(iface, func, i);
            params.push(param);
            i += 1;
        }
        params
    }

    /// Prints the pointer parameter for result `i` and gives its name.
    fn print_retptr(&mut self, iface: &Interface, tys: &Vec<Type>, first: bool, i: usize) -> (name:
        String)
        requires
            iface.wf(),
            i < tys@.len(),
            iface.has(tys@[i as int]),
        ensures
            final(self)@ == old(self)@.noted(*iface, tys@[i as int]).with_h(
                render(old(self)@.h, iface.retptr_arm(tys@, first)(i as int)),
            ),
            name@ == "ret"@ + decimal(i as nat),
    {
        if i > 0 || !first {
            self.h(", ");
        }
        self.print_ty(iface, &tys[i]);
        self.h(" *");
        let num = decimal_string(i);
        let name = concat2("ret", num.as_str());
        self.h(name.as_str());
        proof {
            let sep = maybe(i > 0 || !first, ", "@);
            let t = iface.ty_pieces(tys@[i as int]);
            let b = old(self)@.h;
            assert(iface.retptr_arm(tys@, first)(i as int) == (sep + t).push(" *"@).push(
                "ret"@ + decimal(i as nat),
            ));
            assert(render(b, Seq::<Seq<char>>::empty() + sep) == render(b, sep));
        }
        name
    }

    /// Prints a pointer parameter for each of `tys` and gives their names.
    /// `first` says that no parameter precedes them.
    fn print_retptrs(&mut self, iface: &Interface, tys: &Vec<Type>, first: bool) -> (names: Vec<
        String,
    >)
        requires
            iface.wf(),
            has_all(*iface, tys@),
        ensures
            final(self)@ == old(self)@.noted_all(*iface, all_types(tys@), tys@.len()).with_h(
                render(old(self)@.h, gather(tys@.len(), iface.retptr_arm(tys@, first))),
            ),
            strs(names@) == Seq::new(tys@.len(), |i: int| "ret"@ + decimal(i as nat)),
    {
        let ghost arm = iface.retptr_arm(tys@, first);
        let mut names: Vec<String> = Vec::new();
        let mut i: usize = 0;
        while i < tys.len()
            invariant
                iface.wf(),
                has_all(*iface, tys@),
                i <= tys@.len(),
                arm == iface.retptr_arm(tys@, first),
                self@ == old(self)@.noted_all(*iface, all_types(tys@), i as nat).with_h(
                    render(old(self)@.h, gather(i as nat, arm)),
                ),
                names@.len() == i,
                forall|j: int| 0 <= j < i ==> (#[trigger] names@[j])@ == "ret"@ + decimal(j as nat),
            decreases tys@.len() - i,
        {
            assert(gather((i + 1) as nat, arm) == gather(i as nat, arm) + arm(i as int));
            let name = self.print_retptr(iface, tys, first, i);
            names.push(name);
            i += 1;
        }
        assert(strs(names@) =~= Seq::new(tys@.len(), |i: int| "ret"@ + decimal(i as nat)));
        names
    }
}

} // verus!
