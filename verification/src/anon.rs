//! The definitions of anonymous types: tuples, options, results and lists
//! that a type reference spells out.
use vstd::prelude::*;
use crate::gen::C;
use crate::ir::Interface;
use crate::ir::Type;
use crate::ir::TypeDefKind;
use crate::text::gather;
use crate::text::group_render;
use crate::text::render;
use crate::typedef::all_types;
use crate::typedef::element_arm;
use crate::typedef::lemma_noted_all_h;
use crate::typedef::list_members;
use crate::typedef::payload_member;

verus! {

broadcast use group_render;

impl Interface {
    /// Definition `id` is one that the generator can print without a name
    /// of its own: a tuple, an option, a result or a list.
    pub open spec fn structural(self, id: usize) -> bool {
        &&& id < self.types@.len()
        &&& match self.types@[id as int].kind {
            TypeDefKind::Tuple(_) => true,
            TypeDefKind::Option(_) => true,
            TypeDefKind::Result { .. } => true,
            TypeDefKind::List(_) => true,
            _ => false,
        }
    }

    /// The struct that stands for the anonymous type `id`.
    pub open spec fn anon_body(self, id: usize) -> Seq<Seq<char>> {
        match self.types@[id as int].kind {
            TypeDefKind::Tuple(types) => (seq!["typedef "@].push("struct {\n"@) + gather(
                types@.len(),
                element_arm(self, types@),
            )).push("}"@),
            TypeDefKind::Option(t) => (seq!["typedef "@].push("struct {\n"@).push(
                "bool is_some;\n"@,
            ) + payload_member(self, Some(t), " val;\n"@)).push("}"@),
            TypeDefKind::Result { ok, err } => (seq!["typedef "@].push(
                "struct {\n                    bool is_err;\n                    union {\n                "@,
            ) + payload_member(self, ok, " ok;\n"@) + payload_member(self, err, " err;\n"@)).push(
                "} val;\n"@,
            ).push("}"@),
            TypeDefKind::List(t) => (seq!["typedef "@].push("struct {\n"@) + list_members(
                self,
                t,
            )).push("}"@),
            _ => Seq::empty(),
        }
    }

    /// The definition of the anonymous type `id`: its struct under its
    /// synthesised name.
    pub open spec fn anon_pieces(self, id: usize) -> Seq<Seq<char>> {
        (self.anon_body(id).push(" "@) + self.ns_pieces() + self.name_pieces(Type::Id(id))).push(
            "_t;\n"@,
        )
    }

    /// The types that the definition of the anonymous type `id` names.
    pub open spec fn anon_types(self, id: usize) -> Seq<Option<Type>> {
        match self.types@[id as int].kind {
            TypeDefKind::Tuple(types) => all_types(types@),
            TypeDefKind::Option(t) => seq![self.nonempty(Some(t))],
            TypeDefKind::Result { ok, err } => seq![self.nonempty(ok)].push(self.nonempty(err)),
            TypeDefKind::List(t) => seq![Some(t)],
            _ => Seq::empty(),
        }
    }
}

impl C {
    /// Prints the struct that stands for an anonymous type.
    #[verifier::rlimit(50)]
    fn print_anon_body(&mut self, iface: &Interface, ty: usize)
        requires
            iface.wf(),
            iface.structural(ty),
        ensures
            final(self)@ == old(self)@.noted_all(
                *iface,
                iface.anon_types(ty),
                iface.anon_types(ty).len(),
            ).with_h(render(old(self)@.h, iface.anon_body(ty))),
    {
        let ghost g0 = self@;
        let ghost tys = iface.anon_types(ty);
        let ghost want = g0.noted_all(*iface, tys, tys.len()).with_h(
            render(g0.h, iface.anon_body(ty)),
        );
        self.h("typedef ");
        match &iface.types[ty].kind {
            TypeDefKind::Tuple(t) => {
                proof {
                    assert forall|i: int| 0 <= i < t@.len() implies iface.has(#[trigger] t@[i]) by {
                        iface.lemma_slot(ty, i);
                    }
                }
                self.h("struct {\n");
                let ghost g2 = self@;
                self.print_elements(iface, t);
                self.h("}");
                proof {
                    lemma_noted_all_h(g0, *iface, all_types(t@), t@.len(), g2.h);
                    assert(self@ == want);
                }
            },
            TypeDefKind::Option(t) => {
                proof {
                    iface.lemma_slot(ty, 0);
                }
                self.h("struct {\n");
                self.h("bool is_some;\n");
                self.print_payload(iface, Some(*t), " val;\n");
                self.h("}");
                proof {
                    assert(g0.noted_all(*iface, tys, 0) == g0);
                    assert(g0.noted_all(*iface, tys, 1) == g0.noted_opt(*iface, tys[0]));
                    assert(self@ == want);
                }
            },
            TypeDefKind::Result { ok, err } => {
                proof {
                    if ok is Some {
                        iface.lemma_slot(ty, 0);
                    }
                    if err is Some {
                        iface.lemma_slot(ty, 1);
                    }
                }
                self.h(
                    "struct {\n                    bool is_err;\n                    union {\n                ",
                );
                self.print_payload(iface, *ok, " ok;\n");
                self.print_payload(iface, *err, " err;\n");
                self.h("} val;\n");
                self.h("}");
                proof {
                    assert(g0.noted_all(*iface, tys, 0) == g0);
                    assert(g0.noted_all(*iface, tys, 1) == g0.noted_opt(*iface, tys[0]));
                    assert(g0.noted_all(*iface, tys, 2) == g0.noted_all(*iface, tys, 1).noted_opt(
                        *iface,
                        tys[1],
                    ));
                    assert(self@ == want);
                }
            },
            TypeDefKind::List(t) => {
                proof {
                    iface.lemma_slot(ty, 0);
                }
                self.h("struct {\n");
                self.print_ty(iface, t);
                self.h(" *ptr;\n");
                self.h("size_t len;\n");
                self.h("}");
                proof {
                    assert(g0.noted_all(*iface, tys, 0) == g0);
                    assert(g0.noted_all(*iface, tys, 1) == g0.noted_opt(*iface, tys[0]));
                    assert(self@ == want);
                }
            },
            _ => {},
        }
    }

    /// Prints the definition of an anonymous type and keeps it.
    pub fn print_anonymous_type(&mut self, iface: &Interface, ty: usize)
        requires
            iface.wf(),
            iface.structural(ty),
        ensures
            final(self)@ == old(self)@.defined(
                *iface,
                ty,
                iface.anon_pieces(ty),
                iface.anon_types(ty),
            ),
    {
        let ghost g0 = self@;
        let prev = self.open_def(&None);
        let ghost g1 = self@;
        self.print_anon_body(iface, ty);
        self.h(" ");
        self.print_namespace(iface);
        self.print_ty_name(iface, &Type::Id(ty));
        self.h("_t;\n");
        self.close_def(ty, prev);
        proof {
            lemma_noted_all_h(g0, *iface, iface.anon_types(ty), iface.anon_types(ty).len(), g1.h);
        }
    }
}

} // verus!
