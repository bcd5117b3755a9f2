//! Destructors: for every type that owns memory, a function that frees what
//! a value of it holds.
use vstd::prelude::*;
use crate::gen::C;
use crate::ir::Interface;
use crate::ir::Type;
use crate::ir::TypeDefKind;
use crate::text::blank;
use crate::text::concat2;
use crate::text::decimal;
use crate::text::decimal_string;
use crate::text::gather;
use crate::text::group_render;
use crate::text::render;
use crate::text::snake;
use crate::text::snake_case;
use crate::text::source_new;
use crate::text::source_str;

verus! {

broadcast use group_render;

impl Interface {
    /// The address of what slot `k` of definition `id` holds, in a value
    /// that `ptr` points to.
    pub open spec fn slot_expr(self, id: usize, k: int) -> Seq<char> {
        match self.types@[id as int].kind {
            TypeDefKind::Record(fields) => "&ptr->"@ + snake_case(fields@[k].name@),
            TypeDefKind::Tuple(_) => "&ptr->f"@ + decimal(k as nat),
            TypeDefKind::Variant(cases) => "&ptr->val."@ + snake_case(cases@[k].name@),
            TypeDefKind::Union(_) => "&ptr->val.f"@ + decimal(k as nat),
            _ => "ptr"@,
        }
    }

    /// Slot `k` of definition `id` holds a type that owns memory.
    pub open spec fn owning(self, id: usize, k: int) -> bool {
        self.filled(id, k) && self.owns(self.slot(id, k))
    }

    /// The statement that frees member `k`, if it owns memory.
    pub open spec fn member_arm(self, id: usize) -> spec_fn(int) -> Seq<Seq<char>> {
        |k: int|
            if self.owning(id, k) {
                self.free_pieces(self.slot(id, k), self.slot_expr(id, k))
            } else {
                Seq::empty()
            }
    }

    /// The arm of the switch that frees the payload of case `k`, if it owns
    /// memory.
    pub open spec fn case_free_arm(self, id: usize) -> spec_fn(int) -> Seq<Seq<char>> {
        |k: int|
            if self.owning(id, k) {
                (seq!["case "@].push(decimal(k as nat)).push(": {\n"@) + self.free_pieces(
                    self.slot(id, k),
                    self.slot_expr(id, k),
                )).push("break;\n"@).push("}\n"@)
            } else {
                Seq::empty()
            }
    }

    /// The call that frees a payload, if it is there and owns memory.
    pub open spec fn free_opt(self, ty: Option<Type>, expr: Seq<char>) -> Seq<Seq<char>> {
        match ty {
            Some(t) => if self.owns(t) {
                self.free_pieces(t, expr)
            } else {
                Seq::empty()
            },
            None => Seq::empty(),
        }
    }

    /// The branch that frees the error of a result, if it owns memory.
    pub open spec fn free_err(self, ty: Option<Type>) -> Seq<Seq<char>> {
        match ty {
            Some(t) => if self.owns(t) {
                seq!["} else {\n"@] + self.free_pieces(t, "&ptr->val.err"@)
            } else {
                Seq::empty()
            },
            None => Seq::empty(),
        }
    }

    /// The loop that frees the elements of a list, if they own memory.
    pub open spec fn free_elements(self, ty: Type) -> Seq<Seq<char>> {
        if self.owns(ty) {
            (seq!["for (size_t i = 0; i < ptr->len; i++) {\n"@] + self.free_pieces(
                ty,
                "&ptr->ptr[i]"@,
            )).push("}\n"@)
        } else {
            Seq::empty()
        }
    }

    /// The body of the destructor of definition `id`: an alias hands on to
    /// what it stands for; a record or tuple frees each member that owns
    /// memory; a list frees its elements, if they own memory, and then itself
    /// unless it is empty; a variant or union frees the payload at hand; an
    /// option frees its value if it has one; a result frees whichever side it
    /// holds.
    pub open spec fn dtor_body(self, id: usize) -> Seq<Seq<char>> {
        match self.types@[id as int].kind {
            TypeDefKind::Type(t) => self.free_pieces(t, "ptr"@),
            TypeDefKind::Record(fields) => gather(fields@.len(), self.member_arm(id)),
            TypeDefKind::Tuple(types) => gather(types@.len(), self.member_arm(id)),
            TypeDefKind::List(t) => self.free_elements(t).push("if (ptr->len > 0) {\n"@).push(
                "free(ptr->ptr);\n"@,
            ).push("}\n"@),
            TypeDefKind::Variant(cases) => (seq!["switch ((int32_t) ptr->tag) {\n"@] + gather(
                cases@.len(),
                self.case_free_arm(id),
            )).push("}\n"@),
            TypeDefKind::Union(cases) => (seq!["switch ((int32_t) ptr->tag) {\n"@] + gather(
                cases@.len(),
                self.case_free_arm(id),
            )).push("}\n"@),
            TypeDefKind::Option(t) => (seq!["if (ptr->is_some) {\n"@] + self.free_pieces(
                t,
                "&ptr->val"@,
            )).push("}\n"@),
            TypeDefKind::Result { ok, err } => (seq!["if (!ptr->is_err) {\n"@] + self.free_opt(
                ok,
                "&ptr->val.ok"@,
            ) + self.free_err(err)).push("}\n"@),
            _ => Seq::empty(),
        }
    }

    /// The head of the destructor of definition `id`.
    pub open spec fn dtor_decl(self, id: usize) -> Seq<Seq<char>> {
        ((seq!["void "@] + self.ns_pieces() + self.name_pieces(Type::Id(id))).push("_free("@)
            + self.ns_pieces() + self.name_pieces(Type::Id(id))).push("_t *ptr)"@)
    }

    /// What the header holds for the destructor of definition `id`: its
    /// declaration, if the type owns memory, and nothing if it does not.
    pub open spec fn dtor_header(self, id: usize) -> Seq<Seq<char>> {
        if self.owns(Type::Id(id)) {
            self.dtor_decl(id).push(";\n"@)
        } else {
            Seq::empty()
        }
    }

    /// What the implementation holds for the destructor of definition `id`:
    /// its definition, if the type owns memory, and nothing if it does not.
    pub open spec fn dtor_impl(self, id: usize) -> Seq<Seq<char>> {
        if self.owns(Type::Id(id)) {
            (seq![render(blank(), self.dtor_decl(id)).text].push(" {\n"@) + self.dtor_body(
                id,
            )).push("}\n"@)
        } else {
            Seq::empty()
        }
    }
}

impl C {
    /// The address of what slot `k` of definition `id` holds.
    fn slot_expr(iface: &Interface, id: usize, k: usize) -> (r: String)
        requires
            id < iface.types@.len(),
            k < iface.types@[id as int].kind.slots().len(),
        ensures
            r@ == iface.slot_expr(id, k as int),
    {
        match &iface.types[id].kind {
            TypeDefKind::Record(fields) => {
                let n = snake(fields[k].name.as_str());
                concat2("&ptr->", n.as_str())
            },
            TypeDefKind::Tuple(_) => {
                let n = decimal_string(k);
                concat2("&ptr->f", n.as_str())
            },
            TypeDefKind::Variant(cases) => {
                let n = snake(cases[k].name.as_str());
                concat2("&ptr->val.", n.as_str())
            },
            TypeDefKind::Union(_) => {
                let n = decimal_string(k);
                concat2("&ptr->val.f", n.as_str())
            },
            _ => String::from_str("ptr"),
        }
    }

    /// Prints the head of a destructor into the header buffer.
    fn print_dtor_decl(&mut self, iface: &Interface, id: usize)
        requires
            iface.wf(),
            id < iface.types@.len(),
        ensures
            final(self)@ == old(self)@.with_h(render(old(self)@.h, iface.dtor_decl(id))),
    {
        let ty = Type::Id(id);
        self.h("void ");
        self.print_namespace(iface);
        self.print_ty_name(iface, &ty);
        self.h("_free(");
        self.print_namespace(iface);
        self.print_ty_name(iface, &ty);
        self.h("_t *ptr)");
    }

    /// Prints the statements that free the members of a record or tuple, or,
    /// with `switch` set, the arms that free the payloads of a variant or
    /// union.
    #[verifier::rlimit(50)]
    fn free_slots(&mut self, iface: &Interface, id: usize, switch: bool)
        requires
            iface.supported(),
            id < iface.types@.len(),
        ensures
            final(self)@ == old(self)@.with_c(
                render(
                    old(self)@.c,
                    gather(
                        iface.types@[id as int].kind.slots().len(),
                        if switch {
                            iface.case_free_arm(id)
                        } else {
                            iface.member_arm(id)
                        },
                    ),
                ),
            ),
    {
        let kind = &iface.types[id].kind;
        let n = kind.slot_count();
        let ghost arm = if switch {
            iface.case_free_arm(id)
        } else {
            iface.member_arm(id)
        };
        let mut k: usize = 0;
        while k < n
            invariant
                iface.supported(),
                id < iface.types@.len(),
                kind == iface.types@[id as int].kind,
                n == kind.slots().len(),
                k <= n,
                arm == if switch {
                    iface.case_free_arm(id)
                } else {
                    iface.member_arm(id)
                },
                self@ == old(self)@.with_c(render(old(self)@.c, gather(k as nat, arm))),
            decreases n - k,
        {
            let ghost seen = gather(k as nat, arm);
            let mut freed = false;
            if let Some(ty) = kind.slot_type(k) {
                proof {
                    iface.lemma_slot(id, k as int);
                }
                if C::owns_anything(iface, &ty) {
                    freed = true;
                    let expr = C::slot_expr(iface, id, k);
                    if switch {
                        self.c("case ");
                        let num = decimal_string(k);
                        self.c(num.as_str());
                        self.c(": {\n");
                        self.free(iface, &ty, expr.as_str());
                        self.c("break;\n");
                        self.c("}\n");
                        proof {
                            let f = iface.free_pieces(ty, expr@);
                            assert(arm(k as int) == (seq!["case "@].push(decimal(k as nat)).push(
                                ": {\n"@,
                            ) + f).push("break;\n"@).push("}\n"@));
                            assert(seen + arm(k as int) =~= (seen.push("case "@).push(
                                decimal(k as nat),
                            ).push(": {\n"@) + f).push("break;\n"@).push("}\n"@));
                        }
                    } else {
                        self.free(iface, &ty, expr.as_str());
                        proof {
                            assert(arm(k as int) == iface.free_pieces(ty, expr@));
                        }
                    }
                }
            }
            proof {
                if !freed {
                    assert(!iface.owning(id, k as int));
                    assert(arm(k as int) == Seq::<Seq<char>>::empty());
                    assert(seen + arm(k as int) =~= seen);
                }
                assert(gather((k + 1) as nat, arm) == seen + arm(k as int));
            }
            k += 1;
        }
    }

    /// Prints the body of a destructor into the implementation buffer.
    #[verifier::rlimit(50)]
    fn print_dtor_body(&mut self, iface: &Interface, id: usize)
        requires
            iface.supported(),
            id < iface.types@.len(),
            iface.owns(Type::Id(id)),
        ensures
            final(self)@ == old(self)@.with_c(render(old(self)@.c, iface.dtor_body(id))),
    {
        let ghost want = old(self)@.with_c(render(old(self)@.c, iface.dtor_body(id)));
        match &iface.types[id].kind {
            TypeDefKind::Type(t) => {
                proof {
                    iface.lemma_slot(id, 0);
                }
                self.free(iface, t, "ptr");
            },
            TypeDefKind::Flags(_) => {},
            TypeDefKind::Enum(_) => {},
            TypeDefKind::Record(_) => {
                self.free_slots(iface, id, false);
            },
            TypeDefKind::Tuple(_) => {
                self.free_slots(iface, id, false);
            },
            TypeDefKind::List(t) => {
                proof {
                    iface.lemma_slot(id, 0);
                }
                if C::owns_anything(iface, t) {
                    self.c("for (size_t i = 0; i < ptr->len; i++) {\n");
                    self.free(iface, t, "&ptr->ptr[i]");
                    self.c("}\n");
                }
                self.c("if (ptr->len > 0) {\n");
                self.c("free(ptr->ptr);\n");
                self.c("}\n");
                assert(self@ == want);
            },
            TypeDefKind::Variant(_) => {
                self.c("switch ((int32_t) ptr->tag) {\n");
                self.free_slots(iface, id, true);
                self.c("}\n");
            },
            TypeDefKind::Union(_) => {
                self.c("switch ((int32_t) ptr->tag) {\n");
                self.free_slots(iface, id, true);
                self.c("}\n");
            },
            TypeDefKind::Option(t) => {
                proof {
                    iface.lemma_slot(id, 0);
                }
                self.c("if (ptr->is_some) {\n");
                self.free(iface, t, "&ptr->val");
                self.c("}\n");
            },
            TypeDefKind::Result { ok, err } => {
                proof {
                    if ok is Some {
                        iface.lemma_slot(id, 0);
                    }
                    if err is Some {
                        iface.lemma_slot(id, 1);
                    }
                }
                self.c("if (!ptr->is_err) {\n");
                if let Some(ok) = ok {
                    if C::owns_anything(iface, ok) {
                        self.free(iface, ok, "&ptr->val.ok");
                    }
                }
                if let Some(err) = err {
                    if C::owns_anything(iface, err) {
                        self.c("} else {\n");
                        self.free(iface, err, "&ptr->val.err");
                    }
                }
                self.c("}\n");
                assert(self@ == want);
            },
            TypeDefKind::Future(_) => {},
            TypeDefKind::Stream { .. } => {},
        }
    }

    /// Prints the destructor of definition `id`, if the type owns memory:
    /// its declaration into the header and its definition into the
    /// implementation.
    pub fn print_dtor(&mut self, iface: &Interface, id: usize)
        requires
            iface.supported(),
            id < iface.types@.len(),
        ensures
            final(self)@ == old(self)@.with_h(render(old(self)@.h, iface.dtor_header(id))).with_c(
                render(old(self)@.c, iface.dtor_impl(id)),
            ),
    {
        let ty = Type::Id(id);
        if !C::owns_anything(iface, &ty) {
            return ;
        }
        let mut tmp = source_new();
        std::mem::swap(&mut self.src.h, &mut tmp);
        self.print_dtor_decl(iface, id);
        std::mem::swap(&mut self.src.h, &mut tmp);
        let decl = String::from_str(source_str(&tmp));

        self.print_dtor_decl(iface, id);
        self.c(decl.as_str());
        self.h(";\n");
        self.c(" {\n");
        self.print_dtor_body(iface, id);
        self.c("}\n");
    }
}

} // verus!
