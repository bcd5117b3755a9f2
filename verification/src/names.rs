//! The names of types: how a type is written in C, and the name that is
//! synthesised for an anonymous type.
use vstd::prelude::*;
use std::collections::BTreeSet;
use vstd::std_specs::iter::IteratorSpec;
use crate::gen::GenState;
use crate::gen::C;
use crate::ir::Interface;
use crate::ir::Type;
use crate::ir::TypeDefKind;
use crate::text::blank;
use crate::text::decimal;
use crate::text::decimal_string;
use crate::text::gather;
use crate::text::group_render;
use crate::text::lines;
use crate::text::lines_of;
use crate::text::push;
use crate::text::render;
use crate::text::snake;
use crate::text::snake_case;
use crate::text::source_new;
use crate::text::source_str;
use crate::text::strs;
use crate::text::trim;
use crate::text::trimmed;
use crate::text::Buf;

verus! {

broadcast use group_render;

/// The short name of a primitive type, as it stands in a synthesised name.
pub open spec fn short_name(ty: Type) -> Seq<char> {
    match ty {
        Type::Bool => "bool"@,
        Type::Char => "char32"@,
        Type::U8 => "u8"@,
        Type::S8 => "s8"@,
        Type::U16 => "u16"@,
        Type::S16 => "s16"@,
        Type::U32 => "u32"@,
        Type::S32 => "s32"@,
        Type::U64 => "u64"@,
        Type::S64 => "s64"@,
        Type::Float32 => "f32"@,
        Type::Float64 => "f64"@,
        _ => "string"@,
    }
}

/// The C type of a primitive type other than the string.
pub open spec fn c_name(ty: Type) -> Seq<char> {
    match ty {
        Type::Bool => "bool"@,
        Type::Char => "uint32_t"@,
        Type::U8 => "uint8_t"@,
        Type::S8 => "int8_t"@,
        Type::U16 => "uint16_t"@,
        Type::S16 => "int16_t"@,
        Type::U32 => "uint32_t"@,
        Type::S32 => "int32_t"@,
        Type::U64 => "uint64_t"@,
        Type::S64 => "int64_t"@,
        Type::Float32 => "float"@,
        _ => "double"@,
    }
}

/// The comment lines that stand above a definition: each line of the
/// trimmed documentation behind `// `.
pub open spec fn docs_pieces(docs: Option<String>) -> Seq<Seq<char>> {
    match docs {
        Some(d) => gather(lines_of(trimmed(d@)).len(), doc_line(lines_of(trimmed(d@)))),
        None => Seq::empty(),
    }
}

/// The pieces of one comment line.
pub open spec fn doc_line(lines: Seq<Seq<char>>) -> spec_fn(int) -> Seq<Seq<char>> {
    |k: int| seq!["// "@].push(lines[k]).push("\n"@)
}

impl GenState {
    /// The state with another header buffer.
    pub open spec fn with_h(self, h: Buf) -> GenState {
        GenState { h, ..self }
    }

    /// The state with another implementation buffer.
    pub open spec fn with_c(self, c: Buf) -> GenState {
        GenState { c, ..self }
    }

    /// The state after a reference to `ty` was printed into the header: a
    /// string is needed if `ty` is one, and an anonymous type becomes public.
    pub open spec fn noted(self, iface: Interface, ty: Type) -> GenState {
        match iface.target(ty) {
            Type::String => GenState { needs_string: true, ..self },
            Type::Id(i) => if iface.types@[i as int].name is None {
                GenState { public: self.public.insert(i), private: self.private.remove(i), ..self }
            } else {
                self
            },
            _ => self,
        }
    }

    /// The state after a reference to `ty` was printed for a function body:
    /// a string is needed if `ty` is one, and an anonymous type that is not
    /// public becomes private.
    pub open spec fn noted_private(self, iface: Interface, ty: Type) -> GenState {
        match iface.target(ty) {
            Type::String => GenState { needs_string: true, ..self },
            Type::Id(i) => if iface.types@[i as int].name is None && !self.public.contains(i) {
                GenState { private: self.private.insert(i), ..self }
            } else {
                self
            },
            _ => self,
        }
    }
}

impl Interface {
    /// The prefix of every name that the generator declares.
    pub open spec fn ns_pieces(self) -> Seq<Seq<char>> {
        seq![snake_case(self.name@)].push("_"@)
    }

    /// The type that a reference stands for once anonymous aliases are
    /// followed.
    pub open spec fn target(self, ty: Type) -> Type
        decreases self.height(ty),
        when self.wf() && self.has(ty)
    {
        match ty {
            Type::Id(i) => match (self.types@[i as int].name, self.types@[i as int].kind) {
                (None, TypeDefKind::Type(t)) => {
                    proof {
                        self.lemma_slot(i, 0);
                    }
                    self.target(t)
                },
                _ => ty,
            },
            _ => ty,
        }
    }

    /// The name of a type that may be absent: `void` where it is.
    pub open spec fn opt_name_pieces(self, ty: Option<Type>) -> Seq<Seq<char>>
        decreases
            (match ty {
                Some(t) => self.height(t) + 1,
                None => 0,
            }),
            0nat,
        when self.wf() && self.has_opt(ty)
    {
        match ty {
            Some(t) => self.name_pieces(t),
            None => seq!["void"@],
        }
    }

    /// The name of a type without prefix and suffix: a primitive's short name,
    /// a named type's name in snake case, and for an anonymous type a name
    /// made of its structure.
    pub open spec fn name_pieces(self, ty: Type) -> Seq<Seq<char>>
        decreases self.height(ty), 1 + self.slot_len(ty),
        when self.wf() && self.has(ty)
    {
        match ty {
            Type::Id(i) => match self.types@[i as int].name {
                Some(name) => seq![snake_case(name@)],
                None => match self.types@[i as int].kind {
                    TypeDefKind::Type(t) => {
                        proof {
                            self.lemma_slot(i, 0);
                        }
                        self.name_pieces(t)
                    },
                    TypeDefKind::Tuple(types) => seq!["tuple"@].push(decimal(types@.len()))
                        + self.element_names(i, types@.len()),
                    TypeDefKind::Option(t) => {
                        proof {
                            self.lemma_slot(i, 0);
                        }
                        seq!["option_"@] + self.name_pieces(t)
                    },
                    TypeDefKind::Result { ok, err } => {
                        proof {
                            if ok is Some {
                                self.lemma_slot(i, 0);
                            }
                            if err is Some {
                                self.lemma_slot(i, 1);
                            }
                        }
                        (seq!["result_"@] + self.opt_name_pieces(ok)).push("_"@)
                            + self.opt_name_pieces(err)
                    },
                    TypeDefKind::List(t) => {
                        proof {
                            self.lemma_slot(i, 0);
                        }
                        seq!["list_"@] + self.name_pieces(t)
                    },
                    TypeDefKind::Future(t) => {
                        proof {
                            if t is Some {
                                self.lemma_slot(i, 0);
                            }
                        }
                        seq!["future_"@] + self.opt_name_pieces(t)
                    },
                    TypeDefKind::Stream { element, end } => {
                        proof {
                            if element is Some {
                                self.lemma_slot(i, 0);
                            }
                            if end is Some {
                                self.lemma_slot(i, 1);
                            }
                        }
                        (seq!["stream_"@] + self.opt_name_pieces(element)).push("_"@)
                            + self.opt_name_pieces(end)
                    },
                    _ => Seq::empty(),
                },
            },
            _ => seq![short_name(ty)],
        }
    }

    /// The names of the first `n` elements of the tuple that definition `i`
    /// is, each behind `_`.
    pub open spec fn element_names(self, i: usize, n: nat) -> Seq<Seq<char>>
        decreases self.height(Type::Id(i)), n,
        when self.wf() && i < self.types@.len() && self.types@[i as int].kind is Tuple && n
            <= self.types@[i as int].kind.slots().len()
    {
        if n == 0 {
            Seq::empty()
        } else {
            proof {
                self.lemma_slot(i, n - 1);
            }
            self.element_names(i, (n - 1) as nat).push("_"@) + self.name_pieces(
                self.slot(i, n - 1),
            )
        }
    }

    /// The number of slots of the definition that a reference names; 0 for a
    /// primitive.
    pub open spec fn slot_len(self, ty: Type) -> nat {
        match ty {
            Type::Id(i) => self.types@[i as int].kind.slots().len(),
            _ => 0,
        }
    }

    /// A type as it is written in C: the C type of a primitive, and for the
    /// string and every defined type its name between the prefix and `_t`.
    pub open spec fn ty_pieces(self, ty: Type) -> Seq<Seq<char>> {
        match self.target(ty) {
            Type::String => self.ns_pieces().push("string_t"@),
            Type::Id(i) => match self.types@[i as int].name {
                Some(name) => self.ns_pieces().push(snake_case(name@)).push("_t"@),
                None => (self.ns_pieces() + self.name_pieces(Type::Id(i))).push("_t"@),
            },
            t => seq![c_name(t)],
        }
    }

    /// A type as it is written in C, as one text.
    pub open spec fn ty_text(self, ty: Type) -> Seq<char> {
        render(blank(), self.ty_pieces(ty)).text
    }

    /// The prefixed name of a type, as one text.
    pub open spec fn name_text(self, ty: Type) -> Seq<char> {
        render(blank(), self.ns_pieces() + self.name_pieces(ty)).text
    }

    /// The call that frees what `expr` points to, a value of type `ty`.
    pub open spec fn free_pieces(self, ty: Type, expr: Seq<char>) -> Seq<Seq<char>> {
        seq![self.name_text(ty)].push("_free("@).push(expr).push(");\n"@)
    }
}

/// The elements of a set of indices, each once.
pub(crate) fn ids_of(s: &BTreeSet<usize>) -> (v: Vec<usize>)
    ensures
        v@.to_set() == s@,
        v@.no_duplicates(),
{
    broadcast use vstd::std_specs::btree::group_btree_axioms;

    let mut v: Vec<usize> = Vec::new();
    let ghost all = s.iter().remaining();
    for x in iter: s.iter()
        invariant
            v.len() == iter.index(),
            forall|i: int| 0 <= i < v.len() ==> v@[i] == *iter.seq()[i],
            iter.seq() == all,
            all.unref().to_set() == s@,
            all.no_duplicates(),
    {
        v.push(*x);
    }
    assert(v@ =~= all.unref());
    v
}

fn short_str(ty: &Type) -> (r: &'static str)
    ensures
        r@ == short_name(*ty),
{
    match ty {
        Type::Bool => "bool",
        Type::Char => "char32",
        Type::U8 => "u8",
        Type::S8 => "s8",
        Type::U16 => "u16",
        Type::S16 => "s16",
        Type::U32 => "u32",
        Type::S32 => "s32",
        Type::U64 => "u64",
        Type::S64 => "s64",
        Type::Float32 => "f32",
        Type::Float64 => "f64",
        _ => "string",
    }
}

fn c_str(ty: &Type) -> (r: &'static str)
    ensures
        r@ == c_name(*ty),
{
    match ty {
        Type::Bool => "bool",
        Type::Char => "uint32_t",
        Type::U8 => "uint8_t",
        Type::S8 => "int8_t",
        Type::U16 => "uint16_t",
        Type::S16 => "int16_t",
        Type::U32 => "uint32_t",
        Type::S32 => "int32_t",
        Type::U64 => "uint64_t",
        Type::S64 => "int64_t",
        Type::Float32 => "float",
        _ => "double",
    }
}

impl C {
    /// Pushes a piece into the header buffer.
    pub fn h(&mut self, s: &str)
        ensures
            final(self)@ == old(self)@.with_h(push(old(self)@.h, s@)),
    {
        self.src.h(s);
    }

    /// Pushes a piece into the implementation buffer.
    pub fn c(&mut self, s: &str)
        ensures
            final(self)@ == old(self)@.with_c(push(old(self)@.c, s@)),
    {
        self.src.c(s);
    }

    /// Prints the prefix of every declared name into the header buffer.
    pub fn print_namespace(&mut self, iface: &Interface)
        ensures
            final(self)@ == old(self)@.with_h(render(old(self)@.h, iface.ns_pieces())),
    {
        let ns = snake(iface.name.as_str());
        self.h(ns.as_str());
        self.h("_");
    }

    /// Prints the name of a type, without prefix and suffix, into the header
    /// buffer.
    pub fn print_ty_name(&mut self, iface: &Interface, ty: &Type)
        requires
            iface.wf(),
            iface.has(*ty),
        ensures
            final(self)@ == old(self)@.with_h(render(old(self)@.h, iface.name_pieces(*ty))),
        decreases iface.height(*ty), 1 + iface.slot_len(*ty),
    {
        match ty {
            Type::Id(id) => {
                let def = &iface.types[*id];
                if let Some(name) = &def.name {
                    let n = snake(name.as_str());
                    self.h(n.as_str());
                    return ;
                }
                match &def.kind {
                    TypeDefKind::Type(t) => {
                        proof {
                            iface.lemma_slot(*id, 0);
                        }
                        self.print_ty_name(iface, t)
                    },
                    TypeDefKind::Record(_)
                    | TypeDefKind::Flags(_)
                    | TypeDefKind::Enum(_)
                    | TypeDefKind::Variant(_)
                    | TypeDefKind::Union(_) => {
                        proof {
                            assert(iface.types@[*id as int].kind.needs_name());
                        }
                    },
                    TypeDefKind::Tuple(types) => {
                        self.h("tuple");
                        let count = decimal_string(types.len());
                        self.h(count.as_str());
                        let ghost head = seq!["tuple"@].push(decimal(types@.len()));
                        assert(iface.element_names(*id, 0) == Seq::<Seq<char>>::empty());
                        assert(head + Seq::<Seq<char>>::empty() =~= head);
                        let mut k: usize = 0;
                        while k < types.len()
                            invariant
                                iface.wf(),
                                head == seq!["tuple"@].push(decimal(types@.len())),
                                *ty == Type::Id(*id),
                                *id < iface.types@.len(),
                                iface.types@[*id as int].kind == TypeDefKind::Tuple(*types),
                                k <= types@.len(),
                                self@ == old(self)@.with_h(
                                    render(
                                        old(self)@.h,
                                        seq!["tuple"@].push(decimal(types@.len())) + iface.element_names(
                                            *id,
                                            k as nat,
                                        ),
                                    ),
                                ),
                            decreases types@.len() - k,
                        {
                            proof {
                                iface.lemma_slot(*id, k as int);
                            }
                            let ghost seen = iface.element_names(*id, k as nat);
                            let ghost name = iface.name_pieces(types@[k as int]);
                            self.h("_");
                            self.print_ty_name(iface, &types[k]);
                            proof {
                                assert(iface.slot(*id, k as int) == types@[k as int]);
                                assert(iface.element_names(*id, (k + 1) as nat) == seen.push("_"@)
                                    + name);
                                assert(head + (seen.push("_"@) + name) =~= (head + seen).push("_"@)
                                    + name);
                            }
                            k += 1;
                        }
                    },
                    TypeDefKind::Option(t) => {
                        proof {
                            iface.lemma_slot(*id, 0);
                        }
                        self.h("option_");
                        self.print_ty_name(iface, t);
                    },
                    TypeDefKind::Result { ok, err } => {
                        proof {
                            if ok is Some {
                                iface.lemma_slot(*id, 0);
                            }
                            if err is Some {
                                iface.lemma_slot(*id, 1);
                            }
                        }
                        self.h("result_");
                        self.print_optional_ty_name(iface, *ok);
                        self.h("_");
                        self.print_optional_ty_name(iface, *err);
                    },
                    TypeDefKind::List(t) => {
                        proof {
                            iface.lemma_slot(*id, 0);
                        }
                        self.h("list_");
                        self.print_ty_name(iface, t);
                    },
                    TypeDefKind::Future(t) => {
                        proof {
                            if t is Some {
                                iface.lemma_slot(*id, 0);
                            }
                        }
                        self.h("future_");
                        self.print_optional_ty_name(iface, *t);
                    },
                    TypeDefKind::Stream { element, end } => {
                        proof {
                            if element is Some {
                                iface.lemma_slot(*id, 0);
                            }
                            if end is Some {
                                iface.lemma_slot(*id, 1);
                            }
                        }
                        self.h("stream_");
                        self.print_optional_ty_name(iface, *element);
                        self.h("_");
                        self.print_optional_ty_name(iface, *end);
                    },
                }
            },
            _ => self.h(short_str(ty)),
        }
    }

    /// Prints the name of a type that may be absent: `void` where it is.
    pub fn print_optional_ty_name(&mut self, iface: &Interface, ty: Option<Type>)
        requires
            iface.wf(),
            iface.has_opt(ty),
        ensures
            final(self)@ == old(self)@.with_h(render(old(self)@.h, iface.opt_name_pieces(ty))),
        decreases
            (match ty {
                Some(t) => iface.height(t) + 1,
                None => 0,
            }),
            0nat,
    {
        match ty {
            Some(ty) => self.print_ty_name(iface, &ty),
            None => self.h("void"),
        }
    }

    /// Prints a type as it is written in C into the header buffer, and notes
    /// that the header needs the string type or an anonymous type for it.
    pub fn print_ty(&mut self, iface: &Interface, ty: &Type)
        requires
            iface.wf(),
            iface.has(*ty),
        ensures
            final(self)@ == old(self)@.noted(*iface, *ty).with_h(
                render(old(self)@.h, iface.ty_pieces(*ty)),
            ),
        decreases iface.height(*ty),
    {
        match ty {
            Type::String => {
                self.print_namespace(iface);
                self.h("string_t");
                self.needs_string = true;
            },
            Type::Id(id) => {
                let def = &iface.types[*id];
                match &def.name {
                    Some(name) => {
                        self.print_namespace(iface);
                        let n = snake(name.as_str());
                        self.h(n.as_str());
                        self.h("_t");
                    },
                    None => match &def.kind {
                        TypeDefKind::Type(t) => {
                            proof {
                                iface.lemma_slot(*id, 0);
                            }
                            self.print_ty(iface, t)
                        },
                        _ => {
                            self.public_anonymous_types.insert(*id);
                            self.private_anonymous_types.remove(id);
                            self.print_namespace(iface);
                            self.print_ty_name(iface, &Type::Id(*id));
                            self.h("_t");
                        },
                    },
                }
            },
            _ => self.h(c_str(ty)),
        }
    }

    /// The text of a type as it is written in C, for use in a function body.
    /// An anonymous type found this way is private unless it is public.
    pub fn type_string(&mut self, iface: &Interface, ty: &Type) -> (r: String)
        requires
            iface.wf(),
            iface.has(*ty),
        ensures
            r@ == iface.ty_text(*ty),
            final(self)@ == old(self)@.noted_private(*iface, *ty),
    {
        let mut prev = source_new();
        std::mem::swap(&mut self.src.h, &mut prev);
        let mut prev_public: BTreeSet<usize> = BTreeSet::new();
        std::mem::swap(&mut self.public_anonymous_types, &mut prev_public);
        let mut prev_private: BTreeSet<usize> = BTreeSet::new();
        std::mem::swap(&mut self.private_anonymous_types, &mut prev_private);
        let ghost mid = self@;

        // Print the type. What it adds to the public set is what this call
        // found.
        self.print_ty(iface, ty);

        std::mem::swap(&mut self.public_anonymous_types, &mut prev_public);
        let found = prev_public;
        std::mem::swap(&mut self.private_anonymous_types, &mut prev_private);
        std::mem::swap(&mut self.src.h, &mut prev);
        let ghost back = self@;
        assert(back.private =~= old(self)@.private);
        assert(found@ =~= mid.noted(*iface, *ty).public);

        // What was found is private, unless it is public already.
        let ids = ids_of(&found);
        let mut k: usize = 0;
        while k < ids.len()
            invariant
                k <= ids@.len(),
                self@ == (GenState { private: self@.private, ..back }),
                back.public == old(self)@.public,
                forall|x: usize|
                    self@.private.contains(x) <==> (old(self)@.private.contains(x) || (exists|
                        j: int,
                    |
                        0 <= j < k && ids@[j] == x && !old(self)@.public.contains(x))),
            decreases ids@.len() - k,
        {
            let id = ids[k];
            if !self.public_anonymous_types.contains(&id) {
                self.private_anonymous_types.insert(id);
            }
            k += 1;
        }
        proof {
            assert forall|x: usize| found@.contains(x) <==> (exists|j: int|
                0 <= j < ids@.len() && ids@[j] == x) by {
                assert(ids@.to_set().contains(x) <==> ids@.contains(x));
            }
            assert(mid.public =~= Set::<usize>::empty());
            let want = old(self)@.noted_private(*iface, *ty).private;
            assert forall|x: usize| self@.private.contains(x) <==> want.contains(x) by {
                if found@.contains(x) {
                    let j = choose|j: int| 0 <= j < ids@.len() && ids@[j] == x;
                    assert(ids@[j] == x);
                }
            }
            assert(self@.private =~= want);
        }
        String::from_str(source_str(&prev))
    }

    /// Prints the call that frees what `expr` points to into the
    /// implementation buffer.
    pub fn free(&mut self, iface: &Interface, ty: &Type, expr: &str)
        requires
            iface.wf(),
            iface.has(*ty),
        ensures
            final(self)@ == old(self)@.with_c(
                render(old(self)@.c, iface.free_pieces(*ty, expr@)),
            ),
    {
        let mut prev = source_new();
        std::mem::swap(&mut self.src.h, &mut prev);
        self.print_namespace(iface);
        self.print_ty_name(iface, ty);
        std::mem::swap(&mut self.src.h, &mut prev);
        let name = source_str(&prev);
        assert(name@ == iface.name_text(*ty));

        self.c(name);
        self.c("_free(");
        self.c(expr);
        self.c(");\n");
    }

    /// Prints documentation as comment lines into the header buffer.
    pub fn docs(&mut self, docs: &Option<String>)
        ensures
            final(self)@ == old(self)@.with_h(render(old(self)@.h, docs_pieces(*docs))),
    {
        let docs = match docs {
            Some(docs) => docs,
            None => {
                return ;
            },
        };
        let all = lines(trim(docs.as_str()));
        let ghost arm = doc_line(strs(all@));
        let mut k: usize = 0;
        while k < all.len()
            invariant
                k <= all@.len(),
                arm == doc_line(strs(all@)),
                self@ == old(self)@.with_h(render(old(self)@.h, gather(k as nat, arm))),
            decreases all@.len() - k,
        {
            let ghost seen = gather(k as nat, arm);
            self.h("// ");
            self.h(all[k].as_str());
            self.h("\n");
            proof {
                assert(arm(k as int) == seq!["// "@].push(all@[k as int]@).push("\n"@));
                assert(gather((k + 1) as nat, arm) == seen + arm(k as int));
                assert(seen + arm(k as int) =~= seen.push("// "@).push(all@[k as int]@).push(
                    "\n"@,
                ));
            }
            k += 1;
        }
    }
}

} // verus!
