//! The C definitions of the types of an interface.
use vstd::prelude::*;
use crate::bindgen::Error;
use crate::gen::GenState;
use crate::gen::C;
use crate::ir::Case;
use crate::ir::Field;
use crate::ir::Interface;
use crate::ir::Type;
use crate::names::docs_pieces;
use crate::pool::after_reserve;
use crate::pool::ns_insert;
use crate::repr::flags_repr;
use crate::repr::flags_width;
use crate::repr::int_name;
use crate::repr::int_repr;
use crate::repr::tag_repr;
use crate::repr::tag_width;
use crate::text::blank;
use crate::text::buf;
use crate::text::decimal;
use crate::text::decimal_string;
use crate::text::gather;
use crate::text::group_render;
use crate::text::render;
use crate::text::row4;
use crate::text::row5;
use crate::text::shouty_snake;
use crate::text::shouty_snake_case;
use crate::text::snake;
use crate::text::snake_case;
use crate::text::source_new;
use crate::text::source_str;
use crate::text::Buf;

verus! {

broadcast use group_render;

impl GenState {
    /// The state after a reference to `ty` was printed into the header, if
    /// `ty` is there.
    pub open spec fn noted_opt(self, iface: Interface, ty: Option<Type>) -> GenState {
        match ty {
            Some(t) => self.noted(iface, t),
            None => self,
        }
    }

    /// The state after references to the first `n` of `tys` were printed
    /// into the header.
    pub open spec fn noted_all(self, iface: Interface, tys: Seq<Option<Type>>, n: nat) -> GenState
        decreases n,
    {
        if n == 0 {
            self
        } else {
            self.noted_all(iface, tys, (n - 1) as nat).noted_opt(iface, tys[n - 1])
        }
    }

    /// The state after the definition of type `id` was printed: the
    /// definition is kept as one text, and the types that it names are noted.
    pub open spec fn defined(
        self,
        iface: Interface,
        id: usize,
        pieces: Seq<Seq<char>>,
        tys: Seq<Option<Type>>,
    ) -> GenState {
        GenState {
            types: self.types.insert(id, render(blank(), pieces).text),
            ..self.noted_all(iface, tys, tys.len())
        }
    }

    /// The state in which the name of a definition is reserved.
    pub open spec fn reserved(self, name: Seq<char>) -> GenState {
        GenState { names: after_reserve(self.names, name), ..self }
    }
}

/// Noting types changes nothing but the sets of anonymous types and the
/// need for the string type, and does so whatever the header buffer holds.
pub(crate) proof fn lemma_noted_all_h(g: GenState, iface: Interface, tys: Seq<Option<Type>>, n: nat, h: Buf)
    ensures
        g.with_h(h).noted_all(iface, tys, n) == g.noted_all(iface, tys, n).with_h(h),
        g.noted_all(iface, tys, n) == (GenState {
            public: g.noted_all(iface, tys, n).public,
            private: g.noted_all(iface, tys, n).private,
            needs_string: g.noted_all(iface, tys, n).needs_string,
            ..g
        }),
    decreases n,
{
    if n > 0 {
        lemma_noted_all_h(g, iface, tys, (n - 1) as nat, h);
    }
}

/// The types of the fields of a record.
pub open spec fn field_types(fields: Seq<Field>) -> Seq<Option<Type>> {
    Seq::new(fields.len(), |i: int| Some(fields[i].ty))
}

/// The types of a list, each present.
pub open spec fn all_types(types: Seq<Type>) -> Seq<Option<Type>> {
    Seq::new(types.len(), |i: int| Some(types[i]))
}

/// The payload types of the cases of a variant that hold something.
pub open spec fn held_types(iface: Interface, cases: Seq<Case>) -> Seq<Option<Type>> {
    Seq::new(cases.len(), |i: int| iface.nonempty(cases[i].ty))
}

/// The member of a struct or union: its type and its name.
pub open spec fn member(iface: Interface, ty: Type, name: Seq<char>) -> Seq<Seq<char>> {
    iface.ty_pieces(ty).push(" "@).push(name).push(";\n"@)
}

/// The member for field `i` of a record.
pub open spec fn field_arm(iface: Interface, fields: Seq<Field>) -> spec_fn(int) -> Seq<Seq<char>> {
    |i: int| member(iface, fields[i].ty, snake_case(fields[i].name@))
}

/// The member `f<i>` for element `i` of a tuple or case `i` of a union.
pub open spec fn element_arm(iface: Interface, types: Seq<Type>) -> spec_fn(int) -> Seq<Seq<char>> {
    |i: int| iface.ty_pieces(types[i]).push(" f"@).push(decimal(i as nat)).push(";\n"@)
}

/// The member for case `i` of a variant: nothing where the case has no
/// payload or one that holds nothing.
pub open spec fn case_arm(iface: Interface, cases: Seq<Case>) -> spec_fn(int) -> Seq<Seq<char>> {
    |i: int|
        match iface.nonempty(cases[i].ty) {
            Some(t) => member(iface, t, snake_case(cases[i].name@)),
            None => Seq::empty(),
        }
}

/// The constant for member `i` of `names`, with the value that `value`
/// writes before and behind its number.
pub open spec fn define_arm(
    iface: Interface,
    name: Seq<char>,
    names: Seq<Seq<char>>,
    before: Seq<char>,
    behind: Seq<char>,
) -> spec_fn(int) -> Seq<Seq<char>> {
    |i: int|
        row5(
            "#define "@,
            shouty_snake_case(iface.name@),
            "_"@,
            shouty_snake_case(name),
            "_"@,
        ) + row4(shouty_snake_case(names[i]), before, decimal(i as nat), behind)
}

/// The names of the cases of a variant.
pub open spec fn case_names(cases: Seq<Case>) -> Seq<Seq<char>> {
    Seq::new(cases.len(), |i: int| cases[i].name@)
}

/// The name of a definition and what ends it.
pub open spec fn def_name(iface: Interface, name: Seq<char>) -> Seq<Seq<char>> {
    iface.ns_pieces().push(snake_case(name)).push("_t;\n"@)
}

/// The member that holds the payload of an option or of one side of a
/// result: nothing where the payload is absent or holds nothing.
pub open spec fn payload_member(iface: Interface, ty: Option<Type>, name: Seq<char>) -> Seq<
    Seq<char>,
> {
    match iface.nonempty(ty) {
        Some(t) => iface.ty_pieces(t).push(name),
        None => Seq::empty(),
    }
}

/// The members of a list: the address of its elements and their number.
pub open spec fn list_members(iface: Interface, ty: Type) -> Seq<Seq<char>> {
    iface.ty_pieces(ty).push(" *ptr;\n"@).push("size_t len;\n"@)
}

/// The definition of a record: a struct of its fields.
pub open spec fn record_pieces(
    iface: Interface,
    name: Seq<char>,
    fields: Seq<Field>,
    docs: Option<String>,
) -> Seq<Seq<char>> {
    (docs_pieces(docs).push("typedef struct {\n"@) + gather(fields.len(), field_arm(iface, fields))).push(
        "} "@,
    ) + def_name(iface, name)
}

/// The definition of a tuple: a struct of members `f0`, `f1`, and so on.
pub open spec fn tuple_pieces(
    iface: Interface,
    name: Seq<char>,
    types: Seq<Type>,
    docs: Option<String>,
) -> Seq<Seq<char>> {
    (docs_pieces(docs).push("typedef struct {\n"@) + gather(types.len(), element_arm(iface, types))).push(
        "} "@,
    ) + def_name(iface, name)
}

/// The definition of a set of flags: an integer type with a bit for each
/// flag, and a constant with that bit set for each flag.
pub open spec fn flags_pieces(
    iface: Interface,
    name: Seq<char>,
    flags: Seq<Seq<char>>,
    docs: Option<String>,
) -> Seq<Seq<char>> {
    docs_pieces(docs).push("typedef "@).push(int_name(flags_width(flags.len()))).push(" "@)
        + def_name(iface, name) + gather(
        flags.len(),
        define_arm(iface, name, flags, " (1 << "@, ")\n"@),
    )
}

/// The definition of a variant: a struct of a tag and a union of the
/// payloads that hold something, and a constant for each case.
pub open spec fn variant_pieces(
    iface: Interface,
    name: Seq<char>,
    cases: Seq<Case>,
    docs: Option<String>,
) -> Seq<Seq<char>> {
    (docs_pieces(docs).push("typedef struct {\n"@).push(int_name(tag_width(cases.len()))).push(
        " tag;\n"@,
    ).push("union {\n"@) + gather(cases.len(), case_arm(iface, cases))).push("} val;\n"@).push(
        "} "@,
    ) + def_name(iface, name) + gather(
        cases.len(),
        define_arm(iface, name, case_names(cases), " "@, "\n"@),
    )
}

/// The definition of a union: a struct of a tag and a union of the cases.
pub open spec fn union_pieces(
    iface: Interface,
    name: Seq<char>,
    cases: Seq<Type>,
    docs: Option<String>,
) -> Seq<Seq<char>> {
    (docs_pieces(docs).push("typedef struct {\n"@).push(int_name(tag_width(cases.len()))).push(
        " tag;\n"@,
    ).push("union {\n"@) + gather(cases.len(), element_arm(iface, cases))).push("} val;\n"@).push(
        "} "@,
    ) + def_name(iface, name)
}

/// The definition of an option: a struct of a flag and, unless the payload
/// holds nothing, the payload.
pub open spec fn option_pieces(
    iface: Interface,
    name: Seq<char>,
    payload: Type,
    docs: Option<String>,
) -> Seq<Seq<char>> {
    (docs_pieces(docs).push("typedef struct {\n"@).push("bool is_some;\n"@) + payload_member(
        iface,
        Some(payload),
        " val;\n"@,
    )).push("} "@) + def_name(iface, name)
}

/// The definition of a result: a struct of a flag and a union of the
/// payloads that hold something.
pub open spec fn result_pieces(
    iface: Interface,
    name: Seq<char>,
    ok: Option<Type>,
    err: Option<Type>,
    docs: Option<String>,
) -> Seq<Seq<char>> {
    (docs_pieces(docs).push("typedef struct {\n"@).push("bool is_err;\n"@).push("union {\n"@)
        + payload_member(iface, ok, " ok;\n"@) + payload_member(iface, err, " err;\n"@)).push(
        "} val;\n"@,
    ).push("} "@) + def_name(iface, name)
}

/// The definition of an enum: an integer type, and a constant for each
/// case.
pub open spec fn enum_pieces(
    iface: Interface,
    name: Seq<char>,
    cases: Seq<Seq<char>>,
    docs: Option<String>,
) -> Seq<Seq<char>> {
    docs_pieces(docs).push("typedef "@).push(int_name(tag_width(cases.len()))).push(" "@)
        + def_name(iface, name) + gather(cases.len(), define_arm(iface, name, cases, " "@, "\n"@))
}

/// The definition of an alias.
pub open spec fn alias_pieces(iface: Interface, name: Seq<char>, ty: Type, docs: Option<String>) -> Seq<
    Seq<char>,
> {
    (docs_pieces(docs).push("typedef "@) + iface.ty_pieces(ty)).push(" "@) + def_name(iface, name)
}

/// The definition of a list: a struct of an address and a length.
pub open spec fn list_pieces(iface: Interface, name: Seq<char>, ty: Type, docs: Option<String>) -> Seq<
    Seq<char>,
> {
    (docs_pieces(docs).push("typedef struct {\n"@) + list_members(iface, ty)).push("} "@) + def_name(
        iface,
        name,
    )
}

/// A definition was printed under a name that had to be free: the call
/// succeeded and left the state `want`, or the name was taken, the call
/// failed with it and left the state as it was.
pub open spec fn reserving(
    before: GenState,
    after: GenState,
    r: Result<(), Error>,
    name: Seq<char>,
    want: GenState,
) -> bool {
    match r {
        Ok(_) => !before.names.defined.contains(name) && after == want,
        Err(e) => before.names.defined.contains(name) && after == before && (e matches Error::Duplicate(
            s,
        ) && s@ == name),
    }
}

impl C {
    /// Reserves the snake-case form of `name`. It fails where that is
    /// reserved already.
    pub fn reserve(&mut self, name: &str) -> (r: Result<(), Error>)
        ensures
            reserving(
                old(self)@,
                final(self)@,
                r,
                snake_case(name@),
                old(self)@.reserved(snake_case(name@)),
            ),
    {
        let symbol = snake(name);
        match ns_insert(&mut self.names, symbol.as_str()) {
            Ok(_) => Ok(()),
            Err(_) => {
                assert(self@.names.defined =~= old(self)@.names.defined);
                Err(Error::Duplicate(symbol))
            },
        }
    }

    /// Sets the header buffer aside and begins a definition with its
    /// documentation.
    pub(crate) fn open_def(&mut self, docs: &Option<String>) -> (prev: wit_bindgen_core::Source)
        ensures
            final(self)@ == old(self)@.with_h(render(blank(), docs_pieces(*docs))),
            buf(prev) == old(self)@.h,
    {
        let mut prev = source_new();
        std::mem::swap(&mut self.src.h, &mut prev);
        self.docs(docs);
        prev
    }

    /// Keeps what the header buffer holds as the definition of type `id`
    /// and puts the buffer back that was set aside.
    pub(crate) fn close_def(&mut self, id: usize, prev: wit_bindgen_core::Source)
        ensures
            final(self)@ == (GenState {
                h: buf(prev),
                types: old(self)@.types.insert(id, old(self)@.h.text),
                ..old(self)@
            }),
    {
        let mut prev = prev;
        std::mem::swap(&mut self.src.h, &mut prev);
        let text = String::from_str(source_str(&prev));
        self.types.insert(id, text);
        assert(self@.types =~= old(self)@.types.insert(id, old(self)@.h.text));
    }

    /// Prints the name of a definition and what ends it.
    pub(crate) fn print_def_name(&mut self, iface: &Interface, name: &str)
        ensures
            final(self)@ == old(self)@.with_h(render(old(self)@.h, def_name(*iface, name@))),
    {
        self.print_namespace(iface);
        let n = snake(name);
        self.h(n.as_str());
        self.h("_t;\n");
    }

    /// Prints a member for each type, named `f0`, `f1`, and so on.
    pub(crate) fn print_elements(&mut self, iface: &Interface, types: &Vec<Type>)
        requires
            iface.wf(),
            forall|i: int| 0 <= i < types@.len() ==> iface.has(#[trigger] types@[i]),
        ensures
            final(self)@ == old(self)@.noted_all(*iface, all_types(types@), types@.len()).with_h(
                render(old(self)@.h, gather(types@.len(), element_arm(*iface, types@))),
            ),
    {
        let ghost arm = element_arm(*iface, types@);
        let mut i: usize = 0;
        while i < types.len()
            invariant
                iface.wf(),
                forall|i: int| 0 <= i < types@.len() ==> iface.has(#[trigger] types@[i]),
                i <= types@.len(),
                arm == element_arm(*iface, types@),
                self@ == old(self)@.noted_all(*iface, all_types(types@), i as nat).with_h(
                    render(old(self)@.h, gather(i as nat, arm)),
                ),
            decreases types@.len() - i,
        {
            let ghost seen = gather(i as nat, arm);
            self.print_ty(iface, &types[i]);
            self.h(" f");
            let num = decimal_string(i);
            self.h(num.as_str());
            self.h(";\n");
            proof {
                assert(arm(i as int) == iface.ty_pieces(types@[i as int]).push(" f"@).push(
                    decimal(i as nat),
                ).push(";\n"@));
                assert(gather((i + 1) as nat, arm) == seen + arm(i as int));
                assert(seen + arm(i as int) =~= (seen + iface.ty_pieces(types@[i as int])).push(
                    " f"@,
                ).push(decimal(i as nat)).push(";\n"@));
            }
            i += 1;
        }
    }

    /// Prints the member that holds a payload, unless the payload is absent
    /// or holds nothing.
    pub(crate) fn print_payload(&mut self, iface: &Interface, ty: Option<Type>, name: &str)
        requires
            iface.wf(),
            iface.has_opt(ty),
        ensures
            final(self)@ == old(self)@.noted_opt(*iface, iface.nonempty(ty)).with_h(
                render(old(self)@.h, payload_member(*iface, ty, name@)),
            ),
    {
        if let Some(t) = C::get_nonempty_type(iface, ty) {
            self.print_ty(iface, &t);
            self.h(name);
        }
    }

    /// Prints a constant for each of `names`, numbered from 0.
    pub(crate) fn print_defines(
        &mut self,
        iface: &Interface,
        name: &str,
        names: &Vec<String>,
        before: &str,
        behind: &str,
    )
        ensures
            final(self)@ == old(self)@.with_h(
                render(
                    old(self)@.h,
                    gather(
                        names@.len(),
                        define_arm(*iface, name@, crate::text::strs(names@), before@, behind@),
                    ),
                ),
            ),
    {
        let ghost arm = define_arm(*iface, name@, crate::text::strs(names@), before@, behind@);
        let mut i: usize = 0;
        while i < names.len()
            invariant
                i <= names@.len(),
                arm == define_arm(*iface, name@, crate::text::strs(names@), before@, behind@),
                self@ == old(self)@.with_h(render(old(self)@.h, gather(i as nat, arm))),
            decreases names@.len() - i,
        {
            let ghost seen = gather(i as nat, arm);
            let a = shouty_snake(iface.name.as_str());
            let b = shouty_snake(name);
            let c = shouty_snake(names[i].as_str());
            let num = decimal_string(i);
            self.h("#define ");
            self.h(a.as_str());
            self.h("_");
            self.h(b.as_str());
            self.h("_");
            let ghost mid = self@.h;
            self.h(c.as_str());
            self.h(before);
            self.h(num.as_str());
            self.h(behind);
            proof {
                assert(arm(i as int) == row5("#define "@, a@, "_"@, b@, "_"@) + row4(
                    c@,
                    before@,
                    num@,
                    behind@,
                ));
                assert(gather((i + 1) as nat, arm) == seen + arm(i as int));
                assert(mid == render(render(old(self)@.h, seen), row5("#define "@, a@, "_"@, b@, "_"@)));
                assert(self@.h == render(mid, row4(c@, before@, num@, behind@)));
                assert(seen + (row5("#define "@, a@, "_"@, b@, "_"@) + row4(
                    c@,
                    before@,
                    num@,
                    behind@,
                )) =~= (seen + row5("#define "@, a@, "_"@, b@, "_"@)) + row4(
                    c@,
                    before@,
                    num@,
                    behind@,
                ));
            }
            i += 1;
        }
    }

    /// Prints the definition of a record.
    #[verifier::rlimit(50)]
    pub fn type_record(
        &mut self,
        iface: &Interface,
        id: usize,
        name: &str,
        fields: &Vec<Field>,
        docs: &Option<String>,
    ) -> (r: Result<(), Error>)
        requires
            iface.wf(),
            forall|i: int| 0 <= i < fields@.len() ==> iface.has((#[trigger] fields@[i]).ty),
        ensures
            reserving(
                old(self)@,
                final(self)@,
                r,
                snake_case(name@),
                old(self)@.reserved(snake_case(name@)).defined(
                    *iface,
                    id,
                    record_pieces(*iface, name@, fields@, *docs),
                    field_types(fields@),
                ),
            ),
    {
        if let Err(e) = self.reserve(name) {
            return Err(e);
        }
        let ghost g0 = self@;
        let prev = self.open_def(docs);
        self.h("typedef struct {\n");
        let ghost g1 = self@;
        let ghost arm = field_arm(*iface, fields@);
        let mut i: usize = 0;
        while i < fields.len()
            invariant
                iface.wf(),
                forall|i: int| 0 <= i < fields@.len() ==> iface.has((#[trigger] fields@[i]).ty),
                i <= fields@.len(),
                arm == field_arm(*iface, fields@),
                self@ == g1.noted_all(*iface, field_types(fields@), i as nat).with_h(
                    render(g1.h, gather(i as nat, arm)),
                ),
            decreases fields@.len() - i,
        {
            let ghost seen = gather(i as nat, arm);
            self.print_ty(iface, &fields[i].ty);
            self.h(" ");
            let n = snake(fields[i].name.as_str());
            self.h(n.as_str());
            self.h(";\n");
            proof {
                assert(arm(i as int) == iface.ty_pieces(fields@[i as int].ty).push(" "@).push(
                    snake_case(fields@[i as int].name@),
                ).push(";\n"@));
                assert(gather((i + 1) as nat, arm) == seen + arm(i as int));
                assert(seen + arm(i as int) =~= (seen + iface.ty_pieces(fields@[i as int].ty)).push(
                    " "@,
                ).push(snake_case(fields@[i as int].name@)).push(";\n"@));
            }
            i += 1;
        }
        self.h("} ");
        self.print_def_name(iface, name);
        self.close_def(id, prev);
        proof {
            lemma_noted_all_h(g0, *iface, field_types(fields@), fields@.len(), g1.h);
        }
        Ok(())
    }

    /// Prints the definition of a tuple.
    pub fn type_tuple(
        &mut self,
        iface: &Interface,
        id: usize,
        name: &str,
        types: &Vec<Type>,
        docs: &Option<String>,
    ) -> (r: Result<(), Error>)
        requires
            iface.wf(),
            forall|i: int| 0 <= i < types@.len() ==> iface.has(#[trigger] types@[i]),
        ensures
            reserving(
                old(self)@,
                final(self)@,
                r,
                snake_case(name@),
                old(self)@.reserved(snake_case(name@)).defined(
                    *iface,
                    id,
                    tuple_pieces(*iface, name@, types@, *docs),
                    all_types(types@),
                ),
            ),
    {
        if let Err(e) = self.reserve(name) {
            return Err(e);
        }
        let ghost g0 = self@;
        let prev = self.open_def(docs);
        self.h("typedef struct {\n");
        let ghost g1 = self@;
        self.print_elements(iface, types);
        self.h("} ");
        self.print_def_name(iface, name);
        self.close_def(id, prev);
        proof {
            lemma_noted_all_h(g0, *iface, all_types(types@), types@.len(), g1.h);
        }
        Ok(())
    }

    /// Prints the definition of a set of flags.
    pub fn type_flags(
        &mut self,
        iface: &Interface,
        id: usize,
        name: &str,
        flags: &Vec<String>,
        docs: &Option<String>,
    ) -> (r: Result<(), Error>)
        requires
            flags@.len() <= 64,
        ensures
            reserving(
                old(self)@,
                final(self)@,
                r,
                snake_case(name@),
                old(self)@.reserved(snake_case(name@)).defined(
                    *iface,
                    id,
                    flags_pieces(*iface, name@, crate::text::strs(flags@), *docs),
                    Seq::empty(),
                ),
            ),
    {
        if let Err(e) = self.reserve(name) {
            return Err(e);
        }
        let prev = self.open_def(docs);
        self.h("typedef ");
        let repr = flags_repr(flags);
        self.h(int_repr(repr));
        self.h(" ");
        self.print_def_name(iface, name);
        self.print_defines(iface, name, flags, " (1 << ", ")\n");
        self.close_def(id, prev);
        Ok(())
    }

    /// Prints the definition of a variant.
    #[verifier::rlimit(50)]
    pub fn type_variant(
        &mut self,
        iface: &Interface,
        id: usize,
        name: &str,
        cases: &Vec<Case>,
        docs: &Option<String>,
    ) -> (r: Result<(), Error>)
        requires
            iface.wf(),
            cases@.len() <= u32::MAX,
            forall|i: int| 0 <= i < cases@.len() ==> iface.has_opt((#[trigger] cases@[i]).ty),
        ensures
            reserving(
                old(self)@,
                final(self)@,
                r,
                snake_case(name@),
                old(self)@.reserved(snake_case(name@)).defined(
                    *iface,
                    id,
                    variant_pieces(*iface, name@, cases@, *docs),
                    held_types(*iface, cases@),
                ),
            ),
    {
        if let Err(e) = self.reserve(name) {
            return Err(e);
        }
        let ghost g0 = self@;
        let prev = self.open_def(docs);
        self.h("typedef struct {\n");
        self.h(int_repr(tag_repr(cases.len())));
        self.h(" tag;\n");
        self.h("union {\n");
        let ghost g1 = self@;
        let ghost arm = case_arm(*iface, cases@);
        let mut names: Vec<String> = Vec::new();
        let mut i: usize = 0;
        assert(crate::text::strs(names@) =~= case_names(cases@).take(0));
        while i < cases.len()
            invariant
                iface.wf(),
                forall|i: int| 0 <= i < cases@.len() ==> iface.has_opt((#[trigger] cases@[i]).ty),
                i <= cases@.len(),
                arm == case_arm(*iface, cases@),
                crate::text::strs(names@) == case_names(cases@).take(i as int),
                self@ == g1.noted_all(*iface, held_types(*iface, cases@), i as nat).with_h(
                    render(g1.h, gather(i as nat, arm)),
                ),
            decreases cases@.len() - i,
        {
            let ghost seen = gather(i as nat, arm);
            if let Some(ty) = C::get_nonempty_type(iface, cases[i].ty) {
                self.print_ty(iface, &ty);
                self.h(" ");
                let n = snake(cases[i].name.as_str());
                self.h(n.as_str());
                self.h(";\n");
                proof {
                    assert(seen + arm(i as int) =~= (seen + iface.ty_pieces(ty)).push(" "@).push(
                        snake_case(cases@[i as int].name@),
                    ).push(";\n"@));
                }
            } else {
                proof {
                    assert(seen + arm(i as int) =~= seen);
                }
            }
            crate::text::push_string(&mut names, cases[i].name.clone());
            proof {
                assert(gather((i + 1) as nat, arm) == seen + arm(i as int));
                assert(case_names(cases@).take(i + 1) =~= case_names(cases@).take(i as int).push(
                    cases@[i as int].name@,
                ));
            }
            i += 1;
        }
        assert(case_names(cases@).take(cases@.len() as int) =~= case_names(cases@));
        self.h("} val;\n");
        self.h("} ");
        self.print_def_name(iface, name);
        self.print_defines(iface, name, &names, " ", "\n");
        self.close_def(id, prev);
        proof {
            lemma_noted_all_h(g0, *iface, held_types(*iface, cases@), cases@.len(), g1.h);
        }
        Ok(())
    }

    /// Prints the definition of a union.
    pub fn type_union(
        &mut self,
        iface: &Interface,
        id: usize,
        name: &str,
        cases: &Vec<Type>,
        docs: &Option<String>,
    ) -> (r: Result<(), Error>)
        requires
            iface.wf(),
            cases@.len() <= u32::MAX,
            forall|i: int| 0 <= i < cases@.len() ==> iface.has(#[trigger] cases@[i]),
        ensures
            reserving(
                old(self)@,
                final(self)@,
                r,
                snake_case(name@),
                old(self)@.reserved(snake_case(name@)).defined(
                    *iface,
                    id,
                    union_pieces(*iface, name@, cases@, *docs),
                    all_types(cases@),
                ),
            ),
    {
        if let Err(e) = self.reserve(name) {
            return Err(e);
        }
        let ghost g0 = self@;
        let prev = self.open_def(docs);
        self.h("typedef struct {\n");
        self.h(int_repr(tag_repr(cases.len())));
        self.h(" tag;\n");
        self.h("union {\n");
        let ghost g1 = self@;
        self.print_elements(iface, cases);
        self.h("} val;\n");
        self.h("} ");
        self.print_def_name(iface, name);
        self.close_def(id, prev);
        proof {
            lemma_noted_all_h(g0, *iface, all_types(cases@), cases@.len(), g1.h);
        }
        Ok(())
    }

    /// Prints the definition of an option.
    pub fn type_option(
        &mut self,
        iface: &Interface,
        id: usize,
        name: &str,
        payload: &Type,
        docs: &Option<String>,
    ) -> (r: Result<(), Error>)
        requires
            iface.wf(),
            iface.has(*payload),
        ensures
            reserving(
                old(self)@,
                final(self)@,
                r,
                snake_case(name@),
                old(self)@.reserved(snake_case(name@)).defined(
                    *iface,
                    id,
                    option_pieces(*iface, name@, *payload, *docs),
                    seq![iface.nonempty(Some(*payload))],
                ),
            ),
    {
        if let Err(e) = self.reserve(name) {
            return Err(e);
        }
        let ghost g0 = self@;
        let prev = self.open_def(docs);
        self.h("typedef struct {\n");
        self.h("bool is_some;\n");
        self.print_payload(iface, Some(*payload), " val;\n");
        self.h("} ");
        self.print_def_name(iface, name);
        self.close_def(id, prev);
        proof {
            let tys = seq![iface.nonempty(Some(*payload))];
            assert(g0.noted_all(*iface, tys, 0) == g0);
            assert(g0.noted_all(*iface, tys, 1) == g0.noted_opt(*iface, tys[0]));
        }
        Ok(())
    }

    /// Prints the definition of a result.
    pub fn type_result(
        &mut self,
        iface: &Interface,
        id: usize,
        name: &str,
        ok: Option<Type>,
        err: Option<Type>,
        docs: &Option<String>,
    ) -> (r: Result<(), Error>)
        requires
            iface.wf(),
            iface.has_opt(ok),
            iface.has_opt(err),
        ensures
            reserving(
                old(self)@,
                final(self)@,
                r,
                snake_case(name@),
                old(self)@.reserved(snake_case(name@)).defined(
                    *iface,
                    id,
                    result_pieces(*iface, name@, ok, err, *docs),
                    seq![iface.nonempty(ok)].push(iface.nonempty(err)),
                ),
            ),
    {
        if let Err(e) = self.reserve(name) {
            return Err(e);
        }
        let ghost g0 = self@;
        let prev = self.open_def(docs);
        self.h("typedef struct {\n");
        self.h("bool is_err;\n");
        self.h("union {\n");
        self.print_payload(iface, ok, " ok;\n");
        self.print_payload(iface, err, " err;\n");
        self.h("} val;\n");
        self.h("} ");
        self.print_def_name(iface, name);
        self.close_def(id, prev);
        proof {
            let tys = seq![iface.nonempty(ok)].push(iface.nonempty(err));
            assert(g0.noted_all(*iface, tys, 0) == g0);
            assert(g0.noted_all(*iface, tys, 1) == g0.noted_opt(*iface, tys[0]));
            assert(g0.noted_all(*iface, tys, 2) == g0.noted_all(*iface, tys, 1).noted_opt(
                *iface,
                tys[1],
            ));
        }
        Ok(())
    }

    /// Prints the definition of an enum.
    pub fn type_enum(
        &mut self,
        iface: &Interface,
        id: usize,
        name: &str,
        cases: &Vec<String>,
        docs: &Option<String>,
    ) -> (r: Result<(), Error>)
        requires
            cases@.len() <= u32::MAX,
        ensures
            reserving(
                old(self)@,
                final(self)@,
                r,
                snake_case(name@),
                old(self)@.reserved(snake_case(name@)).defined(
                    *iface,
                    id,
                    enum_pieces(*iface, name@, crate::text::strs(cases@), *docs),
                    Seq::empty(),
                ),
            ),
    {
        if let Err(e) = self.reserve(name) {
            return Err(e);
        }
        let prev = self.open_def(docs);
        self.h("typedef ");
        self.h(int_repr(tag_repr(cases.len())));
        self.h(" ");
        self.print_def_name(iface, name);
        self.print_defines(iface, name, cases, " ", "\n");
        self.close_def(id, prev);
        Ok(())
    }

    /// Prints the definition of an alias. Its name is not reserved.
    pub fn type_alias(
        &mut self,
        iface: &Interface,
        id: usize,
        name: &str,
        ty: &Type,
        docs: &Option<String>,
    )
        requires
            iface.wf(),
            iface.has(*ty),
        ensures
            final(self)@ == old(self)@.defined(
                *iface,
                id,
                alias_pieces(*iface, name@, *ty, *docs),
                seq![Some(*ty)],
            ),
    {
        let ghost g0 = self@;
        let prev = self.open_def(docs);
        self.h("typedef ");
        self.print_ty(iface, ty);
        self.h(" ");
        self.print_def_name(iface, name);
        self.close_def(id, prev);
        proof {
            let tys = seq![Some(*ty)];
            assert(g0.noted_all(*iface, tys, 0) == g0);
            assert(g0.noted_all(*iface, tys, 1) == g0.noted_opt(*iface, tys[0]));
        }
    }

    /// Prints the definition of a list. Its name is not reserved.
    pub fn type_list(
        &mut self,
        iface: &Interface,
        id: usize,
        name: &str,
        ty: &Type,
        docs: &Option<String>,
    )
        requires
            iface.wf(),
            iface.has(*ty),
        ensures
            final(self)@ == old(self)@.defined(
                *iface,
                id,
                list_pieces(*iface, name@, *ty, *docs),
                seq![Some(*ty)],
            ),
    {
        let ghost g0 = self@;
        let prev = self.open_def(docs);
        self.h("typedef struct {\n");
        self.print_ty(iface, ty);
        self.h(" *ptr;\n");
        self.h("size_t len;\n");
        self.h("} ");
        self.print_def_name(iface, name);
        self.close_def(id, prev);
        proof {
            let tys = seq![Some(*ty)];
            assert(g0.noted_all(*iface, tys, 0) == g0);
            assert(g0.noted_all(*iface, tys, 1) == g0.noted_opt(*iface, tys[0]));
        }
    }

    /// A built-in type needs no definition.
    pub fn type_builtin(
        &mut self,
        iface: &Interface,
        id: usize,
        name: &str,
        ty: &Type,
        docs: &Option<String>,
    )
        ensures
            final(self)@ == old(self)@,
    {
    }
}

} // verus!
