//! Lowering and lifting of variants and unions, case by case.
use vstd::prelude::*;
use crate::bindgen::met;
use crate::bindgen::store_op_pieces;
use crate::bindgen::BindState;
use crate::bindgen::BlockText;
use crate::bindgen::Error;
use crate::bindgen::FunctionBindgen;
use crate::bindgen::Outcome;
use crate::gen::GenState;
use crate::gen::C;
use crate::ir::Case;
use crate::ir::Interface;
use crate::ir::Type;
use crate::ir::TypeDefKind;
use crate::pool::after_fresh;
use crate::pool::fresh;
use crate::pool::Pool;
use crate::repr::wasm_name;
use crate::repr::wasm_type;
use crate::repr::WasmType;
use crate::text::concat2;
use crate::text::concat3;
use crate::text::decimal;
use crate::text::decimal_string;
use crate::text::gather;
use crate::text::group_render;
use crate::text::push_string;
use crate::text::render;
use crate::text::snake;
use crate::text::snake_case;
use crate::text::strs;

verus! {

broadcast use group_render;

/// The pool after `n` fresh names were taken for `prefix`.
pub open spec fn took_n(p: Pool, prefix: Seq<char>, n: nat) -> Pool
    decreases n,
{
    if n == 0 {
        p
    } else {
        after_fresh(took_n(p, prefix, (n - 1) as nat), prefix)
    }
}

/// The `n` fresh names that the pool gives for `prefix`, one after another.
pub open spec fn fresh_n(p: Pool, prefix: Seq<char>, n: nat) -> Seq<Seq<char>>
    decreases n,
{
    if n == 0 {
        Seq::empty()
    } else {
        fresh_n(p, prefix, (n - 1) as nat).push(fresh(took_n(p, prefix, (n - 1) as nat), prefix))
    }
}

/// The declarations of the first `n` names, each with the scalar type of
/// its position.
pub open spec fn decls(types: Seq<WasmType>, names: Seq<Seq<char>>, n: nat) -> Seq<Seq<char>>
    decreases n,
{
    if n == 0 {
        Seq::empty()
    } else {
        decls(types, names, (n - 1) as nat).push(wasm_name(types[n - 1])).push(" "@).push(
            names[n - 1],
        ).push(";\n"@)
    }
}

/// The statements that assign to each of the first `n` names the value of
/// its position.
pub open spec fn assigns(names: Seq<Seq<char>>, values: Seq<Seq<char>>, n: nat) -> Seq<Seq<char>>
    decreases n,
{
    if n == 0 {
        Seq::empty()
    } else {
        assigns(names, values, (n - 1) as nat).push(names[n - 1]).push(" = "@).push(
            values[n - 1],
        ).push(";\n"@)
    }
}

/// The smaller of two numbers.
pub open spec fn least(a: nat, b: nat) -> nat {
    if a <= b {
        a
    } else {
        b
    }
}

/// The generator's state after the payload type `ty` was named in a
/// function body, if it is there and holds something.
pub open spec fn noted_payload(g: GenState, iface: Interface, ty: Option<Type>) -> GenState {
    match iface.nonempty(ty) {
        Some(t) => g.noted_private(iface, t),
        None => g,
    }
}

/// A list of lists of strings as a value.
pub open spec fn strss(v: Seq<Vec<String>>) -> Seq<Seq<Seq<char>>> {
    Seq::new(v.len(), |i: int| strs(v[i]@))
}

/// The generator's state after the payload types among the first `n` of
/// `tys` that hold something were named in a function body.
pub open spec fn noted_payloads(g: GenState, iface: Interface, tys: Seq<Option<Type>>, n: nat) -> GenState
    decreases n,
{
    if n == 0 {
        g
    } else {
        noted_payload(noted_payloads(g, iface, tys, (n - 1) as nat), iface, tys[n - 1])
    }
}

/// The cases of the variant that definition `ty` is.
pub open spec fn variant_cases(iface: Interface, ty: usize) -> Option<Seq<Case>> {
    if ty < iface.types@.len() {
        match iface.types@[ty as int].kind {
            TypeDefKind::Variant(cases) => Some(cases@),
            _ => None,
        }
    } else {
        None
    }
}

/// The case types of the union that definition `ty` is.
pub open spec fn union_cases(iface: Interface, ty: usize) -> Option<Seq<Type>> {
    if ty < iface.types@.len() {
        match iface.types@[ty as int].kind {
            TypeDefKind::Union(cases) => Some(cases@),
            _ => None,
        }
    } else {
        None
    }
}

/// The statement that binds `payload` to the address of the member
/// `member` of the value `op`, a `ty`; nothing where `ty` is absent.
pub open spec fn bind_pieces(
    ty: Option<Seq<char>>,
    payload: Seq<char>,
    op: Seq<char>,
    member: Seq<Seq<char>>,
) -> Seq<Seq<char>> {
    match ty {
        Some(t) => (seq!["const "@].push(t).push(" *"@).push(payload).push(" = &("@).push(op)
            + member).push(";\n"@),
        None => Seq::empty(),
    }
}

/// The text of a payload type, unless it is absent or holds nothing.
pub open spec fn payload_text(iface: Interface, ty: Option<Type>) -> Option<Seq<char>> {
    match iface.nonempty(ty) {
        Some(t) => Some(iface.ty_text(t)),
        None => None,
    }
}

/// The arm of a lowering switch for case `i`: the payload is bound to
/// `payloads[i]`, the block's statements follow, and what the block yields is
/// assigned to `names`.
pub open spec fn lower_arm(
    texts: Seq<Option<Seq<char>>>,
    members: Seq<Seq<Seq<char>>>,
    blocks: Seq<BlockText>,
    payloads: Seq<Seq<char>>,
    op: Seq<char>,
    names: Seq<Seq<char>>,
) -> spec_fn(int) -> Seq<Seq<char>> {
    |i: int|
        ((seq!["case "@].push(decimal(i as nat)).push(": {\n"@) + bind_pieces(
            texts[i],
            payloads[i],
            op,
            members[i],
        )).push(blocks[i].body) + assigns(
            names,
            blocks[i].results,
            least(names.len(), blocks[i].results.len()),
        )).push("break;\n}\n"@)
}

/// Where the payload of each case of a variant lies in a value of it.
pub open spec fn variant_members(cases: Seq<Case>) -> Seq<Seq<Seq<char>>> {
    Seq::new(cases.len(), |i: int| seq![").val"@].push("."@).push(snake_case(cases[i].name@)))
}

/// Where each case of a union with `n` cases lies in a value of it.
pub open spec fn union_members(n: nat) -> Seq<Seq<Seq<char>>> {
    Seq::new(n, |i: int| seq![").val.f"@].push(decimal(i as nat)))
}

/// The payload types of the cases of a variant.
pub open spec fn case_types(cases: Seq<Case>) -> Seq<Option<Type>> {
    Seq::new(cases.len(), |i: int| cases[i].ty)
}

/// The case types of a union as payloads.
pub open spec fn some_types(cases: Seq<Type>) -> Seq<Option<Type>> {
    Seq::new(cases.len(), |i: int| Some(cases[i]))
}

/// The texts of payload types, each absent where the type is or holds
/// nothing.
pub open spec fn payload_texts(iface: Interface, tys: Seq<Option<Type>>) -> Seq<Option<Seq<char>>> {
    Seq::new(tys.len(), |i: int| payload_text(iface, tys[i]))
}

/// The outcome of lowering a sum type with payload types `tys`: a local is
/// declared for each result type, and a switch on `tag` has an arm for each
/// case, made of the last blocks and payload names, which are used up.
pub open spec fn lower_outcome(
    b: BindState,
    g: GenState,
    iface: Interface,
    tys: Seq<Option<Type>>,
    members: Seq<Seq<Seq<char>>>,
    prefix: Seq<char>,
    head: Seq<Seq<char>>,
    result_types: Seq<WasmType>,
    ops: Seq<Seq<char>>,
) -> Result<Outcome, Error> {
    let n = tys.len();
    if ops.len() < 1 || b.blocks.len() < n || b.payloads.len() < n {
        Err(Error::Malformed)
    } else {
        let blocks = b.blocks.skip(b.blocks.len() - n);
        let payloads = b.payloads.skip(b.payloads.len() - n);
        let names = fresh_n(b.locals, prefix, result_types.len());
        let arm = lower_arm(payload_texts(iface, tys), members, blocks, payloads, ops[0], names);
        Ok(
            Outcome {
                bind: BindState {
                    locals: took_n(b.locals, prefix, result_types.len()),
                    src: render(
                        b.src,
                        ((decls(result_types, names, result_types.len()) + head) + gather(
                            n,
                            arm,
                        )).push("}\n"@),
                    ),
                    blocks: b.blocks.take(b.blocks.len() - n),
                    payloads: b.payloads.take(b.payloads.len() - n),
                    ..b
                },
                gen: noted_payloads(g, iface, tys, n),
                results: names,
            },
        )
    }
}

/// The outcome of `VariantLower`.
pub open spec fn variant_lower_outcome(
    b: BindState,
    g: GenState,
    iface: Interface,
    ty: usize,
    result_types: Seq<WasmType>,
    ops: Seq<Seq<char>>,
) -> Result<Outcome, Error> {
    match variant_cases(iface, ty) {
        Some(cases) => lower_outcome(
            b,
            g,
            iface,
            case_types(cases),
            variant_members(cases),
            "variant"@,
            seq!["switch ((int32_t) "@].push("("@ + ops[0] + ").tag"@).push(") {\n"@),
            result_types,
            ops,
        ),
        None => Err(Error::Malformed),
    }
}

/// The outcome of `UnionLower`.
pub open spec fn union_lower_outcome(
    b: BindState,
    g: GenState,
    iface: Interface,
    ty: usize,
    result_types: Seq<WasmType>,
    ops: Seq<Seq<char>>,
) -> Result<Outcome, Error> {
    match union_cases(iface, ty) {
        Some(cases) => lower_outcome(
            b,
            g,
            iface,
            some_types(cases),
            union_members(cases.len()),
            "unionres"@,
            seq!["switch (("@].push(ops[0]).push(").tag) {\n"@),
            result_types,
            ops,
        ),
        None => Err(Error::Malformed),
    }
}

/// The arm of a lifting switch for case `i`: the block's statements, and,
/// where the case has `suffixes[i]`, the statement that stores what the
/// block yields in the member of `result` that the suffix names.
pub open spec fn lift_arm(
    suffixes: Seq<Option<Seq<char>>>,
    blocks: Seq<BlockText>,
    result: Seq<char>,
) -> spec_fn(int) -> Seq<Seq<char>> {
    |i: int|
        (seq!["case "@].push(decimal(i as nat)).push(": {\n"@).push(blocks[i].body) + (match suffixes[i] {
            Some(suffix) => store_op_pieces(blocks[i].results[0], result + suffix),
            None => Seq::empty(),
        })).push("break;\n}\n"@)
}

/// Each of the blocks yields as many operands as `want` says for it.
pub open spec fn yield_counts(blocks: Seq<BlockText>, want: Seq<usize>) -> bool {
    forall|i: int| 0 <= i < want.len() ==> (#[trigger] blocks[i]).results.len() == want[i]
}

/// The outcome of lifting a sum type: a local of the type that `ty` defines
/// is declared, its tag is set from the operand, and a switch on the tag has
/// an arm for each case, made of the last blocks, which are used up. It
/// fails where a block yields another number of operands than `want` says.
pub open spec fn lift_outcome(
    b: BindState,
    g: GenState,
    iface: Interface,
    ty: usize,
    suffixes: Seq<Option<Seq<char>>>,
    want: Seq<usize>,
    prefix: Seq<char>,
    ops: Seq<Seq<char>>,
) -> Result<Outcome, Error> {
    let n = want.len();
    if ops.len() < 1 || b.blocks.len() < n || !yield_counts(
        b.blocks.skip(b.blocks.len() - n),
        want,
    ) {
        Err(Error::Malformed)
    } else {
        let blocks = b.blocks.skip(b.blocks.len() - n);
        let result = fresh(b.locals, prefix);
        Ok(
            Outcome {
                bind: BindState {
                    blocks: b.blocks.take(b.blocks.len() - n),
                    ..b.took(prefix).wrote(
                        (seq![iface.ty_text(Type::Id(ty))].push(" "@).push(result).push(";\n"@).push(
                            result,
                        ).push(".tag = "@).push(ops[0]).push(";\n"@).push(
                            "switch ((int32_t) "@,
                        ).push(result).push(".tag) {\n"@) + gather(
                            n,
                            lift_arm(suffixes, blocks, result),
                        )).push("}\n"@),
                    )
                },
                gen: g.noted_private(iface, Type::Id(ty)),
                results: seq![result],
            },
        )
    }
}

/// Where a lifted payload is stored for each case of a variant: nowhere
/// where the case has no payload or one that holds nothing.
pub open spec fn variant_suffixes(iface: Interface, cases: Seq<Case>) -> Seq<Option<Seq<char>>> {
    Seq::new(
        cases.len(),
        |i: int|
            match iface.nonempty(cases[i].ty) {
                Some(_) => Some(".val"@ + "."@ + snake_case(cases[i].name@)),
                None => None,
            },
    )
}

/// The number of operands that the block of each case of a variant yields:
/// one where the case has a payload.
pub open spec fn variant_yields(cases: Seq<Case>) -> Seq<usize> {
    Seq::new(
        cases.len(),
        |i: int|
            if cases[i].ty is Some {
                1usize
            } else {
                0usize
            },
    )
}

/// Where the lifted value is stored for each case of a union.
pub open spec fn union_suffixes(n: nat) -> Seq<Option<Seq<char>>> {
    Seq::new(n, |i: int| Some(".val.f"@ + decimal(i as nat)))
}

/// The outcome of `VariantLift`.
pub open spec fn variant_lift_outcome(
    b: BindState,
    g: GenState,
    iface: Interface,
    ty: usize,
    ops: Seq<Seq<char>>,
) -> Result<Outcome, Error> {
    match variant_cases(iface, ty) {
        Some(cases) => lift_outcome(
            b,
            g,
            iface,
            ty,
            variant_suffixes(iface, cases),
            variant_yields(cases),
            "variant"@,
            ops,
        ),
        None => Err(Error::Malformed),
    }
}

/// The outcome of `UnionLift`.
pub open spec fn union_lift_outcome(
    b: BindState,
    g: GenState,
    iface: Interface,
    ty: usize,
    ops: Seq<Seq<char>>,
) -> Result<Outcome, Error> {
    match union_cases(iface, ty) {
        Some(cases) => lift_outcome(
            b,
            g,
            iface,
            ty,
            union_suffixes(cases.len()),
            Seq::new(cases.len(), |i: int| 1usize),
            "unionres"@,
            ops,
        ),
        None => Err(Error::Malformed),
    }
}

/// A list of strings that may be absent, as a value.
pub open spec fn opt_strs(v: Seq<Option<String>>) -> Seq<Option<Seq<char>>> {
    Seq::new(
        v.len(),
        |i: int|
            match v[i] {
                Some(s) => Some(s@),
                None => None,
            },
    )
}

impl FunctionBindgen {
    /// Declares a fresh local for each of `types`, and yields the locals.
    pub(crate) fn declare_results(
        &mut self,
        prefix: &str,
        types: &Vec<WasmType>,
        results: &mut Vec<String>,
    ) -> (names: Vec<String>)
        ensures
            strs(names@) == fresh_n(old(self)@.locals, prefix@, types@.len()),
            names@.len() == types@.len(),
            strs(final(results)@) == strs(old(results)@) + strs(names@),
            final(self)@ == (BindState {
                locals: took_n(old(self)@.locals, prefix@, types@.len()),
                src: render(old(self)@.src, decls(types@, strs(names@), types@.len())),
                ..old(self)@
            }),
    {
        let mut names: Vec<String> = Vec::new();
        let mut k: usize = 0;
        assert(strs(old(results)@) + strs(names@) =~= strs(old(results)@));
        assert(strs(names@) =~= fresh_n(old(self)@.locals, prefix@, 0));
        while k < types.len()
            invariant
                k <= types@.len(),
                names@.len() == k,
                strs(names@) == fresh_n(old(self)@.locals, prefix@, k as nat),
                strs(results@) == strs(old(results)@) + strs(names@),
                self@ == (BindState {
                    locals: took_n(old(self)@.locals, prefix@, k as nat),
                    src: render(old(self)@.src, decls(types@, strs(names@), k as nat)),
                    ..old(self)@
                }),
            decreases types@.len() - k,
        {
            let ghost before = strs(names@);
            let name = self.tmp(prefix);
            push_string(results, name.clone());
            self.s(wasm_type(types[k]));
            self.s(" ");
            self.s(name.as_str());
            self.s(";\n");
            push_string(&mut names, name);
            proof {
                let after = strs(names@);
                assert(after == before.push(name@));
                assert(strs(old(results)@) + after =~= (strs(old(results)@) + before).push(name@));
                lemma_decls_prefix(types@, before, after, k as nat);
                assert(decls(types@, after, (k + 1) as nat) == decls(types@, after, k as nat).push(
                    wasm_name(types@[k as int]),
                ).push(" "@).push(after[k as int]).push(";\n"@));
            }
            k += 1;
        }
        names
    }

    /// Prints the statements that assign to each name the value of its
    /// position, as far as both lists reach.
    pub(crate) fn write_assigns(&mut self, names: &Vec<String>, values: &Vec<String>)
        ensures
            final(self)@ == old(self)@.wrote(
                assigns(strs(names@), strs(values@), least(names@.len(), values@.len())),
            ),
    {
        let mut k: usize = 0;
        while k < names.len() && k < values.len()
            invariant
                k <= names@.len(),
                k <= values@.len(),
                self@ == old(self)@.wrote(assigns(strs(names@), strs(values@), k as nat)),
            decreases names@.len() - k,
        {
            self.s(names[k].as_str());
            self.s(" = ");
            self.s(values[k].as_str());
            self.s(";\n");
            k += 1;
        }
    }

    /// Pushes pieces into the statement buffer, first to last.
    pub(crate) fn write_all(&mut self, pieces: &Vec<String>)
        ensures
            final(self)@ == old(self)@.wrote(strs(pieces@)),
    {
        let mut k: usize = 0;
        assert(strs(pieces@).take(0) =~= Seq::<Seq<char>>::empty());
        while k < pieces.len()
            invariant
                k <= pieces@.len(),
                self@ == old(self)@.wrote(strs(pieces@).take(k as int)),
            decreases pieces@.len() - k,
        {
            self.s(pieces[k].as_str());
            assert(strs(pieces@).take(k + 1) =~= strs(pieces@).take(k as int).push(
                pieces@[k as int]@,
            ));
            k += 1;
        }
        assert(strs(pieces@).take(pieces@.len() as int) =~= strs(pieces@));
    }

    /// Takes the last `n` finished blocks, oldest first. It fails where
    /// there are fewer.
    pub(crate) fn take_blocks(&mut self, n: usize) -> (r: Result<Vec<(String, Vec<String>)>, Error>)
        ensures
            r is Ok <==> n <= old(self)@.blocks.len(),
            r is Err ==> (r matches Err(Error::Malformed)) && final(self)@ == old(self)@,
            r matches Ok(blocks) ==> crate::bindgen::block_texts(blocks@) == old(self)@.blocks.skip(
                old(self)@.blocks.len() - n,
            ) && blocks@.len() == n && final(self)@ == (BindState {
                blocks: old(self)@.blocks.take(old(self)@.blocks.len() - n),
                ..old(self)@
            }),
    {
        if self.blocks.len() < n {
            return Err(Error::Malformed);
        }
        let at = self.blocks.len() - n;
        let blocks = self.blocks.split_off(at);
        assert(crate::bindgen::block_texts(blocks@) =~= old(self)@.blocks.skip(at as int));
        assert(self@.blocks =~= old(self)@.blocks.take(at as int));
        Ok(blocks)
    }

    /// Takes the last `n` payload names, oldest first. It fails where there
    /// are fewer.
    pub(crate) fn take_payloads(&mut self, n: usize) -> (r: Result<Vec<String>, Error>)
        ensures
            r is Ok <==> n <= old(self)@.payloads.len(),
            r is Err ==> (r matches Err(Error::Malformed)) && final(self)@ == old(self)@,
            r matches Ok(names) ==> strs(names@) == old(self)@.payloads.skip(
                old(self)@.payloads.len() - n,
            ) && names@.len() == n && final(self)@ == (BindState {
                payloads: old(self)@.payloads.take(old(self)@.payloads.len() - n),
                ..old(self)@
            }),
    {
        if self.payloads.len() < n {
            return Err(Error::Malformed);
        }
        let at = self.payloads.len() - n;
        let names = self.payloads.split_off(at);
        assert(strs(names@) =~= old(self)@.payloads.skip(at as int));
        assert(self@.payloads =~= old(self)@.payloads.take(at as int));
        Ok(names)
    }

    /// Lowers a value of a sum type whose cases have the payload types
    /// `tys`, found in the value at `members`: declares a local named after
    /// `prefix` for each result type and prints a switch that begins with
    /// `head` and has an arm for each case.
    #[verifier::rlimit(50)]
    pub(crate) fn emit_lower(
        &mut self,
        gen: &mut C,
        iface: &Interface,
        tys: &Vec<Option<Type>>,
        members: &Vec<Vec<String>>,
        prefix: &str,
        head: &Vec<String>,
        result_types: &Vec<WasmType>,
        operands: &Vec<String>,
        results: &mut Vec<String>,
    ) -> (r: Result<(), Error>)
        requires
            iface.wf(),
            members@.len() == tys@.len(),
            forall|i: int| 0 <= i < tys@.len() ==> iface.has_opt(#[trigger] tys@[i]),
        ensures
            met(
                lower_outcome(
                    old(self)@,
                    old(gen)@,
                    *iface,
                    tys@,
                    strss(members@),
                    prefix@,
                    strs(head@),
                    result_types@,
                    strs(operands@),
                ),
                r,
                final(self)@,
                final(gen)@,
                strs(old(results)@),
                strs(final(results)@),
            ),
    {
        let n = tys.len();
        if operands.len() < 1 || self.blocks.len() < n || self.payloads.len() < n {
            return Err(Error::Malformed);
        }
        let blocks = match self.take_blocks(n) {
            Ok(b) => b,
            Err(e) => {
                return Err(e);
            },
        };
        let payloads = match self.take_payloads(n) {
            Ok(p) => p,
            Err(e) => {
                return Err(e);
            },
        };
        let names = self.declare_results(prefix, result_types, results);
        self.write_all(head);
        let ghost b1 = self@;
        let ghost g0 = gen@;
        let ghost arm = lower_arm(
            payload_texts(*iface, tys@),
            strss(members@),
            crate::bindgen::block_texts(blocks@),
            strs(payloads@),
            operands@[0]@,
            strs(names@),
        );
        let mut i: usize = 0;
        while i < n
            invariant
                iface.wf(),
                n == tys@.len(),
                members@.len() == n,
                blocks@.len() == n,
                payloads@.len() == n,
                operands@.len() >= 1,
                i <= n,
                forall|j: int| 0 <= j < tys@.len() ==> iface.has_opt(#[trigger] tys@[j]),
                arm == lower_arm(
                    payload_texts(*iface, tys@),
                    strss(members@),
                    crate::bindgen::block_texts(blocks@),
                    strs(payloads@),
                    operands@[0]@,
                    strs(names@),
                ),
                self@ == b1.wrote(gather(i as nat, arm)),
                gen@ == noted_payloads(g0, *iface, tys@, i as nat),
            decreases n - i,
        {
            let ghost seen = gather(i as nat, arm);
            self.s("case ");
            let num = decimal_string(i);
            self.s(num.as_str());
            self.s(": {\n");
            self.write_bind(
                gen,
                iface,
                tys[i],
                payloads[i].as_str(),
                operands[0].as_str(),
                &members[i],
            );
            self.s(blocks[i].0.as_str());
            self.write_assigns(&names, &blocks[i].1);
            self.s("break;\n}\n");
            proof {
                let bt = crate::bindgen::block_texts(blocks@);
                assert(bt[i as int].body == blocks@[i as int].0@);
                assert(bt[i as int].results == strs(blocks@[i as int].1@));
                assert(arm(i as int) == ((seq!["case "@].push(decimal(i as nat)).push(": {\n"@)
                    + bind_pieces(
                    payload_text(*iface, tys@[i as int]),
                    payloads@[i as int]@,
                    operands@[0]@,
                    strs(members@[i as int]@),
                )).push(blocks@[i as int].0@) + assigns(
                    strs(names@),
                    strs(blocks@[i as int].1@),
                    least(names@.len(), blocks@[i as int].1@.len()),
                )).push("break;\n}\n"@));
                assert(gather((i + 1) as nat, arm) == seen + arm(i as int));
            }
            i += 1;
        }
        self.s("}\n");
        Ok(())
    }

    /// Lowers a variant.
    #[verifier::rlimit(50)]
    pub(crate) fn emit_variant_lower(
        &mut self,
        gen: &mut C,
        iface: &Interface,
        ty: usize,
        result_types: &Vec<WasmType>,
        operands: &Vec<String>,
        results: &mut Vec<String>,
    ) -> (r: Result<(), Error>)
        requires
            iface.wf(),
        ensures
            met(
                variant_lower_outcome(
                    old(self)@,
                    old(gen)@,
                    *iface,
                    ty,
                    result_types@,
                    strs(operands@),
                ),
                r,
                final(self)@,
                final(gen)@,
                strs(old(results)@),
                strs(final(results)@),
            ),
    {
        if ty >= iface.types.len() {
            return Err(Error::Malformed);
        }
        let cases = match &iface.types[ty].kind {
            TypeDefKind::Variant(cases) => cases,
            _ => {
                return Err(Error::Malformed);
            },
        };
        if operands.len() < 1 {
            return Err(Error::Malformed);
        }
        let mut tys: Vec<Option<Type>> = Vec::new();
        let mut members: Vec<Vec<String>> = Vec::new();
        let mut i: usize = 0;
        while i < cases.len()
            invariant
                iface.wf(),
                ty < iface.types@.len(),
                iface.types@[ty as int].kind == TypeDefKind::Variant(*cases),
                i <= cases@.len(),
                tys@.len() == i,
                members@.len() == i,
                forall|j: int| 0 <= j < i ==> tys@[j] == cases@[j].ty && iface.has_opt(tys@[j]),
                forall|j: int|
                    0 <= j < i ==> strs((#[trigger] members@[j])@) == seq![").val"@].push(
                        "."@,
                    ).push(snake_case(cases@[j].name@)),
            decreases cases@.len() - i,
        {
            proof {
                if cases@[i as int].ty is Some {
                    iface.lemma_slot(ty, i as int);
                }
            }
            tys.push(cases[i].ty);
            let mut m: Vec<String> = Vec::new();
            push_string(&mut m, String::from_str(").val"));
            push_string(&mut m, String::from_str("."));
            push_string(&mut m, snake(cases[i].name.as_str()));
            members.push(m);
            i += 1;
        }
        let mut head: Vec<String> = Vec::new();
        push_string(&mut head, String::from_str("switch ((int32_t) "));
        push_string(&mut head, concat3("(", operands[0].as_str(), ").tag"));
        push_string(&mut head, String::from_str(") {\n"));
        proof {
            assert(tys@ =~= case_types(cases@));
            assert(strss(members@) =~= variant_members(cases@));
        }
        self.emit_lower(gen, iface, &tys, &members, "variant", &head, result_types, operands, results)
    }

    /// Lowers a union.
    pub(crate) fn emit_union_lower(
        &mut self,
        gen: &mut C,
        iface: &Interface,
        ty: usize,
        result_types: &Vec<WasmType>,
        operands: &Vec<String>,
        results: &mut Vec<String>,
    ) -> (r: Result<(), Error>)
        requires
            iface.wf(),
        ensures
            met(
                union_lower_outcome(
                    old(self)@,
                    old(gen)@,
                    *iface,
                    ty,
                    result_types@,
                    strs(operands@),
                ),
                r,
                final(self)@,
                final(gen)@,
                strs(old(results)@),
                strs(final(results)@),
            ),
    {
        if ty >= iface.types.len() {
            return Err(Error::Malformed);
        }
        let cases = match &iface.types[ty].kind {
            TypeDefKind::Union(cases) => cases,
            _ => {
                return Err(Error::Malformed);
            },
        };
        if operands.len() < 1 {
            return Err(Error::Malformed);
        }
        let mut tys: Vec<Option<Type>> = Vec::new();
        let mut members: Vec<Vec<String>> = Vec::new();
        let mut i: usize = 0;
        while i < cases.len()
            invariant
                iface.wf(),
                ty < iface.types@.len(),
                iface.types@[ty as int].kind == TypeDefKind::Union(*cases),
                i <= cases@.len(),
                tys@.len() == i,
                members@.len() == i,
                forall|j: int| 0 <= j < i ==> tys@[j] == Some(cases@[j]) && iface.has_opt(tys@[j]),
                forall|j: int|
                    0 <= j < i ==> strs((#[trigger] members@[j])@) == seq![").val.f"@].push(
                        decimal(j as nat),
                    ),
            decreases cases@.len() - i,
        {
            proof {
                iface.lemma_slot(ty, i as int);
            }
            tys.push(Some(cases[i]));
            let mut m: Vec<String> = Vec::new();
            push_string(&mut m, String::from_str(").val.f"));
            push_string(&mut m, decimal_string(i));
            members.push(m);
            i += 1;
        }
        let mut head: Vec<String> = Vec::new();
        push_string(&mut head, String::from_str("switch (("));
        push_string(&mut head, operands[0].clone());
        push_string(&mut head, String::from_str(").tag) {\n"));
        proof {
            assert(tys@ =~= some_types(cases@));
            assert(strss(members@) =~= union_members(cases@.len()));
        }
        self.emit_lower(gen, iface, &tys, &members, "unionres", &head, result_types, operands, results)
    }

    /// Lifts a value of a sum type: declares a local named after `prefix`,
    /// sets its tag and prints a switch with an arm for each case.
    #[verifier::rlimit(50)]
    pub(crate) fn emit_lift(
        &mut self,
        gen: &mut C,
        iface: &Interface,
        ty: usize,
        suffixes: &Vec<Option<String>>,
        want: &Vec<usize>,
        prefix: &str,
        operands: &Vec<String>,
        results: &mut Vec<String>,
    ) -> (r: Result<(), Error>)
        requires
            iface.wf(),
            ty < iface.types@.len(),
            suffixes@.len() == want@.len(),
            forall|i: int| 0 <= i < want@.len() && suffixes@[i] is Some ==> want@[i] >= 1,
        ensures
            met(
                lift_outcome(
                    old(self)@,
                    old(gen)@,
                    *iface,
                    ty,
                    opt_strs(suffixes@),
                    want@,
                    prefix@,
                    strs(operands@),
                ),
                r,
                final(self)@,
                final(gen)@,
                strs(old(results)@),
                strs(final(results)@),
            ),
    {
        let n = want.len();
        if operands.len() < 1 || self.blocks.len() < n {
            return Err(Error::Malformed);
        }
        let blocks = match self.take_blocks(n) {
            Ok(b) => b,
            Err(e) => {
                return Err(e);
            },
        };
        let ghost bt = crate::bindgen::block_texts(blocks@);
        assert(bt == old(self)@.blocks.skip(old(self)@.blocks.len() - want@.len()));
        let mut i: usize = 0;
        while i < n
            invariant
                i <= n,
                n == want@.len(),
                blocks@.len() == n,
                operands@.len() >= 1,
                old(self)@.blocks.len() >= n,
                bt == old(self)@.blocks.skip(old(self)@.blocks.len() - want@.len()),
                bt == crate::bindgen::block_texts(blocks@),
                forall|j: int| 0 <= j < i ==> (#[trigger] bt[j]).results.len() == want@[j],
            decreases n - i,
        {
            assert(bt[i as int].results.len() == blocks@[i as int].1@.len());
            if blocks[i].1.len() != want[i] {
                assert(bt[i as int].results.len() != want@[i as int]);
                assert(!yield_counts(bt, want@));
                return Err(Error::Malformed);
            }
            i += 1;
        }
        let name = gen.type_string(iface, &Type::Id(ty));
        let result = self.tmp(prefix);
        self.s(name.as_str());
        self.s(" ");
        self.s(result.as_str());
        self.s(";\n");
        self.s(result.as_str());
        self.s(".tag = ");
        self.s(operands[0].as_str());
        self.s(";\n");
        self.s("switch ((int32_t) ");
        self.s(result.as_str());
        self.s(".tag) {\n");
        let ghost b1 = self@;
        let ghost arm = lift_arm(opt_strs(suffixes@), bt, result@);
        let mut i: usize = 0;
        while i < n
            invariant
                i <= n,
                n == want@.len(),
                suffixes@.len() == n,
                blocks@.len() == n,
                bt == crate::bindgen::block_texts(blocks@),
                yield_counts(bt, want@),
                forall|i: int| 0 <= i < want@.len() && suffixes@[i] is Some ==> want@[i] >= 1,
                arm == lift_arm(opt_strs(suffixes@), bt, result@),
                self@ == b1.wrote(gather(i as nat, arm)),
            decreases n - i,
        {
            let ghost seen = gather(i as nat, arm);
            self.s("case ");
            let num = decimal_string(i);
            self.s(num.as_str());
            self.s(": {\n");
            self.s(blocks[i].0.as_str());
            assert(bt[i as int].results.len() == want@[i as int]);
            assert(bt[i as int].results == strs(blocks@[i as int].1@));
            assert(bt[i as int].body == blocks@[i as int].0@);
            if let Some(suffix) = &suffixes[i] {
                let dst = concat2(result.as_str(), suffix.as_str());
                assert(strs(blocks@[i as int].1@)[0] == blocks@[i as int].1@[0]@);
                self.store_op(blocks[i].1[0].as_str(), dst.as_str());
            }
            self.s("break;\n}\n");
            proof {
                assert(arm(i as int) == (seq!["case "@].push(decimal(i as nat)).push(": {\n"@).push(
                    bt[i as int].body,
                ) + (match opt_strs(suffixes@)[i as int] {
                    Some(suffix) => store_op_pieces(bt[i as int].results[0], result@ + suffix),
                    None => Seq::empty(),
                })).push("break;\n}\n"@));
                assert(gather((i + 1) as nat, arm) == seen + arm(i as int));
            }
            i += 1;
        }
        self.s("}\n");
        push_string(results, result);
        assert(strs(old(results)@).push(result@) =~= strs(old(results)@) + seq![result@]);
        Ok(())
    }

    /// Lifts a variant.
    #[verifier::rlimit(50)]
    pub(crate) fn emit_variant_lift(
        &mut self,
        gen: &mut C,
        iface: &Interface,
        ty: usize,
        operands: &Vec<String>,
        results: &mut Vec<String>,
    ) -> (r: Result<(), Error>)
        requires
            iface.wf(),
        ensures
            met(
                variant_lift_outcome(old(self)@, old(gen)@, *iface, ty, strs(operands@)),
                r,
                final(self)@,
                final(gen)@,
                strs(old(results)@),
                strs(final(results)@),
            ),
    {
        if ty >= iface.types.len() {
            return Err(Error::Malformed);
        }
        let cases = match &iface.types[ty].kind {
            TypeDefKind::Variant(cases) => cases,
            _ => {
                return Err(Error::Malformed);
            },
        };
        let mut suffixes: Vec<Option<String>> = Vec::new();
        let mut want: Vec<usize> = Vec::new();
        assert(opt_strs(suffixes@) =~= Seq::<Option<Seq<char>>>::empty());
        let mut i: usize = 0;
        while i < cases.len()
            invariant
                iface.wf(),
                ty < iface.types@.len(),
                iface.types@[ty as int].kind == TypeDefKind::Variant(*cases),
                i <= cases@.len(),
                suffixes@.len() == i,
                want@.len() == i,
                forall|j: int| 0 <= j < i ==> want@[j] == variant_yields(cases@)[j],
                opt_strs(suffixes@) == variant_suffixes(*iface, cases@).take(i as int),
                forall|j: int| 0 <= j < i && suffixes@[j] is Some ==> want@[j] >= 1,
            decreases cases@.len() - i,
        {
            proof {
                if cases@[i as int].ty is Some {
                    iface.lemma_slot(ty, i as int);
                }
            }
            let ghost before = opt_strs(suffixes@);
            if let Some(_) = C::get_nonempty_type(iface, cases[i].ty) {
                let mut dst = String::from_str(".val");
                dst.append(".");
                let n = snake(cases[i].name.as_str());
                dst.append(n.as_str());
                suffixes.push(Some(dst));
            } else {
                suffixes.push(None);
            }
            if cases[i].ty.is_some() {
                want.push(1);
            } else {
                want.push(0);
            }
            assert(opt_strs(suffixes@) =~= before.push(
                variant_suffixes(*iface, cases@)[i as int],
            ));
            assert(variant_suffixes(*iface, cases@).take(i + 1) =~= variant_suffixes(
                *iface,
                cases@,
            ).take(i as int).push(variant_suffixes(*iface, cases@)[i as int]));
            i += 1;
        }
        proof {
            assert(want@ =~= variant_yields(cases@));
            assert(variant_suffixes(*iface, cases@).take(cases@.len() as int) =~= variant_suffixes(
                *iface,
                cases@,
            ));
        }
        self.emit_lift(gen, iface, ty, &suffixes, &want, "variant", operands, results)
    }

    /// Lifts a union.
    pub(crate) fn emit_union_lift(
        &mut self,
        gen: &mut C,
        iface: &Interface,
        ty: usize,
        operands: &Vec<String>,
        results: &mut Vec<String>,
    ) -> (r: Result<(), Error>)
        requires
            iface.wf(),
        ensures
            met(
                union_lift_outcome(old(self)@, old(gen)@, *iface, ty, strs(operands@)),
                r,
                final(self)@,
                final(gen)@,
                strs(old(results)@),
                strs(final(results)@),
            ),
    {
        if ty >= iface.types.len() {
            return Err(Error::Malformed);
        }
        let cases = match &iface.types[ty].kind {
            TypeDefKind::Union(cases) => cases,
            _ => {
                return Err(Error::Malformed);
            },
        };
        let mut suffixes: Vec<Option<String>> = Vec::new();
        let mut want: Vec<usize> = Vec::new();
        assert(opt_strs(suffixes@) =~= Seq::<Option<Seq<char>>>::empty());
        let mut i: usize = 0;
        while i < cases.len()
            invariant
                i <= cases@.len(),
                suffixes@.len() == i,
                want@.len() == i,
                forall|j: int| 0 <= j < i ==> want@[j] == 1,
                opt_strs(suffixes@) == union_suffixes(cases@.len()).take(i as int),
                forall|j: int| 0 <= j < i ==> suffixes@[j] is Some,
            decreases cases@.len() - i,
        {
            let ghost before = opt_strs(suffixes@);
            let num = decimal_string(i);
            suffixes.push(Some(concat2(".val.f", num.as_str())));
            want.push(1);
            assert(opt_strs(suffixes@) =~= before.push(union_suffixes(cases@.len())[i as int]));
            assert(union_suffixes(cases@.len()).take(i + 1) =~= union_suffixes(cases@.len()).take(
                i as int,
            ).push(union_suffixes(cases@.len())[i as int]));
            i += 1;
        }
        proof {
            assert(want@ =~= Seq::new(cases@.len(), |i: int| 1usize));
            assert(union_suffixes(cases@.len()).take(cases@.len() as int) =~= union_suffixes(
                cases@.len(),
            ));
        }
        self.emit_lift(gen, iface, ty, &suffixes, &want, "unionres", operands, results)
    }

    /// Prints the statement that binds `payload` to the address of a member
    /// of `op`, unless the payload type is absent or holds nothing.
    pub(crate) fn write_bind(
        &mut self,
        gen: &mut C,
        iface: &Interface,
        ty: Option<Type>,
        payload: &str,
        op: &str,
        member: &Vec<String>,
    )
        requires
            iface.wf(),
            iface.has_opt(ty),
        ensures
            final(gen)@ == noted_payload(old(gen)@, *iface, ty),
            final(self)@ == old(self)@.wrote(
                bind_pieces(payload_text(*iface, ty), payload@, op@, strs(member@)),
            ),
    {
        if let Some(t) = C::get_nonempty_type(iface, ty) {
            let name = gen.type_string(iface, &t);
            self.s("const ");
            self.s(name.as_str());
            self.s(" *");
            self.s(payload);
            self.s(" = &(");
            self.s(op);
            self.write_all(member);
            self.s(";\n");
        }
    }
}

/// The declarations of the first `n` names do not depend on the names behind
/// them.
pub(crate) proof fn lemma_decls_prefix(
    types: Seq<WasmType>,
    a: Seq<Seq<char>>,
    b: Seq<Seq<char>>,
    n: nat,
)
    requires
        n <= a.len() <= b.len(),
        forall|i: int| 0 <= i < n ==> a[i] == b[i],
    ensures
        decls(types, a, n) == decls(types, b, n),
    decreases n,
{
    if n > 0 {
        lemma_decls_prefix(types, a, b, (n - 1) as nat);
    }
}

} // verus!
