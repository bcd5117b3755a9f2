//! The state that turns one function's instruction stream into statements.
use vstd::prelude::*;
use wit_bindgen_core::Ns;
use crate::gen::GenState;
use crate::gen::Sources;
use crate::gen::C;
use crate::pool::after_fresh;
use crate::pool::fresh;
use crate::pool::ns_new;
use crate::pool::ns_tmp;
use crate::pool::pool;
use crate::pool::vacant;
use crate::pool::Pool;
use crate::ret::Return;
use crate::ret::Shape;
use crate::text::blank;
use crate::text::buf;
use crate::text::concat2;
use crate::text::decimal;
use crate::text::decimal_string;
use crate::text::group_render;
use crate::text::push;
use crate::text::push_string;
use crate::text::render;
use crate::text::row3;
use crate::text::row4;
use crate::text::row5;
use crate::text::row6;
use crate::text::row7;
use crate::text::signed_decimal;
use crate::text::signed_decimal_string;
use crate::text::source_new;
use crate::text::source_push;
use crate::text::source_str;
use crate::text::strs;
use crate::text::Buf;

verus! {

broadcast use group_render;

/// What went wrong.
#[derive(Debug)]
pub enum Error {
    /// A name that is reserved was reserved again.
    Duplicate(String),
    /// The interface or the instruction stream holds what the generator has
    /// no code for.
    Unsupported,
    /// The instruction stream does not fit the generator's state.
    Malformed,
}

/// An [`Error`] as a value.
pub enum Failure {
    Duplicate(Seq<char>),
    Unsupported,
    Malformed,
}

impl View for Error {
    type V = Failure;

    open spec fn view(&self) -> Failure {
        match self {
            Error::Duplicate(name) => Failure::Duplicate(name@),
            Error::Unsupported => Failure::Unsupported,
            Error::Malformed => Failure::Malformed,
        }
    }
}

impl Error {
    /// The error in words.
    pub fn message(&self) -> (r: String)
        ensures
            r@ == match self@ {
                Failure::Duplicate(name) => "name `"@ + name + "` already defined"@,
                Failure::Unsupported => "unsupported type or instruction"@,
                Failure::Malformed => "malformed instruction stream"@,
            },
    {
        match self {
            Error::Duplicate(name) => crate::text::concat3("name `", name.as_str(), "` already defined"),
            Error::Unsupported => String::from_str("unsupported type or instruction"),
            Error::Malformed => String::from_str("malformed instruction stream"),
        }
    }
}

/// The public signature of a function.
pub struct CSig {
    pub name: String,
    pub sig: String,
    /// For each parameter, whether it is passed by pointer, and its name.
    pub params: Vec<(bool, String)>,
    pub ret: Return,
    /// The names of the trailing pointer parameters.
    pub retptrs: Vec<String>,
}

/// A [`CSig`] as a value.
pub struct SigView {
    pub name: Seq<char>,
    pub sig: Seq<char>,
    pub params: Seq<(bool, Seq<char>)>,
    pub ret: Shape,
    pub retptrs: Seq<Seq<char>>,
}

impl View for CSig {
    type V = SigView;

    open spec fn view(&self) -> SigView {
        SigView {
            name: self.name@,
            sig: self.sig@,
            params: Seq::new(self.params@.len(), |i: int| (self.params@[i].0, self.params@[i].1@)),
            ret: self.ret@,
            retptrs: strs(self.retptrs@),
        }
    }
}

/// A finished block: its statements and the operands it yields.
pub struct BlockText {
    pub body: Seq<char>,
    pub results: Seq<Seq<char>>,
}

/// The state of a [`FunctionBindgen`].
pub struct BindState {
    pub locals: Pool,
    pub src: Buf,
    pub sig: SigView,
    pub func_to_call: Seq<char>,
    pub block_storage: Seq<Buf>,
    pub blocks: Seq<BlockText>,
    pub payloads: Seq<Seq<char>>,
    pub params: Seq<Seq<char>>,
    pub wasm_return: Option<Seq<char>>,
    pub outer_h: Buf,
    pub outer_c: Buf,
}

/// Turns the instructions of one function into statements.
pub struct FunctionBindgen {
    pub locals: Ns,
    pub src: wit_bindgen_core::Source,
    pub sig: CSig,
    pub func_to_call: String,
    /// The statement buffers of the blocks that are open, innermost last.
    pub block_storage: Vec<wit_bindgen_core::Source>,
    /// The blocks that are finished and not yet used, latest last.
    pub blocks: Vec<(String, Vec<String>)>,
    /// The payload names that are bound and not yet used, latest last.
    pub payloads: Vec<String>,
    pub params: Vec<String>,
    pub wasm_return: Option<String>,
    /// The generator's buffers, set aside while the function is printed.
    pub outer: Sources,
}

/// The states of a list of buffers.
pub open spec fn bufs(v: Seq<wit_bindgen_core::Source>) -> Seq<Buf> {
    Seq::new(v.len(), |i: int| buf(v[i]))
}

/// A list of blocks as values.
pub open spec fn block_texts(v: Seq<(String, Vec<String>)>) -> Seq<BlockText> {
    Seq::new(v.len(), |i: int| BlockText { body: v[i].0@, results: strs(v[i].1@) })
}

impl View for FunctionBindgen {
    type V = BindState;

    open spec fn view(&self) -> BindState {
        BindState {
            locals: pool(self.locals),
            src: buf(self.src),
            sig: self.sig@,
            func_to_call: self.func_to_call@,
            block_storage: bufs(self.block_storage@),
            blocks: block_texts(self.blocks@),
            payloads: strs(self.payloads@),
            params: strs(self.params@),
            wasm_return: match self.wasm_return {
                Some(s) => Some(s@),
                None => None,
            },
            outer_h: buf(self.outer.h),
            outer_c: buf(self.outer.c),
        }
    }
}

impl BindState {
    /// The state with another statement buffer.
    pub open spec fn with_src(self, src: Buf) -> BindState {
        BindState { src, ..self }
    }

    /// The state after `pieces` were pushed into the statement buffer.
    pub open spec fn wrote(self, pieces: Seq<Seq<char>>) -> BindState {
        BindState { src: render(self.src, pieces), ..self }
    }

    /// The state after a fresh local name was taken for `prefix`.
    pub open spec fn took(self, prefix: Seq<char>) -> BindState {
        BindState { locals: after_fresh(self.locals, prefix), ..self }
    }
}

/// What an instruction does: the states after it and the operands it yields.
pub struct Outcome {
    pub bind: BindState,
    pub gen: GenState,
    pub results: Seq<Seq<char>>,
}

/// An instruction that leaves both states as they are and yields `results`.
pub open spec fn yields(b: BindState, g: GenState, results: Seq<Seq<char>>) -> Result<
    Outcome,
    Error,
> {
    Ok(Outcome { bind: b, gen: g, results })
}

/// A call did what `want` says: it failed with the error that `want` holds,
/// or it succeeded, left the states `b` and `g` that `want` holds, and
/// appended the results that `want` holds to `before`, giving `after`.
pub open spec fn met(
    want: Result<Outcome, Error>,
    r: Result<(), Error>,
    b: BindState,
    g: GenState,
    before: Seq<Seq<char>>,
    after: Seq<Seq<char>>,
) -> bool {
    match want {
        Ok(out) => r is Ok && b == out.bind && g == out.gen && after == before + out.results,
        Err(e) => r == Err::<(), Error>(e),
    }
}

/// The outcome of an instruction that only yields expressions.
pub open spec fn pure(b: BindState, g: GenState, want: Result<Seq<Seq<char>>, Error>) -> Result<
    Outcome,
    Error,
> {
    match want {
        Ok(results) => yields(b, g, results),
        Err(e) => Err(e),
    }
}

/// The outcome of an instruction that only prints statements.
pub open spec fn stmt(b: BindState, g: GenState, want: Result<Seq<Seq<char>>, Error>) -> Result<
    Outcome,
    Error,
> {
    match want {
        Ok(pieces) => yields(b.wrote(pieces), g, Seq::empty()),
        Err(e) => Err(e),
    }
}

/// A call yielded what `want` says: it failed with the error that `want`
/// holds, or it succeeded and appended the results that `want` holds.
pub open spec fn gave(
    want: Result<Seq<Seq<char>>, Error>,
    r: Result<(), Error>,
    before: Seq<Seq<char>>,
    after: Seq<Seq<char>>,
) -> bool {
    match want {
        Ok(results) => r is Ok && after == before + results,
        Err(e) => r == Err::<(), Error>(e),
    }
}

/// A call printed what `want` says: it failed with the error that `want`
/// holds, or it succeeded and pushed the pieces that `want` holds into the
/// statement buffer.
pub open spec fn printed(
    want: Result<Seq<Seq<char>>, Error>,
    r: Result<(), Error>,
    before: BindState,
    after: BindState,
) -> bool {
    match want {
        Ok(pieces) => r is Ok && after == before.wrote(pieces),
        Err(e) => r == Err::<(), Error>(e),
    }
}

/// The statement that stores `op` at `loc`.
pub open spec fn store_op_pieces(op: Seq<char>, loc: Seq<char>) -> Seq<Seq<char>> {
    seq![loc].push(" = "@).push(op).push(";\n"@)
}

/// The expression that loads a `ty` from `offset` bytes behind the address
/// `base`.
pub open spec fn load_expr(ty: Seq<char>, offset: int, base: Seq<char>) -> Seq<char> {
    "*(("@ + ty + "*) ("@ + base + " + "@ + signed_decimal(offset) + "))"@
}

/// The statement that stores `value` as a `ty` at `offset` bytes behind the
/// address `base`.
pub open spec fn store_pieces(ty: Seq<char>, offset: int, value: Seq<char>, base: Seq<char>) -> Seq<
    Seq<char>,
> {
    seq!["*(("@].push(ty).push("*)("@).push(base).push(" + "@).push(signed_decimal(offset)).push(
        ")) = "@,
    ).push(value).push(";\n"@)
}

/// The statements that store each operand through the pointer parameter of
/// the same position, for the first `n` of them.
pub open spec fn retptr_stores(operands: Seq<Seq<char>>, retptrs: Seq<Seq<char>>, n: nat) -> Seq<
    Seq<char>,
>
    decreases n,
{
    if n == 0 {
        Seq::empty()
    } else {
        retptr_stores(operands, retptrs, (n - 1) as nat) + store_op_pieces(
            operands[n - 1],
            "*"@ + retptrs[n - 1],
        )
    }
}

/// The statements that declare a return area of `size` bytes on the stack.
pub open spec fn stack_area_pieces(size: nat, align: nat) -> Seq<Seq<char>> {
    seq!["\n                    __attribute__((aligned("@].push(decimal(align)).push(
        ")))\n                    uint8_t ret_area["@,
    ).push(decimal(size)).push("];\n                "@)
}

/// The statements that bind the address of the return area to `ptr`.
pub open spec fn return_pointer_pieces(in_import: bool, size: nat, align: nat, ptr: Seq<char>) -> Seq<
    Seq<char>,
> {
    if in_import {
        stack_area_pieces(size, align).push("int32_t "@).push(ptr).push(
            " = (int32_t) &ret_area;\n"@,
        )
    } else {
        seq!["int32_t "@].push(ptr).push(" = (int32_t) &RET_AREA;\n"@)
    }
}

/// The larger of two numbers.
pub open spec fn larger(a: nat, b: nat) -> nat {
    if a >= b {
        a
    } else {
        b
    }
}

impl FunctionBindgen {
    /// A state for the function with signature `sig`, whose trampoline is
    /// `func_to_call`. `outer` holds the generator's buffers meanwhile.
    pub fn new(sig: CSig, func_to_call: &str, outer: Sources) -> (r: FunctionBindgen)
        ensures
            r@ == (BindState {
                locals: vacant(),
                src: blank(),
                sig: sig@,
                func_to_call: func_to_call@,
                block_storage: Seq::empty(),
                blocks: Seq::empty(),
                payloads: Seq::empty(),
                params: Seq::empty(),
                wasm_return: None,
                outer_h: buf(outer.h),
                outer_c: buf(outer.c),
            }),
    {
        let r = FunctionBindgen {
            locals: ns_new(),
            sig,
            src: source_new(),
            func_to_call: String::from_str(func_to_call),
            block_storage: Vec::new(),
            blocks: Vec::new(),
            payloads: Vec::new(),
            params: Vec::new(),
            wasm_return: None,
            outer,
        };
        assert(r@.block_storage =~= Seq::empty());
        assert(r@.blocks =~= Seq::empty());
        assert(r@.payloads =~= Seq::empty());
        assert(r@.params =~= Seq::empty());
        r
    }

    /// Pushes a piece into the statement buffer.
    pub fn s(&mut self, piece: &str)
        ensures
            final(self)@ == old(self)@.with_src(push(old(self)@.src, piece@)),
    {
        source_push(&mut self.src, piece);
    }

    /// Pushes three pieces into the statement buffer.
    pub(crate) fn line3(&mut self, a: &str, b: &str, c: &str)
        ensures
            final(self)@ == old(self)@.wrote(row3(a@, b@, c@)),
    {
        self.s(a);
        self.s(b);
        self.s(c);
    }

    /// Pushes four pieces into the statement buffer.
    pub(crate) fn line4(&mut self, a: &str, b: &str, c: &str, d: &str)
        ensures
            final(self)@ == old(self)@.wrote(row4(a@, b@, c@, d@)),
    {
        self.s(a);
        self.s(b);
        self.s(c);
        self.s(d);
    }

    /// Pushes five pieces into the statement buffer.
    pub(crate) fn line5(&mut self, a: &str, b: &str, c: &str, d: &str, e: &str)
        ensures
            final(self)@ == old(self)@.wrote(row5(a@, b@, c@, d@, e@)),
    {
        self.s(a);
        self.s(b);
        self.s(c);
        self.s(d);
        self.s(e);
    }

    /// Pushes six pieces into the statement buffer.
    pub(crate) fn line6(&mut self, a: &str, b: &str, c: &str, d: &str, e: &str, f: &str)
        ensures
            final(self)@ == old(self)@.wrote(row6(a@, b@, c@, d@, e@, f@)),
    {
        self.s(a);
        self.s(b);
        self.s(c);
        self.s(d);
        self.s(e);
        self.s(f);
    }

    /// Pushes seven pieces into the statement buffer.
    pub(crate) fn line7(&mut self, a: &str, b: &str, c: &str, d: &str, e: &str, f: &str, g: &str)
        ensures
            final(self)@ == old(self)@.wrote(row7(a@, b@, c@, d@, e@, f@, g@)),
    {
        self.s(a);
        self.s(b);
        self.s(c);
        self.s(d);
        self.s(e);
        self.s(f);
        self.s(g);
    }

    /// A fresh local name for `prefix`.
    pub fn tmp(&mut self, prefix: &str) -> (r: String)
        ensures
            r@ == fresh(old(self)@.locals, prefix@),
            final(self)@ == old(self)@.took(prefix@),
    {
        ns_tmp(&mut self.locals, prefix)
    }

    /// Prints the statement that stores `op` at `loc`.
    pub fn store_op(&mut self, op: &str, loc: &str)
        ensures
            final(self)@ == old(self)@.wrote(store_op_pieces(op@, loc@)),
    {
        self.s(loc);
        self.s(" = ");
        self.s(op);
        self.s(";\n");
    }

    /// The expression that loads a `ty` from `offset` bytes behind `base`.
    pub(crate) fn load_string(ty: &str, offset: i32, base: &str) -> (r: String)
        ensures
            r@ == load_expr(ty@, offset as int, base@),
    {
        let mut r = String::from_str("*((");
        r.append(ty);
        r.append("*) (");
        r.append(base);
        r.append(" + ");
        let off = signed_decimal_string(offset);
        r.append(off.as_str());
        r.append("))");
        r
    }

    /// Yields the expression that loads a `ty` from `offset` bytes behind
    /// the first operand.
    pub fn load(ty: &str, offset: i32, operands: &Vec<String>, results: &mut Vec<String>)
        requires
            operands@.len() >= 1,
        ensures
            strs(final(results)@) == strs(old(results)@).push(
                load_expr(ty@, offset as int, operands@[0]@),
            ),
    {
        let r = FunctionBindgen::load_string(ty, offset, operands[0].as_str());
        push_string(results, r);
    }

    /// Yields the expression that loads a `ty` that is narrower than 32 bits
    /// and widens it.
    pub fn load_ext(ty: &str, offset: i32, operands: &Vec<String>, results: &mut Vec<String>)
        requires
            operands@.len() >= 1,
        ensures
            strs(final(results)@) == strs(old(results)@).push(
                "(int32_t) ("@ + load_expr(ty@, offset as int, operands@[0]@) + ")"@,
            ),
    {
        let inner = FunctionBindgen::load_string(ty, offset, operands[0].as_str());
        let mut r = String::from_str("(int32_t) (");
        r.append(inner.as_str());
        r.append(")");
        push_string(results, r);
    }

    /// Prints the statement that stores the first operand as a `ty` at
    /// `offset` bytes behind the second.
    pub fn store(&mut self, ty: &str, offset: i32, operands: &Vec<String>)
        requires
            operands@.len() >= 2,
        ensures
            final(self)@ == old(self)@.wrote(
                store_pieces(ty@, offset as int, operands@[0]@, operands@[1]@),
            ),
    {
        self.s("*((");
        self.s(ty);
        self.s("*)(");
        self.s(operands[1].as_str());
        self.s(" + ");
        let off = signed_decimal_string(offset);
        self.s(off.as_str());
        self.s(")) = ");
        self.s(operands[0].as_str());
        self.s(";\n");
    }

    /// Prints the statements that store each operand through the pointer
    /// parameter of the same position.
    pub fn store_in_retptrs(&mut self, operands: &Vec<String>) -> (r: Result<(), Error>)
        ensures
            r is Ok <==> operands@.len() == old(self)@.sig.retptrs.len(),
            r is Err ==> r == Err::<(), Error>(Error::Malformed) && final(self)@ == old(self)@,
            r is Ok ==> final(self)@ == old(self)@.wrote(
                retptr_stores(strs(operands@), old(self)@.sig.retptrs, operands@.len() as nat),
            ),
    {
        if operands.len() != self.sig.retptrs.len() {
            return Err(Error::Malformed);
        }
        let mut k: usize = 0;
        while k < operands.len()
            invariant
                k <= operands@.len(),
                operands@.len() == self@.sig.retptrs.len(),
                self@ == old(self)@.wrote(
                    retptr_stores(strs(operands@), old(self)@.sig.retptrs, k as nat),
                ),
            decreases operands@.len() - k,
        {
            assert(self@.sig.retptrs[k as int] == self.sig.retptrs@[k as int]@);
            let loc = concat2("*", self.sig.retptrs[k].as_str());
            self.store_op(operands[k].as_str(), loc.as_str());
            k += 1;
        }
        Ok(())
    }

    /// Opens a block: what is printed from now on belongs to it.
    pub fn push_block(&mut self)
        ensures
            final(self)@ == (BindState {
                src: blank(),
                block_storage: old(self)@.block_storage.push(old(self)@.src),
                ..old(self)@
            }),
    {
        let mut prev = source_new();
        std::mem::swap(&mut self.src, &mut prev);
        self.block_storage.push(prev);
        assert(self@.block_storage =~= old(self)@.block_storage.push(old(self)@.src));
    }

    /// Closes the innermost block and keeps its statements, and the operands
    /// it yields, for the instruction that uses them. It fails where no block
    /// is open.
    pub fn finish_block(&mut self, operands: &mut Vec<String>) -> (r: Result<(), Error>)
        ensures
            r is Ok <==> old(self)@.block_storage.len() > 0,
            r is Err ==> r == Err::<(), Error>(Error::Malformed) && final(self)@ == old(self)@
                && final(operands)@ == old(operands)@,
            r is Ok ==> final(self)@ == (BindState {
                src: old(self)@.block_storage.last(),
                block_storage: old(self)@.block_storage.drop_last(),
                blocks: old(self)@.blocks.push(
                    BlockText { body: old(self)@.src.text, results: strs(old(operands)@) },
                ),
                ..old(self)@
            }) && final(operands)@.len() == 0,
    {
        let mut to_restore = match self.block_storage.pop() {
            Some(s) => s,
            None => {
                assert(self@.block_storage =~= old(self)@.block_storage);
                return Err(Error::Malformed);
            },
        };
        std::mem::swap(&mut self.src, &mut to_restore);
        let body = String::from_str(source_str(&to_restore));
        let mut yielded: Vec<String> = Vec::new();
        std::mem::swap(operands, &mut yielded);
        self.blocks.push((body, yielded));
        assert(self@.block_storage =~= old(self)@.block_storage.drop_last());
        assert(self@.blocks =~= old(self)@.blocks.push(
            BlockText { body: old(self)@.src.text, results: strs(old(operands)@) },
        ));
        Ok(())
    }

    /// Gives the address of a return area of `size` bytes, aligned to
    /// `align`: for an import an array on the stack, for an export the
    /// generator's static area, which grows to hold it.
    pub fn return_pointer(&mut self, gen: &mut C, size: usize, align: usize) -> (r: String)
        ensures
            r@ == fresh(old(self)@.locals, "ptr"@),
            final(gen)@ == (GenState {
                area_size: larger(old(gen)@.area_size, size as nat),
                area_align: larger(old(gen)@.area_align, align as nat),
                ..old(gen)@
            }),
            final(self)@ == old(self)@.took("ptr"@).wrote(
                return_pointer_pieces(old(gen)@.in_import, size as nat, align as nat, r@),
            ),
    {
        if size > gen.return_pointer_area_size {
            gen.return_pointer_area_size = size;
        }
        if align > gen.return_pointer_area_align {
            gen.return_pointer_area_align = align;
        }
        let ptr = self.tmp("ptr");

        if gen.in_import {
            // An import's return area lives on the stack.
            self.s("\n                    __attribute__((aligned(");
            let a = decimal_string(align);
            self.s(a.as_str());
            self.s(")))\n                    uint8_t ret_area[");
            let n = decimal_string(size);
            self.s(n.as_str());
            self.s("];\n                ");
            self.s("int32_t ");
            self.s(ptr.as_str());
            self.s(" = (int32_t) &ret_area;\n");
        } else {
            // An export's return area must outlive the call.
            self.s("int32_t ");
            self.s(ptr.as_str());
            self.s(" = (int32_t) &RET_AREA;\n");
        }

        ptr
    }
}

} // verus!
