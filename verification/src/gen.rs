//! The generator and its state.
use vstd::prelude::*;
use std::collections::BTreeSet;
use std::collections::HashMap;
use wit_bindgen_core::Ns;
use crate::pool::ns_new;
use crate::pool::pool;
use crate::pool::vacant;
use crate::pool::Pool;
use crate::repr::Direction;
use crate::text::blank;
use crate::text::buf;
use crate::text::push;
use crate::text::source_new;
use crate::text::source_push;
use crate::text::Buf;

verus! {

/// The header buffer and the implementation buffer.
pub struct Sources {
    pub h: wit_bindgen_core::Source,
    pub c: wit_bindgen_core::Source,
}

/// What one function contributes to the header and to the implementation.
pub struct Func {
    pub h: String,
    pub c: String,
}

/// The functions printed for one interface, in the order they were printed.
pub struct Module {
    pub name: String,
    pub funcs: Vec<Func>,
}

/// The generator's options.
#[derive(Default, Debug, Clone)]
pub struct Opts {
}

/// The generator of C guest bindings.
pub struct C {
    pub src: Sources,
    pub in_import: bool,
    pub opts: Opts,
    pub funcs: Vec<Module>,
    pub return_pointer_area_size: usize,
    pub return_pointer_area_align: usize,
    pub names: Ns,
    /// The anonymous types that the header names. They are found when a type
    /// name is printed, and their definitions are printed at the end.
    pub public_anonymous_types: BTreeSet<usize>,
    /// The anonymous types that only function bodies name. Their definitions
    /// go to the implementation file.
    pub private_anonymous_types: BTreeSet<usize>,
    /// The definition printed for each type, by its index.
    pub types: HashMap<usize, String>,
    pub needs_string: bool,
    pub direction: Direction,
}

/// The text of one function's contribution.
pub struct FuncText {
    pub h: Seq<char>,
    pub c: Seq<char>,
}

/// The text filed under one interface name.
pub struct ModuleText {
    pub name: Seq<char>,
    pub funcs: Seq<FuncText>,
}

/// The generator's state.
pub struct GenState {
    pub h: Buf,
    pub c: Buf,
    pub in_import: bool,
    pub funcs: Seq<ModuleText>,
    pub area_size: nat,
    pub area_align: nat,
    pub names: Pool,
    pub public: Set<usize>,
    pub private: Set<usize>,
    pub types: Map<usize, Seq<char>>,
    pub needs_string: bool,
    pub direction: Direction,
}

impl View for Func {
    type V = FuncText;

    open spec fn view(&self) -> FuncText {
        FuncText { h: self.h@, c: self.c@ }
    }
}

impl View for Module {
    type V = ModuleText;

    open spec fn view(&self) -> ModuleText {
        ModuleText { name: self.name@, funcs: Seq::new(self.funcs@.len(), |i: int| self.funcs@[i]@) }
    }
}

impl View for C {
    type V = GenState;

    open spec fn view(&self) -> GenState {
        GenState {
            h: buf(self.src.h),
            c: buf(self.src.c),
            in_import: self.in_import,
            funcs: Seq::new(self.funcs@.len(), |i: int| self.funcs@[i]@),
            area_size: self.return_pointer_area_size as nat,
            area_align: self.return_pointer_area_align as nat,
            names: pool(self.names),
            public: self.public_anonymous_types@,
            private: self.private_anonymous_types@,
            types: self.types@.map_values(|s: String| s@),
            needs_string: self.needs_string,
            direction: self.direction,
        }
    }
}

impl GenState {
    /// The state of a generator that has done nothing yet.
    pub open spec fn initial() -> GenState {
        GenState {
            h: blank(),
            c: blank(),
            in_import: false,
            funcs: Seq::empty(),
            area_size: 0,
            area_align: 0,
            names: vacant(),
            public: Set::empty(),
            private: Set::empty(),
            types: Map::empty(),
            needs_string: false,
            direction: Direction::Import,
        }
    }
}

impl Sources {
    /// Two empty buffers.
    pub fn new() -> (r: Sources)
        ensures
            buf(r.h) == blank(),
            buf(r.c) == blank(),
    {
        Sources { h: source_new(), c: source_new() }
    }

    /// Pushes a piece into the implementation buffer.
    pub fn c(&mut self, s: &str)
        ensures
            buf(final(self).c) == push(buf(old(self).c), s@),
            final(self).h == old(self).h,
    {
        source_push(&mut self.c, s);
    }

    /// Pushes a piece into the header buffer.
    pub fn h(&mut self, s: &str)
        ensures
            buf(final(self).h) == push(buf(old(self).h), s@),
            final(self).c == old(self).c,
    {
        source_push(&mut self.h, s);
    }
}

impl Opts {
    /// A generator with these options.
    pub fn build(&self) -> (r: C)
        ensures
            r@ == GenState::initial(),
    {
        let mut r = C::new();
        r.opts = self.clone();
        r
    }
}

impl C {
    /// A generator that has done nothing yet.
    pub fn new() -> (r: C)
        ensures
            r@ == GenState::initial(),
    {
        let r = C {
            src: Sources::new(),
            in_import: false,
            opts: Opts {  },
            funcs: Vec::new(),
            return_pointer_area_size: 0,
            return_pointer_area_align: 0,
            names: ns_new(),
            public_anonymous_types: BTreeSet::new(),
            private_anonymous_types: BTreeSet::new(),
            types: HashMap::new(),
            needs_string: false,
            direction: Direction::Import,
        };
        assert(r@.funcs =~= Seq::empty());
        assert(r@.types =~= Map::empty());
        r
    }
}

} // verus!
