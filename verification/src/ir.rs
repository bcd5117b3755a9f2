//! The interface description that the generator consumes.
use vstd::prelude::*;

verus! {

/// A reference to a type: a primitive, or a definition of the interface by index.
#[derive(Clone, Copy, Debug, PartialEq, Eq, Structural)]
pub enum Type {
    Bool,
    U8,
    U16,
    U32,
    U64,
    S8,
    S16,
    S32,
    S64,
    Float32,
    Float64,
    Char,
    String,
    Id(usize),
}

/// A named field of a record.
#[derive(Clone, Debug)]
pub struct Field {
    pub name: String,
    pub ty: Type,
}

/// A case of a variant, with its payload if it has one.
#[derive(Clone, Debug)]
pub struct Case {
    pub name: String,
    pub ty: Option<Type>,
}

/// The structure of a type definition.
#[derive(Clone, Debug)]
pub enum TypeDefKind {
    Record(Vec<Field>),
    Flags(Vec<String>),
    Tuple(Vec<Type>),
    Variant(Vec<Case>),
    Enum(Vec<String>),
    Option(Type),
    Result { ok: Option<Type>, err: Option<Type> },
    Union(Vec<Type>),
    List(Type),
    Future(Option<Type>),
    Stream { element: Option<Type>, end: Option<Type> },
    Type(Type),
}

/// A type definition: anonymous where `name` is `None`.
#[derive(Clone, Debug)]
pub struct TypeDef {
    pub name: Option<String>,
    pub kind: TypeDefKind,
    pub docs: Option<String>,
}

/// A function of the interface.
#[derive(Clone, Debug)]
pub struct Function {
    pub name: String,
    pub params: Vec<(String, Type)>,
    pub results: Vec<Type>,
}

/// An interface: its name, its type definitions and its functions.
#[derive(Clone, Debug)]
pub struct Interface {
    pub name: String,
    pub types: Vec<TypeDef>,
    pub functions: Vec<Function>,
}

impl TypeDefKind {
    /// The type references that the definition holds, in order; `None` marks
    /// a payload that is absent.
    pub open spec fn slots(self) -> Seq<Option<Type>> {
        match self {
            TypeDefKind::Record(fields) => Seq::new(fields@.len(), |i: int| Some(fields@[i].ty)),
            TypeDefKind::Flags(_) => Seq::empty(),
            TypeDefKind::Tuple(types) => Seq::new(types@.len(), |i: int| Some(types@[i])),
            TypeDefKind::Variant(cases) => Seq::new(cases@.len(), |i: int| cases@[i].ty),
            TypeDefKind::Enum(_) => Seq::empty(),
            TypeDefKind::Option(t) => seq![Some(t)],
            TypeDefKind::Result { ok, err } => seq![ok, err],
            TypeDefKind::Union(types) => Seq::new(types@.len(), |i: int| Some(types@[i])),
            TypeDefKind::List(t) => seq![Some(t)],
            TypeDefKind::Future(t) => seq![t],
            TypeDefKind::Stream { element, end } => seq![element, end],
            TypeDefKind::Type(t) => seq![Some(t)],
        }
    }
}

impl TypeDefKind {
    /// The definition is one that only a named type can have.
    pub open spec fn needs_name(self) -> bool {
        self is Record || self is Flags || self is Enum || self is Variant || self is Union
    }

    /// The generator has code for this kind of definition: it is no future and
    /// no stream, a set of flags has at most 64 members, a variant has a case,
    /// and the number of cases fits a 32-bit discriminant.
    pub open spec fn supported(self) -> bool {
        match self {
            TypeDefKind::Future(_) => false,
            TypeDefKind::Stream { .. } => false,
            TypeDefKind::Flags(flags) => flags@.len() <= 64,
            TypeDefKind::Variant(cases) => 1 <= cases@.len() <= u32::MAX,
            TypeDefKind::Enum(cases) => cases@.len() <= u32::MAX,
            TypeDefKind::Union(cases) => cases@.len() <= u32::MAX,
            _ => true,
        }
    }
}

impl Interface {
    /// `rank` gives every definition a number above those of the definitions it
    /// mentions, all of which exist.
    pub open spec fn ranked_by(self, rank: Seq<nat>) -> bool {
        &&& rank.len() == self.types@.len()
        &&& forall|i: int, k: int|
            #![trigger self.types@[i].kind.slots()[k]]
            0 <= i < self.types@.len() && 0 <= k < self.types@[i].kind.slots().len()
                ==> match self.types@[i].kind.slots()[k] {
                Some(Type::Id(j)) => j < self.types@.len() && rank[j as int] < rank[i],
                _ => true,
            }
    }

    /// A ranking of the definitions, where there is one.
    pub open spec fn ranking(self) -> Seq<nat> {
        choose|rank: Seq<nat>| self.ranked_by(rank)
    }

    /// Every type reference resolves, no definition reaches itself, and
    /// records, flags, enums, variants and unions have names.
    pub open spec fn wf(self) -> bool {
        &&& exists|rank: Seq<nat>| self.ranked_by(rank)
        &&& forall|i: int|
            0 <= i < self.types@.len() && (#[trigger] self.types@[i]).kind.needs_name()
                ==> self.types@[i].name is Some
    }

    /// The interface is well formed and the generator has code for every
    /// definition in it.
    pub open spec fn supported(self) -> bool {
        &&& self.wf()
        &&& forall|i: int|
            0 <= i < self.types@.len() ==> (#[trigger] self.types@[i]).kind.supported()
    }

    /// A type reference resolves in this interface.
    pub open spec fn has(self, ty: Type) -> bool {
        match ty {
            Type::Id(i) => i < self.types@.len(),
            _ => true,
        }
    }

    /// An absent type, or one that resolves.
    pub open spec fn has_opt(self, ty: Option<Type>) -> bool {
        match ty {
            Some(t) => self.has(t),
            None => true,
        }
    }

    /// The height of a type reference: 0 for a primitive, and above the height
    /// of whatever its definition mentions.
    pub open spec fn height(self, ty: Type) -> nat {
        match ty {
            Type::Id(i) => self.ranking()[i as int] + 1,
            _ => 0,
        }
    }

    /// The type in slot `k` of definition `i`. Only meant for a slot that is
    /// filled.
    pub open spec fn slot(self, i: usize, k: int) -> Type {
        self.types@[i as int].kind.slots()[k]->0
    }

    /// Slot `k` of definition `i` exists and holds a type.
    pub open spec fn filled(self, i: usize, k: int) -> bool {
        &&& i < self.types@.len()
        &&& 0 <= k < self.types@[i as int].kind.slots().len()
        &&& self.types@[i as int].kind.slots()[k] is Some
    }

    /// What a definition mentions resolves and lies below it.
    pub proof fn lemma_slot(self, i: usize, k: int)
        requires
            self.wf(),
            self.filled(i, k),
        ensures
            self.has(self.slot(i, k)),
            self.height(self.slot(i, k)) < self.height(Type::Id(i)),
    {
        let rank = self.ranking();
        assert(self.ranked_by(rank));
        let s = self.types@[i as int].kind.slots()[k];
        assert(s is Some);
    }
}

} // verus!
