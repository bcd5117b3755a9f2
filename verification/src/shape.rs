//! What a type is like: how it is passed, whether it holds anything, whether
//! it owns memory, and whether a list of it can be passed as it lies.
use vstd::prelude::*;
use crate::gen::C;
use crate::ir::Interface;
use crate::ir::Type;
use crate::ir::TypeDefKind;

verus! {

impl TypeDefKind {
    /// The number of type slots of the definition.
    pub(crate) fn slot_count(&self) -> (n: usize)
        ensures
            n == self.slots().len(),
    {
        match self {
            TypeDefKind::Record(fields) => fields.len(),
            TypeDefKind::Flags(_) => 0,
            TypeDefKind::Tuple(types) => types.len(),
            TypeDefKind::Variant(cases) => cases.len(),
            TypeDefKind::Enum(_) => 0,
            TypeDefKind::Option(_) => 1,
            TypeDefKind::Result { .. } => 2,
            TypeDefKind::Union(types) => types.len(),
            TypeDefKind::List(_) => 1,
            TypeDefKind::Future(_) => 1,
            TypeDefKind::Stream { .. } => 2,
            TypeDefKind::Type(_) => 1,
        }
    }

    /// The type in slot `k`, if the slot is filled.
    pub(crate) fn slot_type(&self, k: usize) -> (t: Option<Type>)
        requires
            k < self.slots().len(),
        ensures
            t == self.slots()[k as int],
    {
        match self {
            TypeDefKind::Record(fields) => Some(fields[k].ty),
            TypeDefKind::Flags(_) => None,
            TypeDefKind::Tuple(types) => Some(types[k]),
            TypeDefKind::Variant(cases) => cases[k].ty,
            TypeDefKind::Enum(_) => None,
            TypeDefKind::Option(t) => Some(*t),
            TypeDefKind::Result { ok, err } => if k == 0 {
                *ok
            } else {
                *err
            },
            TypeDefKind::Union(types) => Some(types[k]),
            TypeDefKind::List(t) => Some(*t),
            TypeDefKind::Future(t) => *t,
            TypeDefKind::Stream { element, end } => if k == 0 {
                *element
            } else {
                *end
            },
            TypeDefKind::Type(t) => Some(*t),
        }
    }
}

impl Interface {
    /// A value of the type crosses a function boundary by pointer: a string,
    /// a list, a tuple, a record, a variant, a union, an option or a result,
    /// or an alias of one.
    pub open spec fn by_pointer(self, ty: Type) -> bool
        decreases self.height(ty),
        when self.wf() && self.has(ty)
    {
        match ty {
            Type::String => true,
            Type::Id(i) => match self.types@[i as int].kind {
                TypeDefKind::Type(t) => {
                    proof {
                        self.lemma_slot(i, 0);
                    }
                    self.by_pointer(t)
                },
                TypeDefKind::Enum(_) => false,
                TypeDefKind::Flags(_) => false,
                TypeDefKind::Future(_) => false,
                TypeDefKind::Stream { .. } => false,
                _ => true,
            },
            _ => false,
        }
    }

    /// The type holds nothing: a record without fields, a tuple without
    /// elements, or an alias of one.
    pub open spec fn is_empty(self, ty: Type) -> bool
        decreases self.height(ty),
        when self.wf() && self.has(ty)
    {
        match ty {
            Type::Id(i) => match self.types@[i as int].kind {
                TypeDefKind::Type(t) => {
                    proof {
                        self.lemma_slot(i, 0);
                    }
                    self.is_empty(t)
                },
                TypeDefKind::Record(fields) => fields@.len() == 0,
                TypeDefKind::Tuple(types) => types@.len() == 0,
                _ => false,
            },
            _ => false,
        }
    }

    /// The type, unless it is absent or holds nothing.
    pub open spec fn nonempty(self, ty: Option<Type>) -> Option<Type> {
        match ty {
            Some(t) => if self.is_empty(t) {
                None
            } else {
                Some(t)
            },
            None => None,
        }
    }

    /// A value of the type can hold a heap allocation: a string or a list
    /// always, an alias, record, tuple, variant, union, option or result where
    /// something in it can.
    pub open spec fn owns(self, ty: Type) -> bool
        decreases self.height(ty),
        when self.wf() && self.has(ty)
    {
        match ty {
            Type::String => true,
            Type::Id(i) => match self.types@[i as int].kind {
                TypeDefKind::List(_) => true,
                TypeDefKind::Flags(_) => false,
                TypeDefKind::Enum(_) => false,
                TypeDefKind::Future(_) => false,
                TypeDefKind::Stream { .. } => false,
                _ => exists|k: int|
                    self.filled(i, k) && {
                        proof {
                            self.lemma_slot(i, k);
                        }
                        self.owns(#[trigger] self.slot(i, k))
                    },
            },
            _ => false,
        }
    }

    /// An absent type owns nothing.
    pub open spec fn owns_opt(self, ty: Option<Type>) -> bool {
        match ty {
            Some(t) => self.owns(t),
            None => false,
        }
    }

    /// Every bit pattern of the type's size is a value of it, so that a list
    /// of it can be passed as it lies in memory: the integers and floats, and
    /// records, tuples and aliases of such.
    pub open spec fn all_bits_valid(self, ty: Type) -> bool
        decreases self.height(ty),
        when self.wf() && self.has(ty)
    {
        match ty {
            Type::Bool => false,
            Type::Char => false,
            Type::String => false,
            Type::Id(i) => match self.types@[i as int].kind {
                TypeDefKind::Type(_) | TypeDefKind::Record(_) | TypeDefKind::Tuple(_) => forall|
                    k: int,
                |
                    self.filled(i, k) ==> {
                        proof {
                            self.lemma_slot(i, k);
                        }
                        self.all_bits_valid(#[trigger] self.slot(i, k))
                    },
                _ => false,
            },
            _ => true,
        }
    }
}

impl C {
    /// Whether a value of the type is passed by pointer.
    pub fn is_arg_by_pointer(iface: &Interface, ty: &Type) -> (r: bool)
        requires
            iface.supported(),
            iface.has(*ty),
        ensures
            r == iface.by_pointer(*ty),
        decreases iface.height(*ty),
    {
        match ty {
            Type::Id(id) => match &iface.types[*id].kind {
                TypeDefKind::Type(t) => {
                    proof {
                        iface.lemma_slot(*id, 0);
                    }
                    C::is_arg_by_pointer(iface, t)
                },
                TypeDefKind::Variant(_) => true,
                TypeDefKind::Union(_) => true,
                TypeDefKind::Option(_) => true,
                TypeDefKind::Result { .. } => true,
                TypeDefKind::Enum(_) => false,
                TypeDefKind::Flags(_) => false,
                TypeDefKind::Tuple(_) | TypeDefKind::Record(_) | TypeDefKind::List(_) => true,
                TypeDefKind::Future(_) => false,
                TypeDefKind::Stream { .. } => false,
            },
            Type::String => true,
            _ => false,
        }
    }

    /// Whether the type holds nothing.
    pub fn is_empty_type(iface: &Interface, ty: &Type) -> (r: bool)
        requires
            iface.wf(),
            iface.has(*ty),
        ensures
            r == iface.is_empty(*ty),
        decreases iface.height(*ty),
    {
        let id = match ty {
            Type::Id(id) => *id,
            _ => {
                return false;
            },
        };
        match &iface.types[id].kind {
            TypeDefKind::Type(t) => {
                proof {
                    iface.lemma_slot(id, 0);
                }
                C::is_empty_type(iface, t)
            },
            TypeDefKind::Record(r) => r.len() == 0,
            TypeDefKind::Tuple(t) => t.len() == 0,
            _ => false,
        }
    }

    /// The type, unless it is absent or holds nothing.
    pub fn get_nonempty_type(iface: &Interface, ty: Option<Type>) -> (r: Option<Type>)
        requires
            iface.wf(),
            iface.has_opt(ty),
        ensures
            r == iface.nonempty(ty),
    {
        match ty {
            Some(ty) => {
                if C::is_empty_type(iface, &ty) {
                    None
                } else {
                    Some(ty)
                }
            },
            None => None,
        }
    }

    /// Whether a value of the type can hold a heap allocation.
    pub fn owns_anything(iface: &Interface, ty: &Type) -> (r: bool)
        requires
            iface.supported(),
            iface.has(*ty),
        ensures
            r == iface.owns(*ty),
        decreases iface.height(*ty),
    {
        let id = match ty {
            Type::Id(id) => *id,
            Type::String => {
                return true;
            },
            _ => {
                return false;
            },
        };
        let kind = &iface.types[id].kind;
        match kind {
            TypeDefKind::Flags(_) => false,
            TypeDefKind::Enum(_) => false,
            TypeDefKind::List(_) => true,
            TypeDefKind::Future(_) => false,
            TypeDefKind::Stream { .. } => false,
            _ => {
                let n = kind.slot_count();
                let mut k: usize = 0;
                while k < n
                    invariant
                        iface.supported(),
                        *ty == Type::Id(id),
                        id < iface.types@.len(),
                        kind == iface.types@[id as int].kind,
                        n == kind.slots().len(),
                        k <= n,
                        !(kind is Flags || kind is Enum || kind is List || kind is Future
                            || kind is Stream),
                        forall|j: int| 0 <= j < k && iface.filled(id, j) ==> !iface.owns(iface.slot(id, j)),
                    decreases n - k,
                {
                    if let Some(t) = kind.slot_type(k) {
                        proof {
                            iface.lemma_slot(id, k as int);
                        }
                        if C::owns_anything(iface, &t) {
                            assert(iface.filled(id, k as int) && iface.owns(iface.slot(id, k as int)));
                            return true;
                        }
                    }
                    k += 1;
                }
                false
            },
        }
    }

    /// Whether a type that may be absent can hold a heap allocation.
    pub fn optional_owns_anything(iface: &Interface, ty: Option<Type>) -> (r: bool)
        requires
            iface.supported(),
            iface.has_opt(ty),
        ensures
            r == iface.owns_opt(ty),
    {
        match ty {
            Some(ty) => C::owns_anything(iface, &ty),
            None => false,
        }
    }

    /// Whether a list of the type can be passed as it lies in memory.
    pub fn is_list_canonical(iface: &Interface, ty: &Type) -> (r: bool)
        requires
            iface.wf(),
            iface.has(*ty),
        ensures
            r == iface.all_bits_valid(*ty),
        decreases iface.height(*ty),
    {
        match ty {
            Type::Bool | Type::Char | Type::String => false,
            Type::Id(id) => {
                let kind = &iface.types[*id].kind;
                match kind {
                    TypeDefKind::Type(_) | TypeDefKind::Record(_) | TypeDefKind::Tuple(_) => {
                        let n = kind.slot_count();
                        let mut k: usize = 0;
                        while k < n
                            invariant
                                iface.wf(),
                                *ty == Type::Id(*id),
                                *id < iface.types@.len(),
                                kind == iface.types@[*id as int].kind,
                                n == kind.slots().len(),
                                k <= n,
                                kind is Type || kind is Record || kind is Tuple,
                                forall|j: int|
                                    0 <= j < k && iface.filled(*id, j) ==> iface.all_bits_valid(
                                        iface.slot(*id, j),
                                    ),
                            decreases n - k,
                        {
                            if let Some(t) = kind.slot_type(k) {
                                proof {
                                    iface.lemma_slot(*id, k as int);
                                }
                                if !C::is_list_canonical(iface, &t) {
                                    assert(iface.filled(*id, k as int) && !iface.all_bits_valid(
                                        iface.slot(*id, k as int),
                                    ));
                                    return false;
                                }
                            }
                            k += 1;
                        }
                        true
                    },
                    _ => false,
                }
            },
            _ => true,
        }
    }
}

} // verus!
