//! What holds of the generator whatever the interface.
use vstd::prelude::*;
use crate::drain::all_defs;
use crate::drain::at_most;
use crate::drain::drained;
use crate::drain::due;
use crate::drain::lemma_pending_round;
use crate::drain::pending;
use crate::drain::round;
use crate::finish::all_drained;
use crate::finish::type_c_arm;
use crate::finish::type_h_arm;
use crate::finish::string_decls;
use crate::finish::string_defs;
use crate::finish::only_if;
use crate::gen::GenState;
use crate::ir::Function;
use crate::ir::Interface;
use crate::ir::Type;
use crate::ir::TypeDefKind;
use crate::pool::first_free;
use crate::pool::Pool;
use crate::repr::int_max;
use crate::repr::tag_width;
use crate::repr::Int;
use crate::sig::maybe;
use crate::text::snake_case;

verus! {

/// At most one number is the first
/// free one for a prefix, so the pool's state and the prefix decide the
/// fresh name.
pub proof fn fresh_name_is_determined(p: Pool, prefix: Seq<char>, a: nat, b: nat)
    requires
        first_free(p, prefix, a),
        first_free(p, prefix, b),
    ensures
        a == b,
{
    if a < b {
        assert(p.defined.contains(prefix + crate::text::decimal(a)));
    }
    if b < a {
        assert(p.defined.contains(prefix + crate::text::decimal(b)));
    }
}

impl Interface {
    /// The reference `s` in this interface and the reference `t` in
    /// `other` have the same structure: they are the same primitive, or name
    /// types of the same name, or stand for anonymous types of the same kind
    /// whose parts have the same structure.
    pub open spec fn same_shape(self, s: Type, other: Interface, t: Type) -> bool
        decreases self.height(s), 1 + self.slot_len(s),
        when self.wf() && self.has(s)
    {
        match (s, t) {
            (Type::Id(i), Type::Id(j)) => {
                &&& other.has(t)
                &&& match (self.types@[i as int].name, other.types@[j as int].name) {
                    (Some(a), Some(b)) => a@ == b@,
                    (None, None) => {
                        let p = self.types@[i as int].kind.slots();
                        let q = other.types@[j as int].kind.slots();
                        &&& self.types@[i as int].kind.same_kind(other.types@[j as int].kind)
                        &&& p.len() == q.len()
                        &&& self.same_slots(i, other, j, p.len())
                    },
                    _ => false,
                }
            },
            (Type::Id(_), _) => false,
            (_, Type::Id(_)) => false,
            _ => s == t,
        }
    }

    /// The first `n` slots of definition `i` here and of definition `j` in
    /// `other` are filled alike, with references of the same structure.
    pub open spec fn same_slots(self, i: usize, other: Interface, j: usize, n: nat) -> bool
        decreases self.height(Type::Id(i)), n,
        when self.wf() && i < self.types@.len() && n <= self.types@[i as int].kind.slots().len()
    {
        if n == 0 {
            true
        } else {
            &&& self.same_slots(i, other, j, (n - 1) as nat)
            &&& match (
                self.types@[i as int].kind.slots()[n - 1],
                other.types@[j as int].kind.slots()[n - 1],
            ) {
                (Some(a), Some(b)) => {
                    proof {
                        self.lemma_slot(i, n - 1);
                    }
                    self.same_shape(a, other, b)
                },
                (None, None) => true,
                _ => false,
            }
        }
    }
}

impl TypeDefKind {
    /// Both definitions are of the same kind.
    pub open spec fn same_kind(self, other: TypeDefKind) -> bool {
        match (self, other) {
            (TypeDefKind::Record(_), TypeDefKind::Record(_)) => true,
            (TypeDefKind::Flags(_), TypeDefKind::Flags(_)) => true,
            (TypeDefKind::Tuple(_), TypeDefKind::Tuple(_)) => true,
            (TypeDefKind::Variant(_), TypeDefKind::Variant(_)) => true,
            (TypeDefKind::Enum(_), TypeDefKind::Enum(_)) => true,
            (TypeDefKind::Option(_), TypeDefKind::Option(_)) => true,
            (TypeDefKind::Result { .. }, TypeDefKind::Result { .. }) => true,
            (TypeDefKind::Union(_), TypeDefKind::Union(_)) => true,
            (TypeDefKind::List(_), TypeDefKind::List(_)) => true,
            (TypeDefKind::Future(_), TypeDefKind::Future(_)) => true,
            (TypeDefKind::Stream { .. }, TypeDefKind::Stream { .. }) => true,
            (TypeDefKind::Type(_), TypeDefKind::Type(_)) => true,
            _ => false,
        }
    }
}

/// The slots of two definitions that are filled alike hold references
/// with the same names.
pub(crate) proof fn lemma_same_slots(a: Interface, i: usize, b: Interface, j: usize, n: nat)
    requires
        a.wf(),
        b.wf(),
        i < a.types@.len(),
        j < b.types@.len(),
        n <= a.types@[i as int].kind.slots().len(),
        n <= b.types@[j as int].kind.slots().len(),
        a.same_slots(i, b, j, n),
    ensures
        forall|k: int|
            0 <= k < n ==> match (
                #[trigger] a.types@[i as int].kind.slots()[k],
                b.types@[j as int].kind.slots()[k],
            ) {
                (Some(x), Some(y)) => a.name_pieces(x) == b.name_pieces(y),
                (None, None) => true,
                _ => false,
            },
        a.types@[i as int].kind is Tuple && b.types@[j as int].kind is Tuple ==> a.element_names(
            i,
            n,
        ) == b.element_names(j, n),
    decreases a.height(Type::Id(i)), n,
{
    if n > 0 {
        lemma_same_slots(a, i, b, j, (n - 1) as nat);
        match (a.types@[i as int].kind.slots()[n - 1], b.types@[j as int].kind.slots()[n - 1]) {
            (Some(x), Some(y)) => {
                a.lemma_slot(i, n - 1);
                b.lemma_slot(j, n - 1);
                names_follow_shape(a, x, b, y);
            },
            _ => {},
        }
    }
}

/// References of the same
/// structure have the same name, in whatever interface they stand: the name
/// of an anonymous type depends on nothing but what the type is made of.
pub proof fn names_follow_shape(a: Interface, s: Type, b: Interface, t: Type)
    requires
        a.wf(),
        b.wf(),
        a.has(s),
        a.same_shape(s, b, t),
    ensures
        a.name_pieces(s) == b.name_pieces(t),
    decreases a.height(s), 1 + a.slot_len(s),
{
    match (s, t) {
        (Type::Id(i), Type::Id(j)) => {
            match (a.types@[i as int].name, b.types@[j as int].name) {
                (None, None) => {
                    let p = a.types@[i as int].kind.slots();
                    let q = b.types@[j as int].kind.slots();
                    lemma_same_slots(a, i, b, j, p.len());
                    match (a.types@[i as int].kind, b.types@[j as int].kind) {
                        (TypeDefKind::Type(x), TypeDefKind::Type(y)) => {
                            assert(p[0] == Some(x) && q[0] == Some(y));
                            assert(a.name_pieces(s) == b.name_pieces(t));
                        },
                        (TypeDefKind::Option(x), TypeDefKind::Option(y)) => {
                            assert(p[0] == Some(x) && q[0] == Some(y));
                            assert(a.name_pieces(s) == b.name_pieces(t));
                        },
                        (TypeDefKind::List(x), TypeDefKind::List(y)) => {
                            assert(p[0] == Some(x) && q[0] == Some(y));
                            assert(a.name_pieces(s) == b.name_pieces(t));
                        },
                        (TypeDefKind::Tuple(x), TypeDefKind::Tuple(y)) => {
                            assert(x@.len() == p.len() && y@.len() == q.len());
                            assert(a.name_pieces(s) == b.name_pieces(t));
                        },
                        (
                            TypeDefKind::Result { ok: x0, err: x1 },
                            TypeDefKind::Result { ok: y0, err: y1 },
                        ) => {
                            assert(p[0] == x0 && q[0] == y0);
                            assert(p[1] == x1 && q[1] == y1);
                            b.lemma_opt_slot(j, 0);
                            b.lemma_opt_slot(j, 1);
                            a.lemma_opt_slot(i, 0);
                            a.lemma_opt_slot(i, 1);
                            assert(a.name_pieces(s) == b.name_pieces(t));
                        },
                        (TypeDefKind::Future(x), TypeDefKind::Future(y)) => {
                            assert(p[0] == x && q[0] == y);
                            b.lemma_opt_slot(j, 0);
                            a.lemma_opt_slot(i, 0);
                            assert(a.name_pieces(s) == b.name_pieces(t));
                        },
                        (
                            TypeDefKind::Stream { element: x0, end: x1 },
                            TypeDefKind::Stream { element: y0, end: y1 },
                        ) => {
                            assert(p[0] == x0 && q[0] == y0);
                            assert(p[1] == x1 && q[1] == y1);
                            b.lemma_opt_slot(j, 0);
                            b.lemma_opt_slot(j, 1);
                            a.lemma_opt_slot(i, 0);
                            a.lemma_opt_slot(i, 1);
                            assert(a.name_pieces(s) == b.name_pieces(t));
                        },
                        _ => {
                            assert(a.name_pieces(s) == b.name_pieces(t));
                        },
                    }
                },
                _ => {
                    assert(a.name_pieces(s) == b.name_pieces(t));
                },
            }
        },
        _ => {
            assert(a.name_pieces(s) == b.name_pieces(t));
        },
    }
}

impl Interface {
    /// What slot `k` of definition `i` holds resolves, if it holds
    /// anything.
    pub(crate) proof fn lemma_opt_slot(self, i: usize, k: int)
        requires
            self.wf(),
            i < self.types@.len(),
            0 <= k < self.types@[i as int].kind.slots().len(),
        ensures
            self.has_opt(self.types@[i as int].kind.slots()[k]),
            self.opt_name_pieces(self.types@[i as int].kind.slots()[k])
                == match self.types@[i as int].kind.slots()[k] {
                Some(t) => self.name_pieces(t),
                None => seq!["void"@],
            },
    {
        if self.types@[i as int].kind.slots()[k] is Some {
            self.lemma_slot(i, k);
        }
    }

    /// The number of strings and list buffers that a value of the type
    /// holds: one for a string, one for a list and what an element holds, and
    /// for any other type what its parts hold.
    pub open spec fn owned_leaves(self, ty: Type) -> nat
        decreases self.height(ty), 1 + self.slot_len(ty),
        when self.wf() && self.has(ty)
    {
        match ty {
            Type::String => 1,
            Type::Id(i) => match self.types@[i as int].kind {
                TypeDefKind::List(t) => {
                    proof {
                        self.lemma_slot(i, 0);
                    }
                    1 + self.owned_leaves(t)
                },
                TypeDefKind::Flags(_) => 0,
                TypeDefKind::Enum(_) => 0,
                TypeDefKind::Future(_) => 0,
                TypeDefKind::Stream { .. } => 0,
                _ => self.leaves_of_slots(i, self.types@[i as int].kind.slots().len()),
            },
            _ => 0,
        }
    }

    /// What the first `n` slots of definition `i` hold in strings and list
    /// buffers.
    pub open spec fn leaves_of_slots(self, i: usize, n: nat) -> nat
        decreases self.height(Type::Id(i)), n,
        when self.wf() && i < self.types@.len() && n <= self.types@[i as int].kind.slots().len()
    {
        if n == 0 {
            0
        } else {
            self.leaves_of_slots(i, (n - 1) as nat) + match self.types@[i as int].kind.slots()[n
                - 1] {
                Some(t) => {
                    proof {
                        self.lemma_slot(i, n - 1);
                    }
                    self.owned_leaves(t)
                },
                None => 0,
            }
        }
    }

    /// The number of strings and list buffers that the destructor of the
    /// type frees: none where the type has no destructor; one for a string;
    /// for a list its buffer and, if the elements have a destructor, what
    /// that frees; and for any other type what the destructors free that its
    /// own destructor calls, one for each part that owns memory.
    pub open spec fn freed_leaves(self, ty: Type) -> nat
        decreases self.height(ty), 1 + self.slot_len(ty),
        when self.wf() && self.has(ty)
    {
        if !self.owns(ty) {
            0
        } else {
            match ty {
                Type::String => 1,
                Type::Id(i) => match self.types@[i as int].kind {
                    TypeDefKind::List(t) => {
                        proof {
                            self.lemma_slot(i, 0);
                        }
                        1 + if self.owns(t) {
                            self.freed_leaves(t)
                        } else {
                            0
                        }
                    },
                    _ => self.freed_by_slots(i, self.types@[i as int].kind.slots().len()),
                },
                _ => 0,
            }
        }
    }

    /// What the calls free that the destructor of definition `i` makes for
    /// its first `n` slots.
    pub open spec fn freed_by_slots(self, i: usize, n: nat) -> nat
        decreases self.height(Type::Id(i)), n,
        when self.wf() && i < self.types@.len() && n <= self.types@[i as int].kind.slots().len()
    {
        if n == 0 {
            0
        } else {
            self.freed_by_slots(i, (n - 1) as nat) + if self.owning(i, n - 1) {
                proof {
                    self.lemma_slot(i, n - 1);
                }
                self.freed_leaves(self.slot(i, n - 1))
            } else {
                0
            }
        }
    }

    /// A type owns memory exactly if a value of
    /// it holds a string or a list buffer, and the destructor of a type frees
    /// each string and list buffer that a value holds exactly once: as many
    /// as there are.
    pub proof fn every_owned_leaf_is_freed_once(self, ty: Type)
        requires
            self.supported(),
            self.has(ty),
        ensures
            self.owns(ty) <==> self.owned_leaves(ty) > 0,
            self.freed_leaves(ty) == self.owned_leaves(ty),
        decreases self.height(ty), 1 + self.slot_len(ty),
    {
        match ty {
            Type::Id(i) => {
                let kind = self.types@[i as int].kind;
                assert(kind.supported());
                match kind {
                    TypeDefKind::List(t) => {
                        self.lemma_slot(i, 0);
                        self.every_owned_leaf_is_freed_once(t);
                    },
                    TypeDefKind::Flags(_) => {},
                    TypeDefKind::Enum(_) => {},
                    _ => {
                        let n = kind.slots().len();
                        self.lemma_slots_freed(i, n);
                        if self.owns(ty) {
                            let k = choose|k: int|
                                self.filled(i, k) && self.owns(#[trigger] self.slot(i, k));
                            assert(self.owning(i, k));
                        }
                        if self.leaves_of_slots(i, n) > 0 {
                            let k = choose|k: int| 0 <= k < n && self.owning(i, k);
                            assert(self.filled(i, k) && self.owns(self.slot(i, k)));
                        }
                    },
                }
            },
            _ => {},
        }
    }

    /// What the destructor calls free for the first `n` slots is what the
    /// slots hold, which is something exactly if one of them owns memory.
    pub(crate) proof fn lemma_slots_freed(self, i: usize, n: nat)
        requires
            self.supported(),
            i < self.types@.len(),
            n <= self.types@[i as int].kind.slots().len(),
        ensures
            self.freed_by_slots(i, n) == self.leaves_of_slots(i, n),
            self.leaves_of_slots(i, n) > 0 <==> exists|k: int| 0 <= k < n && self.owning(i, k),
        decreases self.height(Type::Id(i)), n,
    {
        if n > 0 {
            self.lemma_slots_freed(i, (n - 1) as nat);
            match self.types@[i as int].kind.slots()[n - 1] {
                Some(t) => {
                    self.lemma_slot(i, n - 1);
                    self.every_owned_leaf_is_freed_once(t);
                    if self.owning(i, n - 1) {
                        assert(0 <= n - 1 < n && self.owning(i, n - 1));
                    }
                },
                None => {},
            }
            if exists|k: int| 0 <= k < n && self.owning(i, k) {
                let k = choose|k: int| 0 <= k < n && self.owning(i, k);
                if k < n - 1 {
                    assert(0 <= k < n - 1 && self.owning(i, k));
                }
            }
            if exists|k: int| 0 <= k < n - 1 && self.owning(i, k) {
                let k = choose|k: int| 0 <= k < n - 1 && self.owning(i, k);
                assert(0 <= k < n && self.owning(i, k));
            }
        }
    }
}

/// The header declares a destructor for a
/// definition, and the implementation defines one, exactly if the type owns
/// memory.
pub proof fn destructor_iff_owning(iface: Interface, id: usize)
    ensures
        iface.dtor_header(id).len() > 0 <==> iface.owns(Type::Id(id)),
        iface.dtor_impl(id).len() > 0 <==> iface.owns(Type::Id(id)),
{
}

/// A function that returns the error
/// of a result as an enum returns -1 on success. Whatever the number of
/// cases, no case has the value that -1 has in the enum's integer type, the
/// largest value of that type.
pub proof fn sentinel_is_no_case(cases: nat, case: nat)
    requires
        cases <= u32::MAX,
        case < cases,
    ensures
        case < int_max(tag_width(cases)),
        case != int_max(tag_width(cases)),
{
}

/// An enum whose discriminant takes 8 bits has at most 255 cases, and
/// none of them has the value 255, which -1 has in 8 bits.
pub proof fn eight_bit_enum_leaves_the_sentinel(cases: nat, case: nat)
    requires
        tag_width(cases) == Int::U8,
        case < cases,
    ensures
        cases <= 255,
        case != 255,
{
}

/// The declaration of a function writes a
/// `*` before the name of a parameter exactly if values of the parameter's
/// type are passed by pointer, which is also what the signature records for
/// the body.
pub proof fn pointer_parity(iface: Interface, func: Function, i: int)
    requires
        0 <= i < func.params@.len(),
    ensures
        iface.sig_of(func).params[i].0 == iface.by_pointer(func.params@[i].1),
        iface.param_arm(func.params@)(i) == ((maybe(i > 0, ", "@) + iface.ty_pieces(
            func.params@[i].1,
        )).push(" "@) + maybe(iface.by_pointer(func.params@[i].1), "*"@)).push(
            snake_case(func.params@[i].0@),
        ),
        maybe(iface.by_pointer(func.params@[i].1), "*"@).len() == 1 <==> iface.by_pointer(
            func.params@[i].1,
        ),
{
}

/// No anonymous type is public and private at once: noting a reference
/// keeps the two sets apart, and so does a round of definitions.
pub proof fn public_and_private_stay_apart(g: GenState, iface: Interface, ty: Type, skip: bool)
    requires
        g.public.disjoint(g.private),
    ensures
        g.noted(iface, ty).public.disjoint(g.noted(iface, ty).private),
        g.noted_private(iface, ty).public.disjoint(g.noted_private(iface, ty).private),
        crate::drain::round(g, iface, skip).public.disjoint(
            crate::drain::round(g, iface, skip).private,
        ),
{
}

/// Noting a
/// reference sets the need for the string type exactly if the reference
/// stands for the string, and leaves it as it is otherwise.
pub proof fn string_needed_iff_named(g: GenState, iface: Interface, ty: Type)
    requires
        iface.wf(),
        iface.has(ty),
    ensures
        g.noted(iface, ty).needs_string == (g.needs_string || iface.target(ty) == Type::String),
        g.noted_private(iface, ty).needs_string == (g.needs_string || iface.target(ty)
            == Type::String),
{
}

/// Draining keeps where [`pending`] says it stands, round upon round.
pub(crate) proof fn lemma_drained_from(
    iface: Interface,
    g0: GenState,
    g: GenState,
    seen: Set<usize>,
    skip: bool,
    fuel: nat,
)
    requires
        pending(iface, g0, g, seen),
        drained(g, iface, skip, fuel) is Ok,
    ensures
        pending(
            iface,
            g0,
            drained(g, iface, skip, fuel)->Ok_0.0,
            seen.union(drained(g, iface, skip, fuel)->Ok_0.1),
        ),
    decreases fuel,
{
    if g.public == Set::<usize>::empty() || fuel == 0 {
        assert(seen.union(Set::<usize>::empty()) =~= seen);
    } else {
        let d = due(g, skip);
        lemma_pending_round(iface, g0, g, seen, skip);
        lemma_drained_from(iface, g0, round(g, iface, skip), seen.union(d), skip, (fuel - 1) as nat);
        let rest = drained(round(g, iface, skip), iface, skip, (fuel - 1) as nat)->Ok_0;
        assert(seen.union(d).union(rest.1) =~= seen.union(d.union(rest.1)));
    }
}

/// What draining leaves behind, given the state `d` that it reaches and
/// the set `s` of the types whose definitions it printed: every anonymous
/// type that was public has a definition, and so has every anonymous type
/// that a printed definition names; what was private is still private or has
/// a definition; the definitions that were there are there; and the string
/// type is needed exactly if it was needed or a printed definition names it.
pub proof fn draining_defines_what_is_named(g: GenState, iface: Interface, skip: bool, fuel: nat)
    requires
        drained(g, iface, skip, fuel) is Ok,
    ensures
        pending(
            iface,
            g,
            drained(g, iface, skip, fuel)->Ok_0.0,
            drained(g, iface, skip, fuel)->Ok_0.1,
        ),
{
    assert(!iface.any_stringy(Set::<usize>::empty()));
    lemma_drained_from(iface, g, g, Set::empty(), skip, fuel);
    assert(Set::<usize>::empty().union(drained(g, iface, skip, fuel)->Ok_0.1) =~= drained(
        g,
        iface,
        skip,
        fuel,
    )->Ok_0.1);
}

impl Interface {
    /// The definition of the anonymous type `x` names the string type,
    /// itself or through the anonymous types that it names.
    pub open spec fn reaches_string(self, x: usize) -> bool
        decreases self.height(Type::Id(x)),
        when self.supported() && self.structural(x)
    {
        self.stringy(x) || exists|y: usize|
            #[trigger] self.child(x, y) && {
                proof {
                    self.lemma_child(x, y);
                }
                self.reaches_string(y)
            }
    }
}

/// With fuel for the highest public type, draining ends with no type
/// public, and has found the string type exactly if it was needed or a
/// public type reaches it.
pub(crate) proof fn lemma_drained_public(g: GenState, iface: Interface, skip: bool, fuel: nat)
    requires
        iface.supported(),
        drained(g, iface, skip, fuel) is Ok,
        at_most(iface, g.public, fuel),
        fuel >= 1 || all_defs(iface, g.public),
    ensures
        drained(g, iface, skip, fuel)->Ok_0.0.public == Set::<usize>::empty(),
        !skip ==> (drained(g, iface, skip, fuel)->Ok_0.0.needs_string <==> g.needs_string
            || exists|x: usize| g.public.contains(x) && #[trigger] iface.reaches_string(x)),
    decreases fuel,
{
    if g.public == Set::<usize>::empty() {
    } else {
        let x = choose|x: usize| g.public.contains(x);
        assert(g.public.contains(x)) by {
            if forall|y: usize| !g.public.contains(y) {
                assert(g.public =~= Set::<usize>::empty());
            }
        }
        if fuel == 0 {
            assert(x < iface.types@.len());
        }
        let d = due(g, skip);
        let r = round(g, iface, skip);
        assert forall|y: usize| r.public.contains(y) implies y < iface.types@.len()
            && iface.height(Type::Id(y)) <= fuel - 1 by {
            let id = choose|id: usize| d.contains(id) && #[trigger] iface.child(id, y);
            assert(iface.structural(id));
            iface.lemma_child(id, y);
            assert(g.public.contains(id));
        }
        lemma_drained_public(r, iface, skip, (fuel - 1) as nat);
        if !skip {
            let found = exists|x: usize| g.public.contains(x) && #[trigger] iface.reaches_string(x);
            let below = exists|y: usize| r.public.contains(y) && #[trigger] iface.reaches_string(y);
            if found {
                let x = choose|x: usize| g.public.contains(x) && #[trigger] iface.reaches_string(x);
                assert(iface.structural(x));
                if iface.stringy(x) {
                    assert(g.public.contains(x) && iface.stringy(x));
                } else {
                    let y = choose|y: usize| #[trigger] iface.child(x, y) && iface.reaches_string(y);
                    assert(d.contains(x) && iface.child(x, y));
                    assert(r.public.contains(y) && iface.reaches_string(y));
                }
            }
            if iface.any_stringy(d) {
                let id = choose|id: usize| d.contains(id) && #[trigger] iface.stringy(id);
                assert(iface.structural(id));
                assert(g.public.contains(id) && iface.reaches_string(id));
            }
            if below {
                let y = choose|y: usize| r.public.contains(y) && #[trigger] iface.reaches_string(y);
                let id = choose|id: usize| d.contains(id) && #[trigger] iface.child(id, y);
                assert(iface.structural(id));
                assert(iface.child(id, y) && iface.reaches_string(y));
                assert(g.public.contains(id) && iface.reaches_string(id));
            }
        }
    }
}

/// What is drained with definitions passed over has no definition
/// before.
pub(crate) proof fn lemma_drained_skips(g: GenState, iface: Interface, fuel: nat)
    requires
        drained(g, iface, true, fuel) is Ok,
    ensures
        forall|x: usize|
            drained(g, iface, true, fuel)->Ok_0.1.contains(x) ==> !g.types.contains_key(x),
    decreases fuel,
{
    if g.public == Set::<usize>::empty() || fuel == 0 {
    } else {
        lemma_drained_skips(round(g, iface, true), iface, (fuel - 1) as nat);
    }
}

/// Every bound on the height of the definitions bounds the height of the
/// public types.
pub(crate) proof fn lemma_depth(g: GenState, iface: Interface)
    ensures
        at_most(iface, g.public, iface.depth()),
        iface.depth() >= 1,
{
    assert forall|x: usize| g.public.contains(x) && x < iface.types@.len() implies iface.height(
        Type::Id(x),
    ) <= iface.depth() by {
        iface.lemma_top(x, iface.types@.len());
    }
}

/// When the public anonymous types are drained, the string type is found
/// to be needed exactly if it was needed before or the definition of a
/// public anonymous type names it, itself or through the anonymous types that
/// it names: a string inside a list, an option, a result or a tuple counts,
/// however deep.
pub proof fn strings_inside_public_types_are_found(g: GenState, iface: Interface)
    requires
        iface.supported(),
        drained(g, iface, false, iface.depth()) is Ok,
    ensures
        drained(g, iface, false, iface.depth())->Ok_0.0.needs_string <==> g.needs_string
            || exists|x: usize| g.public.contains(x) && #[trigger] iface.reaches_string(x),
{
    lemma_depth(g, iface);
    lemma_drained_public(g, iface, false, iface.depth());
}

/// No definition in the header names a type whose definition stands in the
/// implementation: a type that is private when the anonymous types are
/// drained was not public before, had no definition before, and is named by
/// no definition that was printed as public.
pub proof fn the_header_names_no_private_type(g: GenState, iface: Interface)
    requires
        iface.supported(),
        all_drained(g, iface) is Ok,
    ensures
        ({
            let first = drained(g, iface, false, iface.depth())->Ok_0;
            let d = all_drained(g, iface)->Ok_0;
            forall|x: usize|
                d.1.contains(x) ==> !g.public.contains(x) && !g.types.contains_key(x) && forall|
                    id: usize,
                |
                    first.1.contains(id) ==> !#[trigger] iface.child(id, x)
        }),
{
    let first = drained(g, iface, false, iface.depth())->Ok_0;
    let second = GenState { public: first.0.private, private: Set::empty(), ..first.0 };
    draining_defines_what_is_named(g, iface, false, iface.depth());
    lemma_depth(g, iface);
    lemma_drained_public(g, iface, false, iface.depth());
    lemma_drained_skips(second, iface, iface.depth());
}

/// A definition stands in one file: that of a private type in the
/// implementation, that of any other type in the header, with the
/// declaration of its destructor behind it and the destructor itself in the
/// implementation; a type without a definition stands in neither.
pub proof fn a_definition_stands_in_one_file(
    iface: Interface,
    types: Map<usize, Seq<char>>,
    private: Set<usize>,
    order: Seq<usize>,
    k: int,
)
    ensures
        ({
            let id = order[k];
            let h = type_h_arm(iface, types, private, order)(k);
            let c = type_c_arm(iface, types, private, order)(k);
            &&& types.contains_key(id) && private.contains(id) ==> h == Seq::<Seq<char>>::empty()
                && c == seq![types[id]]
            &&& types.contains_key(id) && !private.contains(id) ==> h == seq![types[id]]
                + iface.dtor_header(id) && c == iface.dtor_impl(id)
            &&& !types.contains_key(id) ==> h == Seq::<Seq<char>>::empty() && c == Seq::<
                Seq<char>,
            >::empty()
        }),
{
}

/// The string type and its helpers are printed exactly if the string type
/// is needed when the anonymous types are drained: if it was needed before,
/// if a public anonymous type reaches it, or if the definition of a private
/// anonymous type that is printed then names it.
pub proof fn string_helpers_iff_needed(g: GenState, iface: Interface)
    requires
        iface.supported(),
        all_drained(g, iface) is Ok,
    ensures
        ({
            let d = all_drained(g, iface)->Ok_0;
            &&& only_if(d.0.needs_string, string_decls(iface)).len() > 0 <==> d.0.needs_string
            &&& only_if(
                d.0.needs_string,
                seq!["#include <string.h>\n"@] + string_defs(iface),
            ).len() > 0 <==> d.0.needs_string
            &&& d.0.needs_string <==> g.needs_string || (exists|x: usize|
                g.public.contains(x) && #[trigger] iface.reaches_string(x)) || iface.any_stringy(
                d.1,
            )
        }),
{
    let first = drained(g, iface, false, iface.depth())->Ok_0;
    strings_inside_public_types_are_found(g, iface);
    let second = GenState { public: first.0.private, private: Set::empty(), ..first.0 };
    draining_defines_what_is_named(second, iface, true, iface.depth());
}

/// The state `after` carries on from the state `before`: what was public
/// is public, the string type is needed if it was, and what had a definition
/// has one.
pub open spec fn carries_on(before: GenState, after: GenState) -> bool {
    &&& forall|x: usize| before.public.contains(x) ==> after.public.contains(x)
    &&& before.needs_string ==> after.needs_string
    &&& forall|x: usize| before.types.contains_key(x) ==> after.types.contains_key(x)
}

/// Naming types in a function body makes no type public and takes no
/// definition away.
pub open spec fn only_private(before: GenState, after: GenState) -> bool {
    &&& after.public == before.public
    &&& before.needs_string ==> after.needs_string
    &&& after.types == before.types
}

/// Noting payload types in a body keeps what is public.
pub(crate) proof fn lemma_payloads_private(
    g: GenState,
    iface: Interface,
    tys: Seq<Option<Type>>,
    n: nat,
)
    ensures
        only_private(g, crate::emit_variant::noted_payloads(g, iface, tys, n)),
    decreases n,
{
    if n > 0 {
        lemma_payloads_private(g, iface, tys, (n - 1) as nat);
    }
}

/// Passing arguments keeps what is public.
pub(crate) proof fn lemma_args_private(
    start: crate::emit_iface::CallAcc,
    iface: Interface,
    params: Seq<(String, Type)>,
    by_pointer: Seq<(bool, Seq<char>)>,
    ops: Seq<Seq<char>>,
    n: nat,
)
    ensures
        only_private(
            start.gen,
            crate::emit_iface::pass_args(start, iface, params, by_pointer, ops, n).gen,
        ),
    decreases n,
{
    if n > 0 {
        lemma_args_private(start, iface, params, by_pointer, ops, (n - 1) as nat);
    }
}

/// Declaring locals for what goes through pointers keeps what is public.
pub(crate) proof fn lemma_locals_private(
    start: crate::emit_iface::CallAcc,
    iface: Interface,
    tys: Seq<Type>,
    prefix: Seq<char>,
    n: nat,
)
    ensures
        only_private(start.gen, crate::emit_iface::pass_locals(start, iface, tys, prefix, n).gen),
    decreases n,
{
    if n > 0 {
        lemma_locals_private(start, iface, tys, prefix, (n - 1) as nat);
    }
}

/// What the call of the guest's function names is private at most.
pub(crate) proof fn lemma_call_private(
    b: crate::bindgen::BindState,
    g: GenState,
    iface: Interface,
    func: Function,
    ops: Seq<Seq<char>>,
)
    requires
        crate::emit_iface::call_interface_outcome(b, g, iface, func, ops) is Ok,
    ensures
        only_private(g, crate::emit_iface::call_interface_outcome(b, g, iface, func, ops)->Ok_0.gen),
{
    let n = if ops.len() <= b.sig.params.len() {
        ops.len()
    } else {
        b.sig.params.len()
    };
    let start = crate::emit_iface::CallAcc {
        locals: b.locals,
        gen: g,
        pieces: Seq::empty(),
        args: Seq::empty(),
    };
    lemma_args_private(start, iface, func.params@, b.sig.params, ops, n);
    let a = crate::emit_iface::pass_args(start, iface, func.params@, b.sig.params, ops, n);
    lemma_locals_private(a, iface, b.sig.ret.retptrs, "ret"@, b.sig.ret.retptrs.len());
    lemma_locals_private(
        crate::emit_iface::CallAcc { locals: crate::pool::after_fresh(a.locals, "ret"@), ..a },
        iface,
        b.sig.ret.retptrs,
        "ok"@,
        b.sig.ret.retptrs.len(),
    );
}

/// What lowering or lifting a value of a defined type names is private at
/// most.
pub(crate) proof fn lemma_values_private(
    b: crate::bindgen::BindState,
    g: GenState,
    iface: Interface,
    ty: usize,
    element: Type,
    block: bool,
    results: Seq<crate::repr::WasmType>,
    ops: Seq<Seq<char>>,
)
    ensures
        crate::emit_lift::struct_lift_outcome(b, g, iface, ty, ops) matches Ok(out)
            ==> only_private(g, out.gen),
        crate::emit_lift::flags_lower_outcome(b, g, iface, ty, ops) matches Ok(out)
            ==> only_private(g, out.gen),
        crate::emit_lift::flags_lift_outcome(b, g, iface, ty, ops) matches Ok(out) ==> only_private(
            g,
            out.gen,
        ),
        crate::emit_lift::list_lift_outcome(b, g, iface, element, ty, block, ops) matches Ok(out)
            ==> only_private(g, out.gen),
        crate::emit_lift::string_lift_outcome(b, g, iface, ops) matches Ok(out) ==> only_private(
            g,
            out.gen,
        ),
        crate::emit_option::option_lower_outcome(b, g, iface, ty, results, ops) matches Ok(out)
            ==> only_private(g, out.gen),
        crate::emit_option::option_lift_outcome(b, g, iface, ty, ops) matches Ok(out)
            ==> only_private(g, out.gen),
        crate::emit_option::result_lower_outcome(b, g, iface, ty, results, ops) matches Ok(out)
            ==> only_private(g, out.gen),
        crate::emit_option::result_lift_outcome(b, g, iface, ty, ops) matches Ok(out)
            ==> only_private(g, out.gen),
{
}

/// What lowering or lifting a variant or a union names is private at
/// most.
pub(crate) proof fn lemma_sums_private(
    b: crate::bindgen::BindState,
    g: GenState,
    iface: Interface,
    ty: usize,
    results: Seq<crate::repr::WasmType>,
    ops: Seq<Seq<char>>,
)
    ensures
        crate::emit_variant::variant_lower_outcome(b, g, iface, ty, results, ops) matches Ok(out)
            ==> only_private(g, out.gen),
        crate::emit_variant::union_lower_outcome(b, g, iface, ty, results, ops) matches Ok(out)
            ==> only_private(g, out.gen),
        crate::emit_variant::variant_lift_outcome(b, g, iface, ty, ops) matches Ok(out)
            ==> only_private(g, out.gen),
        crate::emit_variant::union_lift_outcome(b, g, iface, ty, ops) matches Ok(out)
            ==> only_private(g, out.gen),
{
    if crate::emit_variant::variant_cases(iface, ty) is Some {
        let cases = crate::emit_variant::variant_cases(iface, ty)->0;
        lemma_payloads_private(g, iface, crate::emit_variant::case_types(cases), cases.len());
    }
    if crate::emit_variant::union_cases(iface, ty) is Some {
        let cases = crate::emit_variant::union_cases(iface, ty)->0;
        lemma_payloads_private(g, iface, crate::emit_variant::some_types(cases), cases.len());
    }
}

/// An instruction makes no type public: what a body names is private
/// unless it is public already; and it takes no definition and no need for
/// the string type away.
#[verifier::rlimit(100)]
pub proof fn bodies_name_private_types(
    b: crate::bindgen::BindState,
    g: GenState,
    iface: Interface,
    inst: crate::abi::Instruction,
    ops: Seq<Seq<char>>,
)
    requires
        crate::emit::emitted(b, g, iface, inst, ops) is Ok,
    ensures
        only_private(g, crate::emit::emitted(b, g, iface, inst, ops)->Ok_0.gen),
{
    let out = crate::emit::emitted(b, g, iface, inst, ops);
    if crate::emit_expr::cast_wrap(inst) is Some {
    } else if crate::emit_expr::load_kind(inst) is Some {
    } else if crate::emit_expr::store_kind(inst) is Some {
    } else {
        match inst {
            crate::abi::Instruction::ListCanonLift { element, ty } => {
                lemma_values_private(b, g, iface, ty, element, false, Seq::empty(), ops);
            },
            crate::abi::Instruction::ListLift { element, ty } => {
                lemma_values_private(b, g, iface, ty, element, true, Seq::empty(), ops);
            },
            crate::abi::Instruction::StringLift => {
                lemma_values_private(b, g, iface, 0, Type::Bool, true, Seq::empty(), ops);
            },
            crate::abi::Instruction::RecordLift { ty } => {
                lemma_values_private(b, g, iface, ty, Type::Bool, true, Seq::empty(), ops);
            },
            crate::abi::Instruction::TupleLift { ty } => {
                lemma_values_private(b, g, iface, ty, Type::Bool, true, Seq::empty(), ops);
            },
            crate::abi::Instruction::FlagsLower { ty } => {
                lemma_values_private(b, g, iface, ty, Type::Bool, true, Seq::empty(), ops);
            },
            crate::abi::Instruction::FlagsLift { ty } => {
                lemma_values_private(b, g, iface, ty, Type::Bool, true, Seq::empty(), ops);
            },
            crate::abi::Instruction::OptionLower { ty, results } => {
                lemma_values_private(b, g, iface, ty, Type::Bool, true, results@, ops);
            },
            crate::abi::Instruction::OptionLift { ty } => {
                lemma_values_private(b, g, iface, ty, Type::Bool, true, Seq::empty(), ops);
            },
            crate::abi::Instruction::ResultLower { ty, results } => {
                lemma_values_private(b, g, iface, ty, Type::Bool, true, results@, ops);
            },
            crate::abi::Instruction::ResultLift { ty } => {
                lemma_values_private(b, g, iface, ty, Type::Bool, true, Seq::empty(), ops);
            },
            crate::abi::Instruction::VariantLower { ty, results } => {
                lemma_sums_private(b, g, iface, ty, results@, ops);
            },
            crate::abi::Instruction::UnionLower { ty, results } => {
                lemma_sums_private(b, g, iface, ty, results@, ops);
            },
            crate::abi::Instruction::VariantLift { ty } => {
                lemma_sums_private(b, g, iface, ty, Seq::empty(), ops);
            },
            crate::abi::Instruction::UnionLift { ty } => {
                lemma_sums_private(b, g, iface, ty, Seq::empty(), ops);
            },
            crate::abi::Instruction::CallInterface { func } => {
                lemma_call_private(b, g, iface, func, ops);
            },
            _ => {},
        }
    }
}

/// Printing definitions and declarations carries on: noting a type, keeping
/// a definition and declaring a function take nothing away that was public,
/// needed or defined.
pub proof fn printing_carries_on(
    g: GenState,
    iface: Interface,
    ty: Type,
    id: usize,
    pieces: Seq<Seq<char>>,
    tys: Seq<Option<Type>>,
    func: Function,
)
    ensures
        carries_on(g, g.noted(iface, ty)),
        carries_on(g, g.noted_private(iface, ty)),
        carries_on(g, g.defined(iface, id, pieces, tys)),
        carries_on(g, g.declared(iface, func)),
{
    crate::drain::lemma_noted_all_sets(g, iface, tys, tys.len());
    crate::typedef::lemma_noted_all_h(g, iface, tys, tys.len(), g.h);
    let r = g.reserved(iface.symbol(func));
    crate::sig::lemma_noted_sig(r, iface, func, r.h);
    let shape = iface.classify(func.results@);
    let t0 = seq![iface.ret_type(shape)];
    let t1 = crate::typedef::all_types(crate::emit_iface::param_types(func.params@));
    let t2 = crate::typedef::all_types(shape.retptrs);
    let s0 = r.noted_opt(iface, iface.ret_type(shape));
    let s1 = s0.noted_all(iface, t1, func.params@.len());
    assert(r.noted_all(iface, t0, 0) == r);
    assert(r.noted_all(iface, t0, 1) == s0);
    crate::drain::lemma_noted_all_sets(r, iface, t0, 1);
    crate::drain::lemma_noted_all_sets(s0, iface, t1, func.params@.len());
    crate::drain::lemma_noted_all_sets(s1, iface, t2, shape.retptrs.len());
}

/// Beginning and ending a function carries on: the declaration takes
/// nothing away that was public, needed or defined, and filing the function
/// changes none of these.
pub proof fn functions_carry_on(
    g: GenState,
    iface: Interface,
    func: Function,
    wasm: crate::repr::WasmSignature,
    linking_symbol: Seq<char>,
    b: crate::bindgen::BindState,
)
    ensures
        crate::func::import_begun(g, iface, func, wasm) matches Ok(begun) ==> carries_on(
            g,
            begun.0,
        ),
        crate::func::export_begun(g, iface, func, wasm, linking_symbol) matches Ok(begun)
            ==> carries_on(g, begun.0),
        carries_on(g, crate::func::finished(g, iface, b)),
{
    let stem = crate::func::trampoline(iface, func, "__wasm_import_"@);
    let named = GenState {
        names: crate::pool::after_fresh(g.names, stem),
        h: crate::text::blank(),
        c: crate::text::blank(),
        ..g
    };
    printing_carries_on(named, iface, Type::Bool, 0, Seq::empty(), Seq::empty(), func);
    let fresh_bufs = GenState { h: crate::text::blank(), c: crate::text::blank(), ..g };
    printing_carries_on(fresh_bufs, iface, Type::Bool, 0, Seq::empty(), Seq::empty(), func);
}

/// Carrying on goes on: what holds from one state to a second and from
/// the second to a third holds from the first to the third. A body keeps
/// what is public ([`only_private`]), which carries on too.
pub proof fn carrying_on_goes_on(a: GenState, b: GenState, c: GenState)
    ensures
        carries_on(a, b) && carries_on(b, c) ==> carries_on(a, c),
        only_private(a, b) ==> carries_on(a, b),
{
}

} // verus!
