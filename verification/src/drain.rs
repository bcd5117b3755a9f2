//! The definitions of the anonymous types that are due: printed round by
//! round, until a round finds no anonymous type that is new.
use vstd::prelude::*;
use crate::bindgen::Error;
use crate::bindgen::Failure;
use crate::gen::GenState;
use crate::gen::C;
use crate::ir::Interface;
use crate::ir::Type;
use crate::ir::TypeDefKind;
use crate::names::ids_of;
use crate::text::blank;
use crate::text::render;
use std::collections::BTreeSet;

verus! {

impl Interface {
    /// A reference to `ty` makes the anonymous type `x` public.
    pub open spec fn names_anon(self, ty: Option<Type>, x: usize) -> bool {
        ty matches Some(t) && self.target(t) == Type::Id(x) && self.types@[x as int].name is None
    }

    /// A reference to `ty` needs the string type.
    pub open spec fn names_string(self, ty: Option<Type>) -> bool {
        ty matches Some(t) && self.target(t) == Type::String
    }

    /// The definition of the anonymous type `id` names the anonymous type
    /// `x`.
    pub open spec fn child(self, id: usize, x: usize) -> bool {
        exists|k: int|
            0 <= k < self.anon_types(id).len() && self.names_anon(
                #[trigger] self.anon_types(id)[k],
                x,
            )
    }

    /// The definition of the anonymous type `id` names the string type.
    pub open spec fn stringy(self, id: usize) -> bool {
        exists|k: int|
            0 <= k < self.anon_types(id).len() && self.names_string(
                #[trigger] self.anon_types(id)[k],
            )
    }

    /// The anonymous types that the definitions of the types in `s` name.
    pub open spec fn children(self, s: Set<usize>) -> Set<usize> {
        Set::new(|x: usize| exists|id: usize| s.contains(id) && #[trigger] self.child(id, x))
    }

    /// The definition of some type in `s` names the string type.
    pub open spec fn any_stringy(self, s: Set<usize>) -> bool {
        exists|id: usize| s.contains(id) && #[trigger] self.stringy(id)
    }

    /// Every type in `s` is one that the generator can print without a name
    /// of its own.
    pub open spec fn all_structural(self, s: Set<usize>) -> bool {
        forall|id: usize| s.contains(id) ==> #[trigger] self.structural(id)
    }

    /// The definition of the anonymous type `id`, as one text.
    pub open spec fn anon_text(self, id: usize) -> Seq<char> {
        render(blank(), self.anon_pieces(id)).text
    }

    /// The greatest height among the first `n` definitions.
    pub open spec fn top(self, n: nat) -> nat
        decreases n,
    {
        if n == 0 {
            0
        } else {
            let rest = self.top((n - 1) as nat);
            let h = self.height(Type::Id((n - 1) as usize));
            if h >= rest {
                h
            } else {
                rest
            }
        }
    }

    /// The number of rounds that suffice to print every anonymous type that
    /// is due.
    pub open spec fn depth(self) -> nat {
        self.top(self.types@.len()) + 1
    }

    /// No definition among the first `n` is higher than their top.
    pub(crate) proof fn lemma_top(self, i: usize, n: nat)
        requires
            i < n,
        ensures
            self.height(Type::Id(i)) <= self.top(n),
        decreases n,
    {
        if i < n - 1 {
            self.lemma_top(i, (n - 1) as nat);
        }
    }

    /// What a reference stands for resolves and is no higher than the
    /// reference.
    pub(crate) proof fn lemma_target(self, ty: Type)
        requires
            self.wf(),
            self.has(ty),
        ensures
            self.has(self.target(ty)),
            self.height(self.target(ty)) <= self.height(ty),
            self.target(ty) matches Type::Id(x) ==> !(self.types@[x as int].name is None
                && self.types@[x as int].kind is Type),
        decreases self.height(ty),
    {
        match ty {
            Type::Id(i) => match (self.types@[i as int].name, self.types@[i as int].kind) {
                (None, TypeDefKind::Type(t)) => {
                    self.lemma_slot(i, 0);
                    self.lemma_target(t);
                },
                _ => {},
            },
            _ => {},
        }
    }

    /// What the definition of an anonymous type names is a slot of it.
    pub(crate) proof fn lemma_anon_slot(self, id: usize, k: int)
        requires
            self.wf(),
            self.structural(id),
            0 <= k < self.anon_types(id).len(),
            self.anon_types(id)[k] is Some,
        ensures
            self.has(self.anon_types(id)[k]->0),
            self.height(self.anon_types(id)[k]->0) < self.height(Type::Id(id)),
    {
        match self.types@[id as int].kind {
            TypeDefKind::Tuple(_) => {
                self.lemma_slot(id, k);
            },
            TypeDefKind::Option(t) => {
                self.lemma_slot(id, 0);
            },
            TypeDefKind::Result { ok, err } => {
                if k == 0 {
                    self.lemma_slot(id, 0);
                } else {
                    self.lemma_slot(id, 1);
                }
            },
            TypeDefKind::List(_) => {
                self.lemma_slot(id, 0);
            },
            _ => {},
        }
    }

    /// An anonymous type that the definition of another names is one that
    /// the generator can print, and lies below the other.
    pub proof fn lemma_child(self, id: usize, x: usize)
        requires
            self.supported(),
            self.structural(id),
            self.child(id, x),
        ensures
            self.structural(x),
            self.height(Type::Id(x)) < self.height(Type::Id(id)),
    {
        let k = choose|k: int|
            0 <= k < self.anon_types(id).len() && self.names_anon(
                #[trigger] self.anon_types(id)[k],
                x,
            );
        let t = self.anon_types(id)[k]->0;
        self.lemma_anon_slot(id, k);
        self.lemma_target(t);
        assert(self.types@[x as int].kind.supported());
        assert(!self.types@[x as int].kind.needs_name());
    }
}

/// The definitions that are kept once those of the types in `s` are
/// printed.
pub open spec fn printed(types: Map<usize, Seq<char>>, iface: Interface, s: Set<usize>) -> Map<
    usize,
    Seq<char>,
> {
    Map::new(
        |k: usize| types.contains_key(k) || s.contains(k),
        |k: usize|
            if s.contains(k) {
                iface.anon_text(k)
            } else {
                types[k]
            },
    )
}

/// The anonymous types whose definitions a round prints: those that are
/// public, but for those that have a definition where `skip` is set.
pub open spec fn due(g: GenState, skip: bool) -> Set<usize> {
    if skip {
        g.public.difference(g.types.dom())
    } else {
        g.public
    }
}

/// The state after the definitions of the types in `s` were printed and
/// kept, beginning with no public type: what they name is public and no
/// longer private, and the string type is needed if one of them names it.
pub open spec fn after_defs(g: GenState, iface: Interface, s: Set<usize>) -> GenState {
    GenState {
        public: iface.children(s),
        private: g.private.difference(iface.children(s)),
        types: printed(g.types, iface, s),
        needs_string: g.needs_string || iface.any_stringy(s),
        ..g
    }
}

/// The state after one round: the definitions of the types that are due
/// are printed, and the anonymous types that these name are public instead.
pub open spec fn round(g: GenState, iface: Interface, skip: bool) -> GenState {
    after_defs(g, iface, due(g, skip))
}

/// The state after round upon round, until no anonymous type is public,
/// and the types whose definitions were printed. It fails as unsupported
/// where a type is due that the generator cannot print without a name.
pub open spec fn drained(g: GenState, iface: Interface, skip: bool, fuel: nat) -> Result<
    (GenState, Set<usize>),
    Failure,
>
    decreases fuel,
{
    if g.public == Set::<usize>::empty() {
        Ok((g, Set::empty()))
    } else if !iface.all_structural(due(g, skip)) {
        Err(Failure::Unsupported)
    } else if fuel == 0 {
        Ok((g, Set::empty()))
    } else {
        match drained(round(g, iface, skip), iface, skip, (fuel - 1) as nat) {
            Ok(rest) => Ok((rest.0, due(g, skip).union(rest.1))),
            Err(e) => Err(e),
        }
    }
}

/// The outcome of draining with the types in `seen` counted among those
/// whose definitions were printed.
pub open spec fn with_seen(seen: Set<usize>, done: Result<(GenState, Set<usize>), Failure>) -> Result<
    (GenState, Set<usize>),
    Failure,
> {
    match done {
        Ok(rest) => Ok((rest.0, seen.union(rest.1))),
        Err(e) => Err(e),
    }
}

/// Every type in `s` that is a definition is at most `h` high.
pub open spec fn at_most(iface: Interface, s: Set<usize>, h: nat) -> bool {
    forall|x: usize|
        s.contains(x) && x < iface.types@.len() ==> iface.height(Type::Id(x)) <= h
}

/// Every type in `s` is a definition.
pub open spec fn all_defs(iface: Interface, s: Set<usize>) -> bool {
    forall|x: usize| s.contains(x) ==> x < iface.types@.len()
}

/// Where draining stands in state `g`, having begun in state `g0` and
/// printed the definitions of the types in `seen`: what was public at first,
/// and what a printed definition names, has a definition or is public;
/// what was private at first is private, public or has a definition; no
/// definition was lost; and the string type is needed if it was, or if a
/// printed definition names it.
pub open spec fn pending(iface: Interface, g0: GenState, g: GenState, seen: Set<usize>) -> bool {
    &&& forall|x: usize|
        g0.public.contains(x) ==> g.types.contains_key(x) || g.public.contains(x)
    &&& forall|id: usize, x: usize|
        seen.contains(id) && #[trigger] iface.child(id, x) ==> g.types.contains_key(x)
            || g.public.contains(x)
    &&& forall|x: usize| seen.contains(x) ==> g.types.contains_key(x)
    &&& forall|x: usize|
        g0.private.contains(x) ==> g.private.contains(x) || g.types.contains_key(x)
            || g.public.contains(x)
    &&& forall|x: usize| g0.types.contains_key(x) ==> g.types.contains_key(x)
    &&& forall|x: usize| g.types.contains_key(x) ==> g0.types.contains_key(x) || seen.contains(x)
    &&& forall|x: usize| g.private.contains(x) ==> g0.private.contains(x)
    &&& g.needs_string == (g0.needs_string || iface.any_stringy(seen))
}

/// A round keeps draining where [`pending`] says it stands.
pub(crate) proof fn lemma_pending_round(
    iface: Interface,
    g0: GenState,
    g: GenState,
    seen: Set<usize>,
    skip: bool,
)
    requires
        pending(iface, g0, g, seen),
    ensures
        pending(iface, g0, round(g, iface, skip), seen.union(due(g, skip))),
{
    let d = due(g, skip);
    let r = round(g, iface, skip);
    let both = seen.union(d);
    assert forall|x: usize| g.public.contains(x) implies r.types.contains_key(x) by {
        if !d.contains(x) {
            assert(g.types.dom().contains(x));
        }
    }
    assert forall|id: usize, x: usize|
        both.contains(id) && #[trigger] iface.child(id, x) implies r.types.contains_key(x)
        || r.public.contains(x) by {
        if d.contains(id) {
            assert(d.contains(id) && iface.child(id, x));
        }
    }
    assert forall|x: usize| g0.private.contains(x) implies r.private.contains(x)
        || r.types.contains_key(x) || r.public.contains(x) by {
    }
    assert(iface.any_stringy(both) <==> (iface.any_stringy(seen) || iface.any_stringy(d))) by {
        if iface.any_stringy(both) {
            let i = choose|i: usize| both.contains(i) && #[trigger] iface.stringy(i);
            if seen.contains(i) {
                assert(seen.contains(i) && iface.stringy(i));
            } else {
                assert(d.contains(i) && iface.stringy(i));
            }
        }
        if iface.any_stringy(seen) {
            let i = choose|i: usize| seen.contains(i) && #[trigger] iface.stringy(i);
            assert(both.contains(i) && iface.stringy(i));
        }
        if iface.any_stringy(d) {
            let i = choose|i: usize| d.contains(i) && #[trigger] iface.stringy(i);
            assert(both.contains(i) && iface.stringy(i));
        }
    }
}

/// The elements of the first `k` places of a list.
pub open spec fn upto(ids: Seq<usize>, k: int) -> Set<usize> {
    Set::new(|x: usize| exists|j: int| 0 <= j < k && ids[j] == x)
}

/// One more place adds its element.
pub(crate) proof fn lemma_upto_next(ids: Seq<usize>, k: int)
    requires
        0 <= k < ids.len(),
    ensures
        upto(ids, k + 1) == upto(ids, k).insert(ids[k]),
{
    assert forall|x: usize| upto(ids, k + 1).contains(x) <==> upto(ids, k).insert(ids[k]).contains(
        x,
    ) by {
        if upto(ids, k + 1).contains(x) {
            let j = choose|j: int| 0 <= j < k + 1 && ids[j] == x;
            if j < k {
                assert(ids[j] == x);
            }
        }
        if upto(ids, k).contains(x) {
            let j = choose|j: int| 0 <= j < k && ids[j] == x;
            assert(ids[j] == x);
        }
        if x == ids[k] {
            assert(0 <= k < k + 1 && ids[k] == x);
        }
    }
    assert(upto(ids, k + 1) =~= upto(ids, k).insert(ids[k]));
}

/// Lists that agree in their first `k` places have the same elements
/// there.
pub(crate) proof fn lemma_upto_same(a: Seq<usize>, b: Seq<usize>, k: int)
    requires
        0 <= k <= a.len(),
        k <= b.len(),
        forall|j: int| 0 <= j < k ==> a[j] == b[j],
    ensures
        upto(a, k) == upto(b, k),
{
    assert forall|x: usize| upto(a, k).contains(x) <==> upto(b, k).contains(x) by {
        if upto(a, k).contains(x) {
            let j = choose|j: int| 0 <= j < k && a[j] == x;
            assert(b[j] == x);
        }
        if upto(b, k).contains(x) {
            let j = choose|j: int| 0 <= j < k && b[j] == x;
            assert(a[j] == x);
        }
    }
    assert(upto(a, k) =~= upto(b, k));
}

/// The elements of all places of a list are its elements.
pub(crate) proof fn lemma_upto_all(ids: Seq<usize>)
    ensures
        upto(ids, ids.len() as int) == ids.to_set(),
{
    assert forall|x: usize| upto(ids, ids.len() as int).contains(x) <==> ids.to_set().contains(
        x,
    ) by {
        if upto(ids, ids.len() as int).contains(x) {
            let j = choose|j: int| 0 <= j < ids.len() && ids[j] == x;
            assert(ids[j] == x);
            assert(ids.contains(x));
        }
        if ids.to_set().contains(x) {
            assert(ids.contains(x));
            let j = choose|j: int| 0 <= j < ids.len() && ids[j] == x;
            assert(ids[j] == x);
        }
    }
    assert(upto(ids, ids.len() as int) =~= ids.to_set());
}

/// What noting the first `n` of `tys` does to the sets of anonymous types
/// and to the need for the string type.
pub(crate) proof fn lemma_noted_all_sets(g: GenState, iface: Interface, tys: Seq<Option<Type>>, n: nat)
    requires
        n <= tys.len(),
    ensures
        g.noted_all(iface, tys, n).public == g.public.union(
            Set::new(|x: usize| exists|k: int| 0 <= k < n && iface.names_anon(#[trigger] tys[k], x)),
        ),
        g.noted_all(iface, tys, n).private == g.private.difference(
            Set::new(|x: usize| exists|k: int| 0 <= k < n && iface.names_anon(#[trigger] tys[k], x)),
        ),
        g.noted_all(iface, tys, n).needs_string == (g.needs_string || exists|k: int|
            0 <= k < n && iface.names_string(#[trigger] tys[k])),
    decreases n,
{
    let refs = Set::new(
        |x: usize| exists|k: int| 0 <= k < n && iface.names_anon(#[trigger] tys[k], x),
    );
    if n == 0 {
        assert(g.public.union(refs) =~= g.public);
        assert(g.private.difference(refs) =~= g.private);
    } else {
        let m = (n - 1) as nat;
        lemma_noted_all_sets(g, iface, tys, m);
        let before = g.noted_all(iface, tys, m);
        let prev = Set::new(
            |x: usize| exists|k: int| 0 <= k < m && iface.names_anon(#[trigger] tys[k], x),
        );
        let r = before.noted_opt(iface, tys[m as int]);
        assert(r == g.noted_all(iface, tys, n));
        assert forall|x: usize| refs.contains(x) <==> (prev.contains(x) || iface.names_anon(
            tys[m as int],
            x,
        )) by {
            if refs.contains(x) {
                let k = choose|k: int| 0 <= k < n && iface.names_anon(#[trigger] tys[k], x);
                if k < m {
                    assert(iface.names_anon(tys[k], x));
                }
            }
            if prev.contains(x) {
                let k = choose|k: int| 0 <= k < m && iface.names_anon(#[trigger] tys[k], x);
                assert(iface.names_anon(tys[k], x));
            }
            if iface.names_anon(tys[m as int], x) {
                assert(0 <= m < n && iface.names_anon(tys[m as int], x));
            }
        }
        assert(r.public =~= g.public.union(refs));
        assert(r.private =~= g.private.difference(refs));
        if iface.names_string(tys[m as int]) {
            assert(0 <= m < n && iface.names_string(tys[m as int]));
        }
    }
}

/// Printing one more definition extends what [`after_defs`] describes by
/// it.
pub(crate) proof fn lemma_round_step(g: GenState, iface: Interface, s: Set<usize>, id: usize)
    ensures
        after_defs(g, iface, s).defined(iface, id, iface.anon_pieces(id), iface.anon_types(id))
            == after_defs(g, iface, s.insert(id)),
{
    let a = after_defs(g, iface, s);
    let tys = iface.anon_types(id);
    let r = a.defined(iface, id, iface.anon_pieces(id), tys);
    let want = after_defs(g, iface, s.insert(id));
    lemma_noted_all_sets(a, iface, tys, tys.len());
    crate::typedef::lemma_noted_all_h(a, iface, tys, tys.len(), a.h);
    let refs = Set::new(
        |x: usize| exists|k: int| 0 <= k < tys.len() && iface.names_anon(#[trigger] tys[k], x),
    );
    assert forall|x: usize| refs.contains(x) <==> iface.child(id, x) by {
        if refs.contains(x) {
            let k = choose|k: int| 0 <= k < tys.len() && iface.names_anon(#[trigger] tys[k], x);
            assert(iface.names_anon(iface.anon_types(id)[k], x));
        }
    }
    assert forall|x: usize|
        iface.children(s.insert(id)).contains(x) <==> (iface.children(s).contains(x)
            || refs.contains(x)) by {
        if iface.children(s.insert(id)).contains(x) {
            let i = choose|i: usize| s.insert(id).contains(i) && #[trigger] iface.child(i, x);
            if i != id {
                assert(s.contains(i) && iface.child(i, x));
            }
        }
        if iface.children(s).contains(x) {
            let i = choose|i: usize| s.contains(i) && #[trigger] iface.child(i, x);
            assert(s.insert(id).contains(i) && iface.child(i, x));
        }
        if refs.contains(x) {
            assert(s.insert(id).contains(id) && iface.child(id, x));
        }
    }
    assert(r.public =~= want.public);
    assert(r.private =~= want.private);
    assert(r.types =~= want.types);
    assert(iface.any_stringy(s.insert(id)) <==> (iface.any_stringy(s) || iface.stringy(id))) by {
        if iface.any_stringy(s.insert(id)) {
            let i = choose|i: usize| s.insert(id).contains(i) && #[trigger] iface.stringy(i);
            if i != id {
                assert(s.contains(i) && iface.stringy(i));
            }
        }
        if iface.any_stringy(s) {
            let i = choose|i: usize| s.contains(i) && #[trigger] iface.stringy(i);
            assert(s.insert(id).contains(i) && iface.stringy(i));
        }
        if iface.stringy(id) {
            assert(s.insert(id).contains(id) && iface.stringy(id));
        }
    }
    assert(iface.stringy(id) <==> (exists|k: int|
        0 <= k < tys.len() && iface.names_string(#[trigger] tys[k])));
}

/// Before anything is printed, [`after_defs`] describes the state with no
/// public type.
pub(crate) proof fn lemma_round_start(g: GenState, iface: Interface)
    ensures
        after_defs(g, iface, Set::empty()) == (GenState { public: Set::empty(), ..g }),
{
    let a = after_defs(g, iface, Set::empty());
    assert(a.public =~= Set::<usize>::empty());
    assert(a.private =~= g.private);
    assert(a.types =~= g.types);
}

impl C {
    /// Whether a definition is kept for type `id`.
    pub(crate) fn has_def(&self, id: usize) -> (r: bool)
        ensures
            r == self@.types.contains_key(id),
    {
        broadcast use vstd::std_specs::hash::group_hash_axioms;

        let r = self.types.contains_key(&id);
        assert(self@.types.dom() =~= self.types@.dom());
        r
    }

    /// The definition that is kept for type `id`.
    pub(crate) fn def_text(&self, id: usize) -> (r: Option<&String>)
        ensures
            match r {
                Some(text) => self@.types.contains_key(id) && self@.types[id] == text@,
                None => !self@.types.contains_key(id),
            },
    {
        broadcast use vstd::std_specs::hash::group_hash_axioms;

        let r = self.types.get(&id);
        assert(self@.types.dom() =~= self.types@.dom());
        r
    }

    /// Whether definition `id` is one that the generator can print without
    /// a name of its own.
    pub(crate) fn is_structural(iface: &Interface, id: usize) -> (r: bool)
        ensures
            r == iface.structural(id),
    {
        if id >= iface.types.len() {
            return false;
        }
        match &iface.types[id].kind {
            TypeDefKind::Tuple(_) => true,
            TypeDefKind::Option(_) => true,
            TypeDefKind::Result { .. } => true,
            TypeDefKind::List(_) => true,
            _ => false,
        }
    }
}

impl C {
    /// Prints the definitions of the anonymous types that are due and
    /// makes public, in their place, the anonymous types that these name.
    /// Gives the types whose definitions were printed. It fails where a type
    /// is due that the generator cannot print without a name.
    #[verifier::rlimit(50)]
    pub(crate) fn drain_round(&mut self, iface: &Interface, skip: bool) -> (r: Result<Vec<usize>, Error>)
        requires
            iface.supported(),
        ensures
            match r {
                Ok(ids) => iface.all_structural(due(old(self)@, skip)) && upto(
                    ids@,
                    ids@.len() as int,
                ) == due(old(self)@, skip) && final(self)@ == round(old(self)@, *iface, skip),
                Err(e) => !iface.all_structural(due(old(self)@, skip)) && e@
                    == Failure::Unsupported,
            },
    {
        let all = ids_of(&self.public_anonymous_types);
        let ghost want = due(self@, skip);
        let mut ids: Vec<usize> = Vec::new();
        let mut k: usize = 0;
        proof {
            assert(upto(ids@, 0) =~= Set::<usize>::empty());
            assert(upto(all@, 0) =~= Set::<usize>::empty());
            assert(upto(all@, 0).intersect(want) =~= Set::<usize>::empty());
            lemma_upto_all(all@);
        }
        while k < all.len()
            invariant
                k <= all@.len(),
                self@ == old(self)@,
                want == due(self@, skip),
                upto(all@, all@.len() as int) == self@.public,
                upto(ids@, ids@.len() as int) == upto(all@, k as int).intersect(want),
                forall|j: int| 0 <= j < ids@.len() ==> iface.structural(#[trigger] ids@[j]),
            decreases all@.len() - k,
        {
            let id = all[k];
            let ghost before = ids@;
            proof {
                lemma_upto_next(all@, k as int);
                assert(0 <= k < all@.len() && all@[k as int] == id);
                assert(upto(all@, all@.len() as int).contains(id));
            }
            let wanted = !(skip && self.has_def(id));
            assert(wanted == want.contains(id));
            if wanted {
                if !C::is_structural(iface, id) {
                    return Err(Error::Unsupported);
                }
                ids.push(id);
                proof {
                    lemma_upto_next(ids@, before.len() as int);
                    lemma_upto_same(ids@, before, before.len() as int);
                    assert(upto(all@, k as int).insert(id).intersect(want) =~= upto(
                        all@,
                        k as int,
                    ).intersect(want).insert(id));
                }
            } else {
                proof {
                    assert(upto(all@, k as int).insert(id).intersect(want) =~= upto(
                        all@,
                        k as int,
                    ).intersect(want));
                }
            }
            k += 1;
        }
        proof {
            assert(upto(all@, all@.len() as int).intersect(want) =~= want);
            assert forall|id: usize| want.contains(id) implies #[trigger] iface.structural(id) by {
                let j = choose|j: int| 0 <= j < ids@.len() && ids@[j] == id;
                assert(iface.structural(ids@[j]));
            }
        }
        self.public_anonymous_types.clear();
        let ghost g0 = old(self)@;
        proof {
            lemma_round_start(g0, *iface);
            assert(upto(ids@, 0) =~= Set::<usize>::empty());
        }
        let mut k: usize = 0;
        while k < ids.len()
            invariant
                iface.supported(),
                k <= ids@.len(),
                forall|j: int| 0 <= j < ids@.len() ==> iface.structural(#[trigger] ids@[j]),
                self@ == after_defs(g0, *iface, upto(ids@, k as int)),
            decreases ids@.len() - k,
        {
            self.print_anonymous_type(iface, ids[k]);
            proof {
                lemma_round_step(g0, *iface, upto(ids@, k as int), ids@[k as int]);
                lemma_upto_next(ids@, k as int);
            }
            k += 1;
        }
        Ok(ids)
    }

    /// Prints the definitions of the anonymous types that are public, then
    /// those of the anonymous types that these name, and so on until none
    /// is left. With `skip` set, a type that has a definition is passed over.
    /// Gives the types whose definitions were printed. It fails where a type
    /// is due that the generator cannot print without a name.
    #[verifier::rlimit(50)]
    pub(crate) fn drain(&mut self, iface: &Interface, skip: bool) -> (r: Result<BTreeSet<usize>, Error>)
        requires
            iface.supported(),
        ensures
            match drained(old(self)@, *iface, skip, iface.depth()) {
                Ok(done) => r matches Ok(set) && final(self)@ == done.0 && set@ == done.1,
                Err(fail) => r matches Err(e) && e@ == fail,
            },
            r matches Ok(set) ==> final(self)@.public == Set::<usize>::empty() && pending(
                *iface,
                old(self)@,
                final(self)@,
                set@,
            ),
    {
        let mut set: BTreeSet<usize> = BTreeSet::new();
        let ghost mut fuel = iface.depth();
        let ghost whole = drained(old(self)@, *iface, skip, iface.depth());
        proof {
            assert(!iface.any_stringy(Set::<usize>::empty()));
            assert forall|x: usize|
                self@.public.contains(x) && x < iface.types@.len() implies iface.height(
                Type::Id(x),
            ) <= fuel by {
                iface.lemma_top(x, iface.types@.len());
            }
            match drained(self@, *iface, skip, fuel) {
                Ok(rest) => {
                    assert(set@.union(rest.1) =~= rest.1);
                },
                Err(_) => {},
            }
        }
        loop
            invariant
                iface.supported(),
                whole == drained(old(self)@, *iface, skip, iface.depth()),
                with_seen(set@, drained(self@, *iface, skip, fuel)) == whole,
                pending(*iface, old(self)@, self@, set@),
                at_most(*iface, self@.public, fuel),
                fuel >= 1 || all_defs(*iface, self@.public),
            decreases fuel,
        {
            if self.public_anonymous_types.is_empty() {
                proof {
                    assert(set@.union(Set::<usize>::empty()) =~= set@);
                }
                return Ok(set);
            }
            let ghost g = self@;
            let ghost seen = set@;
            let ids = match self.drain_round(iface, skip) {
                Ok(ids) => ids,
                Err(e) => {
                    return Err(e);
                },
            };
            proof {
                // A type is public, so the fuel is not spent.
                let x = choose|x: usize| g.public.contains(x);
                assert(g.public.contains(x)) by {
                    if forall|y: usize| !g.public.contains(y) {
                        assert(g.public =~= Set::<usize>::empty());
                    }
                }
                if fuel == 0 {
                    assert(x < iface.types@.len());
                }
                assert(fuel >= 1);
                // What is public now lies below what was due.
                assert forall|y: usize| self@.public.contains(y) implies y < iface.types@.len()
                    && iface.height(Type::Id(y)) <= fuel - 1 by {
                    let id = choose|id: usize|
                        due(g, skip).contains(id) && #[trigger] iface.child(id, y);
                    assert(iface.structural(id));
                    iface.lemma_child(id, y);
                    assert(g.public.contains(id));
                }
            }
            let mut k: usize = 0;
            while k < ids.len()
                invariant
                    k <= ids@.len(),
                    set@ == seen.union(upto(ids@, k as int)),
                decreases ids@.len() - k,
            {
                set.insert(ids[k]);
                proof {
                    lemma_upto_next(ids@, k as int);
                    assert(seen.union(upto(ids@, k as int)).insert(ids@[k as int]) =~= seen.union(
                        upto(ids@, k as int).insert(ids@[k as int]),
                    ));
                }
                k += 1;
            }
            proof {
                match drained(self@, *iface, skip, (fuel - 1) as nat) {
                    Ok(rest) => {
                        assert(set@.union(rest.1) =~= seen.union(due(g, skip).union(rest.1)));
                    },
                    Err(_) => {},
                }
                lemma_pending_round(*iface, old(self)@, g, seen, skip);
                fuel = (fuel - 1) as nat;
            }
        }
    }
}

} // verus!
