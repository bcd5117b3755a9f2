//! The order in which definitions are printed: each after those it
//! mentions.
use vstd::prelude::*;
use crate::ir::Interface;
use crate::ir::Type;

verus! {

impl Interface {
    /// `done` with the definition that `ty` names behind it, and before that
    /// whatever the definition mentions, unless `done` holds it already.
    pub open spec fn visit(self, ty: Type, done: Seq<usize>) -> Seq<usize>
        decreases self.height(ty), 1 + self.slot_len(ty),
        when self.wf() && self.has(ty)
    {
        match ty {
            Type::Id(i) => if done.contains(i) {
                done
            } else {
                self.visit_slots(i, self.types@[i as int].kind.slots().len(), done).push(i)
            },
            _ => done,
        }
    }

    /// `done` with what the first `n` slots of definition `i` mention behind
    /// it.
    pub open spec fn visit_slots(self, i: usize, n: nat, done: Seq<usize>) -> Seq<usize>
        decreases self.height(Type::Id(i)), n,
        when self.wf() && i < self.types@.len() && n <= self.types@[i as int].kind.slots().len()
    {
        if n == 0 {
            done
        } else {
            let before = self.visit_slots(i, (n - 1) as nat, done);
            match self.types@[i as int].kind.slots()[n - 1] {
                Some(t) => {
                    proof {
                        self.lemma_slot(i, n - 1);
                    }
                    self.visit(t, before)
                },
                None => before,
            }
        }
    }

    /// The first `n` definitions and what they mention, each once and
    /// behind what it mentions.
    pub open spec fn visit_upto(self, n: nat) -> Seq<usize>
        decreases n,
    {
        if n == 0 {
            Seq::empty()
        } else {
            self.visit(Type::Id((n - 1) as usize), self.visit_upto((n - 1) as nat))
        }
    }

    /// The order in which the definitions are printed: each definition is
    /// taken up in turn and put behind whatever it mentions.
    pub open spec fn topological(self) -> Seq<usize> {
        self.visit_upto(self.types@.len())
    }

    /// Everything in `s` is a definition, stands there once, and stands
    /// behind what it mentions.
    pub open spec fn ordered(self, s: Seq<usize>) -> bool {
        &&& s.no_duplicates()
        &&& forall|p: int| 0 <= p < s.len() ==> (#[trigger] s[p]) < self.types@.len()
        &&& forall|p: int, k: int|
            0 <= p < s.len() && self.filled(s[p], k) ==> self.before(s, p, #[trigger] self.slot(s[p], k))
    }

    /// What `ty` names, if it names a definition, stands in `s` before
    /// place `p`.
    pub open spec fn before(self, s: Seq<usize>, p: int, ty: Type) -> bool {
        match ty {
            Type::Id(j) => exists|q: int| 0 <= q < p && s[q] == j,
            _ => true,
        }
    }

    /// What [`Interface::visit`] adds keeps a list in order.
    pub(crate) proof fn lemma_visit(self, ty: Type, done: Seq<usize>)
        requires
            self.wf(),
            self.has(ty),
            self.ordered(done),
        ensures
            self.ordered(self.visit(ty, done)),
            done.is_prefix_of(self.visit(ty, done)),
            self.before(self.visit(ty, done), self.visit(ty, done).len() as int, ty),
        decreases self.height(ty), 1 + self.slot_len(ty),
    {
        match ty {
            Type::Id(i) => {
                if done.contains(i) {
                    let q = choose|q: int| 0 <= q < done.len() && done[q] == i;
                    assert(done[q] == i);
                } else {
                    let n = self.types@[i as int].kind.slots().len();
                    self.lemma_visit_slots(i, n, done);
                    let mid = self.visit_slots(i, n, done);
                    let r = mid.push(i);
                    assert(r == self.visit(ty, done));
                    assert(r[mid.len() as int] == i);
                    // `i` is not in `mid`: what was added lies below `i`.
                    assert(!mid.contains(i)) by {
                        if mid.contains(i) {
                            let q = choose|q: int| 0 <= q < mid.len() && mid[q] == i;
                            assert(mid[q] == i);
                            if q < done.len() {
                                assert(done[q] == mid[q]);
                                assert(done.contains(i));
                            } else {
                                assert(self.height(Type::Id(mid[q])) < self.height(Type::Id(i)));
                            }
                        }
                    }
                    assert(r.no_duplicates());
                    assert forall|p: int, k: int|
                        0 <= p < r.len() && self.filled(r[p], k) implies self.before(
                        r,
                        p,
                        #[trigger] self.slot(r[p], k),
                    ) by {
                        if p < mid.len() {
                            assert(self.before(mid, p, self.slot(mid[p], k)));
                            match self.slot(mid[p], k) {
                                Type::Id(j) => {
                                    let q = choose|q: int| 0 <= q < p && mid[q] == j;
                                    assert(r[q] == j);
                                },
                                _ => {},
                            }
                        } else {
                            assert(self.mentioned(i, n, mid));
                            match self.slot(i, k) {
                                Type::Id(j) => {
                                    let q = choose|q: int| 0 <= q < mid.len() && mid[q] == j;
                                    assert(r[q] == j);
                                },
                                _ => {},
                            }
                        }
                    }
                    assert(done.is_prefix_of(r));
                }
            },
            _ => {},
        }
    }

    /// What the first `n` slots of definition `i` mention stands in `s`.
    pub open spec fn mentioned(self, i: usize, n: nat, s: Seq<usize>) -> bool {
        forall|k: int|
            0 <= k < n && self.filled(i, k) ==> self.before(
                s,
                s.len() as int,
                #[trigger] self.slot(i, k),
            )
    }

    /// What [`Interface::visit_slots`] adds keeps a list in order, lies
    /// below the definition, and holds what the slots mention.
    pub(crate) proof fn lemma_visit_slots(self, i: usize, n: nat, done: Seq<usize>)
        requires
            self.wf(),
            i < self.types@.len(),
            n <= self.types@[i as int].kind.slots().len(),
            self.ordered(done),
        ensures
            self.ordered(self.visit_slots(i, n, done)),
            done.is_prefix_of(self.visit_slots(i, n, done)),
            self.mentioned(i, n, self.visit_slots(i, n, done)),
            forall|q: int|
                done.len() <= q < self.visit_slots(i, n, done).len() ==> self.height(
                    Type::Id(#[trigger] self.visit_slots(i, n, done)[q]),
                ) < self.height(Type::Id(i)),
        decreases self.height(Type::Id(i)), n,
    {
        if n > 0 {
            self.lemma_visit_slots(i, (n - 1) as nat, done);
            let before = self.visit_slots(i, (n - 1) as nat, done);
            match self.types@[i as int].kind.slots()[n - 1] {
                Some(t) => {
                    self.lemma_slot(i, n - 1);
                    self.lemma_visit(t, before);
                    self.lemma_added_below(t, before);
                    let r = self.visit(t, before);
                    assert(r == self.visit_slots(i, n, done));
                    assert forall|k: int| 0 <= k < n && self.filled(i, k) implies self.before(
                        r,
                        r.len() as int,
                        #[trigger] self.slot(i, k),
                    ) by {
                        if k < n - 1 {
                            match self.slot(i, k) {
                                Type::Id(j) => {
                                    let q = choose|q: int| 0 <= q < before.len() && before[q] == j;
                                    assert(r[q] == before[q]);
                                },
                                _ => {},
                            }
                        }
                    }
                    assert forall|q: int| done.len() <= q < r.len() implies self.height(
                        Type::Id(#[trigger] r[q]),
                    ) < self.height(Type::Id(i)) by {
                        if q < before.len() {
                            assert(r[q] == before[q]);
                        }
                    }
                },
                None => {
                    assert(!self.filled(i, n - 1));
                },
            }
        }
    }

    /// What [`Interface::visit`] adds is no higher than the type it is
    /// called for.
    pub(crate) proof fn lemma_added_below(self, ty: Type, done: Seq<usize>)
        requires
            self.wf(),
            self.has(ty),
            self.ordered(done),
        ensures
            forall|q: int|
                done.len() <= q < self.visit(ty, done).len() ==> self.height(
                    Type::Id(#[trigger] self.visit(ty, done)[q]),
                ) <= self.height(ty),
        decreases self.height(ty), 1 + self.slot_len(ty),
    {
        match ty {
            Type::Id(i) => {
                if !done.contains(i) {
                    let n = self.types@[i as int].kind.slots().len();
                    self.lemma_visit_slots(i, n, done);
                }
            },
            _ => {},
        }
    }

    /// The first `n` definitions stand in what [`Interface::visit_upto`]
    /// gives for `n`, which is in order.
    pub(crate) proof fn lemma_visit_upto(self, n: nat)
        requires
            self.wf(),
            n <= self.types@.len(),
        ensures
            self.ordered(self.visit_upto(n)),
            forall|i: usize| i < n ==> self.visit_upto(n).contains(i),
        decreases n,
    {
        if n > 0 {
            self.lemma_visit_upto((n - 1) as nat);
            let before = self.visit_upto((n - 1) as nat);
            let ty = Type::Id((n - 1) as usize);
            self.lemma_visit(ty, before);
            let r = self.visit(ty, before);
            assert forall|i: usize| i < n implies r.contains(i) by {
                if i < n - 1 {
                    assert(before.contains(i));
                    let q = choose|q: int| 0 <= q < before.len() && before[q] == i;
                    assert(r[q] == before[q]);
                } else {
                    let q = choose|q: int| 0 <= q < r.len() && r[q] == (n - 1) as usize;
                    assert(r[q] == i);
                }
            }
        } else {
            assert(self.visit_upto(0) =~= Seq::<usize>::empty());
        }
    }

    /// In the order in which the definitions of a
    /// well-formed interface are printed, every definition stands exactly
    /// once, and behind every definition that it mentions.
    pub proof fn topological_order_is_sound(self)
        requires
            self.wf(),
        ensures
            self.ordered(self.topological()),
            forall|i: usize| i < self.types@.len() ==> self.topological().contains(i),
    {
        self.lemma_visit_upto(self.types@.len());
    }
}

/// `visited` marks exactly the definitions that `list` holds.
pub open spec fn marks(visited: Seq<bool>, list: Seq<usize>) -> bool {
    forall|j: usize| j < visited.len() ==> (#[trigger] visited[j as int] <==> list.contains(j))
}

impl Interface {
    /// Puts the definition that `ty` names behind `list`, and before it
    /// whatever it mentions, unless `list` holds it already.
    fn topo_visit(&self, ty: &Type, list: &mut Vec<usize>, visited: &mut Vec<bool>)
        requires
            self.wf(),
            self.has(*ty),
            old(visited)@.len() == self.types@.len(),
            marks(old(visited)@, old(list)@),
        ensures
            final(list)@ == self.visit(*ty, old(list)@),
            final(visited)@.len() == self.types@.len(),
            marks(final(visited)@, final(list)@),
        decreases self.height(*ty), 1 + self.slot_len(*ty),
    {
        let id = match ty {
            Type::Id(id) => *id,
            _ => {
                return ;
            },
        };
        if visited[id] {
            return ;
        }
        let kind = &self.types[id].kind;
        let n = kind.slot_count();
        let mut k: usize = 0;
        while k < n
            invariant
                self.wf(),
                *ty == Type::Id(id),
                id < self.types@.len(),
                kind == self.types@[id as int].kind,
                n == kind.slots().len(),
                k <= n,
                list@ == self.visit_slots(id, k as nat, old(list)@),
                visited@.len() == self.types@.len(),
                marks(visited@, list@),
            decreases n - k,
        {
            if let Some(t) = kind.slot_type(k) {
                proof {
                    self.lemma_slot(id, k as int);
                }
                self.topo_visit(&t, list, visited);
            }
            k += 1;
        }
        let ghost before = list@;
        list.push(id);
        visited.set(id, true);
        proof {
            assert forall|j: usize| j < visited@.len() implies (#[trigger] visited@[j as int]
                <==> list@.contains(j)) by {
                if j == id {
                    assert(list@[before.len() as int] == id);
                } else {
                    if before.contains(j) {
                        let q = choose|q: int| 0 <= q < before.len() && before[q] == j;
                        assert(list@[q] == j);
                    }
                    if list@.contains(j) {
                        let q = choose|q: int| 0 <= q < list@.len() && list@[q] == j;
                        assert(before[q] == j);
                    }
                }
            }
        }
    }

    /// The order in which the definitions are printed.
    pub fn topological_types(&self) -> (order: Vec<usize>)
        requires
            self.wf(),
        ensures
            order@ == self.topological(),
    {
        let mut list: Vec<usize> = Vec::new();
        let mut visited: Vec<bool> = Vec::new();
        let mut i: usize = 0;
        while i < self.types.len()
            invariant
                i <= self.types@.len(),
                visited@.len() == i,
                forall|j: int| 0 <= j < i ==> !visited@[j],
            decreases self.types@.len() - i,
        {
            visited.push(false);
            i += 1;
        }
        let mut i: usize = 0;
        while i < self.types.len()
            invariant
                self.wf(),
                i <= self.types@.len(),
                visited@.len() == self.types@.len(),
                marks(visited@, list@),
                list@ == self.visit_upto(i as nat),
            decreases self.types@.len() - i,
        {
            self.topo_visit(&Type::Id(i), &mut list, &mut visited);
            i += 1;
        }
        list
    }
}

} // verus!
