//! A test that an interface is one that the generator takes.
use vstd::prelude::*;
use crate::bindgen::Error;
use crate::bindgen::Failure;
use crate::ir::Interface;
use crate::ir::Type;
use crate::ir::TypeDefKind;

verus! {

/// The number of marks among the first `n`.
pub open spec fn marked(marks: Seq<bool>, n: nat) -> nat
    decreases n,
{
    if n == 0 {
        0
    } else {
        marked(marks, (n - 1) as nat) + if marks[n - 1] {
            1nat
        } else {
            0nat
        }
    }
}

/// No more marks than places; and as many only where every place is
/// marked.
pub(crate) proof fn lemma_marked(marks: Seq<bool>, n: nat)
    requires
        n <= marks.len(),
    ensures
        marked(marks, n) <= n,
        marked(marks, n) == n ==> forall|i: int| 0 <= i < n ==> marks[i],
    decreases n,
{
    if n > 0 {
        lemma_marked(marks, (n - 1) as nat);
    }
}

/// Where every place is marked there are as many marks as places.
pub(crate) proof fn lemma_all_marked(marks: Seq<bool>, n: nat)
    requires
        n <= marks.len(),
        forall|i: int| 0 <= i < n ==> marks[i],
    ensures
        marked(marks, n) == n,
    decreases n,
{
    if n > 0 {
        lemma_all_marked(marks, (n - 1) as nat);
    }
}

/// One more mark is one more.
pub(crate) proof fn lemma_marked_more(marks: Seq<bool>, i: int, n: nat)
    requires
        0 <= i < marks.len(),
        n <= marks.len(),
        !marks[i],
    ensures
        marked(marks.update(i, true), n) == marked(marks, n) + if i < n {
            1nat
        } else {
            0nat
        },
    decreases n,
{
    if n > 0 {
        lemma_marked_more(marks, i, (n - 1) as nat);
    }
}

impl Interface {
    /// The generator has code for every definition.
    pub open spec fn kinds_supported(self) -> bool {
        forall|i: int| 0 <= i < self.types@.len() ==> (#[trigger] self.types@[i]).kind.supported()
    }

    /// Every definition whose kind needs a name has one.
    pub open spec fn named(self) -> bool {
        forall|i: int|
            0 <= i < self.types@.len() && (#[trigger] self.types@[i]).kind.needs_name()
                ==> self.types@[i].name is Some
    }

    /// Every definition that is mentioned exists.
    pub open spec fn resolved(self) -> bool {
        forall|i: int, k: int|
            #![trigger self.types@[i].kind.slots()[k]]
            0 <= i < self.types@.len() && 0 <= k < self.types@[i].kind.slots().len()
                ==> match self.types@[i].kind.slots()[k] {
                Some(Type::Id(j)) => j < self.types@.len(),
                _ => true,
            }
    }

    /// Everything that definition `i` mentions is marked.
    pub open spec fn ready(self, i: int, marks: Seq<bool>) -> bool {
        forall|k: int|
            0 <= k < self.types@[i].kind.slots().len() ==> match #[trigger] self.types@[i].kind.slots()[k] {
                Some(Type::Id(j)) => marks[j as int],
                _ => true,
            }
    }

    /// The marked definitions are ranked by `rank` below `count`, and
    /// mention only marked definitions of lower rank.
    pub open spec fn placed(self, marks: Seq<bool>, rank: Seq<nat>, count: nat) -> bool {
        &&& marks.len() == self.types@.len()
        &&& rank.len() == self.types@.len()
        &&& count == marked(marks, marks.len())
        &&& forall|i: int| 0 <= i < marks.len() && marks[i] ==> #[trigger] rank[i] < count
        &&& forall|i: int, k: int|
            #![trigger self.types@[i].kind.slots()[k]]
            0 <= i < marks.len() && marks[i] && 0 <= k < self.types@[i].kind.slots().len()
                ==> match self.types@[i].kind.slots()[k] {
                Some(Type::Id(j)) => marks[j as int] && rank[j as int] < rank[i],
                _ => true,
            }
    }

    /// No definition that mentions an unmarked one can be ranked: what it
    /// mentions mentions an unmarked definition in turn, and ranks cannot fall
    /// for ever.
    pub(crate) proof fn lemma_stuck(self, marks: Seq<bool>, rank: Seq<nat>, u: int)
        requires
            self.resolved(),
            self.ranked_by(rank),
            marks.len() == self.types@.len(),
            0 <= u < marks.len(),
            !marks[u],
            forall|i: int| 0 <= i < marks.len() && !marks[i] ==> !#[trigger] self.ready(i, marks),
        ensures
            marks[u],
        decreases rank[u],
    {
        assert(!self.ready(u, marks));
        let k = choose|k: int|
            0 <= k < self.types@[u].kind.slots().len() && !(match #[trigger] self.types@[u].kind.slots()[k] {
                Some(Type::Id(j)) => marks[j as int],
                _ => true,
            });
        match self.types@[u].kind.slots()[k] {
            Some(Type::Id(j)) => {
                self.lemma_stuck(marks, rank, j as int);
            },
            _ => {},
        }
    }

    /// Whether the generator has code for a kind of definition.
    fn kind_supported(kind: &TypeDefKind) -> (r: bool)
        ensures
            r == kind.supported(),
    {
        match kind {
            TypeDefKind::Future(_) => false,
            TypeDefKind::Stream { .. } => false,
            TypeDefKind::Flags(flags) => flags.len() <= 64,
            TypeDefKind::Variant(cases) => 1 <= cases.len() && cases.len() <= 0xffff_ffff,
            TypeDefKind::Enum(cases) => cases.len() <= 0xffff_ffff,
            TypeDefKind::Union(cases) => cases.len() <= 0xffff_ffff,
            _ => true,
        }
    }

    /// Whether a kind of definition is one that only a named type can have.
    fn kind_needs_name(kind: &TypeDefKind) -> (r: bool)
        ensures
            r == kind.needs_name(),
    {
        match kind {
            TypeDefKind::Record(_) => true,
            TypeDefKind::Flags(_) => true,
            TypeDefKind::Enum(_) => true,
            TypeDefKind::Variant(_) => true,
            TypeDefKind::Union(_) => true,
            _ => false,
        }
    }

    /// Whether the generator has code for every definition.
    fn all_kinds_supported(&self) -> (r: bool)
        ensures
            r == self.kinds_supported(),
    {
        let mut i: usize = 0;
        while i < self.types.len()
            invariant
                i <= self.types@.len(),
                forall|j: int| 0 <= j < i ==> (#[trigger] self.types@[j]).kind.supported(),
            decreases self.types@.len() - i,
        {
            if !Interface::kind_supported(&self.types[i].kind) {
                return false;
            }
            i += 1;
        }
        true
    }

    /// Whether every definition has a name if its kind needs one, and
    /// mentions only definitions that exist.
    fn named_and_resolved(&self) -> (r: bool)
        ensures
            r == (self.named() && self.resolved()),
    {
        let mut i: usize = 0;
        while i < self.types.len()
            invariant
                i <= self.types@.len(),
                forall|j: int|
                    0 <= j < i && (#[trigger] self.types@[j]).kind.needs_name()
                        ==> self.types@[j].name is Some,
                forall|j: int, k: int|
                    #![trigger self.types@[j].kind.slots()[k]]
                    0 <= j < i && 0 <= k < self.types@[j].kind.slots().len()
                        ==> match self.types@[j].kind.slots()[k] {
                        Some(Type::Id(m)) => m < self.types@.len(),
                        _ => true,
                    },
            decreases self.types@.len() - i,
        {
            let def = &self.types[i];
            if Interface::kind_needs_name(&def.kind) && def.name.is_none() {
                return false;
            }
            let n = def.kind.slot_count();
            let mut k: usize = 0;
            while k < n
                invariant
                    i < self.types@.len(),
                    def == self.types@[i as int],
                    n == def.kind.slots().len(),
                    k <= n,
                    forall|l: int|
                        0 <= l < k ==> match #[trigger] self.types@[i as int].kind.slots()[l] {
                            Some(Type::Id(m)) => m < self.types@.len(),
                            _ => true,
                        },
                decreases n - k,
            {
                if let Some(Type::Id(m)) = def.kind.slot_type(k) {
                    if m >= self.types.len() {
                        assert(self.types@[i as int].kind.slots()[k as int] == Some(Type::Id(m)));
                        return false;
                    }
                }
                k += 1;
            }
            i += 1;
        }
        true
    }

    /// Whether everything that definition `i` mentions is marked.
    fn is_ready(&self, i: usize, marks: &Vec<bool>) -> (r: bool)
        requires
            self.resolved(),
            i < self.types@.len(),
            marks@.len() == self.types@.len(),
        ensures
            r == self.ready(i as int, marks@),
    {
        let kind = &self.types[i].kind;
        let n = kind.slot_count();
        let mut k: usize = 0;
        while k < n
            invariant
                self.resolved(),
                i < self.types@.len(),
                marks@.len() == self.types@.len(),
                kind == self.types@[i as int].kind,
                n == kind.slots().len(),
                k <= n,
                forall|l: int|
                    0 <= l < k ==> match #[trigger] self.types@[i as int].kind.slots()[l] {
                        Some(Type::Id(j)) => marks@[j as int],
                        _ => true,
                    },
            decreases n - k,
        {
            if let Some(Type::Id(j)) = kind.slot_type(k) {
                assert(self.types@[i as int].kind.slots()[k as int] == Some(Type::Id(j)));
                if !marks[j] {
                    return false;
                }
            }
            k += 1;
        }
        true
    }

    /// Whether no definition reaches itself: the definitions are marked in
    /// passes, each as soon as everything it mentions is marked, until a pass
    /// marks none; then all are marked, or the rest lies on a cycle.
    #[verifier::rlimit(50)]
    fn acyclic(&self) -> (r: bool)
        requires
            self.resolved(),
        ensures
            r == exists|rank: Seq<nat>| self.ranked_by(rank),
    {
        let n = self.types.len();
        let mut marks: Vec<bool> = Vec::new();
        let mut i: usize = 0;
        while i < n
            invariant
                i <= n,
                marks@.len() == i,
                marked(marks@, i as nat) == 0,
                forall|j: int| 0 <= j < i ==> !marks@[j],
            decreases n - i,
        {
            let ghost before = marks@;
            marks.push(false);
            proof {
                lemma_marked_same(before, marks@, i as nat);
            }
            i += 1;
        }
        let mut count: usize = 0;
        let ghost mut rank: Seq<nat> = Seq::new(n as nat, |i: int| 0nat);
        loop
            invariant
                n == self.types@.len(),
                self.resolved(),
                self.placed(marks@, rank, count as nat),
            decreases n - count,
        {
            proof {
                lemma_marked(marks@, n as nat);
            }
            let mut progress = false;
            let ghost start = count;
            let mut i: usize = 0;
            while i < n
                invariant
                    n == self.types@.len(),
                    self.resolved(),
                    self.placed(marks@, rank, count as nat),
                    i <= n,
                    count <= n,
                    start <= count,
                    progress ==> start < count,
                    !progress ==> forall|j: int|
                        0 <= j < i && !marks@[j] ==> !#[trigger] self.ready(j, marks@),
                decreases n - i,
            {
                if !marks[i] && self.is_ready(i, &marks) {
                    let ghost before = marks@;
                    let ghost ranks = rank;
                    marks.set(i, true);
                    proof {
                        rank = rank.update(i as int, count as nat);
                        lemma_marked_more(before, i as int, n as nat);
                        lemma_marked(marks@, n as nat);
                        assert forall|a: int, k: int|
                            #![trigger self.types@[a].kind.slots()[k]]
                            0 <= a < marks@.len() && marks@[a] && 0 <= k
                                < self.types@[a].kind.slots().len() implies match self.types@[a].kind.slots()[k] {
                            Some(Type::Id(j)) => marks@[j as int] && rank[j as int] < rank[a],
                            _ => true,
                        } by {
                            match self.types@[a].kind.slots()[k] {
                                Some(Type::Id(j)) => {
                                    if a == i {
                                        assert(before[j as int]);
                                        assert(ranks[j as int] < count);
                                    } else {
                                        assert(before[a]);
                                        assert(before[j as int]);
                                    }
                                },
                                _ => {},
                            }
                        }
                    }
                    count += 1;
                    progress = true;
                }
                i += 1;
            }
            if !progress {
                proof {
                    lemma_marked(marks@, n as nat);
                    if count == n {
                        assert(self.ranked_by(rank));
                    } else {
                        if forall|u: int| 0 <= u < n ==> marks@[u] {
                            lemma_all_marked(marks@, n as nat);
                        }
                        let u = choose|u: int| 0 <= u < n && !marks@[u];
                        if exists|r: Seq<nat>| self.ranked_by(r) {
                            let r = choose|r: Seq<nat>| self.ranked_by(r);
                            self.lemma_stuck(marks@, r, u);
                        }
                    }
                }
                return count == n;
            }
        }
    }

    /// Tests that the generator takes the interface: that it is well
    /// formed and that the generator has code for every definition in it. It
    /// fails as unsupported where a definition is a future or a stream, flags
    /// of more than 64 members, a variant without a case, or has more cases
    /// than a 32-bit discriminant tells apart; and else as malformed, where a
    /// definition lacks a name that its kind needs, mentions a definition
    /// that is not there, or reaches itself.
    pub fn check(&self) -> (r: Result<(), Error>)
        ensures
            r is Ok <==> self.supported(),
            r matches Err(e) ==> e@ == (if self.kinds_supported() {
                Failure::Malformed
            } else {
                Failure::Unsupported
            }),
    {
        if !self.all_kinds_supported() {
            return Err(Error::Unsupported);
        }
        if !self.named_and_resolved() {
            proof {
                if self.wf() {
                    let rank = self.ranking();
                    assert(self.ranked_by(rank));
                    assert(self.resolved());
                }
            }
            return Err(Error::Malformed);
        }
        if !self.acyclic() {
            return Err(Error::Malformed);
        }
        Ok(())
    }
}

/// The marks among the first places do not depend on the places behind
/// them.
pub(crate) proof fn lemma_marked_same(a: Seq<bool>, b: Seq<bool>, n: nat)
    requires
        n <= a.len(),
        n <= b.len(),
        forall|i: int| 0 <= i < n ==> a[i] == b[i],
    ensures
        marked(a, n) == marked(b, n),
    decreases n,
{
    if n > 0 {
        lemma_marked_same(a, b, (n - 1) as nat);
    }
}

} // verus!
