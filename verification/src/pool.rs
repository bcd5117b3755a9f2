//! The pool of identifiers in use.
use vstd::prelude::*;
use wit_bindgen_core::Ns;
use crate::text::decimal;

verus! {

/// `wit_bindgen_core::Ns`, a set of names in use and a counter for fresh ones.
#[verifier::external_type_specification]
#[verifier::external_body]
pub struct ExNs(wit_bindgen_core::Ns);

/// The names that the pool holds.
pub uninterp spec fn ns_defined(ns: Ns) -> Set<Seq<char>>;

/// The number that the pool tries next when a name is taken.
pub uninterp spec fn ns_counter(ns: Ns) -> nat;

/// The state of a pool.
pub struct Pool {
    pub defined: Set<Seq<char>>,
    pub counter: nat,
}

/// The state of an `Ns`.
pub open spec fn pool(ns: Ns) -> Pool {
    Pool { defined: ns_defined(ns), counter: ns_counter(ns) }
}

/// The pool with nothing in it.
pub open spec fn vacant() -> Pool {
    Pool { defined: Set::empty(), counter: 0 }
}

/// `k` is the first number from the counter on whose numeral, put behind
/// `prefix`, gives a name that is not in use.
pub open spec fn first_free(p: Pool, prefix: Seq<char>, k: nat) -> bool {
    &&& p.counter <= k
    &&& !p.defined.contains(prefix + decimal(k))
    &&& forall|j: nat| p.counter <= j < k ==> p.defined.contains(prefix + #[trigger] decimal(j))
}

/// The number that a fresh name for `prefix` ends in, where `prefix` itself
/// is in use.
pub open spec fn fresh_number(p: Pool, prefix: Seq<char>) -> nat {
    choose|k: nat| first_free(p, prefix, k)
}

/// The fresh name that the pool gives for `prefix`: `prefix` itself where it
/// is free, else `prefix` with the first free number behind it.
pub open spec fn fresh(p: Pool, prefix: Seq<char>) -> Seq<char> {
    if p.defined.contains(prefix) {
        prefix + decimal(fresh_number(p, prefix))
    } else {
        prefix
    }
}

/// The pool after it gave a fresh name for `prefix`.
pub open spec fn after_fresh(p: Pool, prefix: Seq<char>) -> Pool {
    Pool {
        defined: p.defined.insert(fresh(p, prefix)),
        counter: if p.defined.contains(prefix) {
            fresh_number(p, prefix) + 1
        } else {
            p.counter
        },
    }
}

/// The pool after `name` is reserved.
pub open spec fn after_reserve(p: Pool, name: Seq<char>) -> Pool {
    Pool { defined: p.defined.insert(name), counter: p.counter }
}

/// `Ns::default`: no name in use, the counter at 0.
#[verifier::external_body]
pub(crate) fn ns_new() -> (ns: Ns)
    ensures
        ns_defined(ns) == Set::<Seq<char>>::empty(),
        ns_counter(ns) == 0,
{
    Ns::default()
}

/// `Ns::insert`. It succeeds exactly when the name was free; either way the
/// name is in use afterwards and the counter stays.
#[verifier::external_body]
pub(crate) fn ns_insert(ns: &mut Ns, name: &str) -> (r: Result<(), String>)
    ensures
        r is Ok <==> !ns_defined(*old(ns)).contains(name@),
        ns_defined(*final(ns)) == ns_defined(*old(ns)).insert(name@),
        ns_counter(*final(ns)) == ns_counter(*old(ns)),
{
    ns.insert(name)
}

/// `Ns::tmp`. It returns `name` where that is free; else it counts up from
/// the counter until `name` followed by the number is free, returns that and
/// leaves the counter one above the number. The name returned was free and is
/// in use afterwards. The counter moves by one per name tried, which no run
/// can do often enough to exhaust it.
#[verifier::external_body]
pub(crate) fn ns_tmp(ns: &mut Ns, name: &str) -> (r: String)
    ensures
        r@ == fresh(pool(*old(ns)), name@),
        !ns_defined(*old(ns)).contains(r@),
        ns_defined(*final(ns)) == ns_defined(*old(ns)).insert(r@),
        ns_counter(*final(ns)) == after_fresh(pool(*old(ns)), name@).counter,
{
    ns.tmp(name)
}

} // verus!
