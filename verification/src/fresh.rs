//! Fresh names from a numbered family (`section-1`, `section-2`, ... or
//! `page-2`, `page-3`, ...): a list of used names cannot hold more numbered
//! names than it has entries, so a free one is always found among the
//! first few.
use vstd::prelude::*;

verus! {

/// A family of names, one per number, no two alike.
pub open spec fn injective(f: spec_fn(nat) -> Seq<char>) -> bool {
    forall|a: nat, b: nat| #[trigger] f(a) == #[trigger] f(b) ==> a == b
}

/// `x` is one of `f(lo)`, ..., `f(lo + k - 1)`.
pub open spec fn in_family(f: spec_fn(nat) -> Seq<char>, x: Seq<char>, lo: nat, k: nat) -> bool {
    exists|j: nat| lo <= j < lo + k && x == #[trigger] f(j)
}

/// Entries of `u` among `f(lo)`, ..., `f(lo + k - 1)`.
pub open spec fn count_in(f: spec_fn(nat) -> Seq<char>, u: Seq<Seq<char>>, lo: nat, k: nat) -> nat
    decreases u.len(),
{
    if u.len() == 0 {
        0
    } else {
        count_in(f, u.drop_last(), lo, k) + if in_family(f, u.last(), lo, k) { 1nat } else { 0nat }
    }
}

/// Entries of `u` equal to `x`.
pub open spec fn count_eq(u: Seq<Seq<char>>, x: Seq<char>) -> nat
    decreases u.len(),
{
    if u.len() == 0 {
        0
    } else {
        count_eq(u.drop_last(), x) + if u.last() == x { 1nat } else { 0nat }
    }
}

proof fn lemma_count_in_step(f: spec_fn(nat) -> Seq<char>, u: Seq<Seq<char>>, lo: nat, k: nat)
    requires
        injective(f),
    ensures
        count_in(f, u, lo, k + 1) == count_in(f, u, lo, k) + count_eq(u, f((lo + k) as nat)),
    decreases u.len(),
{
    if u.len() > 0 {
        lemma_count_in_step(f, u.drop_last(), lo, k);
        let x = u.last();
        let top = (lo + k) as nat;
        if in_family(f, x, lo, k + 1) {
            let j = choose|j: nat| lo <= j < lo + k + 1 && x == #[trigger] f(j);
            if j < lo + k {
                assert(in_family(f, x, lo, k));
                if x == f(top) {
                    assert(f(j) == f(top));
                }
            } else {
                assert(x == f(top));
                if in_family(f, x, lo, k) {
                    let j2 = choose|j2: nat| lo <= j2 < lo + k && x == #[trigger] f(j2);
                    assert(f(j2) == f(top));
                }
            }
        } else {
            if in_family(f, x, lo, k) {
                let j = choose|j: nat| lo <= j < lo + k && x == #[trigger] f(j);
                assert(lo <= j < lo + k + 1);
            }
            if x == f(top) {
                assert(in_family(f, x, lo, k + 1));
            }
        }
    }
}

proof fn lemma_count_eq_pos(u: Seq<Seq<char>>, x: Seq<char>)
    requires
        u.contains(x),
    ensures
        count_eq(u, x) >= 1,
    decreases u.len(),
{
    if u.last() != x {
        let i = choose|i: int| 0 <= i < u.len() && u[i] == x;
        assert(u.drop_last()[i] == x);
        lemma_count_eq_pos(u.drop_last(), x);
    }
}

proof fn lemma_count_in_le(f: spec_fn(nat) -> Seq<char>, u: Seq<Seq<char>>, lo: nat, k: nat)
    ensures
        count_in(f, u, lo, k) <= u.len(),
    decreases u.len(),
{
    if u.len() > 0 {
        lemma_count_in_le(f, u.drop_last(), lo, k);
    }
}

/// `k` names of the family in a row, all used, cannot outnumber the used
/// names.
pub proof fn lemma_pigeonhole(f: spec_fn(nat) -> Seq<char>, u: Seq<Seq<char>>, lo: nat, k: nat)
    requires
        injective(f),
        forall|j: nat| lo <= j < lo + k ==> u.contains(#[trigger] f(j)),
    ensures
        k <= u.len(),
    decreases k,
{
    lemma_pigeonhole_count(f, u, lo, k);
    lemma_count_in_le(f, u, lo, k);
}

proof fn lemma_pigeonhole_count(f: spec_fn(nat) -> Seq<char>, u: Seq<Seq<char>>, lo: nat, k: nat)
    requires
        injective(f),
        forall|j: nat| lo <= j < lo + k ==> u.contains(#[trigger] f(j)),
    ensures
        count_in(f, u, lo, k) >= k,
    decreases k,
{
    if k > 0 {
        lemma_pigeonhole_count(f, u, lo, (k - 1) as nat);
        lemma_count_in_step(f, u, lo, (k - 1) as nat);
        lemma_count_eq_pos(u, f((lo + k - 1) as nat));
    }
}

/// The first `k >= next` whose name `f(k)` is not in `used`.
pub open spec fn is_first_free(f: spec_fn(nat) -> Seq<char>, used: Seq<Seq<char>>, next: nat, k: nat) -> bool {
    &&& next <= k
    &&& !used.contains(f(k))
    &&& forall|j: nat| next <= j < k ==> used.contains(#[trigger] f(j))
}

/// The first `k >= next` whose name `f(k)` is not in `used`.
pub open spec fn first_free(f: spec_fn(nat) -> Seq<char>, used: Seq<Seq<char>>, next: nat) -> nat {
    choose|k: nat| is_first_free(f, used, next, k)
}

pub proof fn lemma_first_free_unique(f: spec_fn(nat) -> Seq<char>, used: Seq<Seq<char>>, next: nat, a: nat, b: nat)
    requires
        is_first_free(f, used, next, a),
        is_first_free(f, used, next, b),
    ensures
        a == b,
{
    if a < b {
        assert(used.contains(f(a)));
    } else if b < a {
        assert(used.contains(f(b)));
    }
}

proof fn least_free(f: spec_fn(nat) -> Seq<char>, used: Seq<Seq<char>>, next: nat, w: nat) -> (k: nat)
    requires
        next <= w,
        !used.contains(f(w)),
    ensures
        is_first_free(f, used, next, k),
        k <= w,
    decreases w - next,
{
    if exists|j: nat| next <= j < w && !used.contains(#[trigger] f(j)) {
        let j = choose|j: nat| next <= j < w && !used.contains(#[trigger] f(j));
        least_free(f, used, next, j)
    } else {
        w
    }
}

/// A free name exists, at most `used.len()` past `next`.
pub proof fn lemma_first_free_exists(f: spec_fn(nat) -> Seq<char>, used: Seq<Seq<char>>, next: nat)
    requires
        injective(f),
    ensures
        is_first_free(f, used, next, first_free(f, used, next)),
        first_free(f, used, next) <= next + used.len(),
{
    let bound = next + used.len();
    if forall|j: nat| next <= j <= bound ==> used.contains(#[trigger] f(j)) {
        assert forall|j: nat| next <= j < next + (used.len() + 1) implies used.contains(#[trigger] f(j)) by {}
        lemma_pigeonhole(f, used, next, (used.len() + 1) as nat);
    }
    let w = choose|j: nat| next <= j <= bound && !used.contains(#[trigger] f(j));
    let k = least_free(f, used, next, w);
    lemma_first_free_unique(f, used, next, k, first_free(f, used, next));
}

} // verus!
