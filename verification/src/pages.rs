//! Adding pages: a new page whose id is taken gets the first free
//! numbered id `<id>-<n>` (from 2), and the slug with the same number.
use vstd::prelude::*;
use crate::fresh::{
    first_free, injective, is_first_free, lemma_first_free_exists, lemma_first_free_unique,
    lemma_pigeonhole,
};
use crate::text::{chars_eq, chars_of, decimal, lemma_decimal_injective, push_decimal, push_str, views};

verus! {

broadcast use vstd::string::group_string_axioms;

/// `base-<n>`.
pub open spec fn suffixed(base: Seq<char>, n: nat) -> Seq<char> {
    base + "-"@ + decimal(n)
}

/// The numbered variants of `base`.
pub open spec fn suffix_family(base: Seq<char>) -> spec_fn(nat) -> Seq<char> {
    |n: nat| suffixed(base, n)
}

proof fn lemma_suffix_family_injective(base: Seq<char>)
    ensures
        injective(suffix_family(base)),
{
    reveal_strlit("-");
    assert forall|a: nat, b: nat| #[trigger] suffix_family(base)(a) == #[trigger] suffix_family(base)(b) implies a == b by {
        let k = base.len() + 1;
        assert(suffixed(base, a).skip(k as int) =~= decimal(a));
        assert(suffixed(base, b).skip(k as int) =~= decimal(b));
        lemma_decimal_injective(a, b);
    }
}

/// The id and slug a new page gets among pages whose ids are `existing`:
/// its own when the id is free, else both with the first number from 2
/// that makes the id free.
pub open spec fn deduped_page_id(existing: Seq<Seq<char>>, id: Seq<char>, slug: Seq<char>) -> (Seq<char>, Seq<char>) {
    if !existing.contains(id) {
        (id, slug)
    } else {
        let n = first_free(suffix_family(id), existing, 2);
        (suffixed(id, n), suffixed(slug, n))
    }
}

fn contains_string(v: &Vec<String>, x: &Vec<char>) -> (r: bool)
    ensures
        r == views(v@).contains(x@),
{
    let ghost u = views(v@);
    let mut i: usize = 0;
    while i < v.len()
        invariant
            u == views(v@),
            i <= v@.len(),
            forall|j: int| 0 <= j < i ==> u[j] != x@,
        decreases v@.len() - i,
    {
        let cs = chars_of(v[i].as_str());
        if chars_eq(x, cs.as_slice()) {
            assert(u[i as int] == x@);
            return true;
        }
        i += 1;
    }
    proof {
        if u.contains(x@) {
            let j = choose|j: int| 0 <= j < u.len() && u[j] == x@;
            assert(false);
        }
    }
    false
}

fn suffixed_string(base: &str, n: usize) -> (r: String)
    ensures
        r@ == suffixed(base@, n as nat),
{
    let mut s = String::new();
    push_str(&mut s, base);
    push_str(&mut s, "-");
    push_decimal(&mut s, n);
    assert(s@ =~= suffixed(base@, n as nat));
    s
}

/// The id and slug for a new page among pages whose ids are
/// `existing_ids` (see `deduped_page_id`).
pub fn dedupe_page_id(existing_ids: &Vec<String>, id: &str, slug: &str) -> (r: (String, String))
    requires
        existing_ids@.len() + 3 < usize::MAX,
    ensures
        (r.0@, r.1@) == deduped_page_id(views(existing_ids@), id@, slug@),
{
    let ghost u = views(existing_ids@);
    let ghost f = suffix_family(id@);
    let own = chars_of(id);
    if !contains_string(existing_ids, &own) {
        let mut i = String::new();
        push_str(&mut i, id);
        let mut s = String::new();
        push_str(&mut s, slug);
        assert(i@ =~= id@);
        assert(s@ =~= slug@);
        return (i, s);
    }
    proof {
        lemma_suffix_family_injective(id@);
    }
    let mut n: usize = 2;
    loop
        invariant
            u == views(existing_ids@),
            f == suffix_family(id@),
            injective(f),
            u.contains(id@),
            existing_ids@.len() + 3 < usize::MAX,
            2 <= n <= 2 + u.len(),
            forall|j: nat| 2 <= j < n ==> u.contains(#[trigger] f(j)),
        decreases 2 + u.len() - n,
    {
        let cand = suffixed_string(id, n);
        let cs = chars_of(cand.as_str());
        if !contains_string(existing_ids, &cs) {
            proof {
                assert(!u.contains(f(n as nat)));
                assert(is_first_free(f, u, 2, n as nat));
                lemma_first_free_exists(f, u, 2);
                lemma_first_free_unique(f, u, 2, n as nat, first_free(f, u, 2));
                assert(cand@ == f(n as nat));
            }
            let s = suffixed_string(slug, n);
            return (cand, s);
        }
        proof {
            assert(u.contains(f(n as nat)));
            assert forall|j: nat| 2 <= j < 2 + ((n + 1 - 2) as nat) implies u.contains(#[trigger] f(j)) by {
                if j < n {
                } else {
                    assert(j == n);
                }
            }
            lemma_pigeonhole(f, u, 2, (n + 1 - 2) as nat);
        }
        n += 1;
    }
}

/// The id a new page gets is used by no existing page.
pub proof fn law_deduped_id_is_fresh(existing: Seq<Seq<char>>, id: Seq<char>, slug: Seq<char>)
    ensures
        !existing.contains(deduped_page_id(existing, id, slug).0),
{
    if existing.contains(id) {
        lemma_suffix_family_injective(id);
        lemma_first_free_exists(suffix_family(id), existing, 2);
    }
}

} // verus!
