//! Section ids of a page: picking a fresh `section-<n>` id, and repairing a
//! page so that every section has a non-empty id that no other section has.
use vstd::prelude::*;
use crate::fresh::{
    first_free, injective, is_first_free, lemma_first_free_exists, lemma_first_free_unique,
    lemma_pigeonhole,
};
use crate::site::{DdSection, Page, PageNode, SectionColumn};
use crate::text::{
    chars_eq, chars_of, decimal, lemma_decimal_injective, push_decimal, push_str, trim_chars,
    trimmed, trim_start, trim_end, is_space,
};

verus! {

broadcast use vstd::string::group_string_axioms;

/// Index of the selected component among `total`, clamped to the last one;
/// `None` when there are none.
pub fn component_index(total: usize, selected_component: usize) -> (r: Option<usize>)
    ensures
        r == if total == 0 {
            None
        } else if selected_component < total {
            Some(selected_component)
        } else {
            Some((total - 1) as usize)
        },
{
    if total == 0 {
        None
    } else {
        Some(if selected_component < total - 1 { selected_component } else { total - 1 })
    }
}

/// The columns of a section.
pub fn section_columns_ref(section: &DdSection) -> (r: &Vec<SectionColumn>)
    ensures
        r@ == section.columns@,
{
    &section.columns
}

/// Gives a section without columns one full-width empty column
/// (`column-1`, `dd-u-1-1`); a section with columns is left as it is.
pub fn normalize_section_columns(section: &mut DdSection)
    ensures
        final(section).id == old(section).id,
        final(section).section_title == old(section).section_title,
        final(section).section_class == old(section).section_class,
        final(section).item_box_class == old(section).item_box_class,
        old(section).columns@.len() > 0 ==> *final(section) == *old(section),
        old(section).columns@.len() == 0 ==> {
            &&& final(section).columns@.len() == 1
            &&& final(section).columns@[0].id@ == "column-1"@
            &&& final(section).columns@[0].width_class@ == "dd-u-1-1"@
            &&& final(section).columns@[0].components@.len() == 0
        },
{
    if section.columns.len() == 0 {
        section.columns.push(SectionColumn {
            id: "column-1".to_string(),
            width_class: "dd-u-1-1".to_string(),
            components: Vec::new(),
        });
    }
}

/// The generated id `section-<k>`.
pub open spec fn candidate(k: nat) -> Seq<char> {
    "section-"@ + decimal(k)
}

proof fn lemma_candidate_injective(a: nat, b: nat)
    requires
        candidate(a) == candidate(b),
    ensures
        a == b,
{
    let p = "section-"@;
    assert(candidate(a).skip(p.len() as int) =~= decimal(a));
    assert(candidate(b).skip(p.len() as int) =~= decimal(b));
    lemma_decimal_injective(a, b);
}

/// The family of generated section ids.
pub open spec fn section_family() -> spec_fn(nat) -> Seq<char> {
    |k: nat| candidate(k)
}

pub proof fn lemma_section_family_injective()
    ensures
        injective(section_family()),
{
    assert forall|a: nat, b: nat| #[trigger] section_family()(a) == #[trigger] section_family()(b) implies a == b by {
        lemma_candidate_injective(a, b);
    }
}

fn contains_chars(used: &Vec<Vec<char>>, x: &Vec<char>) -> (r: bool)
    ensures
        r == used@.map_values(|v: Vec<char>| v@).contains(x@),
{
    let ghost u = used@.map_values(|v: Vec<char>| v@);
    let mut i: usize = 0;
    while i < used.len()
        invariant
            u == used@.map_values(|v: Vec<char>| v@),
            i <= used@.len(),
            forall|j: int| 0 <= j < i ==> u[j] != x@,
        decreases used@.len() - i,
    {
        if chars_eq(&used[i], x.as_slice()) {
            assert(u[i as int] == x@);
            return true;
        }
        i += 1;
    }
    proof {
        if u.contains(x@) {
            let j = choose|j: int| 0 <= j < u.len() && u[j] == x@;
            assert(false);
        }
    }
    false
}

fn candidate_chars(k: usize) -> (r: Vec<char>)
    ensures
        r@ == candidate(k as nat),
{
    let mut s = String::new();
    push_str(&mut s, "section-");
    push_decimal(&mut s, k);
    chars_of(s.as_str())
}

/// Finds the first free candidate at or after `next`.
fn find_free(used: &Vec<Vec<char>>, next: usize) -> (r: usize)
    requires
        next >= 1,
        next + used@.len() < usize::MAX,
    ensures
        is_first_free(section_family(), used@.map_values(|v: Vec<char>| v@), next as nat, r as nat),
        r <= next + used@.len(),
{
    let ghost u = used@.map_values(|v: Vec<char>| v@);
    let mut idx = next;
    loop
        invariant
            u == used@.map_values(|v: Vec<char>| v@),
            next <= idx <= next + u.len(),
            next + u.len() < usize::MAX,
            forall|j: nat| next <= j < idx ==> u.contains(#[trigger] candidate(j)),
        decreases next + u.len() - idx,
    {
        let cand = candidate_chars(idx);
        if !contains_chars(used, &cand) {
            return idx;
        }
        proof {
            assert forall|j: nat| next <= j < idx + 1 implies u.contains(#[trigger] candidate(j)) by {
                if j < idx {
                } else {
                    assert(j == idx);
                }
            }
            lemma_section_family_injective();
            lemma_pigeonhole(section_family(), u, next as nat, (idx + 1 - next) as nat);
        }
        idx += 1;
    }
}

/// Trimmed section ids that count as used: the non-empty ones.
pub open spec fn used_ids(nodes: Seq<PageNode>) -> Seq<Seq<char>>
    decreases nodes.len(),
{
    if nodes.len() == 0 {
        Seq::empty()
    } else {
        let prev = used_ids(nodes.drop_last());
        match nodes.last() {
            PageNode::Section(s) => if trimmed(s.id@).len() > 0 { prev.push(s.id@) } else { prev },
            PageNode::Hero(_) => prev,
        }
    }
}

/// Every section whose trimmed id is not blank has its id among the used
/// ids.
pub proof fn lemma_used_ids_contains(nodes: Seq<PageNode>, i: int)
    requires
        0 <= i < nodes.len(),
        nodes[i] matches PageNode::Section(s) && trimmed(s.id@).len() > 0,
    ensures
        used_ids(nodes).contains(nodes[i]->Section_0.id@),
    decreases nodes.len(),
{
    let prev = used_ids(nodes.drop_last());
    if i < nodes.len() - 1 {
        lemma_used_ids_contains(nodes.drop_last(), i);
        assert(nodes.drop_last()[i] == nodes[i]);
        let w = choose|k: int| 0 <= k < prev.len() && prev[k] == nodes[i]->Section_0.id@;
        if let PageNode::Section(s) = nodes.last() {
            if trimmed(s.id@).len() > 0 {
                assert(prev.push(s.id@)[w] == prev[w]);
            }
        }
    } else {
        let s = nodes.last()->Section_0;
        assert(prev.push(s.id@)[prev.len() as int] == s.id@);
    }
}

/// The id a new section of the page gets: `section-<k>` for the least
/// `k >= 1` that no section of the page uses as its (non-blank) id.
pub fn next_section_id_for_page(page: &Page) -> (r: String)
    requires
        page.nodes@.len() < usize::MAX - 1,
    ensures
        r@ == candidate(first_free(section_family(), used_ids(page.nodes@), 1)),
        is_first_free(section_family(), used_ids(page.nodes@), 1, first_free(section_family(), used_ids(page.nodes@), 1)),
{
    let mut used: Vec<Vec<char>> = Vec::new();
    let mut i: usize = 0;
    while i < page.nodes.len()
        invariant
            i <= page.nodes@.len(),
            used@.map_values(|v: Vec<char>| v@) == used_ids(page.nodes@.take(i as int)),
            used@.len() <= i,
        decreases page.nodes@.len() - i,
    {
        assert(page.nodes@.take(i + 1).drop_last() =~= page.nodes@.take(i as int));
        match &page.nodes[i] {
            PageNode::Section(section) => {
                let id = chars_of(section.id.as_str());
                let t = trim_chars(id.as_slice());
                if t.len() > 0 {
                    used.push(id);
                    assert(used@.map_values(|v: Vec<char>| v@) =~= used_ids(page.nodes@.take(i + 1)));
                }
            },
            PageNode::Hero(_) => {},
        }
        i += 1;
    }
    assert(page.nodes@.take(page.nodes@.len() as int) =~= page.nodes@);
    let k = find_free(&used, 1);
    proof {
        let u = used_ids(page.nodes@);
        assert(is_first_free(section_family(), u, 1, k as nat));
        let f = first_free(section_family(), u, 1);
        assert(is_first_free(section_family(), u, 1, f));
        lemma_first_free_unique(section_family(), u, 1, k as nat, f);
    }
    let mut s = String::new();
    push_str(&mut s, "section-");
    push_decimal(&mut s, k);
    s
}


/// One repair step for the id of a section, given the trimmed ids used so
/// far and the next candidate number to try: the id stays when its trimmed
/// form is non-empty and unused; otherwise it becomes the first free
/// `section-<k>` with `k >= next`.
pub open spec fn id_step(id: Seq<char>, used: Seq<Seq<char>>, next: nat) -> (Seq<char>, Seq<Seq<char>>, nat) {
    let cur = trimmed(id);
    if cur.len() > 0 && !used.contains(cur) {
        (id, used.push(cur), next)
    } else {
        let m = first_free(section_family(), used, next);
        (candidate(m), used.push(candidate(m)), m + 1)
    }
}

/// The repair of `nodes` front to back: for each node the new id of a
/// section (`None` for a hero), then the used trimmed ids and the next
/// candidate number.
pub open spec fn repair_run(nodes: Seq<PageNode>) -> (Seq<Option<Seq<char>>>, Seq<Seq<char>>, nat)
    decreases nodes.len(),
{
    if nodes.len() == 0 {
        (Seq::empty(), Seq::empty(), 1)
    } else {
        let prev = repair_run(nodes.drop_last());
        match nodes.last() {
            PageNode::Section(s) => {
                let st = id_step(s.id@, prev.1, prev.2);
                (prev.0.push(Some(st.0)), st.1, st.2)
            },
            PageNode::Hero(_) => (prev.0.push(None), prev.1, prev.2),
        }
    }
}

/// A node after the repair, given the id the repair picked for it (`None`
/// for a hero): a hero is untouched; a section keeps everything but its id,
/// which becomes `id`.
pub open spec fn node_after(o: PageNode, n: PageNode, id: Option<Seq<char>>) -> bool {
    match o {
        PageNode::Hero(_) => n == o,
        PageNode::Section(s) => match n {
            PageNode::Section(t) => id is Some && t.id@ == id->0 && t.section_title == s.section_title
                && t.section_class == s.section_class && t.item_box_class == s.item_box_class
                && t.columns == s.columns,
            PageNode::Hero(_) => false,
        },
    }
}

/// `new` is `old` after the repair: same nodes, heroes untouched, each
/// section with the id `repair_run` gives it and its other fields unchanged.
pub open spec fn repaired(old: Seq<PageNode>, new: Seq<PageNode>) -> bool {
    let ids = repair_run(old).0;
    &&& new.len() == old.len()
    &&& forall|i: int| 0 <= i < old.len() ==> node_after(#[trigger] old[i], new[i], ids[i])
}

pub proof fn lemma_candidate_trimmed(k: nat)
    ensures
        trimmed(candidate(k)) == candidate(k),
        candidate(k).len() > 0,
{
    reveal_strlit("section-");
    let c = candidate(k);
    crate::text::lemma_decimal_digits(k);
    assert(c[0] == 's');
    assert(!is_space(c[0]));
    assert(trim_start(c) == c);
    assert(c.last() == decimal(k).last());
    assert(!is_space(c.last()));
    assert(trim_end(c) == c);
}

proof fn lemma_repair_run_facts(nodes: Seq<PageNode>)
    ensures
        ({
            let (out, used, next) = repair_run(nodes);
            &&& out.len() == nodes.len()
            &&& next >= 1
            &&& forall|j: nat| 1 <= j < next ==> used.contains(#[trigger] candidate(j))
            &&& used.len() <= nodes.len()
            &&& forall|i: int| 0 <= i < nodes.len() ==> (#[trigger] out[i] is Some <==> nodes[i] is Section)
            &&& forall|i: int| 0 <= i < out.len() && out[i] is Some ==> used.contains(trimmed(#[trigger] out[i]->0)) && trimmed(out[i]->0).len() > 0
            &&& forall|i: int, j: int| 0 <= i < out.len() && 0 <= j < out.len() && i != j && out[i] is Some && out[j] is Some
                ==> trimmed(#[trigger] out[i]->0) != trimmed(#[trigger] out[j]->0)
        }),
    decreases nodes.len(),
{
    if nodes.len() > 0 {
        let dl = nodes.drop_last();
        lemma_repair_run_facts(dl);
        let prev = repair_run(dl);
        let (out, used, next) = repair_run(nodes);
        match nodes.last() {
            PageNode::Section(s) => {
                let cur = trimmed(s.id@);
                let st = id_step(s.id@, prev.1, prev.2);
                let new_trim = if cur.len() > 0 && !prev.1.contains(cur) {
                    cur
                } else {
                    let m = first_free(section_family(), prev.1, prev.2);
                    lemma_section_family_injective();
                    lemma_first_free_exists(section_family(), prev.1, prev.2);
                    lemma_candidate_trimmed(m);
                    assert forall|j: nat| 1 <= j < m + 1 implies st.1.contains(#[trigger] candidate(j)) by {
                        if j < prev.2 {
                            assert(prev.1.contains(candidate(j)));
                            let w = choose|w: int| 0 <= w < prev.1.len() && prev.1[w] == candidate(j);
                            assert(st.1[w] == candidate(j));
                        } else if j < m {
                            assert(prev.1.contains(section_family()(j)));
                            assert(prev.1.contains(candidate(j)));
                            let w = choose|w: int| 0 <= w < prev.1.len() && prev.1[w] == candidate(j);
                            assert(st.1[w] == candidate(j));
                        } else {
                            assert(st.1[prev.1.len() as int] == candidate(j));
                        }
                    }
                    lemma_section_family_injective();
                    lemma_pigeonhole(section_family(), st.1, 1, m);
                    candidate(m)
                };
                assert(trimmed(st.0) == new_trim);
                assert(!prev.1.contains(new_trim));
                assert(new_trim.len() > 0);
                assert(out =~= prev.0.push(Some(st.0)));
                assert(used =~= prev.1.push(new_trim));
                assert forall|x: Seq<char>| prev.1.contains(x) implies used.contains(x) by {
                    let w = choose|w: int| 0 <= w < prev.1.len() && prev.1[w] == x;
                    assert(used[w] == x);
                }
                assert(used[prev.1.len() as int] == new_trim);
                if cur.len() > 0 && !prev.1.contains(cur) {
                    assert forall|j: nat| 1 <= j < next implies used.contains(#[trigger] candidate(j)) by {
                        assert(prev.1.contains(candidate(j)));
                    }
                }
                assert forall|i: int, j: int| 0 <= i < out.len() && 0 <= j < out.len() && i != j && out[i] is Some && out[j] is Some
                    implies trimmed(#[trigger] out[i]->0) != trimmed(#[trigger] out[j]->0) by {
                    if i < dl.len() && j < dl.len() {
                        assert(out[i] == prev.0[i] && out[j] == prev.0[j]);
                    } else if i < dl.len() {
                        assert(out[i] == prev.0[i]);
                        assert(prev.1.contains(trimmed(prev.0[i]->0)));
                    } else {
                        assert(out[j] == prev.0[j]);
                        assert(prev.1.contains(trimmed(prev.0[j]->0)));
                    }
                }
                assert forall|i: int| 0 <= i < out.len() && out[i] is Some implies used.contains(trimmed(#[trigger] out[i]->0)) && trimmed(out[i]->0).len() > 0 by {
                    if i < dl.len() {
                        assert(out[i] == prev.0[i]);
                    }
                }
                assert forall|i: int| 0 <= i < nodes.len() implies (#[trigger] out[i] is Some <==> nodes[i] is Section) by {
                    if i < dl.len() {
                        assert(out[i] == prev.0[i]);
                        assert(nodes[i] == dl[i]);
                    }
                }
            },
            PageNode::Hero(_) => {
                assert(out =~= prev.0.push(None));
                assert forall|i: int| 0 <= i < nodes.len() implies (#[trigger] out[i] is Some <==> nodes[i] is Section) by {
                    if i < dl.len() {
                        assert(out[i] == prev.0[i]);
                        assert(nodes[i] == dl[i]);
                    }
                }
                assert forall|i: int| 0 <= i < out.len() && out[i] is Some implies used.contains(trimmed(#[trigger] out[i]->0)) && trimmed(out[i]->0).len() > 0 by {
                    if i < dl.len() {
                        assert(out[i] == prev.0[i]);
                    }
                }
                assert forall|i: int, j: int| 0 <= i < out.len() && 0 <= j < out.len() && i != j && out[i] is Some && out[j] is Some
                    implies trimmed(#[trigger] out[i]->0) != trimmed(#[trigger] out[j]->0) by {
                    assert(out[i] == prev.0[i] && out[j] == prev.0[j]);
                }
            },
        }
    }
}

/// After the repair every section id, trimmed, is non-empty, and no two
/// sections share a trimmed id.
pub proof fn law_repaired_ids_unique(old: Seq<PageNode>, new: Seq<PageNode>)
    requires
        repaired(old, new),
    ensures
        forall|i: int| 0 <= i < new.len() ==> (#[trigger] new[i] matches PageNode::Section(s) ==> trimmed(s.id@).len() > 0),
        forall|i: int, j: int| 0 <= i < new.len() && 0 <= j < new.len() && i != j
            ==> (#[trigger] new[i] matches PageNode::Section(a) ==> (#[trigger] new[j] matches PageNode::Section(b) ==> trimmed(a.id@) != trimmed(b.id@))),
{
    lemma_repair_run_facts(old);
    let out = repair_run(old).0;
    assert forall|i: int| 0 <= i < new.len() implies (#[trigger] new[i] matches PageNode::Section(s) ==> trimmed(s.id@).len() > 0) by {
        match old[i] {
            PageNode::Hero(_) => {},
            PageNode::Section(_) => {
                assert(out[i] is Some);
            },
        }
    }
    assert forall|i: int, j: int| 0 <= i < new.len() && 0 <= j < new.len() && i != j
        implies (#[trigger] new[i] matches PageNode::Section(a) ==> (#[trigger] new[j] matches PageNode::Section(b) ==> trimmed(a.id@) != trimmed(b.id@))) by {
        match (old[i], old[j]) {
            (PageNode::Section(_), PageNode::Section(_)) => {
                assert(out[i] is Some && out[j] is Some);
            },
            _ => {},
        }
    }
}

/// The trimmed ids of the sections among `nodes` are non-empty and pairwise distinct.
pub open spec fn ids_unique(nodes: Seq<PageNode>) -> bool {
    &&& forall|i: int| 0 <= i < nodes.len() ==> (#[trigger] nodes[i] matches PageNode::Section(s) ==> trimmed(s.id@).len() > 0)
    &&& forall|i: int, j: int| 0 <= i < nodes.len() && 0 <= j < nodes.len() && i != j
        ==> (#[trigger] nodes[i] matches PageNode::Section(a) ==> (#[trigger] nodes[j] matches PageNode::Section(b) ==> trimmed(a.id@) != trimmed(b.id@)))
}

proof fn lemma_repair_keeps_unique(nodes: Seq<PageNode>)
    requires
        ids_unique(nodes),
    ensures
        forall|i: int| 0 <= i < nodes.len() ==> (#[trigger] nodes[i] matches PageNode::Section(s) ==> repair_run(nodes).0[i] == Some(s.id@)),
        forall|x: Seq<char>| #[trigger] repair_run(nodes).1.contains(x) ==> exists|i: int| #![trigger nodes[i]] 0 <= i < nodes.len() && (nodes[i] matches PageNode::Section(s) && trimmed(s.id@) == x),
    decreases nodes.len(),
{
    if nodes.len() > 0 {
        let dl = nodes.drop_last();
        assert forall|i: int| 0 <= i < dl.len() implies (#[trigger] dl[i] matches PageNode::Section(s) ==> trimmed(s.id@).len() > 0) by {
            assert(dl[i] == nodes[i]);
        }
        assert forall|i: int, j: int| 0 <= i < dl.len() && 0 <= j < dl.len() && i != j
            implies (#[trigger] dl[i] matches PageNode::Section(a) ==> (#[trigger] dl[j] matches PageNode::Section(b) ==> trimmed(a.id@) != trimmed(b.id@))) by {
            assert(dl[i] == nodes[i] && dl[j] == nodes[j]);
        }
        lemma_repair_keeps_unique(dl);
        lemma_repair_run_facts(dl);
        let prev = repair_run(dl);
        let last = nodes.len() - 1;
        match nodes.last() {
            PageNode::Section(s) => {
                let cur = trimmed(s.id@);
                assert(nodes[last] matches PageNode::Section(_));
                assert(cur.len() > 0);
                if prev.1.contains(cur) {
                    let i = choose|i: int| #![trigger dl[i]] 0 <= i < dl.len() && (dl[i] matches PageNode::Section(t) && trimmed(t.id@) == cur);
                    assert(dl[i] == nodes[i]);
                    assert(false);
                }
                let (out, used, next) = repair_run(nodes);
                assert(out =~= prev.0.push(Some(s.id@)));
                assert(used =~= prev.1.push(cur));
                assert forall|i: int| 0 <= i < nodes.len() implies (#[trigger] nodes[i] matches PageNode::Section(t) ==> out[i] == Some(t.id@)) by {
                    if i < dl.len() {
                        assert(dl[i] == nodes[i]);
                        assert(out[i] == prev.0[i]);
                    }
                }
                assert forall|x: Seq<char>| #[trigger] used.contains(x) implies exists|i: int| #![trigger nodes[i]] 0 <= i < nodes.len() && (nodes[i] matches PageNode::Section(t) && trimmed(t.id@) == x) by {
                    let w = choose|w: int| 0 <= w < used.len() && used[w] == x;
                    if w < prev.1.len() {
                        assert(prev.1[w] == x);
                        assert(prev.1.contains(x));
                        let i = choose|i: int| #![trigger dl[i]] 0 <= i < dl.len() && (dl[i] matches PageNode::Section(t) && trimmed(t.id@) == x);
                        assert(dl[i] == nodes[i]);
                    } else {
                        assert(nodes[last] matches PageNode::Section(t) && trimmed(t.id@) == x);
                    }
                }
            },
            PageNode::Hero(_) => {
                let (out, used, next) = repair_run(nodes);
                assert(out =~= prev.0.push(None));
                assert forall|i: int| 0 <= i < nodes.len() implies (#[trigger] nodes[i] matches PageNode::Section(t) ==> out[i] == Some(t.id@)) by {
                    if i < dl.len() {
                        assert(dl[i] == nodes[i]);
                        assert(out[i] == prev.0[i]);
                    }
                }
                assert forall|x: Seq<char>| #[trigger] used.contains(x) implies exists|i: int| #![trigger nodes[i]] 0 <= i < nodes.len() && (nodes[i] matches PageNode::Section(t) && trimmed(t.id@) == x) by {
                    let i = choose|i: int| #![trigger dl[i]] 0 <= i < dl.len() && (dl[i] matches PageNode::Section(t) && trimmed(t.id@) == x);
                    assert(dl[i] == nodes[i]);
                }
            },
        }
    }
}

/// A page whose section ids are already non-empty and distinct (ignoring
/// surrounding whitespace) keeps every id.
pub proof fn law_repair_keeps_valid_ids(old: Seq<PageNode>, new: Seq<PageNode>)
    requires
        ids_unique(old),
        repaired(old, new),
    ensures
        forall|i: int| 0 <= i < old.len() ==> (#[trigger] old[i] matches PageNode::Section(s) ==> (new[i] matches PageNode::Section(t) && t.id@ == s.id@)),
{
    lemma_repair_keeps_unique(old);
}

/// Gives every section of the page a usable id, front to back: a section
/// keeps its id when the id, trimmed, is non-empty and no earlier section
/// kept or got it; otherwise it gets the next free `section-<k>`, counting
/// on from the last number handed out.
pub fn ensure_page_section_ids(page: &mut Page)
    requires
        old(page).nodes@.len() < usize::MAX / 2,
    ensures
        repaired(old(page).nodes@, final(page).nodes@),
{
    let ghost old_nodes = page.nodes@;
    let mut used: Vec<Vec<char>> = Vec::new();
    let mut next: usize = 1;
    let mut i: usize = 0;
    proof {
        assert(old_nodes.take(0) =~= Seq::<PageNode>::empty());
    }
    while i < page.nodes.len()
        invariant
            page.nodes@.len() == old_nodes.len(),
            old_nodes.len() < usize::MAX / 2,
            i <= old_nodes.len(),
            forall|j: int| i <= j < old_nodes.len() ==> page.nodes@[j] == old_nodes[j],
            forall|j: int| 0 <= j < i ==> node_after(#[trigger] old_nodes[j], page.nodes@[j], repair_run(old_nodes.take(i as int)).0[j]),
            used@.map_values(|v: Vec<char>| v@) == repair_run(old_nodes.take(i as int)).1,
            next == repair_run(old_nodes.take(i as int)).2,
        decreases old_nodes.len() - i,
    {
        let ghost pre = old_nodes.take(i as int);
        let ghost post = old_nodes.take(i + 1);
        proof {
            assert(post.drop_last() =~= pre);
            assert(post.last() == old_nodes[i as int]);
            lemma_repair_run_facts(pre);
            let u = repair_run(pre).1;
            lemma_section_family_injective();
            lemma_pigeonhole(section_family(), u, 1, (next - 1) as nat);
        }
        let ghost prev_nodes = page.nodes@;
        let ghost u = used@.map_values(|v: Vec<char>| v@);
        let ghost old_next = next as nat;
        let ghost ids = repair_run(post).0;
        let ghost pids = repair_run(pre).0;
        if let PageNode::Section(section) = &mut page.nodes[i] {
            let id = chars_of(section.id.as_str());
            let cur = trim_chars(id.as_slice());
            if cur.len() > 0 && !contains_chars(&used, &cur) {
                used.push(cur);
                proof {
                    assert(used@.map_values(|v: Vec<char>| v@) =~= u.push(cur@));
                }
            } else {
                let k = find_free(&used, next);
                let cand = candidate_chars(k);
                let mut fresh = String::new();
                push_str(&mut fresh, "section-");
                push_decimal(&mut fresh, k);
                section.id = fresh;
                used.push(cand);
                next = k + 1;
                proof {
                    lemma_section_family_injective();
                    lemma_first_free_exists(section_family(), u, old_next);
                    lemma_first_free_unique(section_family(), u, old_next, k as nat, first_free(section_family(), u, old_next));
                    assert(used@.map_values(|v: Vec<char>| v@) =~= u.push(candidate(k as nat)));
                }
            }
        }
        proof {
            assert(page.nodes@ =~= prev_nodes.update(i as int, page.nodes@[i as int]));
            assert(ids =~= pids.push(ids[i as int]));
            assert forall|j: int| 0 <= j < i + 1 implies node_after(#[trigger] old_nodes[j], page.nodes@[j], ids[j]) by {
                if j < i {
                    assert(page.nodes@[j] == prev_nodes[j]);
                    assert(ids[j] == pids[j]);
                }
            }
        }
        i += 1;
    }
    proof {
        assert(old_nodes.take(old_nodes.len() as int) =~= old_nodes);
    }
}

} // verus!
