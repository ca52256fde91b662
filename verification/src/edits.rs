//! Structure edits: inserting, duplicating and deleting page nodes,
//! components, columns, list items and header or footer sections.
use vstd::prelude::*;
use crate::components::{is_default_component, ComponentKind};
use crate::fresh::{first_free, lemma_first_free_exists};
use crate::section_ids::{
    candidate, ids_unique, lemma_candidate_trimmed, lemma_section_family_injective, lemma_used_ids_contains,
    next_section_id_for_page, normalize_section_columns, section_family, used_ids,
};
use crate::site::{
    CtaTarget, DdHero, DdSection, HeroAos, HeroImageClass, Page, PageNode, SectionClass, SectionColumn,
    SectionComponent, SectionItemBoxClass,
};
use crate::text::{decimal, push_decimal, push_str, trimmed};
use crate::moves::page_section_edited;
use crate::tree::clamp_last;

verus! {

broadcast use vstd::string::group_string_axioms;

/// Where a new page node goes: after the selected node (clamped to the
/// last), or first on an empty page.
pub open spec fn node_insert_index(p: Page, selected: usize) -> nat {
    if p.nodes@.len() == 0 { 0 } else { (clamp_last(selected, p.nodes@.len()) + 1) as nat }
}

/// `h` is the hero that a new hero node starts out as.
pub open spec fn is_new_hero(h: DdHero) -> bool {
    &&& h.parent_image_url@ == "/assets/images/hero-new.jpg"@
    &&& h.parent_class == Some(HeroImageClass::FullFull)
    &&& h.parent_data_aos == Some(HeroAos::FadeIn)
    &&& h.parent_custom_css is None
    &&& h.parent_title@ == "New Hero"@
    &&& h.parent_subtitle@ == "Add subtitle"@
    &&& h.parent_copy is None
    &&& h.link_1_label is None && h.link_1_url is None && h.link_1_target == Some(CtaTarget::SelfTarget)
    &&& h.link_2_label is None && h.link_2_url is None && h.link_2_target == Some(CtaTarget::SelfTarget)
    &&& h.parent_image_alt matches Some(a) && a@ == "Hero image"@
    &&& h.parent_image_mobile is None && h.parent_image_tablet is None && h.parent_image_desktop is None
    &&& h.parent_image_class == Some(HeroImageClass::FullFull)
}

/// `c` is an empty full-width column with the id `id`.
pub open spec fn is_empty_column(c: SectionColumn, id: Seq<char>) -> bool {
    c.id@ == id && c.width_class@ == "dd-u-1-1"@ && c.components@.len() == 0
}

/// `s` is a new full-contained section with the id `id` and one empty
/// column `column-1`.
pub open spec fn is_new_section(s: DdSection, id: Seq<char>) -> bool {
    &&& s.id@ == id
    &&& s.section_title is None
    &&& s.section_class == Some(SectionClass::FullContained)
    &&& s.item_box_class == Some(SectionItemBoxClass::LBox)
    &&& s.columns@.len() == 1
    &&& is_empty_column(s.columns@[0], "column-1"@)
}

/// `new` holds the nodes of `old` with one more at `idx`.
pub open spec fn node_inserted(old: Page, new: Page, idx: int) -> bool {
    new.nodes@.len() == old.nodes@.len() + 1 && new.nodes@.remove(idx) == old.nodes@
}

fn new_column(id: String) -> (c: SectionColumn)
    ensures
        is_empty_column(c, id@),
{
    SectionColumn { id, width_class: "dd-u-1-1".to_string(), components: Vec::new() }
}

fn new_section(id: String) -> (s: DdSection)
    ensures
        is_new_section(s, id@),
{
    DdSection {
        id,
        section_title: None,
        section_class: Some(SectionClass::FullContained),
        item_box_class: Some(SectionItemBoxClass::LBox),
        columns: vec![new_column("column-1".to_string())],
    }
}

fn insert_node(page: &mut Page, selected: usize, node: PageNode) -> (idx: usize)
    ensures
        idx == node_insert_index(*old(page), selected),
        node_inserted(*old(page), *final(page), idx as int),
        final(page).nodes@[idx as int] == node,
{
    let n = page.nodes.len();
    let idx = if n == 0 { 0 } else if selected < n - 1 { selected + 1 } else { n };
    page.nodes.insert(idx, node);
    assert(page.nodes@.remove(idx as int) =~= old(page).nodes@);
    idx
}

/// Inserts a new hero (see `is_new_hero`) after the selected node; returns
/// its index.
pub fn add_hero(page: &mut Page, selected: usize) -> (idx: usize)
    ensures
        idx == node_insert_index(*old(page), selected),
        node_inserted(*old(page), *final(page), idx as int),
        final(page).nodes@[idx as int] matches PageNode::Hero(h) && is_new_hero(h),
{
    let hero = DdHero {
        parent_image_url: "/assets/images/hero-new.jpg".to_string(),
        parent_class: Some(HeroImageClass::FullFull),
        parent_data_aos: Some(HeroAos::FadeIn),
        parent_custom_css: None,
        parent_title: "New Hero".to_string(),
        parent_subtitle: "Add subtitle".to_string(),
        parent_copy: None,
        link_1_label: None,
        link_1_url: None,
        link_1_target: Some(CtaTarget::SelfTarget),
        link_2_label: None,
        link_2_url: None,
        link_2_target: Some(CtaTarget::SelfTarget),
        parent_image_alt: Some("Hero image".to_string()),
        parent_image_mobile: None,
        parent_image_tablet: None,
        parent_image_desktop: None,
        parent_image_class: Some(HeroImageClass::FullFull),
    };
    insert_node(page, selected, PageNode::Hero(hero))
}

/// Inserts a new section after the selected node, with the first free
/// `section-<k>` id of the page (see `next_section_id_for_page`); returns
/// its index.
pub fn add_section(page: &mut Page, selected: usize) -> (idx: usize)
    requires
        old(page).nodes@.len() < usize::MAX - 1,
    ensures
        idx == node_insert_index(*old(page), selected),
        node_inserted(*old(page), *final(page), idx as int),
        final(page).nodes@[idx as int] matches PageNode::Section(s)
            && is_new_section(s, candidate(first_free(section_family(), used_ids(old(page).nodes@), 1))),
{
    let id = next_section_id_for_page(page);
    insert_node(page, selected, PageNode::Section(new_section(id)))
}

/// Deleting a node right after inserting it (the inserted node being the
/// selected one) gives the page back its nodes.
pub proof fn law_insert_then_delete_restores(old: Page, new: Page, idx: usize)
    requires
        node_inserted(old, new, idx as int),
        idx <= old.nodes@.len(),
    ensures
        new.nodes@.len() > 0,
        new.nodes@.remove(clamp_last(idx, new.nodes@.len()) as int) == old.nodes@,
{
}

/// Adding a section keeps the section ids of a page unique: its id is
/// free among the ids in use, and has no surrounding whitespace (for pages
/// whose ids have none either).
pub proof fn law_added_section_keeps_ids_unique(old: Page, new: Page, idx: usize)
    requires
        ids_unique(old.nodes@),
        forall|i: int| 0 <= i < old.nodes@.len()
            ==> (#[trigger] old.nodes@[i] matches PageNode::Section(s) ==> trimmed(s.id@) == s.id@),
        idx <= old.nodes@.len(),
        node_inserted(old, new, idx as int),
        new.nodes@[idx as int] matches PageNode::Section(s)
            && is_new_section(s, candidate(first_free(section_family(), used_ids(old.nodes@), 1))),
    ensures
        ids_unique(new.nodes@),
{
    let used = used_ids(old.nodes@);
    let k = first_free(section_family(), used, 1);
    lemma_section_family_injective();
    lemma_first_free_exists(section_family(), used, 1);
    lemma_candidate_trimmed(k);
    let c = candidate(k);
    assert(!used.contains(c));
    let o = old.nodes@;
    let n = new.nodes@;
    assert forall|j: int| 0 <= j < n.len() && j != idx implies n[j] == o[if j < idx { j } else { j - 1 }] by {
        assert(n.remove(idx as int)[if j < idx { j } else { j - 1 }] == n[j]);
    }
    assert forall|i: int| 0 <= i < n.len() implies
        (#[trigger] n[i] matches PageNode::Section(s) ==> trimmed(s.id@).len() > 0) by {
        if i != idx {
            let oi = if i < idx { i } else { i - 1 };
            assert(n[i] == o[oi]);
        }
    }
    assert forall|i: int, j: int| 0 <= i < n.len() && 0 <= j < n.len() && i != j implies
        (#[trigger] n[i] matches PageNode::Section(a) ==> (#[trigger] n[j] matches PageNode::Section(b)
            ==> trimmed(a.id@) != trimmed(b.id@))) by {
        let oi = if i < idx { i } else { i - 1 };
        let oj = if j < idx { j } else { j - 1 };
        if i != idx && j != idx {
            assert(n[i] == o[oi]);
            assert(n[j] == o[oj]);
        } else if i == idx {
            assert(n[j] == o[oj]);
            if let PageNode::Section(b) = o[oj] {
                if trimmed(b.id@).len() > 0 {
                    lemma_used_ids_contains(o, oj);
                }
            }
        } else {
            assert(n[i] == o[oi]);
            if let PageNode::Section(a) = o[oi] {
                if trimmed(a.id@).len() > 0 {
                    lemma_used_ids_contains(o, oi);
                }
            }
        }
    }
}

/// The notice after inserting a node: `Inserted dd-hero at position <n>.`
/// (or `dd-section`), counting from 1.
pub open spec fn node_insert_notice(hero: bool, idx: usize) -> Seq<char> {
    "Inserted "@ + (if hero { "dd-hero"@ } else { "dd-section"@ }) + " at position "@ + decimal((idx + 1) as nat) + "."@
}

/// The text of `node_insert_notice`.
pub fn node_insert_notice_text(hero: bool, idx: usize) -> (s: String)
    requires
        idx < usize::MAX,
    ensures
        s@ == node_insert_notice(hero, idx),
{
    let mut s = String::new();
    push_str(&mut s, "Inserted ");
    push_str(&mut s, if hero { "dd-hero" } else { "dd-section" });
    push_str(&mut s, " at position ");
    push_decimal(&mut s, idx + 1);
    push_str(&mut s, ".");
    s
}

/// Deletes the selected node (clamped to the last); returns its index and
/// the node selected afterwards (the same place, clamped to the new last;
/// 0 on an emptied page), or `None` (page unchanged) on an empty page.
pub fn delete_selected_node(page: &mut Page, selected: usize) -> (r: Option<(usize, usize)>)
    ensures
        old(page).nodes@.len() == 0 ==> r is None && *final(page) == *old(page),
        old(page).nodes@.len() > 0 ==> {
            let idx = clamp_last(selected, old(page).nodes@.len());
            &&& final(page).nodes@ == old(page).nodes@.remove(idx as int)
            &&& r == Some((idx, clamp_last(idx, final(page).nodes@.len())))
        },
{
    let n = page.nodes.len();
    if n == 0 {
        return None;
    }
    let idx = if selected < n { selected } else { n - 1 };
    page.nodes.remove(idx);
    let m = page.nodes.len();
    let next = if m == 0 { 0 } else if idx < m { idx } else { m - 1 };
    Some((idx, next))
}

/// Inserts a copy of node `node_idx` right after it; returns the copy's
/// index, or `None` (page unchanged) when there is no such node.
pub fn duplicate_page_node(page: &mut Page, node_idx: usize) -> (r: Option<usize>)
    ensures
        node_idx >= old(page).nodes@.len() ==> r is None && *final(page) == *old(page),
        node_idx < old(page).nodes@.len() ==> {
            &&& r == Some((node_idx + 1) as usize)
            &&& node_inserted(*old(page), *final(page), node_idx + 1)
            &&& cloned::<PageNode>(old(page).nodes@[node_idx as int], final(page).nodes@[node_idx + 1])
        },
{
    if node_idx >= page.nodes.len() {
        return None;
    }
    let copy = page.nodes[node_idx].clone();
    page.nodes.insert(node_idx + 1, copy);
    assert(page.nodes@.remove(node_idx + 1) =~= old(page).nodes@);
    Some(node_idx + 1)
}

/// `ns` is `os` with only the components of column `col` changed, from
/// `a` to `b` where `edit(a, b)`.
pub open spec fn column_components_edited(os: DdSection, ns: DdSection, col: int,
    edit: spec_fn(Seq<SectionComponent>, Seq<SectionComponent>) -> bool) -> bool {
    &&& ns.id == os.id && ns.section_title == os.section_title
    &&& ns.section_class == os.section_class && ns.item_box_class == os.item_box_class
    &&& ns.columns@.len() == os.columns@.len()
    &&& forall|c: int| 0 <= c < os.columns@.len() && c != col ==> ns.columns@[c] == os.columns@[c]
    &&& ns.columns@[col].id == os.columns@[col].id
    &&& ns.columns@[col].width_class == os.columns@[col].width_class
    &&& edit(os.columns@[col].components@, ns.columns@[col].components@)
}

/// `b` is `a` with a copy of entry `i` inserted right after it.
pub open spec fn duplicated_at<T: Clone>(a: Seq<T>, b: Seq<T>, i: int) -> bool {
    &&& b.len() == a.len() + 1
    &&& b.remove(i + 1) == a
    &&& cloned::<T>(a[i], b[i + 1])
}

/// Deleting the copy that a duplication just made gives back the list.
pub proof fn law_duplicate_then_delete_restores<T: Clone>(a: Seq<T>, b: Seq<T>, i: int)
    requires
        duplicated_at(a, b, i),
    ensures
        b.remove(i + 1) == a,
{
}

/// Component `ci` of column `col` of section `s`, if it exists.
pub open spec fn component_exists(s: DdSection, col: usize, ci: usize) -> bool {
    col < s.columns@.len() && ci < s.columns@[col as int].components@.len()
}

fn duplicate_in_section(section: &mut DdSection, col: usize, ci: usize)
    requires
        component_exists(*old(section), col, ci),
    ensures
        column_components_edited(*old(section), *final(section), col as int,
            |a: Seq<SectionComponent>, b: Seq<SectionComponent>| duplicated_at(a, b, ci as int)),
{
    let n = section.columns[col].components.len();
    assert(ci < n);
    let copy = section.columns[col].components[ci].clone();
    section.columns[col].components.insert(ci + 1, copy);
    assert(section.columns@[col as int].components@.remove(ci + 1) =~= old(section).columns@[col as int].components@);
}

fn delete_in_section(section: &mut DdSection, col: usize, ci: usize) -> (left: usize)
    requires
        component_exists(*old(section), col, ci),
    ensures
        column_components_edited(*old(section), *final(section), col as int,
            |a: Seq<SectionComponent>, b: Seq<SectionComponent>| b == a.remove(ci as int)),
        left as nat == final(section).columns@[col as int].components@.len(),
{
    section.columns[col].components.remove(ci);
    section.columns[col].components.len()
}


/// Inserts a copy of component `ci` of column `col` of section node `ni`
/// right after it; returns the copy's index, or `None` (page unchanged)
/// when there is no such section node, column or component.
pub fn duplicate_page_component(page: &mut Page, ni: usize, col: usize, ci: usize) -> (r: Option<usize>)
    ensures
        match crate::moves::section_at(*old(page), ni) {
            Some(s) => if component_exists(s, col, ci) {
                &&& r == Some((ci + 1) as usize)
                &&& page_section_edited(*old(page), *final(page), ni as int, |a: DdSection, b: DdSection|
                    column_components_edited(a, b, col as int,
                        |x: Seq<SectionComponent>, y: Seq<SectionComponent>| duplicated_at(x, y, ci as int)))
            } else {
                r is None && *final(page) == *old(page)
            },
            None => r is None && *final(page) == *old(page),
        },
{
    if ni >= page.nodes.len() {
        return None;
    }
    let ok = match &page.nodes[ni] {
        PageNode::Section(s) => col < s.columns.len() && ci < s.columns[col].components.len(),
        PageNode::Hero(_) => false,
    };
    if !ok {
        return None;
    }
    match &mut page.nodes[ni] {
        PageNode::Section(s) => duplicate_in_section(s, col, ci),
        PageNode::Hero(_) => {},
    }
    Some(ci + 1)
}

/// What deleting a page component did.
#[derive(Clone, Copy, Debug, PartialEq, Eq, Structural)]
pub enum ComponentDelete {
    /// The row's node is missing or a hero.
    NotASection,
    /// The section has no such column or component.
    Missing,
    /// Deleted; the component selected afterwards (the same place,
    /// clamped to the new last, 0 when none is left).
    Deleted(usize),
}

/// Deletes component `ci` of column `col` of section node `ni`.
pub fn delete_page_component(page: &mut Page, ni: usize, col: usize, ci: usize) -> (r: ComponentDelete)
    ensures
        match crate::moves::section_at(*old(page), ni) {
            Some(s) => if component_exists(s, col, ci) {
                &&& page_section_edited(*old(page), *final(page), ni as int, |a: DdSection, b: DdSection|
                    column_components_edited(a, b, col as int,
                        |x: Seq<SectionComponent>, y: Seq<SectionComponent>| y == x.remove(ci as int)))
                &&& r == ComponentDelete::Deleted(clamp_last(ci, (s.columns@[col as int].components@.len() - 1) as nat))
            } else {
                r == ComponentDelete::Missing && *final(page) == *old(page)
            },
            None => r == ComponentDelete::NotASection && *final(page) == *old(page),
        },
{
    if ni >= page.nodes.len() {
        return ComponentDelete::NotASection;
    }
    let ok = match &page.nodes[ni] {
        PageNode::Section(s) => if col < s.columns.len() && ci < s.columns[col].components.len() { 1u8 } else { 0u8 },
        PageNode::Hero(_) => 2u8,
    };
    if ok == 2 {
        return ComponentDelete::NotASection;
    }
    if ok == 0 {
        return ComponentDelete::Missing;
    }
    let left = match &mut page.nodes[ni] {
        PageNode::Section(s) => delete_in_section(s, col, ci),
        PageNode::Hero(_) => 0,
    };
    ComponentDelete::Deleted(if left == 0 { 0 } else if ci < left { ci } else { left - 1 })
}

/// The section `si` of a header or footer, if it exists.
pub open spec fn region_section(sections: Seq<DdSection>, si: usize) -> Option<DdSection> {
    if si < sections.len() { Some(sections[si as int]) } else { None }
}

/// Inserts a copy of component `ci` of column `col` of header or footer
/// section `si` right after it; returns the copy's index, or `None`
/// (sections unchanged) when there is no such component.
pub fn duplicate_region_component(sections: &mut Vec<DdSection>, si: usize, col: usize, ci: usize) -> (r: Option<usize>)
    ensures
        match region_section(old(sections)@, si) {
            Some(s) => if component_exists(s, col, ci) {
                &&& r == Some((ci + 1) as usize)
                &&& crate::moves::sections_edited(old(sections)@, final(sections)@, si as int, |a: DdSection, b: DdSection|
                    column_components_edited(a, b, col as int,
                        |x: Seq<SectionComponent>, y: Seq<SectionComponent>| duplicated_at(x, y, ci as int)))
            } else {
                r is None && final(sections)@ == old(sections)@
            },
            None => r is None && final(sections)@ == old(sections)@,
        },
{
    if si >= sections.len() || col >= sections[si].columns.len() || ci >= sections[si].columns[col].components.len() {
        return None;
    }
    duplicate_in_section(&mut sections[si], col, ci);
    Some(ci + 1)
}

/// Deletes component `ci` of column `col` of header or footer section
/// `si`; returns the component selected afterwards (the same place,
/// clamped to the new last, 0 when none is left), or `None` (sections
/// unchanged) when there is no such component.
pub fn delete_region_component(sections: &mut Vec<DdSection>, si: usize, col: usize, ci: usize) -> (r: Option<usize>)
    ensures
        match region_section(old(sections)@, si) {
            Some(s) => if component_exists(s, col, ci) {
                &&& r == Some(clamp_last(ci, (s.columns@[col as int].components@.len() - 1) as nat))
                &&& crate::moves::sections_edited(old(sections)@, final(sections)@, si as int, |a: DdSection, b: DdSection|
                    column_components_edited(a, b, col as int,
                        |x: Seq<SectionComponent>, y: Seq<SectionComponent>| y == x.remove(ci as int)))
            } else {
                r is None && final(sections)@ == old(sections)@
            },
            None => r is None && final(sections)@ == old(sections)@,
        },
{
    if si >= sections.len() || col >= sections[si].columns.len() || ci >= sections[si].columns[col].components.len() {
        return None;
    }
    let left = delete_in_section(&mut sections[si], col, ci);
    Some(if left == 0 { 0 } else if ci < left { ci } else { left - 1 })
}

/// Where a new component goes in a column of `len`: after the selected one
/// (clamped to the end), or first in an empty column.
pub open spec fn component_insert_index(selected: usize, len: nat) -> nat {
    if len == 0 { 0 } else if selected + 1 < len { (selected + 1) as nat } else { len }
}

/// `b` is `a` with the new component of kind `k` inserted at `idx`.
pub open spec fn component_added(a: Seq<SectionComponent>, b: Seq<SectionComponent>, idx: int, k: ComponentKind) -> bool {
    b.len() == a.len() + 1 && b.remove(idx) == a && is_default_component(k, b[idx])
}

fn add_in_column(col: &mut SectionColumn, selected: usize, kind: ComponentKind) -> (idx: usize)
    requires
        kind != ComponentKind::Hero,
        kind != ComponentKind::Section,
    ensures
        idx == component_insert_index(selected, old(col).components@.len()),
        component_added(old(col).components@, final(col).components@, idx as int, kind),
        final(col).id == old(col).id,
        final(col).width_class == old(col).width_class,
{
    let n = col.components.len();
    let idx = if n == 0 { 0 } else if selected < n - 1 { selected + 1 } else { n };
    col.components.insert(idx, kind.default_component());
    assert(col.components@.remove(idx as int) =~= old(col).components@);
    idx
}

/// What adding a component to the selected page section did.
#[derive(Clone, Copy, Debug, PartialEq, Eq, Structural)]
pub enum ComponentAdd {
    /// Heroes and sections are page nodes, not components.
    TopLevelKind,
    NoSection,
    NotASection,
    /// Added to this column, at this index.
    Added { column_idx: usize, component_idx: usize },
}

/// `ns` is `os` (given a column first when it had none) with a new
/// component of kind `k` at `idx` of column `col`.
pub open spec fn section_component_added(os: DdSection, ns: DdSection, col: int, idx: int, k: ComponentKind) -> bool {
    &&& ns.id == os.id && ns.section_title == os.section_title
    &&& ns.section_class == os.section_class && ns.item_box_class == os.item_box_class
    &&& if os.columns@.len() == 0 {
        &&& ns.columns@.len() == 1 && col == 0
        &&& ns.columns@[0].id@ == "column-1"@ && ns.columns@[0].width_class@ == "dd-u-1-1"@
        &&& ns.columns@[0].components@.len() == 1 && is_default_component(k, ns.columns@[0].components@[0])
    } else {
        &&& ns.columns@.len() == os.columns@.len()
        &&& forall|c: int| 0 <= c < os.columns@.len() && c != col ==> ns.columns@[c] == os.columns@[c]
        &&& ns.columns@[col].id == os.columns@[col].id
        &&& ns.columns@[col].width_class == os.columns@[col].width_class
        &&& component_added(os.columns@[col].components@, ns.columns@[col].components@, idx, k)
    }
}

/// The column a new component goes to: the selected one, clamped to the
/// last (0 for a section without columns).
pub open spec fn target_column(s: DdSection, selected_column: usize) -> usize {
    clamp_last(selected_column, s.columns@.len())
}

/// The components of column `col` of `s` (none when it has no columns).
pub open spec fn column_components(s: DdSection, col: usize) -> Seq<SectionComponent> {
    if col < s.columns@.len() { s.columns@[col as int].components@ } else { Seq::empty() }
}

fn add_in_section(section: &mut DdSection, selected_column: usize, selected_component: usize, kind: ComponentKind) -> (r: (usize, usize))
    requires
        kind != ComponentKind::Hero,
        kind != ComponentKind::Section,
    ensures
        r.0 == target_column(*old(section), selected_column),
        r.1 == component_insert_index(selected_component, column_components(*old(section), r.0).len()),
        section_component_added(*old(section), *final(section), r.0 as int, r.1 as int, kind),
{
    normalize_section_columns(section);
    let cols = section.columns.len();
    let col = if selected_column < cols { selected_column } else { cols - 1 };
    let idx = add_in_column(&mut section.columns[col], selected_component, kind);
    proof {
        if old(section).columns@.len() == 0 {
            assert(section.columns@[0].components@ =~= seq![section.columns@[0].components@[0]]);
        }
    }
    (col, idx)
}

/// Adds a new component of `kind` (see `is_default_component`) to the
/// selected column of the selected section node, after the selected
/// component; a section without columns is first given one.
pub fn add_selected_component_to_section(page: &mut Page, selected_node: usize, selected_column: usize, selected_component: usize,
    kind: ComponentKind) -> (r: ComponentAdd)
    ensures
        kind == ComponentKind::Hero || kind == ComponentKind::Section ==> r == ComponentAdd::TopLevelKind && *final(page) == *old(page),
        kind != ComponentKind::Hero && kind != ComponentKind::Section ==> {
            if old(page).nodes@.len() == 0 {
                r == ComponentAdd::NoSection && *final(page) == *old(page)
            } else {
                let ni = clamp_last(selected_node, old(page).nodes@.len());
                match old(page).nodes@[ni as int] {
                    PageNode::Hero(_) => r == ComponentAdd::NotASection && *final(page) == *old(page),
                    PageNode::Section(s) => {
                        let col = target_column(s, selected_column);
                        let idx = component_insert_index(selected_component, column_components(s, col).len());
                        &&& r == (ComponentAdd::Added { column_idx: col, component_idx: idx as usize })
                        &&& page_section_edited(*old(page), *final(page), ni as int,
                            |a: DdSection, b: DdSection| section_component_added(a, b, col as int, idx as int, kind))
                    },
                }
            }
        },
{
    if kind == ComponentKind::Hero || kind == ComponentKind::Section {
        return ComponentAdd::TopLevelKind;
    }
    let n = page.nodes.len();
    if n == 0 {
        return ComponentAdd::NoSection;
    }
    let ni = if selected_node < n { selected_node } else { n - 1 };
    if let PageNode::Hero(_) = &page.nodes[ni] {
        return ComponentAdd::NotASection;
    }
    match &mut page.nodes[ni] {
        PageNode::Section(s) => {
            let (col, idx) = add_in_section(s, selected_column, selected_component, kind);
            ComponentAdd::Added { column_idx: col, component_idx: idx }
        },
        PageNode::Hero(_) => ComponentAdd::NotASection,
    }
}

/// Adds a new component of `kind` to the selected column (clamped to the
/// last) of the selected header or footer section (clamped to the last),
/// after the selected component; returns its index, or `None` (sections
/// unchanged) when there are no sections.
pub fn add_region_component(sections: &mut Vec<DdSection>, selected_section: usize, selected_column: usize,
    selected_component: usize, kind: ComponentKind) -> (r: Option<usize>)
    requires
        kind != ComponentKind::Hero,
        kind != ComponentKind::Section,
        old(sections)@.len() > 0 ==> old(sections)@[clamp_last(selected_section, old(sections)@.len()) as int].columns@.len() > 0,
    ensures
        old(sections)@.len() == 0 ==> r is None && final(sections)@ == old(sections)@,
        old(sections)@.len() > 0 ==> {
            let si = clamp_last(selected_section, old(sections)@.len());
            let s = old(sections)@[si as int];
            let col = target_column(s, selected_column);
            let idx = component_insert_index(selected_component, column_components(s, col).len());
            &&& r == Some(idx as usize)
            &&& crate::moves::sections_edited(old(sections)@, final(sections)@, si as int,
                |a: DdSection, b: DdSection| section_component_added(a, b, col as int, idx as int, kind))
        },
{
    let n = sections.len();
    if n == 0 {
        return None;
    }
    let si = if selected_section < n { selected_section } else { n - 1 };
    let (_, idx) = add_in_section(&mut sections[si], selected_column, selected_component, kind);
    Some(idx)
}

/// What a column edit of the selected section did.
#[derive(Clone, Copy, Debug, PartialEq, Eq, Structural)]
pub enum ColumnEdit {
    /// The page has no nodes, or the header or footer no sections.
    NoSection,
    /// The selected page node is a hero.
    NotASection,
    /// A section keeps at least one column.
    TooFew,
    /// Done; the column selected afterwards.
    Done(usize),
}

/// The columns a section has once given one when it had none.
pub open spec fn normalized_len(s: DdSection) -> nat {
    if s.columns@.len() == 0 { 1 } else { s.columns@.len() }
}

/// `ns` is `os` (given a column first when it had none) with a new empty
/// full-width column `column-<n>` appended, `n` being its position.
pub open spec fn column_appended(os: DdSection, ns: DdSection) -> bool {
    let base = normalized_len(os);
    &&& ns.id == os.id && ns.section_title == os.section_title
    &&& ns.section_class == os.section_class && ns.item_box_class == os.item_box_class
    &&& ns.columns@.len() == base + 1
    &&& os.columns@.len() > 0 ==> ns.columns@.take(base as int) == os.columns@
    &&& os.columns@.len() == 0 ==> is_empty_column(ns.columns@[0], "column-1"@)
    &&& is_empty_column(ns.columns@[base as int], "column-"@ + decimal(base + 1))
}

fn append_column(section: &mut DdSection) -> (last: usize)
    requires
        old(section).columns@.len() + 1 < usize::MAX,
    ensures
        column_appended(*old(section), *final(section)),
        last as nat == normalized_len(*old(section)),
{
    normalize_section_columns(section);
    let n = section.columns.len();
    let mut id = String::new();
    push_str(&mut id, "column-");
    push_decimal(&mut id, n + 1);
    section.columns.push(new_column(id));
    proof {
        if old(section).columns@.len() > 0 {
            assert(section.columns@.take(n as int) =~= old(section).columns@);
        }
    }
    n
}

/// Appends a column to the selected section node (see `column_appended`);
/// the new last column is selected.
pub fn add_column(page: &mut Page, selected_node: usize) -> (r: ColumnEdit)
    requires
        crate::moves::section_at(*old(page), clamp_last(selected_node, old(page).nodes@.len())) matches Some(s)
            ==> s.columns@.len() + 1 < usize::MAX,
    ensures
        if old(page).nodes@.len() == 0 {
            r == ColumnEdit::NoSection && *final(page) == *old(page)
        } else {
            let ni = clamp_last(selected_node, old(page).nodes@.len());
            match old(page).nodes@[ni as int] {
                PageNode::Hero(_) => r == ColumnEdit::NotASection && *final(page) == *old(page),
                PageNode::Section(s) => {
                    &&& r == ColumnEdit::Done(normalized_len(s) as usize)
                    &&& page_section_edited(*old(page), *final(page), ni as int, |a: DdSection, b: DdSection| column_appended(a, b))
                },
            }
        },
{
    let n = page.nodes.len();
    if n == 0 {
        return ColumnEdit::NoSection;
    }
    let ni = if selected_node < n { selected_node } else { n - 1 };
    if let PageNode::Hero(_) = &page.nodes[ni] {
        return ColumnEdit::NotASection;
    }
    match &mut page.nodes[ni] {
        PageNode::Section(s) => ColumnEdit::Done(append_column(s)),
        PageNode::Hero(_) => ColumnEdit::NotASection,
    }
}

/// Appends a column to the selected header or footer section (clamped to
/// the last); returns the new last column's index, or `None` (sections
/// unchanged) when there are none.
pub fn add_region_column(sections: &mut Vec<DdSection>, selected_section: usize) -> (r: Option<usize>)
    requires
        old(sections)@.len() > 0 ==> old(sections)@[clamp_last(selected_section, old(sections)@.len()) as int].columns@.len() + 1 < usize::MAX,
    ensures
        old(sections)@.len() == 0 ==> r is None && final(sections)@ == old(sections)@,
        old(sections)@.len() > 0 ==> {
            let si = clamp_last(selected_section, old(sections)@.len());
            &&& r == Some(normalized_len(old(sections)@[si as int]) as usize)
            &&& crate::moves::sections_edited(old(sections)@, final(sections)@, si as int, |a: DdSection, b: DdSection| column_appended(a, b))
        },
{
    let n = sections.len();
    if n == 0 {
        return None;
    }
    let si = if selected_section < n { selected_section } else { n - 1 };
    Some(append_column(&mut sections[si]))
}

/// `ns` is `os` after removing its selected column: given a column when it
/// had none, else unchanged when it has only one, else without the
/// selected column (clamped to the last).
pub open spec fn column_removed(os: DdSection, ns: DdSection, selected: usize) -> bool {
    let len = os.columns@.len();
    if len == 0 {
        crate::moves::section_normalized(os, ns)
    } else if len == 1 {
        ns == os
    } else {
        &&& ns.id == os.id && ns.section_title == os.section_title
        &&& ns.section_class == os.section_class && ns.item_box_class == os.item_box_class
        &&& ns.columns@ == os.columns@.remove(clamp_last(selected, len) as int)
    }
}

/// The outcome of removing the selected column of `s`: too few below two
/// columns, else the column selected afterwards.
pub open spec fn column_removal(s: DdSection, selected: usize) -> ColumnEdit {
    let len = s.columns@.len();
    if len <= 1 {
        ColumnEdit::TooFew
    } else {
        ColumnEdit::Done(clamp_last(clamp_last(selected, len), (len - 1) as nat))
    }
}

fn remove_column(section: &mut DdSection, selected: usize) -> (r: ColumnEdit)
    ensures
        r == column_removal(*old(section), selected),
        column_removed(*old(section), *final(section), selected),
{
    normalize_section_columns(section);
    let len = section.columns.len();
    if len <= 1 {
        return ColumnEdit::TooFew;
    }
    let ci = if selected < len { selected } else { len - 1 };
    section.columns.remove(ci);
    let m = len - 1;
    ColumnEdit::Done(if ci < m { ci } else { m - 1 })
}

/// Removes the selected column of the selected section node (see
/// `column_removed`); a section keeps at least one column.
pub fn remove_selected_column(page: &mut Page, selected_node: usize, selected_column: usize) -> (r: ColumnEdit)
    ensures
        if old(page).nodes@.len() == 0 {
            r == ColumnEdit::NoSection && *final(page) == *old(page)
        } else {
            let ni = clamp_last(selected_node, old(page).nodes@.len());
            match old(page).nodes@[ni as int] {
                PageNode::Hero(_) => r == ColumnEdit::NotASection && *final(page) == *old(page),
                PageNode::Section(s) => {
                    &&& r == column_removal(s, selected_column)
                    &&& page_section_edited(*old(page), *final(page), ni as int,
                        |a: DdSection, b: DdSection| column_removed(a, b, selected_column))
                },
            }
        },
{
    let n = page.nodes.len();
    if n == 0 {
        return ColumnEdit::NoSection;
    }
    let ni = if selected_node < n { selected_node } else { n - 1 };
    if let PageNode::Hero(_) = &page.nodes[ni] {
        return ColumnEdit::NotASection;
    }
    match &mut page.nodes[ni] {
        PageNode::Section(s) => remove_column(s, selected_column),
        PageNode::Hero(_) => ColumnEdit::NotASection,
    }
}

/// Removes the selected column of the selected header or footer section
/// (both clamped to the last); a section keeps at least one column.
pub fn remove_region_column(sections: &mut Vec<DdSection>, selected_section: usize, selected_column: usize) -> (r: ColumnEdit)
    ensures
        old(sections)@.len() == 0 ==> r == ColumnEdit::NoSection && final(sections)@ == old(sections)@,
        old(sections)@.len() > 0 ==> {
            let si = clamp_last(selected_section, old(sections)@.len());
            &&& r == column_removal(old(sections)@[si as int], selected_column)
            &&& crate::moves::sections_edited(old(sections)@, final(sections)@, si as int,
                |a: DdSection, b: DdSection| column_removed(a, b, selected_column))
        },
{
    let n = sections.len();
    if n == 0 {
        return ColumnEdit::NoSection;
    }
    let si = if selected_section < n { selected_section } else { n - 1 };
    remove_column(&mut sections[si], selected_column)
}

/// The id of the `n`-th header (or footer) section: `header-section-<n>`.
pub open spec fn region_section_id(footer: bool, n: nat) -> Seq<char> {
    (if footer { "footer-section-"@ } else { "header-section-"@ }) + decimal(n)
}

/// Where a new header or footer section goes: after the selected one,
/// clamped to the end.
pub open spec fn section_insert_index(selected: usize, len: nat) -> nat {
    if selected + 1 < len { (selected + 1) as nat } else { len }
}

/// Inserts a new section (`header-section-<n>` or `footer-section-<n>`,
/// `n` the new count) after the selected one; returns its index.
pub fn add_region_section(sections: &mut Vec<DdSection>, selected: usize, footer: bool) -> (idx: usize)
    requires
        old(sections)@.len() + 1 < usize::MAX,
    ensures
        idx == section_insert_index(selected, old(sections)@.len()),
        final(sections)@.len() == old(sections)@.len() + 1,
        final(sections)@.remove(idx as int) == old(sections)@,
        is_new_section(final(sections)@[idx as int], region_section_id(footer, old(sections)@.len() + 1)),
{
    let n = sections.len();
    let mut id = String::new();
    push_str(&mut id, if footer { "footer-section-" } else { "header-section-" });
    push_decimal(&mut id, n + 1);
    let idx = if selected < n && selected + 1 < n { selected + 1 } else { n };
    sections.insert(idx, new_section(id));
    assert(sections@.remove(idx as int) =~= old(sections)@);
    idx
}

/// What deleting a header or footer section did.
#[derive(Clone, Copy, Debug, PartialEq, Eq, Structural)]
pub enum SectionDelete {
    /// The region keeps at least one section.
    LastOne,
    /// There is no such section.
    Missing,
    /// Deleted; the section selected afterwards.
    Deleted(usize),
}

/// Deletes header or footer section `si`, unless it is the only one.
pub fn delete_region_section(sections: &mut Vec<DdSection>, si: usize) -> (r: SectionDelete)
    ensures
        old(sections)@.len() <= 1 ==> r == SectionDelete::LastOne && final(sections)@ == old(sections)@,
        old(sections)@.len() > 1 && si >= old(sections)@.len() ==> r == SectionDelete::Missing && final(sections)@ == old(sections)@,
        old(sections)@.len() > 1 && si < old(sections)@.len() ==> {
            &&& final(sections)@ == old(sections)@.remove(si as int)
            &&& r == SectionDelete::Deleted(clamp_last(si, (old(sections)@.len() - 1) as nat))
        },
{
    let n = sections.len();
    if n <= 1 {
        return SectionDelete::LastOne;
    }
    if si >= n {
        return SectionDelete::Missing;
    }
    sections.remove(si);
    SectionDelete::Deleted(if si < n - 1 { si } else { n - 2 })
}

/// `b` is `a` with a copy of item `i` of its list inserted right after it.
pub open spec fn item_duplicated(a: SectionComponent, b: SectionComponent, i: int) -> bool {
    match (a, b) {
        (SectionComponent::Accordion(x), SectionComponent::Accordion(y)) =>
            y.parent_type == x.parent_type && y.parent_class == x.parent_class && y.parent_data_aos == x.parent_data_aos
            && y.parent_group_name == x.parent_group_name && y.multiple == x.multiple && duplicated_at(x.items@, y.items@, i),
        (SectionComponent::Alternating(x), SectionComponent::Alternating(y)) =>
            y.parent_type == x.parent_type && y.parent_class == x.parent_class && y.parent_data_aos == x.parent_data_aos
            && duplicated_at(x.items@, y.items@, i),
        (SectionComponent::Card(x), SectionComponent::Card(y)) =>
            y.parent_type == x.parent_type && y.parent_data_aos == x.parent_data_aos && y.parent_width == x.parent_width
            && duplicated_at(x.items@, y.items@, i),
        (SectionComponent::Filmstrip(x), SectionComponent::Filmstrip(y)) =>
            y.parent_type == x.parent_type && y.parent_data_aos == x.parent_data_aos && duplicated_at(x.items@, y.items@, i),
        (SectionComponent::Milestones(x), SectionComponent::Milestones(y)) =>
            y.parent_data_aos == x.parent_data_aos && y.parent_width == x.parent_width && duplicated_at(x.items@, y.items@, i),
        (SectionComponent::Slider(x), SectionComponent::Slider(y)) =>
            y.parent_title == x.parent_title && duplicated_at(x.items@, y.items@, i),
        _ => false,
    }
}

fn duplicate_item_in(c: &mut SectionComponent, i: usize)
    requires
        i < crate::moves::item_total(*old(c)),
    ensures
        item_duplicated(*old(c), *final(c), i as int),
{
    match c {
        SectionComponent::Accordion(x) => {
            let n = x.items.len();
            assert(i < n);
            let copy = x.items[i].clone();
            x.items.insert(i + 1, copy);
            assert(x.items@.remove(i + 1) =~= old(c)->Accordion_0.items@);
        },
        SectionComponent::Alternating(x) => {
            let n = x.items.len();
            assert(i < n);
            let copy = x.items[i].clone();
            x.items.insert(i + 1, copy);
            assert(x.items@.remove(i + 1) =~= old(c)->Alternating_0.items@);
        },
        SectionComponent::Card(x) => {
            let n = x.items.len();
            assert(i < n);
            let copy = x.items[i].clone();
            x.items.insert(i + 1, copy);
            assert(x.items@.remove(i + 1) =~= old(c)->Card_0.items@);
        },
        SectionComponent::Filmstrip(x) => {
            let n = x.items.len();
            assert(i < n);
            let copy = x.items[i].clone();
            x.items.insert(i + 1, copy);
            assert(x.items@.remove(i + 1) =~= old(c)->Filmstrip_0.items@);
        },
        SectionComponent::Milestones(x) => {
            let n = x.items.len();
            assert(i < n);
            let copy = x.items[i].clone();
            x.items.insert(i + 1, copy);
            assert(x.items@.remove(i + 1) =~= old(c)->Milestones_0.items@);
        },
        SectionComponent::Slider(x) => {
            let n = x.items.len();
            assert(i < n);
            let copy = x.items[i].clone();
            x.items.insert(i + 1, copy);
            assert(x.items@.remove(i + 1) =~= old(c)->Slider_0.items@);
        },
        _ => {},
    }
}

/// The selected component and the selected item's index when that item
/// exists in the component's list.
pub open spec fn item_to_duplicate(p: Page, sel: crate::tree::Selection) -> Option<(usize, usize, usize)> {
    match crate::moves::selected_component_at(p, sel) {
        Some((ni, col, ci)) => if sel.selected_nested_item
            < crate::moves::item_total(p.nodes@[ni as int]->Section_0.columns@[col as int].components@[ci as int]) {
            Some((ni, col, ci))
        } else {
            None
        },
        None => None,
    }
}

fn locate_item(page: &Page, sel: &crate::tree::Selection) -> (r: Option<(usize, usize, usize)>)
    requires
        page.nodes@.len() > 0,
        crate::moves::section_at(*page, clamp_last(sel.selected_node, page.nodes@.len())) matches Some(s) ==> s.columns@.len() > 0,
    ensures
        r == item_to_duplicate(*page, *sel),
        r is Some ==> sel.selected_nested_item < usize::MAX,
{
    let n = page.nodes.len();
    let ni = if sel.selected_node < n { sel.selected_node } else { n - 1 };
    match &page.nodes[ni] {
        PageNode::Section(s) => {
            let cols = s.columns.len();
            let col = if sel.selected_column < cols { sel.selected_column } else { cols - 1 };
            let ci = match crate::section_ids::component_index(s.columns[col].components.len(), sel.selected_component) {
                Some(ci) => ci,
                None => return None,
            };
            let total = match &s.columns[col].components[ci] {
                SectionComponent::Accordion(x) => x.items.len(),
                SectionComponent::Alternating(x) => x.items.len(),
                SectionComponent::Card(x) => x.items.len(),
                SectionComponent::Filmstrip(x) => x.items.len(),
                SectionComponent::Milestones(x) => x.items.len(),
                SectionComponent::Slider(x) => x.items.len(),
                _ => 0,
            };
            if sel.selected_nested_item < total { Some((ni, col, ci)) } else { None }
        },
        PageNode::Hero(_) => None,
    }
}

/// Inserts a copy of the selected item of the selected component's list
/// right after it; returns the copy's index, or `None` (page unchanged)
/// when there is no such item.
pub fn duplicate_selected_collection_item(page: &mut Page, sel: &crate::tree::Selection) -> (r: Option<usize>)
    requires
        old(page).nodes@.len() > 0,
        crate::moves::section_at(*old(page), clamp_last(sel.selected_node, old(page).nodes@.len())) matches Some(s)
            ==> s.columns@.len() > 0,
    ensures
        match item_to_duplicate(*old(page), *sel) {
            Some((ni, col, ci)) => r == Some((sel.selected_nested_item + 1) as usize)
                && crate::items::component_edited(*old(page), *final(page), ni as int, col as int, ci as int,
                    |a: SectionComponent, b: SectionComponent| item_duplicated(a, b, sel.selected_nested_item as int)),
            None => r is None && *final(page) == *old(page),
        },
{
    let found = locate_item(page, sel);
    match found {
        Some((ni, col, ci)) => {
            let i = sel.selected_nested_item;
            match &mut page.nodes[ni] {
                PageNode::Section(s) => duplicate_item_in(&mut s.columns[col].components[ci], i),
                PageNode::Hero(_) => {},
            }
            Some(i + 1)
        },
        None => None,
    }
}

} // verus!
