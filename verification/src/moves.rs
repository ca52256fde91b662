//! Reordering: moving a node, a component, a column or a list item one
//! place up or down swaps it with its neighbour.
use vstd::prelude::*;
use crate::section_ids::normalize_section_columns;
use crate::site::{DdSection, Page, PageNode, SectionComponent};
use crate::tree::{clamp_last, item_list, Selection, TreeRowKind};

verus! {

/// `s` with the entries at `i` and `j` exchanged.
pub open spec fn swapped<T>(s: Seq<T>, i: int, j: int) -> Seq<T> {
    s.update(i, s[j]).update(j, s[i])
}

/// Exchanges the entries at `i` and `j` of `v`.
pub fn swap_entries<T>(v: &mut Vec<T>, i: usize, j: usize)
    requires
        i < old(v)@.len(),
        j < old(v)@.len(),
    ensures
        final(v)@ == swapped(old(v)@, i as int, j as int),
{
    if i == j {
        assert(swapped(v@, i as int, j as int) =~= v@);
        return;
    }
    let (lo, hi) = if i < j { (i, j) } else { (j, i) };
    let ghost s = v@;
    let a = v.remove(hi);
    let b = v.remove(lo);
    v.insert(lo, a);
    v.insert(hi, b);
    assert(v@ =~= swapped(s, i as int, j as int));
}

/// Swapping the same two entries twice gives the sequence back.
pub proof fn law_swap_twice_restores<T>(s: Seq<T>, i: int, j: int)
    requires
        0 <= i < s.len(),
        0 <= j < s.len(),
    ensures
        swapped(swapped(s, i, j), i, j) == s,
{
    assert(swapped(swapped(s, i, j), i, j) =~= s);
}

/// Moving an entry by `delta` and then moving it from its new place by
/// `-delta` brings it back and restores the order.
pub proof fn law_move_back_restores<T>(s: Seq<T>, idx: usize, delta: isize)
    requires
        idx < s.len(),
        s.len() <= usize::MAX,
        move_target(idx, delta, s.len()) is Some,
        delta > isize::MIN,
    ensures
        move_target(move_target(idx, delta, s.len())->0, (-delta) as isize, s.len()) == Some(idx),
        swapped(swapped(s, idx as int, move_target(idx, delta, s.len())->0 as int),
            move_target(idx, delta, s.len())->0 as int, idx as int) == s,
{
    let d = move_target(idx, delta, s.len())->0;
    assert(swapped(swapped(s, idx as int, d as int), d as int, idx as int) =~= s);
}

/// Where an entry at `idx` goes when moved by `delta` within `len`
/// entries, if that place exists.
pub open spec fn move_target(idx: usize, delta: isize, len: nat) -> Option<usize> {
    let dest = idx + delta;
    if 0 <= dest < len { Some(dest as usize) } else { None }
}

/// The place `idx + delta` within `len` entries, if it exists.
pub fn target_index(idx: usize, delta: isize, len: usize) -> (r: Option<usize>)
    ensures
        r == move_target(idx, delta, len as nat),
{
    let dest: i128 = idx as i128 + delta as i128;
    if dest >= 0 && dest < len as i128 {
        Some(dest as usize)
    } else {
        None
    }
}

/// Where the page node at `node_idx` goes when moved by `delta`: nowhere
/// when the page has fewer than two nodes or no such node.
pub open spec fn node_move(p: Page, node_idx: usize, delta: isize) -> Option<usize> {
    let len = p.nodes@.len();
    if len < 2 || node_idx >= len { None } else { move_target(node_idx, delta, len) }
}

/// Moves the page node at `node_idx` by `delta` places, swapping it with
/// the node there; returns its new index, or `None` (page unchanged) when
/// there is no such place.
pub fn move_page_node(page: &mut Page, node_idx: usize, delta: isize) -> (r: Option<usize>)
    ensures
        r == node_move(*old(page), node_idx, delta),
        match r {
            Some(d) => final(page).nodes@ == swapped(old(page).nodes@, node_idx as int, d as int),
            None => *final(page) == *old(page),
        },
{
    let len = page.nodes.len();
    if len < 2 || node_idx >= len {
        return None;
    }
    let r = target_index(node_idx, delta, len);
    if let Some(d) = r {
        swap_entries(&mut page.nodes, node_idx, d);
    }
    r
}

/// `ns` is `os` with components `i` and `j` of column `col` exchanged.
pub open spec fn components_swapped(os: DdSection, ns: DdSection, col: int, i: int, j: int) -> bool {
    &&& ns.id == os.id && ns.section_title == os.section_title
    &&& ns.section_class == os.section_class && ns.item_box_class == os.item_box_class
    &&& ns.columns@.len() == os.columns@.len()
    &&& forall|c: int| 0 <= c < os.columns@.len() && c != col ==> ns.columns@[c] == os.columns@[c]
    &&& ns.columns@[col].id == os.columns@[col].id
    &&& ns.columns@[col].width_class == os.columns@[col].width_class
    &&& ns.columns@[col].components@ == swapped(os.columns@[col].components@, i, j)
}

/// `new` is `old` with only its section node `ni` changed, from `a` to
/// `b` where `edit(a, b)`.
pub open spec fn page_section_edited(old: Page, new: Page, ni: int, edit: spec_fn(DdSection, DdSection) -> bool) -> bool {
    &&& new.nodes@.len() == old.nodes@.len()
    &&& forall|j: int| 0 <= j < old.nodes@.len() && j != ni ==> new.nodes@[j] == old.nodes@[j]
    &&& old.nodes@[ni] matches PageNode::Section(os)
    &&& new.nodes@[ni] matches PageNode::Section(ns)
    &&& edit(os, ns)
}

/// `new` is `old` with only section `si` changed, from `a` to `b` where
/// `edit(a, b)`.
pub open spec fn sections_edited(old: Seq<DdSection>, new: Seq<DdSection>, si: int, edit: spec_fn(DdSection, DdSection) -> bool) -> bool {
    &&& new.len() == old.len()
    &&& forall|j: int| 0 <= j < old.len() && j != si ==> new[j] == old[j]
    &&& 0 <= si < old.len()
    &&& edit(old[si], new[si])
}

/// The number of components of column `col` of section `s`, if both exist.
pub open spec fn column_len(s: DdSection, col: usize) -> Option<nat> {
    if col < s.columns@.len() { Some(s.columns@[col as int].components@.len()) } else { None }
}

/// The section of page node `ni`, if it is a section.
pub open spec fn section_at(p: Page, ni: usize) -> Option<DdSection> {
    if ni < p.nodes@.len() {
        match p.nodes@[ni as int] {
            PageNode::Section(s) => Some(s),
            PageNode::Hero(_) => None,
        }
    } else {
        None
    }
}

/// Where a component goes when moved by `delta` within column `col` of
/// section `s`: nowhere when the column does not exist.
pub open spec fn component_move(s: Option<DdSection>, col: usize, ci: usize, delta: isize) -> Option<usize> {
    match s {
        Some(s) => match column_len(s, col) {
            Some(n) => move_target(ci, delta, n),
            None => None,
        },
        None => None,
    }
}

/// A moved component exists.
pub open spec fn component_move_safe(s: Option<DdSection>, col: usize, ci: usize, delta: isize) -> bool {
    component_move(s, col, ci, delta) is Some ==> ci < column_len(s->0, col)->0
}

fn swap_components(section: &mut DdSection, col: usize, ci: usize, d: usize)
    requires
        col < old(section).columns@.len(),
        ci < old(section).columns@[col as int].components@.len(),
        d < old(section).columns@[col as int].components@.len(),
    ensures
        components_swapped(*old(section), *final(section), col as int, ci as int, d as int),
{
    swap_entries(&mut section.columns[col].components, ci, d);
}

/// Moves component `ci` of column `col` of the section node `ni` by `delta`
/// places; returns its new index, or `None` (page unchanged) when there is
/// no such node, column or place.
pub fn move_page_component(page: &mut Page, ni: usize, col: usize, ci: usize, delta: isize) -> (r: Option<usize>)
    requires
        component_move_safe(section_at(*old(page), ni), col, ci, delta),
    ensures
        r == component_move(section_at(*old(page), ni), col, ci, delta),
        match r {
            Some(d) => page_section_edited(*old(page), *final(page), ni as int,
                |a: DdSection, b: DdSection| components_swapped(a, b, col as int, ci as int, d as int)),
            None => *final(page) == *old(page),
        },
{
    if ni >= page.nodes.len() {
        return None;
    }
    let len = match &page.nodes[ni] {
        PageNode::Section(s) => if col < s.columns.len() { Some(s.columns[col].components.len()) } else { None },
        PageNode::Hero(_) => None,
    };
    let r = match len {
        Some(n) => target_index(ci, delta, n),
        None => None,
    };
    if let Some(d) = r {
        match &mut page.nodes[ni] {
            PageNode::Section(s) => swap_components(s, col, ci, d),
            PageNode::Hero(_) => {},
        }
    }
    r
}

/// Moves component `ci` of column `col` of header or footer section `si`
/// by `delta` places; returns its new index, or `None` (sections
/// unchanged) when there is no such section, column or place.
pub fn move_region_component(sections: &mut Vec<DdSection>, si: usize, col: usize, ci: usize, delta: isize) -> (r: Option<usize>)
    requires
        component_move_safe(if si < old(sections)@.len() { Some(old(sections)@[si as int]) } else { None }, col, ci, delta),
    ensures
        r == component_move(if si < old(sections)@.len() { Some(old(sections)@[si as int]) } else { None }, col, ci, delta),
        match r {
            Some(d) => sections_edited(old(sections)@, final(sections)@, si as int,
                |a: DdSection, b: DdSection| components_swapped(a, b, col as int, ci as int, d as int)),
            None => final(sections)@ == old(sections)@,
        },
{
    if si >= sections.len() || col >= sections[si].columns.len() {
        return None;
    }
    let r = target_index(ci, delta, sections[si].columns[col].components.len());
    if let Some(d) = r {
        swap_components(&mut sections[si], col, ci, d);
    }
    r
}

/// `b` is `a` with the items at `i` and `j` of its list exchanged.
pub open spec fn items_swapped(a: SectionComponent, b: SectionComponent, i: int, j: int) -> bool {
    match (a, b) {
        (SectionComponent::Accordion(x), SectionComponent::Accordion(y)) =>
            y.parent_type == x.parent_type && y.parent_class == x.parent_class && y.parent_data_aos == x.parent_data_aos
            && y.parent_group_name == x.parent_group_name && y.multiple == x.multiple && y.items@ == swapped(x.items@, i, j),
        (SectionComponent::Alternating(x), SectionComponent::Alternating(y)) =>
            y.parent_type == x.parent_type && y.parent_class == x.parent_class && y.parent_data_aos == x.parent_data_aos
            && y.items@ == swapped(x.items@, i, j),
        (SectionComponent::Card(x), SectionComponent::Card(y)) =>
            y.parent_type == x.parent_type && y.parent_data_aos == x.parent_data_aos && y.parent_width == x.parent_width
            && y.items@ == swapped(x.items@, i, j),
        (SectionComponent::Filmstrip(x), SectionComponent::Filmstrip(y)) =>
            y.parent_type == x.parent_type && y.parent_data_aos == x.parent_data_aos && y.items@ == swapped(x.items@, i, j),
        (SectionComponent::Milestones(x), SectionComponent::Milestones(y)) =>
            y.parent_data_aos == x.parent_data_aos && y.parent_width == x.parent_width && y.items@ == swapped(x.items@, i, j),
        (SectionComponent::Slider(x), SectionComponent::Slider(y)) =>
            y.parent_title == x.parent_title && y.items@ == swapped(x.items@, i, j),
        _ => false,
    }
}

/// The selected component: node, column and component each clamped to the
/// last one, when the node is a section whose column has components.
pub open spec fn selected_component_at(p: Page, sel: Selection) -> Option<(usize, usize, usize)> {
    let ni = clamp_last(sel.selected_node, p.nodes@.len());
    match p.nodes@[ni as int] {
        PageNode::Hero(_) => None,
        PageNode::Section(s) => {
            let col = clamp_last(sel.selected_column, s.columns@.len());
            let n = s.columns@[col as int].components@.len();
            if n == 0 { None } else { Some((ni, col, clamp_last(sel.selected_component, n))) }
        },
    }
}

/// Where the selected item of the selected component's list goes when
/// moved by `delta`, with the component's node, column and index.
pub open spec fn item_move(p: Page, sel: Selection, delta: isize) -> Option<(usize, usize, usize, usize)> {
    match selected_component_at(p, sel) {
        Some((ni, col, ci)) => match item_list(p.nodes@[ni as int]->Section_0.columns@[col as int].components@[ci as int]) {
            Some((_, n)) => match move_target(sel.selected_nested_item, delta, n) {
                Some(d) => Some((ni, col, ci, d)),
                None => None,
            },
            None => None,
        },
        None => None,
    }
}

/// The page has a node, a selected section node has a column, and a
/// moved item exists.
pub open spec fn item_move_safe(p: Page, sel: Selection, delta: isize) -> bool {
    &&& p.nodes@.len() > 0
    &&& p.nodes@[clamp_last(sel.selected_node, p.nodes@.len()) as int] matches PageNode::Section(s) ==> s.columns@.len() > 0
    &&& item_move(p, sel, delta) matches Some((ni, col, ci, _)) ==> sel.selected_nested_item
        < item_total(p.nodes@[ni as int]->Section_0.columns@[col as int].components@[ci as int])
}

/// The number of items a component lists (0 when it lists none).
pub open spec fn item_total(c: SectionComponent) -> nat {
    match item_list(c) {
        Some((_, n)) => n,
        None => 0,
    }
}

fn swap_items(c: &mut SectionComponent, i: usize, j: usize)
    requires
        item_list(*old(c)) matches Some((_, n)) && i < n && j < n,
    ensures
        items_swapped(*old(c), *final(c), i as int, j as int),
{
    match c {
        SectionComponent::Accordion(x) => swap_entries(&mut x.items, i, j),
        SectionComponent::Alternating(x) => swap_entries(&mut x.items, i, j),
        SectionComponent::Card(x) => swap_entries(&mut x.items, i, j),
        SectionComponent::Filmstrip(x) => swap_entries(&mut x.items, i, j),
        SectionComponent::Milestones(x) => swap_entries(&mut x.items, i, j),
        SectionComponent::Slider(x) => swap_entries(&mut x.items, i, j),
        _ => {},
    }
}

fn item_count(c: &SectionComponent) -> (r: Option<usize>)
    ensures
        match item_list(*c) {
            Some((_, n)) => r is Some && r->0 as nat == n,
            None => r is None,
        },
{
    match c {
        SectionComponent::Accordion(x) => Some(x.items.len()),
        SectionComponent::Alternating(x) => Some(x.items.len()),
        SectionComponent::Card(x) => Some(x.items.len()),
        SectionComponent::Filmstrip(x) => Some(x.items.len()),
        SectionComponent::Milestones(x) => Some(x.items.len()),
        SectionComponent::Slider(x) => Some(x.items.len()),
        _ => None,
    }
}

fn swap_section_items(section: &mut DdSection, col: usize, ci: usize, i: usize, j: usize)
    requires
        col < old(section).columns@.len(),
        ci < old(section).columns@[col as int].components@.len(),
        item_list(old(section).columns@[col as int].components@[ci as int]) matches Some((_, n)) && i < n && j < n,
    ensures
        final(section).id == old(section).id,
        final(section).section_title == old(section).section_title,
        final(section).section_class == old(section).section_class,
        final(section).item_box_class == old(section).item_box_class,
        final(section).columns@.len() == old(section).columns@.len(),
        forall|c: int| 0 <= c < old(section).columns@.len() && c != col ==> final(section).columns@[c] == old(section).columns@[c],
        final(section).columns@[col as int].id == old(section).columns@[col as int].id,
        final(section).columns@[col as int].width_class == old(section).columns@[col as int].width_class,
        final(section).columns@[col as int].components@.len() == old(section).columns@[col as int].components@.len(),
        forall|k: int| 0 <= k < old(section).columns@[col as int].components@.len() && k != ci
            ==> final(section).columns@[col as int].components@[k] == old(section).columns@[col as int].components@[k],
        items_swapped(old(section).columns@[col as int].components@[ci as int],
            final(section).columns@[col as int].components@[ci as int], i as int, j as int),
{
    swap_items(&mut section.columns[col].components[ci], i, j);
}

fn locate_item_move(page: &Page, sel: &Selection, delta: isize) -> (r: Option<(usize, usize, usize, usize)>)
    requires
        item_move_safe(*page, *sel, delta),
    ensures
        r == item_move(*page, *sel, delta),
{
    let n = page.nodes.len();
    let ni = if sel.selected_node < n { sel.selected_node } else { n - 1 };
    match &page.nodes[ni] {
        PageNode::Section(s) => {
            let cols = s.columns.len();
            let col = if sel.selected_column < cols { sel.selected_column } else { cols - 1 };
            let ci = match crate::section_ids::component_index(s.columns[col].components.len(), sel.selected_component) {
                Some(ci) => ci,
                None => return None,
            };
            let len = match item_count(&s.columns[col].components[ci]) {
                Some(len) => len,
                None => return None,
            };
            match target_index(sel.selected_nested_item, delta, len) {
                Some(d) => Some((ni, col, ci, d)),
                None => None,
            }
        },
        PageNode::Hero(_) => None,
    }
}

/// Moves the selected item of the selected component's list by `delta`
/// places (see `item_move`); returns its new index, or `None` (page
/// unchanged) when there is no such component, list or place.
pub fn move_selected_collection_item(page: &mut Page, sel: &Selection, delta: isize) -> (r: Option<usize>)
    requires
        item_move_safe(*old(page), *sel, delta),
    ensures
        match item_move(*old(page), *sel, delta) {
            Some((ni, col, ci, d)) => r == Some(d) && crate::items::component_edited(*old(page), *final(page),
                ni as int, col as int, ci as int,
                |a: SectionComponent, b: SectionComponent| items_swapped(a, b, sel.selected_nested_item as int, d as int)),
            None => r is None && *final(page) == *old(page),
        },
{
    let found = locate_item_move(page, sel, delta);
    match found {
        Some((ni, col, ci, d)) => {
            match &mut page.nodes[ni] {
                PageNode::Section(s) => swap_section_items(s, col, ci, sel.selected_nested_item, d),
                PageNode::Hero(_) => {},
            }
            Some(d)
        },
        None => None,
    }
}

/// What moving the selected column of a section did.
#[derive(Clone, Copy, Debug, PartialEq, Eq, Structural)]
pub enum ColumnMove {
    /// The page has no nodes, or the header no sections.
    NoSection,
    /// The selected page node is a hero.
    NotASection,
    /// The section has fewer than two columns.
    TooFew,
    AlreadyFirst,
    AlreadyLast,
    /// The column now stands at this index.
    Moved(usize),
}

/// The outcome of moving the selected column (clamped to the last) up or
/// down among `len` columns.
pub open spec fn column_move_outcome(len: nat, selected: usize, up: bool) -> ColumnMove {
    if len < 2 {
        ColumnMove::TooFew
    } else {
        let ci = clamp_last(selected, len);
        if up {
            if ci == 0 { ColumnMove::AlreadyFirst } else { ColumnMove::Moved((ci - 1) as usize) }
        } else {
            if ci + 1 >= len { ColumnMove::AlreadyLast } else { ColumnMove::Moved((ci + 1) as usize) }
        }
    }
}

/// The outcome for a section: one without columns first gets one, so it
/// has too few.
pub open spec fn section_column_move(s: DdSection, selected: usize, up: bool) -> ColumnMove {
    column_move_outcome(if s.columns@.len() == 0 { 1 } else { s.columns@.len() }, selected, up)
}

/// `ns` is `os` given its one empty full-width column.
pub open spec fn section_normalized(os: DdSection, ns: DdSection) -> bool {
    &&& ns.id == os.id && ns.section_title == os.section_title
    &&& ns.section_class == os.section_class && ns.item_box_class == os.item_box_class
    &&& ns.columns@.len() == 1
    &&& ns.columns@[0].id@ == "column-1"@
    &&& ns.columns@[0].width_class@ == "dd-u-1-1"@
    &&& ns.columns@[0].components@.len() == 0
}

/// `ns` is `os` after moving its selected column up or down: given a
/// column when it had none, with the column swapped with its neighbour
/// when it moved, else unchanged.
pub open spec fn column_moved(os: DdSection, ns: DdSection, selected: usize, up: bool) -> bool {
    let len = os.columns@.len();
    if len == 0 {
        section_normalized(os, ns)
    } else {
        match column_move_outcome(len, selected, up) {
            ColumnMove::Moved(d) => {
                &&& ns.id == os.id && ns.section_title == os.section_title
                &&& ns.section_class == os.section_class && ns.item_box_class == os.item_box_class
                &&& ns.columns@ == swapped(os.columns@, clamp_last(selected, len) as int, d as int)
            },
            _ => ns == os,
        }
    }
}

/// Moves the selected column of `section` one place up or down (a section
/// without columns is first given one).
pub fn move_section_column(section: &mut DdSection, selected: usize, up: bool) -> (r: ColumnMove)
    ensures
        r == section_column_move(*old(section), selected, up),
        column_moved(*old(section), *final(section), selected, up),
{
    normalize_section_columns(section);
    let len = section.columns.len();
    if len < 2 {
        return ColumnMove::TooFew;
    }
    let ci = if selected < len { selected } else { len - 1 };
    let d = if up {
        if ci == 0 {
            return ColumnMove::AlreadyFirst;
        }
        ci - 1
    } else {
        if ci + 1 >= len {
            return ColumnMove::AlreadyLast;
        }
        ci + 1
    };
    swap_entries(&mut section.columns, ci, d);
    ColumnMove::Moved(d)
}

/// The outcome of moving the selected column of the selected page node
/// (clamped to the last).
pub open spec fn page_column_move(p: Page, selected_node: usize, selected_column: usize, up: bool) -> ColumnMove {
    if p.nodes@.len() == 0 {
        ColumnMove::NoSection
    } else {
        match p.nodes@[clamp_last(selected_node, p.nodes@.len()) as int] {
            PageNode::Hero(_) => ColumnMove::NotASection,
            PageNode::Section(s) => section_column_move(s, selected_column, up),
        }
    }
}

/// Moves the selected column of the selected section node one place up
/// or down; only that section changes (see `column_moved`).
pub fn move_page_column(page: &mut Page, selected_node: usize, selected_column: usize, up: bool) -> (r: ColumnMove)
    ensures
        r == page_column_move(*old(page), selected_node, selected_column, up),
        if r == ColumnMove::NoSection || r == ColumnMove::NotASection {
            *final(page) == *old(page)
        } else {
            page_section_edited(*old(page), *final(page), clamp_last(selected_node, old(page).nodes@.len()) as int,
                |a: DdSection, b: DdSection| column_moved(a, b, selected_column, up))
        },
{
    let n = page.nodes.len();
    if n == 0 {
        return ColumnMove::NoSection;
    }
    let ni = if selected_node < n { selected_node } else { n - 1 };
    if let PageNode::Hero(_) = &page.nodes[ni] {
        return ColumnMove::NotASection;
    }
    match &mut page.nodes[ni] {
        PageNode::Section(s) => move_section_column(s, selected_column, up),
        PageNode::Hero(_) => ColumnMove::NotASection,
    }
}

/// The outcome of moving the selected column of the selected header
/// section (clamped to the last).
pub open spec fn region_column_move(sections: Seq<DdSection>, selected_section: usize, selected_column: usize, up: bool) -> ColumnMove {
    if sections.len() == 0 {
        ColumnMove::NoSection
    } else {
        section_column_move(sections[clamp_last(selected_section, sections.len()) as int], selected_column, up)
    }
}

/// Moves the selected column of the selected header section one place up
/// or down; only that section changes (see `column_moved`).
pub fn move_region_column(sections: &mut Vec<DdSection>, selected_section: usize, selected_column: usize, up: bool) -> (r: ColumnMove)
    ensures
        r == region_column_move(old(sections)@, selected_section, selected_column, up),
        if r == ColumnMove::NoSection {
            final(sections)@ == old(sections)@
        } else {
            sections_edited(old(sections)@, final(sections)@, clamp_last(selected_section, old(sections)@.len()) as int,
                |a: DdSection, b: DdSection| column_moved(a, b, selected_column, up))
        },
{
    let n = sections.len();
    if n == 0 {
        return ColumnMove::NoSection;
    }
    let si = if selected_section < n { selected_section } else { n - 1 };
    move_section_column(&mut sections[si], selected_column, up)
}

/// The notice shown after a column move.
pub open spec fn column_move_message(r: ColumnMove, header: bool, up: bool) -> Seq<char> {
    match r {
        ColumnMove::NoSection => if header { "No header sections to modify."@ } else { "No selected section."@ },
        ColumnMove::NotASection => "Selected node is not a section."@,
        ColumnMove::TooFew => "Need at least 2 columns."@,
        ColumnMove::AlreadyFirst => "Column is already first."@,
        ColumnMove::AlreadyLast => "Column is already last."@,
        ColumnMove::Moved(_) => if header {
            if up { "Moved header column up."@ } else { "Moved header column down."@ }
        } else {
            if up { "Moved column up."@ } else { "Moved column down."@ }
        },
    }
}

/// The notice for a column move in the header (`header`) or on a page.
pub fn column_move_text(r: ColumnMove, header: bool, up: bool) -> (s: &'static str)
    ensures
        s@ == column_move_message(r, header, up),
{
    match r {
        ColumnMove::NoSection => if header { "No header sections to modify." } else { "No selected section." },
        ColumnMove::NotASection => "Selected node is not a section.",
        ColumnMove::TooFew => "Need at least 2 columns.",
        ColumnMove::AlreadyFirst => "Column is already first.",
        ColumnMove::AlreadyLast => "Column is already last.",
        ColumnMove::Moved(_) => if header {
            if up { "Moved header column up." } else { "Moved header column down." }
        } else {
            if up { "Moved column up." } else { "Moved column down." }
        },
    }
}

/// The tree row to select after a move: the first row equal to `target`,
/// or `current` when there is none.
pub fn snap_tree_row(rows: &Vec<TreeRowKind>, target: TreeRowKind, current: usize) -> (r: usize)
    ensures
        (exists|k: int| 0 <= k < rows@.len() && rows@[k] == target) ==> {
            &&& r < rows@.len()
            &&& rows@[r as int] == target
            &&& forall|k: int| 0 <= k < r ==> rows@[k] != target
        },
        (forall|k: int| 0 <= k < rows@.len() ==> rows@[k] != target) ==> r == current,
{
    let mut i: usize = 0;
    while i < rows.len()
        invariant
            i <= rows@.len(),
            forall|k: int| 0 <= k < i ==> rows@[k] != target,
        decreases rows@.len() - i,
    {
        if rows[i] == target {
            return i;
        }
        i += 1;
    }
    current
}

} // verus!
