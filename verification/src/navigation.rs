//! Moving the cursor: through the tree rows, between pages and between
//! the columns of a section.
use vstd::prelude::*;
use crate::site::{DdSection, Page, PageNode};
use crate::text::{decimal, push_decimal, push_str};
use crate::site::{DdFooter, DdHeader};
use crate::tree::{
    apply_tree_row_selection, build_footer_tree_rows, build_header_tree_rows, build_page_tree_rows, clamp_last,
    footer_rows, header_rows, page_rows, selection_for_row, Expansion, Selection, TreeRowKind,
};

verus! {

broadcast use vstd::string::group_string_axioms;

/// The row one back (stopping at the first) or one forward (stopping at
/// the last) of `len > 0` rows.
pub open spec fn stepped_row(len: nat, current: usize, forward: bool) -> usize {
    if forward {
        if current + 1 < len { (current + 1) as usize } else { (len - 1) as usize }
    } else {
        if current == 0 { 0 } else { (current - 1) as usize }
    }
}

/// Moves the tree cursor one row back or forward; when it lands on
/// another row, that row's element becomes the selection. Returns the
/// cursor row.
pub fn step_tree_row(rows: &Vec<TreeRowKind>, current: usize, forward: bool, sel: &mut Selection) -> (r: usize)
    requires
        rows@.len() > 0 && !forward ==> current <= rows@.len(),
    ensures
        rows@.len() == 0 ==> r == current && *final(sel) == *old(sel),
        rows@.len() > 0 ==> {
            let next = stepped_row(rows@.len(), current, forward);
            if next != current {
                r == next && *final(sel) == selection_for_row(*old(sel), rows@[next as int])
            } else {
                r == current && *final(sel) == *old(sel)
            }
        },
{
    let total = rows.len();
    if total == 0 {
        return current;
    }
    let next = if forward {
        if current < total - 1 { current + 1 } else { total - 1 }
    } else {
        if current == 0 { 0 } else { current - 1 }
    };
    if next != current {
        apply_tree_row_selection(sel, rows[next]);
    }
    next
}

/// Jumps the tree cursor to the first or the last row, which becomes the
/// selection; `None` (selection unchanged) when there are no rows.
pub fn jump_tree_row(rows: &Vec<TreeRowKind>, last: bool, sel: &mut Selection) -> (r: Option<usize>)
    ensures
        rows@.len() == 0 ==> r is None && *final(sel) == *old(sel),
        rows@.len() > 0 ==> {
            let idx: int = if last { rows@.len() - 1 } else { 0 };
            r == Some(idx as usize) && *final(sel) == selection_for_row(*old(sel), rows@[idx])
        },
{
    if rows.len() == 0 {
        return None;
    }
    let idx = if last { rows.len() - 1 } else { 0 };
    apply_tree_row_selection(sel, rows[idx]);
    Some(idx)
}

/// The page after (wrapping to the first) or before (wrapping to the
/// last) `selected` among `count > 0` pages.
pub open spec fn cycled_page(count: nat, selected: usize, forward: bool) -> usize {
    if forward {
        ((selected + 1) % (count as int)) as usize
    } else if selected == 0 {
        (count - 1) as usize
    } else {
        (selected - 1) as usize
    }
}

/// The next or previous page, wrapping around; `None` when there are no
/// pages.
pub fn cycle_page(count: usize, selected: usize, forward: bool) -> (r: Option<usize>)
    ensures
        count == 0 ==> r is None,
        count > 0 ==> r == Some(cycled_page(count as nat, selected, forward)),
{
    if count == 0 {
        return None;
    }
    if forward {
        let m = selected % count;
        proof {
            assert((selected + 1) % (count as int) == (m + 1) % (count as int)) by (nonlinear_arith)
                requires m == selected % count, count > 0;
        }
        Some((m + 1) % count)
    } else if selected == 0 {
        Some(count - 1)
    } else {
        Some(selected - 1)
    }
}

/// Going to the next page and then back, or back and then forward, ends
/// on the page one started from.
pub proof fn law_page_cycle_round_trip(count: nat, selected: usize)
    requires
        selected < count,
        count <= usize::MAX,
    ensures
        cycled_page(count, cycled_page(count, selected, true), false) == selected,
        cycled_page(count, cycled_page(count, selected, false), true) == selected,
{
    if selected + 1 < count {
        assert((selected + 1) % (count as int) == selected + 1) by (nonlinear_arith)
            requires 0 <= selected + 1 < count;
    } else {
        assert((selected + 1) % (count as int) == 0) by (nonlinear_arith)
            requires selected + 1 == count, count > 0;
    }
    if selected == 0 {
        assert(count as int % count as int == 0) by (nonlinear_arith)
            requires count > 0;
    } else {
        assert(selected as int % count as int == selected) by (nonlinear_arith)
            requires 0 <= selected < count;
    }
}

/// The column one back (stopping at the first) or one forward (stopping
/// at the last) of `total > 0` columns.
pub open spec fn stepped_column(total: nat, current: usize, forward: bool) -> usize {
    stepped_row(total, current, forward)
}

/// The selected column after stepping back or forward; `None` when the
/// section has no columns.
pub fn step_column(total: usize, current: usize, forward: bool) -> (r: Option<usize>)
    ensures
        total == 0 ==> r is None,
        total > 0 ==> r == Some(stepped_column(total as nat, current, forward)),
{
    if total == 0 {
        return None;
    }
    Some(if forward {
        if current < total - 1 { current + 1 } else { total - 1 }
    } else {
        if current == 0 { 0 } else { current - 1 }
    })
}

/// The notice after a column step: `Selected column <n> of <total>.`,
/// with `header` before `column` in the header.
pub open spec fn column_notice(header: bool, col: usize, total: usize) -> Seq<char> {
    (if header { "Selected header column "@ } else { "Selected column "@ })
        + decimal((col + 1) as nat) + " of "@ + decimal(total as nat) + "."@
}

/// The text of `column_notice`.
pub fn column_notice_text(header: bool, col: usize, total: usize) -> (s: String)
    requires
        col < usize::MAX,
    ensures
        s@ == column_notice(header, col, total),
{
    let mut s = String::new();
    if header {
        push_str(&mut s, "Selected header column ");
    } else {
        push_str(&mut s, "Selected column ");
    }
    push_decimal(&mut s, col + 1);
    push_str(&mut s, " of ");
    push_decimal(&mut s, total);
    push_str(&mut s, ".");
    s
}

/// The number of columns of the selected page node (clamped to the last),
/// if it is a section.
pub open spec fn section_column_total(p: Page, selected_node: usize) -> Option<nat> {
    if p.nodes@.len() == 0 {
        None
    } else {
        match p.nodes@[clamp_last(selected_node, p.nodes@.len()) as int] {
            PageNode::Hero(_) => None,
            PageNode::Section(s) => Some(s.columns@.len()),
        }
    }
}

/// How many columns the selected section node has; `None` when the page
/// has no nodes or the node is a hero.
pub fn selected_section_column_total(page: &Page, selected_node: usize) -> (r: Option<usize>)
    ensures
        match section_column_total(*page, selected_node) {
            Some(n) => r is Some && r->0 as nat == n,
            None => r is None,
        },
{
    let n = page.nodes.len();
    if n == 0 {
        return None;
    }
    let ni = if selected_node < n { selected_node } else { n - 1 };
    match &page.nodes[ni] {
        PageNode::Hero(_) => None,
        PageNode::Section(s) => Some(s.columns.len()),
    }
}

/// How many columns the selected header section (clamped to the last)
/// has; `None` when there are no sections.
pub fn selected_header_section_column_total(sections: &Vec<DdSection>, selected_section: usize) -> (r: Option<usize>)
    ensures
        sections@.len() == 0 ==> r is None,
        sections@.len() > 0 ==> r is Some
            && r->0 as nat == sections@[clamp_last(selected_section, sections@.len()) as int].columns@.len(),
{
    let n = sections.len();
    if n == 0 {
        return None;
    }
    let si = if selected_section < n { selected_section } else { n - 1 };
    Some(sections[si].columns.len())
}

/// The part of the site the tree shows.
#[derive(Clone, Copy, Debug, PartialEq, Eq, Structural)]
pub enum SelectedRegion {
    Page,
    Header,
    Footer,
}

/// The rows of the tree for the selected region: the header's, the
/// footer's, or those of the selected page (none when there are no pages).
pub fn build_tree_rows(region: SelectedRegion, header: &DdHeader, footer: &DdFooter, pages: &Vec<Page>,
    selected_page: usize, e: &Expansion) -> (r: Vec<TreeRowKind>)
    requires
        region == SelectedRegion::Page ==> pages@.len() == 0 || selected_page < pages@.len(),
    ensures
        r@ == match region {
            SelectedRegion::Header => header_rows(*e, *header),
            SelectedRegion::Footer => footer_rows(*footer),
            SelectedRegion::Page => if pages@.len() == 0 {
                Seq::empty()
            } else {
                page_rows(*e, selected_page, pages@[selected_page as int])
            },
        },
{
    match region {
        SelectedRegion::Header => build_header_tree_rows(header, e),
        SelectedRegion::Footer => build_footer_tree_rows(footer),
        SelectedRegion::Page => build_page_tree_rows(pages, selected_page, e),
    }
}

/// The kind of the tree row under the cursor (clamped to the last row);
/// `None` when there are no rows.
pub fn selected_tree_row_kind(rows: &Vec<TreeRowKind>, cursor: usize) -> (r: Option<TreeRowKind>)
    ensures
        rows@.len() == 0 ==> r is None,
        rows@.len() > 0 ==> r == Some(rows@[clamp_last(cursor, rows@.len()) as int]),
{
    let n = rows.len();
    if n == 0 {
        return None;
    }
    Some(rows[if cursor < n { cursor } else { n - 1 }])
}

} // verus!
