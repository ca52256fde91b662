//! The text of the details panel for the header and footer, and the
//! one-line summaries of the selection.
use vstd::prelude::*;
use crate::ascii_map::{
    footer_ascii_map, footer_head_lines, framed, header_ascii_map, header_head_lines, inner_width,
    region_sections_lines,
};
use crate::site::{DdFooter, DdHeader, Page, PageNode};
use crate::text::{decimal, join_lines, push_decimal, push_str};
use crate::tree::clamp_last;

verus! {

broadcast use vstd::string::group_string_axioms;

/// The summary of the page selection: `(none)` on an empty page, else the
/// selected node (clamped to the last), numbered from 1, with the section's
/// id and the selected column and component.
pub open spec fn selection_summary_text(p: Page, node: usize, column: usize, component: usize) -> Seq<char> {
    if p.nodes@.len() == 0 {
        "(none)"@
    } else {
        let ni = clamp_last(node, p.nodes@.len());
        match p.nodes@[ni as int] {
            PageNode::Hero(_) => "node "@ + decimal((ni + 1) as nat) + " (dd-hero)"@,
            PageNode::Section(s) => "node "@ + decimal((ni + 1) as nat) + " (dd-section:"@ + s.id@ + "), column "@
                + decimal((column + 1) as nat) + ", component "@ + decimal((component + 1) as nat),
        }
    }
}

/// The text of `selection_summary_text`.
pub fn selection_summary(page: &Page, node: usize, column: usize, component: usize) -> (s: String)
    requires
        column < usize::MAX,
        component < usize::MAX,
    ensures
        s@ == selection_summary_text(*page, node, column, component),
{
    let n = page.nodes.len();
    if n == 0 {
        return "(none)".to_string();
    }
    let ni = if node < n { node } else { n - 1 };
    let mut s = String::new();
    push_str(&mut s, "node ");
    push_decimal(&mut s, ni + 1);
    match &page.nodes[ni] {
        PageNode::Hero(_) => push_str(&mut s, " (dd-hero)"),
        PageNode::Section(sec) => {
            push_str(&mut s, " (dd-section:");
            push_str(&mut s, sec.id.as_str());
            push_str(&mut s, "), column ");
            push_decimal(&mut s, column + 1);
            push_str(&mut s, ", component ");
            push_decimal(&mut s, component + 1);
        },
    }
    s
}

/// The summary of the header selection: a hint when the header has no
/// sections, else the header's id, the selected section's id (clamped to
/// the last) and the selected column and component, numbered from 1.
pub open spec fn header_summary_text(h: DdHeader, section: usize, column: usize, component: usize) -> Seq<char> {
    if h.sections@.len() == 0 {
        "dd-header (no sections - press '/' to add dd-section)"@
    } else {
        "dd-header:"@ + h.id@ + ", section:"@ + h.sections@[clamp_last(section, h.sections@.len()) as int].id@
            + ", column "@ + decimal((column + 1) as nat) + ", component "@ + decimal((component + 1) as nat)
    }
}

/// The text of `header_summary_text`.
pub fn header_selection_summary(header: &DdHeader, section: usize, column: usize, component: usize) -> (s: String)
    requires
        column < usize::MAX,
        component < usize::MAX,
    ensures
        s@ == header_summary_text(*header, section, column, component),
{
    let n = header.sections.len();
    if n == 0 {
        return "dd-header (no sections - press '/' to add dd-section)".to_string();
    }
    let si = if section < n { section } else { n - 1 };
    let mut s = String::new();
    push_str(&mut s, "dd-header:");
    push_str(&mut s, header.id.as_str());
    push_str(&mut s, ", section:");
    push_str(&mut s, header.sections[si].id.as_str());
    push_str(&mut s, ", column ");
    push_decimal(&mut s, column + 1);
    push_str(&mut s, ", component ");
    push_decimal(&mut s, component + 1);
    s
}

/// `*` when the region is the focused one, else a space.
pub open spec fn focus_mark(focused: bool) -> Seq<char> {
    if focused { "*"@ } else { " "@ }
}

/// The header's details: a title, its declaration line, its map, and the
/// selection summary with the insert mode.
pub open spec fn header_details(h: DdHeader, focused: bool, section: usize, column: usize, component: usize,
    insert_label: Seq<char>, width: usize) -> Seq<char> {
    let w = inner_width(width as nat, 12);
    let map = join_lines(framed(header_head_lines(h, w) + region_sections_lines(h.sections@, section as nat, column as nat, w), w));
    "Site header\n\n"@ + focus_mark(focused) + "[01] dd-header "@ + h.id@ + "\n"@ + map + "\n\nSelected: "@
        + header_summary_text(h, section, column, component) + " | Insert mode: "@ + insert_label
}

/// The details panel text for the header.
pub fn header_details_text(header: &DdHeader, focused: bool, section: usize, column: usize, component: usize,
    insert_label: &str, width: usize) -> (s: String)
    requires
        width <= usize::MAX - 8,
        column < usize::MAX,
        component < usize::MAX,
    ensures
        s@ == header_details(*header, focused, section, column, component, insert_label@, width),
{
    let mut s = String::new();
    push_str(&mut s, "Site header\n\n");
    push_str(&mut s, if focused { "*" } else { " " });
    push_str(&mut s, "[01] dd-header ");
    push_str(&mut s, header.id.as_str());
    push_str(&mut s, "\n");
    let (map, _) = header_ascii_map(header, section, column, width);
    push_str(&mut s, map.as_str());
    push_str(&mut s, "\n\nSelected: ");
    let summary = header_selection_summary(header, section, column, component);
    push_str(&mut s, summary.as_str());
    push_str(&mut s, " | Insert mode: ");
    push_str(&mut s, insert_label);
    s
}

/// The footer's details: a title, its declaration line and its map.
pub open spec fn footer_details(f: DdFooter, focused: bool, section: usize, column: usize, width: usize) -> Seq<char> {
    let w = inner_width(width as nat, 12);
    let map = join_lines(framed(footer_head_lines(f, w) + region_sections_lines(f.sections@, section as nat, column as nat, w), w));
    "Site footer\n\n"@ + focus_mark(focused) + "[01] dd-footer "@ + f.id@ + "\n"@ + map
}

/// The details panel text for the footer.
pub fn footer_details_text(footer: &DdFooter, focused: bool, section: usize, column: usize, width: usize) -> (s: String)
    requires
        width <= usize::MAX - 8,
    ensures
        s@ == footer_details(*footer, focused, section, column, width),
{
    let mut s = String::new();
    push_str(&mut s, "Site footer\n\n");
    push_str(&mut s, if focused { "*" } else { " " });
    push_str(&mut s, "[01] dd-footer ");
    push_str(&mut s, footer.id.as_str());
    push_str(&mut s, "\n");
    let (map, _) = footer_ascii_map(footer, section, column, width);
    push_str(&mut s, map.as_str());
    s
}

} // verus!
