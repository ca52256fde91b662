//! The text of each row of the structure tree.
use vstd::prelude::*;
use crate::components::{component_label, kind_label, kind_of};
use crate::items::list_len;
use crate::site::{DdFooter, DdHeader, DdSection, Page, PageNode, SectionColumn, SectionComponent};
use crate::text::{decimal, push_decimal, push_str, truncate_ascii, truncated};
use crate::tree::{
    clamp_last, header_section_open, item_list, items_open, section_open, Expansion, ItemsKind, TreeRowKind,
};

verus! {

broadcast use vstd::string::group_string_axioms;

/// The fold marker: `[-]` when open, `[+]` when folded.
pub open spec fn mark(open: bool) -> Seq<char> {
    if open { "[-]"@ } else { "[+]"@ }
}

/// `i + 1` written in decimal (rows are numbered from 1).
pub open spec fn num(i: usize) -> Seq<char> {
    decimal((i + 1) as nat)
}

/// The kind and indices of an item row.
pub open spec fn item_row_parts(row: TreeRowKind) -> Option<(ItemsKind, usize, usize, usize, usize)> {
    match row {
        TreeRowKind::AccordionItem { node_idx, column_idx, component_idx, item_idx } => Some((ItemsKind::Accordion, node_idx, column_idx, component_idx, item_idx)),
        TreeRowKind::AlternatingItem { node_idx, column_idx, component_idx, item_idx } => Some((ItemsKind::Alternating, node_idx, column_idx, component_idx, item_idx)),
        TreeRowKind::CardItem { node_idx, column_idx, component_idx, item_idx } => Some((ItemsKind::Card, node_idx, column_idx, component_idx, item_idx)),
        TreeRowKind::FilmstripItem { node_idx, column_idx, component_idx, item_idx } => Some((ItemsKind::Filmstrip, node_idx, column_idx, component_idx, item_idx)),
        TreeRowKind::MilestonesItem { node_idx, column_idx, component_idx, item_idx } => Some((ItemsKind::Milestones, node_idx, column_idx, component_idx, item_idx)),
        TreeRowKind::SliderItem { node_idx, column_idx, component_idx, item_idx } => Some((ItemsKind::Slider, node_idx, column_idx, component_idx, item_idx)),
        _ => None,
    }
}

/// The item titles of a component's list of `kind` (none when it is
/// another component).
pub open spec fn item_titles(c: SectionComponent, kind: ItemsKind) -> Seq<Seq<char>> {
    match (c, kind) {
        (SectionComponent::Accordion(a), ItemsKind::Accordion) => a.items@.map_values(|i: crate::site::AccordionItem| i.child_title@),
        (SectionComponent::Alternating(a), ItemsKind::Alternating) => a.items@.map_values(|i: crate::site::AlternatingItem| i.child_title@),
        (SectionComponent::Card(a), ItemsKind::Card) => a.items@.map_values(|i: crate::site::CardItem| i.child_title@),
        (SectionComponent::Filmstrip(a), ItemsKind::Filmstrip) => a.items@.map_values(|i: crate::site::FilmstripItem| i.child_title@),
        (SectionComponent::Milestones(a), ItemsKind::Milestones) => a.items@.map_values(|i: crate::site::MilestonesItem| i.child_title@),
        (SectionComponent::Slider(a), ItemsKind::Slider) => a.items@.map_values(|i: crate::site::SliderItem| i.child_title@),
        _ => Seq::empty(),
    }
}

/// The column line of a tree: `|- column <n> (<id>) [<width class>]`
/// after `indent`.
pub open spec fn column_text(indent: Seq<char>, ci: usize, col: SectionColumn) -> Seq<char> {
    indent + "|- column "@ + num(ci) + " ("@ + col.id@ + ") ["@ + col.width_class@ + "]"@
}

/// The label of a header or footer row. Indices are clamped to the
/// existing sections, columns and components.
pub open spec fn region_row_label(e: Expansion, h: DdHeader, f: DdFooter, row: TreeRowKind) -> Seq<char> {
    let region_secs = |footer: bool| if footer { f.sections@ } else { h.sections@ };
    match row {
        TreeRowKind::HeaderRoot => "1. "@ + mark(e.header_column_expanded) + " dd-header ("@ + h.id@ + ")"@,
        TreeRowKind::FooterRoot => "1. [FOOTER] dd-footer ("@ + f.id@ + ")"@,
        TreeRowKind::HeaderSection { section_idx } => {
            let si = clamp_last(section_idx, h.sections@.len());
            "  "@ + num(si) + " "@ + mark(header_section_open(e, section_idx)) + " dd-section ("@ + h.sections@[si as int].id@ + ")"@
        },
        TreeRowKind::FooterSection { section_idx } => {
            let si = clamp_last(section_idx, f.sections@.len());
            "  "@ + num(si) + " dd-section ("@ + f.sections@[si as int].id@ + ")"@
        },
        TreeRowKind::HeaderColumn { section_idx, column_idx } | TreeRowKind::FooterColumn { section_idx, column_idx } => {
            let secs = region_secs(row is FooterColumn);
            let s = secs[clamp_last(section_idx, secs.len()) as int];
            let ci = clamp_last(column_idx, s.columns@.len());
            column_text("    "@, ci, s.columns@[ci as int])
        },
        TreeRowKind::HeaderComponent { section_idx, column_idx, component_idx }
        | TreeRowKind::FooterComponent { section_idx, column_idx, component_idx } => {
            let secs = region_secs(row is FooterComponent);
            let s = secs[clamp_last(section_idx, secs.len()) as int];
            let col = s.columns@[clamp_last(column_idx, s.columns@.len()) as int];
            let ki = clamp_last(component_idx, col.components@.len());
            "      - "@ + num(ki) + " "@ + kind_label(kind_of(col.components@[ki as int]))
        },
        _ => Seq::empty(),
    }
}

/// The label of a page row of page `page` (`p`, titled `title`).
pub open spec fn page_row_label(e: Expansion, page: usize, p: Page, title: Seq<char>, row: TreeRowKind) -> Seq<char> {
    match row {
        TreeRowKind::PageHead => "[HEAD] "@ + title,
        TreeRowKind::Hero { node_idx } => num(node_idx) + ". dd-hero"@,
        TreeRowKind::Section { node_idx } => match p.nodes@[node_idx as int] {
            PageNode::Section(s) => num(node_idx) + ". "@ + mark(section_open(e, page, node_idx)) + " dd-section ("@ + s.id@ + ")"@,
            PageNode::Hero(_) => num(node_idx) + ". dd-section"@,
        },
        TreeRowKind::Column { node_idx, column_idx } => match p.nodes@[node_idx as int] {
            PageNode::Section(s) => {
                let ci = clamp_last(column_idx, s.columns@.len());
                column_text("  "@, ci, s.columns@[ci as int])
            },
            PageNode::Hero(_) => "  |- column "@ + num(column_idx),
        },
        TreeRowKind::Component { node_idx, column_idx, component_idx } => match p.nodes@[node_idx as int] {
            PageNode::Section(s) => {
                let ci = clamp_last(column_idx, s.columns@.len());
                let comps = s.columns@[ci as int].components@;
                let ki = clamp_last(component_idx, comps.len());
                let c = comps[ki as int];
                match item_list(c) {
                    Some((kind, _)) => "    - "@ + num(ki) + " "@ + mark(items_open(e, kind, page, node_idx, ci, ki)) + " "@ + kind_label(kind_of(c)),
                    None => "    - "@ + num(ki) + " "@ + kind_label(kind_of(c)),
                }
            },
            PageNode::Hero(_) => "    - component "@ + num(component_idx),
        },
        _ => match item_row_parts(row) {
            Some((kind, node_idx, column_idx, component_idx, item_idx)) => match p.nodes@[node_idx as int] {
                PageNode::Section(s) => {
                    let ci = clamp_last(column_idx, s.columns@.len());
                    let comps = s.columns@[ci as int].components@;
                    let c = comps[clamp_last(component_idx, comps.len()) as int];
                    if list_len(c, kind) is Some {
                        let titles = item_titles(c, kind);
                        let ii = clamp_last(item_idx, titles.len());
                        "      - "@ + num(ii) + ": "@ + truncated(titles[ii as int], 40)
                    } else {
                        "      - item "@ + num(item_idx)
                    }
                },
                PageNode::Hero(_) => "      - item "@ + num(item_idx),
            },
            None => Seq::empty(),
        },
    }
}

/// The page rows a label can be given without an index out of range:
/// every element the row names (after clamping) exists, and numbers stay
/// below `usize::MAX`.
pub open spec fn page_label_safe(p: Page, row: TreeRowKind) -> bool {
    match row {
        TreeRowKind::PageHead => true,
        TreeRowKind::Hero { node_idx } => node_idx < usize::MAX,
        TreeRowKind::Section { node_idx } => node_idx < p.nodes@.len(),
        TreeRowKind::Column { node_idx, column_idx } => node_idx < p.nodes@.len() && column_idx < usize::MAX
            && (p.nodes@[node_idx as int] matches PageNode::Section(s) ==> s.columns@.len() > 0),
        TreeRowKind::Component { node_idx, column_idx, component_idx } => node_idx < p.nodes@.len()
            && component_idx < usize::MAX
            && (p.nodes@[node_idx as int] matches PageNode::Section(s) ==> s.columns@.len() > 0
                && s.columns@[clamp_last(column_idx, s.columns@.len()) as int].components@.len() > 0),
        _ => match item_row_parts(row) {
            Some((kind, node_idx, column_idx, component_idx, item_idx)) => node_idx < p.nodes@.len()
                && item_idx < usize::MAX
                && (p.nodes@[node_idx as int] matches PageNode::Section(s) ==> s.columns@.len() > 0
                    && s.columns@[clamp_last(column_idx, s.columns@.len()) as int].components@.len() > 0
                    && ({
                        let comps = s.columns@[clamp_last(column_idx, s.columns@.len()) as int].components@;
                        list_len(comps[clamp_last(component_idx, comps.len()) as int], kind) matches Some(n) ==> n > 0
                    })),
            None => true,
        },
    }
}

/// The sections of the header (`!footer`) or the footer.
pub open spec fn region_sections(h: DdHeader, f: DdFooter, footer: bool) -> Seq<DdSection> {
    if footer { f.sections@ } else { h.sections@ }
}

/// The header and footer rows a label can be given without an index out
/// of range: every element the row names (after clamping) exists.
pub open spec fn region_label_safe(h: DdHeader, f: DdFooter, row: TreeRowKind) -> bool {
    let (footer, s, c, k) = match row {
        TreeRowKind::HeaderSection { section_idx } => (false, Some(section_idx), None::<usize>, false),
        TreeRowKind::FooterSection { section_idx } => (true, Some(section_idx), None::<usize>, false),
        TreeRowKind::HeaderColumn { section_idx, column_idx } => (false, Some(section_idx), Some(column_idx), false),
        TreeRowKind::FooterColumn { section_idx, column_idx } => (true, Some(section_idx), Some(column_idx), false),
        TreeRowKind::HeaderComponent { section_idx, column_idx, .. } => (false, Some(section_idx), Some(column_idx), true),
        TreeRowKind::FooterComponent { section_idx, column_idx, .. } => (true, Some(section_idx), Some(column_idx), true),
        _ => (false, None::<usize>, None::<usize>, false),
    };
    let secs = region_sections(h, f, footer);
    &&& (s is Some ==> secs.len() > 0)
    &&& (s is Some && c is Some ==> secs[clamp_last(s->0, secs.len()) as int].columns@.len() > 0)
    &&& (s is Some && c is Some && k ==> {
        let sec = secs[clamp_last(s->0, secs.len()) as int];
        sec.columns@[clamp_last(c->0, sec.columns@.len()) as int].components@.len() > 0
    })
}

/// Whether a row belongs to the header or footer tree.
pub open spec fn is_region_row(row: TreeRowKind) -> bool {
    match row {
        TreeRowKind::HeaderRoot | TreeRowKind::HeaderSection { .. } | TreeRowKind::HeaderColumn { .. }
        | TreeRowKind::HeaderComponent { .. } | TreeRowKind::FooterRoot | TreeRowKind::FooterSection { .. }
        | TreeRowKind::FooterColumn { .. } | TreeRowKind::FooterComponent { .. } => true,
        _ => false,
    }
}

fn push_num(s: &mut String, i: usize)
    requires
        i < usize::MAX,
    ensures
        final(s)@ == old(s)@ + num(i),
{
    push_decimal(s, i + 1);
}

fn push_mark(s: &mut String, open: bool)
    ensures
        final(s)@ == old(s)@ + mark(open),
{
    push_str(s, if open { "[-]" } else { "[+]" });
}

fn clamp(i: usize, n: usize) -> (r: usize)
    ensures
        r == clamp_last(i, n as nat),
{
    if n == 0 { 0 } else if i < n { i } else { n - 1 }
}

fn column_line(indent: &str, ci: usize, col: &SectionColumn) -> (r: String)
    requires
        ci < usize::MAX,
    ensures
        r@ == column_text(indent@, ci, *col),
{
    let mut s = String::new();
    push_str(&mut s, indent);
    push_str(&mut s, "|- column ");
    push_num(&mut s, ci);
    push_str(&mut s, " (");
    push_str(&mut s, col.id.as_str());
    push_str(&mut s, ") [");
    push_str(&mut s, col.width_class.as_str());
    push_str(&mut s, "]");
    assert(s@ =~= column_text(indent@, ci, *col));
    s
}

fn region_section<'a>(h: &'a DdHeader, f: &'a DdFooter, footer: bool, si: usize) -> (r: &'a DdSection)
    requires
        si < (if footer { f.sections@.len() } else { h.sections@.len() }),
    ensures
        *r == (if footer { f.sections@[si as int] } else { h.sections@[si as int] }),
{
    if footer { &f.sections[si] } else { &h.sections[si] }
}

fn region_label(e: &Expansion, h: &DdHeader, f: &DdFooter, row: TreeRowKind) -> (r: String)
    requires
        is_region_row(row),
        region_label_safe(*h, *f, row),
    ensures
        r@ == region_row_label(*e, *h, *f, row),
{
    let mut s = String::new();
    match row {
        TreeRowKind::HeaderRoot => {
            push_str(&mut s, "1. ");
            push_mark(&mut s, e.header_column_expanded);
            push_str(&mut s, " dd-header (");
            push_str(&mut s, h.id.as_str());
            push_str(&mut s, ")");
        },
        TreeRowKind::FooterRoot => {
            push_str(&mut s, "1. [FOOTER] dd-footer (");
            push_str(&mut s, f.id.as_str());
            push_str(&mut s, ")");
        },
        TreeRowKind::HeaderSection { section_idx } => {
            let si = clamp(section_idx, h.sections.len());
            push_str(&mut s, "  ");
            push_num(&mut s, si);
            push_str(&mut s, " ");
            push_mark(&mut s, e.is_header_section_expanded(section_idx));
            push_str(&mut s, " dd-section (");
            push_str(&mut s, h.sections[si].id.as_str());
            push_str(&mut s, ")");
        },
        TreeRowKind::FooterSection { section_idx } => {
            let si = clamp(section_idx, f.sections.len());
            push_str(&mut s, "  ");
            push_num(&mut s, si);
            push_str(&mut s, " dd-section (");
            push_str(&mut s, f.sections[si].id.as_str());
            push_str(&mut s, ")");
        },
        TreeRowKind::HeaderColumn { section_idx, column_idx } | TreeRowKind::FooterColumn { section_idx, column_idx } => {
            let footer = match row { TreeRowKind::FooterColumn { .. } => true, _ => false };
            let n = if footer { f.sections.len() } else { h.sections.len() };
            let sec = region_section(h, f, footer, clamp(section_idx, n));
            let ci = clamp(column_idx, sec.columns.len());
            s = column_line("    ", ci, &sec.columns[ci]);
        },
        TreeRowKind::HeaderComponent { section_idx, column_idx, component_idx }
        | TreeRowKind::FooterComponent { section_idx, column_idx, component_idx } => {
            let footer = match row { TreeRowKind::FooterComponent { .. } => true, _ => false };
            let n = if footer { f.sections.len() } else { h.sections.len() };
            let sec = region_section(h, f, footer, clamp(section_idx, n));
            let col = &sec.columns[clamp(column_idx, sec.columns.len())];
            let ki = clamp(component_idx, col.components.len());
            push_str(&mut s, "      - ");
            push_num(&mut s, ki);
            push_str(&mut s, " ");
            push_str(&mut s, component_label(&col.components[ki]));
        },
        _ => {},
    }
    assert(s@ =~= region_row_label(*e, *h, *f, row));
    s
}

fn item_count(c: &SectionComponent, kind: ItemsKind) -> (r: Option<usize>)
    ensures
        match list_len(*c, kind) {
            Some(n) => r is Some && r->0 as nat == n && n == item_titles(*c, kind).len(),
            None => r is None,
        },
{
    match (c, kind) {
        (SectionComponent::Accordion(a), ItemsKind::Accordion) => Some(a.items.len()),
        (SectionComponent::Alternating(a), ItemsKind::Alternating) => Some(a.items.len()),
        (SectionComponent::Card(a), ItemsKind::Card) => Some(a.items.len()),
        (SectionComponent::Filmstrip(a), ItemsKind::Filmstrip) => Some(a.items.len()),
        (SectionComponent::Milestones(a), ItemsKind::Milestones) => Some(a.items.len()),
        (SectionComponent::Slider(a), ItemsKind::Slider) => Some(a.items.len()),
        _ => None,
    }
}

fn item_title(c: &SectionComponent, kind: ItemsKind, i: usize) -> (r: &str)
    requires
        list_len(*c, kind) is Some,
        i < item_titles(*c, kind).len(),
    ensures
        r@ == item_titles(*c, kind)[i as int],
{
    match (c, kind) {
        (SectionComponent::Accordion(a), ItemsKind::Accordion) => a.items[i].child_title.as_str(),
        (SectionComponent::Alternating(a), ItemsKind::Alternating) => a.items[i].child_title.as_str(),
        (SectionComponent::Card(a), ItemsKind::Card) => a.items[i].child_title.as_str(),
        (SectionComponent::Filmstrip(a), ItemsKind::Filmstrip) => a.items[i].child_title.as_str(),
        (SectionComponent::Milestones(a), ItemsKind::Milestones) => a.items[i].child_title.as_str(),
        (SectionComponent::Slider(a), ItemsKind::Slider) => a.items[i].child_title.as_str(),
        _ => "",
    }
}

fn item_row_parts_of(row: TreeRowKind) -> (r: Option<(ItemsKind, usize, usize, usize, usize)>)
    ensures
        r == item_row_parts(row),
{
    match row {
        TreeRowKind::AccordionItem { node_idx, column_idx, component_idx, item_idx } => Some((ItemsKind::Accordion, node_idx, column_idx, component_idx, item_idx)),
        TreeRowKind::AlternatingItem { node_idx, column_idx, component_idx, item_idx } => Some((ItemsKind::Alternating, node_idx, column_idx, component_idx, item_idx)),
        TreeRowKind::CardItem { node_idx, column_idx, component_idx, item_idx } => Some((ItemsKind::Card, node_idx, column_idx, component_idx, item_idx)),
        TreeRowKind::FilmstripItem { node_idx, column_idx, component_idx, item_idx } => Some((ItemsKind::Filmstrip, node_idx, column_idx, component_idx, item_idx)),
        TreeRowKind::MilestonesItem { node_idx, column_idx, component_idx, item_idx } => Some((ItemsKind::Milestones, node_idx, column_idx, component_idx, item_idx)),
        TreeRowKind::SliderItem { node_idx, column_idx, component_idx, item_idx } => Some((ItemsKind::Slider, node_idx, column_idx, component_idx, item_idx)),
        _ => None,
    }
}

fn list_kind_of(c: &SectionComponent) -> (r: Option<ItemsKind>)
    ensures
        match item_list(*c) {
            Some((k, _)) => r == Some(k),
            None => r is None,
        },
{
    match c {
        SectionComponent::Accordion(_) => Some(ItemsKind::Accordion),
        SectionComponent::Alternating(_) => Some(ItemsKind::Alternating),
        SectionComponent::Card(_) => Some(ItemsKind::Card),
        SectionComponent::Filmstrip(_) => Some(ItemsKind::Filmstrip),
        SectionComponent::Milestones(_) => Some(ItemsKind::Milestones),
        SectionComponent::Slider(_) => Some(ItemsKind::Slider),
        _ => None,
    }
}

fn page_label(e: &Expansion, page: usize, p: &Page, title: &str, row: TreeRowKind) -> (r: String)
    requires
        !is_region_row(row),
        page_label_safe(*p, row),
    ensures
        r@ == page_row_label(*e, page, *p, title@, row),
{
    let n_nodes = p.nodes.len();
    assert(n_nodes == p.nodes@.len());
    let mut s = String::new();
    match row {
        TreeRowKind::PageHead => {
            push_str(&mut s, "[HEAD] ");
            push_str(&mut s, title);
        },
        TreeRowKind::Hero { node_idx } => {
            push_num(&mut s, node_idx);
            push_str(&mut s, ". dd-hero");
        },
        TreeRowKind::Section { node_idx } => {
            match &p.nodes[node_idx] {
                PageNode::Section(sec) => {
                    push_num(&mut s, node_idx);
                    push_str(&mut s, ". ");
                    push_mark(&mut s, e.is_section_expanded(page, node_idx));
                    push_str(&mut s, " dd-section (");
                    push_str(&mut s, sec.id.as_str());
                    push_str(&mut s, ")");
                },
                PageNode::Hero(_) => {
                    push_num(&mut s, node_idx);
                    push_str(&mut s, ". dd-section");
                },
            }
        },
        TreeRowKind::Column { node_idx, column_idx } => {
            match &p.nodes[node_idx] {
                PageNode::Section(sec) => {
                    let ci = clamp(column_idx, sec.columns.len());
                    s = column_line("  ", ci, &sec.columns[ci]);
                },
                PageNode::Hero(_) => {
                    push_str(&mut s, "  |- column ");
                    push_num(&mut s, column_idx);
                },
            }
        },
        TreeRowKind::Component { node_idx, column_idx, component_idx } => {
            match &p.nodes[node_idx] {
                PageNode::Section(sec) => {
                    let ci = clamp(column_idx, sec.columns.len());
                    let comps = &sec.columns[ci].components;
                    let ki = clamp(component_idx, comps.len());
                    let c = &comps[ki];
                    push_str(&mut s, "    - ");
                    push_num(&mut s, ki);
                    push_str(&mut s, " ");
                    match list_kind_of(c) {
                        Some(kind) => {
                            push_mark(&mut s, e.is_items_expanded(kind, page, node_idx, ci, ki));
                            push_str(&mut s, " ");
                        },
                        None => {},
                    }
                    push_str(&mut s, component_label(c));
                },
                PageNode::Hero(_) => {
                    push_str(&mut s, "    - component ");
                    push_num(&mut s, component_idx);
                },
            }
        },
        _ => {
            match item_row_parts_of(row) {
                Some((kind, node_idx, column_idx, component_idx, item_idx)) => {
                    match &p.nodes[node_idx] {
                        PageNode::Section(sec) => {
                            let ci = clamp(column_idx, sec.columns.len());
                            let comps = &sec.columns[ci].components;
                            let c = &comps[clamp(component_idx, comps.len())];
                            match item_count(c, kind) {
                                Some(n) => {
                                    let ii = clamp(item_idx, n);
                                    push_str(&mut s, "      - ");
                                    push_num(&mut s, ii);
                                    push_str(&mut s, ": ");
                                    push_str(&mut s, truncate_ascii(item_title(c, kind, ii), 40).as_str());
                                },
                                None => {
                                    push_str(&mut s, "      - item ");
                                    push_num(&mut s, item_idx);
                                },
                            }
                        },
                        PageNode::Hero(_) => {
                            push_str(&mut s, "      - item ");
                            push_num(&mut s, item_idx);
                        },
                    }
                },
                None => {},
            }
        },
    }
    assert(s@ =~= page_row_label(*e, page, *p, title@, row));
    s
}

/// The label of a tree row (see `region_row_label` and `page_row_label`);
/// page rows are read from page `selected_page` of `pages`, titled
/// `page_title`.
pub fn tree_row_label(
    e: &Expansion,
    header: &DdHeader,
    footer: &DdFooter,
    pages: &Vec<Page>,
    selected_page: usize,
    page_title: &str,
    row: TreeRowKind,
) -> (r: String)
    requires
        is_region_row(row) ==> region_label_safe(*header, *footer, row),
        !is_region_row(row) ==> selected_page < pages@.len() && page_label_safe(pages@[selected_page as int], row),
    ensures
        r@ == if is_region_row(row) {
            region_row_label(*e, *header, *footer, row)
        } else {
            page_row_label(*e, selected_page, pages@[selected_page as int], page_title@, row)
        },
{
    let region = match row {
        TreeRowKind::HeaderRoot | TreeRowKind::HeaderSection { .. } | TreeRowKind::HeaderColumn { .. }
        | TreeRowKind::HeaderComponent { .. } | TreeRowKind::FooterRoot | TreeRowKind::FooterSection { .. }
        | TreeRowKind::FooterColumn { .. } | TreeRowKind::FooterComponent { .. } => true,
        _ => false,
    };
    if region {
        region_label(e, header, footer, row)
    } else {
        page_label(e, selected_page, &pages[selected_page], page_title, row)
    }
}

} // verus!
