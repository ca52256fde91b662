//! The details panel text of a page: a blueprint with the map of each node
//! and, line by line, the click areas of the components.
use vstd::prelude::*;
use crate::ascii_map::{
    framed, hero_ascii_map, hero_lines, inner_width, section_ascii_map, section_hits, section_inner_lines,
    valid_item_width, Hit,
};
use crate::navigation::SelectedRegion;
use crate::panel::{footer_details, footer_details_text, header_details, header_details_text, selection_summary, selection_summary_text};
use crate::site::{DdFooter, DdHeader, DdSection, Page, PageNode};
use crate::tree::Selection;
use crate::text::{decimal, join_lines, join_newlines, push_decimal, push_str, text_lines, text_lines_of, views};

verus! {

broadcast use vstd::string::group_string_axioms;

/// The layout of a section's map: the inner width of each column's box and,
/// per column, the inner width of each card component's items.
pub type SectionLayout = (Vec<usize>, Vec<Vec<usize>>);

/// `lay` fits section `s` drawn in a panel `width` wide.
pub open spec fn layout_fits(s: DdSection, width: usize, lay: SectionLayout) -> bool {
    let iw = lay.0@;
    let cr = lay.1@;
    &&& iw.len() == s.columns@.len()
    &&& cr.len() == s.columns@.len()
    &&& forall|c: int| 0 <= c < iw.len() ==> valid_item_width(#[trigger] iw[c] as nat, inner_width(width as nat, 12))
    &&& forall|c: int| 0 <= c < cr.len() ==> (#[trigger] cr[c])@.len() == s.columns@[c].components@.len()
    &&& forall|c: int, k: int| 0 <= c < cr.len() && 0 <= k < cr[c]@.len() ==> #[trigger] cr[c]@[k] <= usize::MAX / 8
}

/// Every section node has a fitting layout at its index.
pub open spec fn layouts_fit(nodes: Seq<PageNode>, width: usize, lays: Seq<SectionLayout>) -> bool {
    &&& lays.len() == nodes.len()
    &&& forall|i: int| 0 <= i < nodes.len() ==> (#[trigger] nodes[i] matches PageNode::Section(s) ==> layout_fits(s, width, lays[i]))
}

/// The map of a node; the selected column is highlighted in a section.
pub open spec fn node_map(n: PageNode, col: usize, width: usize, lay: SectionLayout) -> Seq<char> {
    match n {
        PageNode::Hero(h) => {
            let w = inner_width(width as nat, 8);
            join_lines(framed(hero_lines(h, w), w))
        },
        PageNode::Section(s) => if s.columns@.len() == 0 {
            "(no columns)"@
        } else {
            let w = inner_width(width as nat, 12);
            join_lines(framed(section_inner_lines(s, col as nat, w, lay.0@, lay.1@.map_values(|v: Vec<usize>| v@)), w))
        },
    }
}

/// The click areas of each line of a node's map (none for a hero).
pub open spec fn node_hits(n: PageNode, col: usize, width: usize, lay: SectionLayout) -> Seq<Seq<Hit>> {
    match n {
        PageNode::Hero(_) => Seq::empty(),
        PageNode::Section(s) => if s.columns@.len() == 0 {
            Seq::empty()
        } else {
            section_hits(s, col as nat, inner_width(width as nat, 12), lay.0@, lay.1@.map_values(|v: Vec<usize>| v@))
        },
    }
}

/// `n` written with at least two digits.
pub open spec fn two_digits(n: nat) -> Seq<char> {
    if n < 10 { "0"@ + decimal(n) } else { decimal(n) }
}

/// The declaration line of node `i`: marked `*` when selected, numbered
/// from 1 in brackets, with the section's id.
pub open spec fn node_head(i: int, selected: usize, n: PageNode) -> Seq<char> {
    let mark = if i == selected { "*"@ } else { " "@ };
    match n {
        PageNode::Hero(_) => mark + "["@ + two_digits((i + 1) as nat) + "] dd-hero"@,
        PageNode::Section(s) => mark + "["@ + two_digits((i + 1) as nat) + "] dd-section "@ + s.id@,
    }
}

/// The column highlighted in node `i`: the selected one in the selected
/// node, else the first.
pub open spec fn node_column(i: int, selected: usize, col: usize) -> usize {
    if i == selected { col } else { 0 }
}

/// The lines of node `i`: its declaration, the lines of its map, a blank.
pub open spec fn node_block(nodes: Seq<PageNode>, i: int, selected: usize, col: usize, width: usize, lays: Seq<SectionLayout>) -> Seq<Seq<char>> {
    seq![node_head(i, selected, nodes[i])] + text_lines(node_map(nodes[i], node_column(i, selected, col), width, lays[i]))
        + seq![Seq::<char>::empty()]
}

/// The click areas of the lines of `node_block`: those of the map's lines,
/// none elsewhere.
pub open spec fn node_block_hits(nodes: Seq<PageNode>, i: int, selected: usize, col: usize, width: usize, lays: Seq<SectionLayout>) -> Seq<Seq<Hit>> {
    let c = node_column(i, selected, col);
    let ml = text_lines(node_map(nodes[i], c, width, lays[i]));
    let mh = node_hits(nodes[i], c, width, lays[i]);
    seq![Seq::<Hit>::empty()] + Seq::new(ml.len(), |k: int| if k < mh.len() { mh[k] } else { Seq::<Hit>::empty() })
        + seq![Seq::<Hit>::empty()]
}

/// The blocks of the first `k` nodes.
pub open spec fn blocks(nodes: Seq<PageNode>, k: int, selected: usize, col: usize, width: usize, lays: Seq<SectionLayout>) -> Seq<Seq<char>>
    decreases k,
{
    if k <= 0 { Seq::empty() } else { blocks(nodes, k - 1, selected, col, width, lays) + node_block(nodes, k - 1, selected, col, width, lays) }
}

/// The click areas of the blocks of the first `k` nodes.
pub open spec fn blocks_hits(nodes: Seq<PageNode>, k: int, selected: usize, col: usize, width: usize, lays: Seq<SectionLayout>) -> Seq<Seq<Hit>>
    decreases k,
{
    if k <= 0 { Seq::empty() } else { blocks_hits(nodes, k - 1, selected, col, width, lays) + node_block_hits(nodes, k - 1, selected, col, width, lays) }
}

/// The page's blueprint lines: a title line, a blank, the node blocks, and
/// the selection summary with the insert mode.
pub open spec fn page_lines(p: Page, title: Seq<char>, node: usize, col: usize, comp: usize, label: Seq<char>,
    width: usize, lays: Seq<SectionLayout>) -> Seq<Seq<char>> {
    seq!["Page blueprint: "@ + title, Seq::<char>::empty()] + blocks(p.nodes@, p.nodes@.len() as int, node, col, width, lays)
        + seq!["Selected: "@ + selection_summary_text(p, node, col, comp) + " | Insert mode: "@ + label]
}

/// The click areas of `page_lines`, line by line.
pub open spec fn page_hits(p: Page, node: usize, col: usize, width: usize, lays: Seq<SectionLayout>) -> Seq<Seq<Hit>> {
    seq![Seq::<Hit>::empty(), Seq::<Hit>::empty()] + blocks_hits(p.nodes@, p.nodes@.len() as int, node, col, width, lays)
        + seq![Seq::<Hit>::empty()]
}

fn push_two_digits(s: &mut String, n: usize)
    ensures
        final(s)@ == old(s)@ + two_digits(n as nat),
{
    if n < 10 {
        push_str(s, "0");
    }
    push_decimal(s, n);
}

fn copy_hits(v: &Vec<Hit>) -> (r: Vec<Hit>)
    ensures
        r@ == v@,
{
    let mut r: Vec<Hit> = Vec::new();
    let mut i: usize = 0;
    while i < v.len()
        invariant
            i <= v@.len(),
            r@ == v@.take(i as int),
        decreases v@.len() - i,
    {
        r.push(v[i]);
        assert(v@.take(i + 1) =~= v@.take(i as int).push(v@[i as int]));
        i += 1;
    }
    assert(v@.take(v@.len() as int) =~= v@);
    r
}

fn node_head_text(i: usize, selected: usize, n: &PageNode) -> (r: String)
    requires
        i < usize::MAX,
    ensures
        r@ == node_head(i as int, selected, *n),
{
    let mut s = String::new();
    push_str(&mut s, if i == selected { "*" } else { " " });
    push_str(&mut s, "[");
    push_two_digits(&mut s, i + 1);
    match n {
        PageNode::Hero(_) => push_str(&mut s, "] dd-hero"),
        PageNode::Section(sec) => {
            push_str(&mut s, "] dd-section ");
            push_str(&mut s, sec.id.as_str());
        },
    }
    s
}

fn node_map_of(n: &PageNode, col: usize, width: usize, lay: &SectionLayout) -> (r: (String, Vec<Vec<Hit>>))
    requires
        width <= usize::MAX / 8,
        *n matches PageNode::Section(s) ==> layout_fits(s, width, *lay),
    ensures
        r.0@ == node_map(*n, col, width, *lay),
        r.1@.map_values(|v: Vec<Hit>| v@) == node_hits(*n, col, width, *lay),
{
    match n {
        PageNode::Hero(h) => {
            let m = hero_ascii_map(h, width);
            let hits: Vec<Vec<Hit>> = Vec::new();
            assert(hits@.map_values(|v: Vec<Hit>| v@) =~= Seq::<Seq<Hit>>::empty());
            (m, hits)
        },
        PageNode::Section(s) => {
            let (m, hits) = section_ascii_map(s, col, width, &lay.0, &lay.1);
            proof {
                if s.columns@.len() == 0 {
                    assert(hits@.map_values(|v: Vec<Hit>| v@) =~= Seq::<Seq<Hit>>::empty());
                }
            }
            (m, hits)
        },
    }
}

/// The details panel text of a page and the click areas of each of its
/// lines; `No nodes on this page.` (with no click areas) for an empty
/// page. `lays` gives each section node's layout.
pub fn page_details_text(page: &Page, title: &str, node: usize, col: usize, comp: usize, label: &str, width: usize,
    lays: &Vec<SectionLayout>) -> (r: (String, Vec<Vec<Hit>>))
    requires
        width <= usize::MAX / 8,
        layouts_fit(page.nodes@, width, lays@),
        page.nodes@.len() < usize::MAX,
        col < usize::MAX,
        comp < usize::MAX,
    ensures
        page.nodes@.len() == 0 ==> r.0@ == "No nodes on this page."@ && r.1@.len() == 0,
        page.nodes@.len() > 0 ==> {
            &&& r.0@ == join_lines(page_lines(*page, title@, node, col, comp, label@, width, lays@))
            &&& r.1@.map_values(|v: Vec<Hit>| v@) == page_hits(*page, node, col, width, lays@)
        },
{
    let n = page.nodes.len();
    if n == 0 {
        return ("No nodes on this page.".to_string(), Vec::new());
    }
    let ghost nodes = page.nodes@;
    let mut out: Vec<String> = Vec::new();
    let mut hits: Vec<Vec<Hit>> = Vec::new();
    let mut first = String::new();
    push_str(&mut first, "Page blueprint: ");
    push_str(&mut first, title);
    out.push(first);
    hits.push(Vec::new());
    out.push(String::new());
    hits.push(Vec::new());
    let ghost head_lines = seq!["Page blueprint: "@ + title@, Seq::<char>::empty()];
    let ghost head_hits = seq![Seq::<Hit>::empty(), Seq::<Hit>::empty()];
    assert(views(out@) =~= head_lines + blocks(nodes, 0, node, col, width, lays@));
    assert(hits@.map_values(|v: Vec<Hit>| v@) =~= head_hits + blocks_hits(nodes, 0, node, col, width, lays@));
    let mut i: usize = 0;
    while i < n
        invariant
            n == nodes.len(),
            nodes == page.nodes@,
            n < usize::MAX,
            i <= n,
            width <= usize::MAX / 8,
            layouts_fit(nodes, width, lays@),
            views(out@) == head_lines + blocks(nodes, i as int, node, col, width, lays@),
            hits@.map_values(|v: Vec<Hit>| v@) == head_hits + blocks_hits(nodes, i as int, node, col, width, lays@),
        decreases n - i,
    {
        let c = if i == node { col } else { 0 };
        let ghost before_lines = views(out@);
        let ghost before_hits = hits@.map_values(|v: Vec<Hit>| v@);
        proof {
            let _ = nodes[i as int];
        }
        let (map, map_hits) = node_map_of(&page.nodes[i], c, width, &lays[i]);
        let ghost mh = map_hits@.map_values(|v: Vec<Hit>| v@);
        let ml = text_lines_of(map.as_str());
        let ghost mlv = views(ml@);
        out.push(node_head_text(i, node, &page.nodes[i]));
        hits.push(Vec::new());
        let mut k: usize = 0;
        while k < ml.len()
            invariant
                i < n,
                n == nodes.len(),
                lays@.len() == n,
                k <= ml@.len(),
                mlv == views(ml@),
                c == node_column(i as int, node, col),
                mlv == text_lines(node_map(nodes[i as int], c, width, lays@[i as int])),
                mh == node_hits(nodes[i as int], c, width, lays@[i as int]),
                before_lines == head_lines + blocks(nodes, i as int, node, col, width, lays@),
                before_hits == head_hits + blocks_hits(nodes, i as int, node, col, width, lays@),
                views(out@) == before_lines + seq![node_head(i as int, node, nodes[i as int])] + mlv.take(k as int),
                hits@.map_values(|v: Vec<Hit>| v@) == before_hits + seq![Seq::<Hit>::empty()]
                    + Seq::new(k as nat, |j: int| if j < mh.len() { mh[j] } else { Seq::<Hit>::empty() }),
                mh == map_hits@.map_values(|v: Vec<Hit>| v@),
            decreases ml@.len() - k,
        {
            let ghost ol = views(out@);
            let ghost oh = hits@.map_values(|v: Vec<Hit>| v@);
            out.push(ml[k].clone());
            let h: Vec<Hit> = if k < map_hits.len() { copy_hits(&map_hits[k]) } else { Vec::new() };
            hits.push(h);
            proof {
                assert(views(out@) =~= ol.push(mlv[k as int]));
                assert(mlv.take(k + 1) =~= mlv.take(k as int).push(mlv[k as int]));
                if k < map_hits@.len() {
                    assert(mh[k as int] == map_hits@[k as int]@);
                }
                assert(hits@.map_values(|v: Vec<Hit>| v@) =~= oh.push(if k < mh.len() { mh[k as int] } else { Seq::<Hit>::empty() }));
                assert(Seq::new((k + 1) as nat, |j: int| if j < mh.len() { mh[j] } else { Seq::<Hit>::empty() })
                    =~= Seq::new(k as nat, |j: int| if j < mh.len() { mh[j] } else { Seq::<Hit>::empty() })
                        .push(if k < mh.len() { mh[k as int] } else { Seq::<Hit>::empty() }));
            }
            k += 1;
        }
        out.push(String::new());
        hits.push(Vec::new());
        proof {
            assert(mlv.take(mlv.len() as int) =~= mlv);
            assert(node_block(nodes, i as int, node, col, width, lays@)
                == seq![node_head(i as int, node, nodes[i as int])] + mlv + seq![Seq::<char>::empty()]);
            assert(blocks(nodes, i + 1, node, col, width, lays@)
                == blocks(nodes, i as int, node, col, width, lays@) + node_block(nodes, i as int, node, col, width, lays@));
            assert(views(out@) =~= before_lines + seq![node_head(i as int, node, nodes[i as int])] + mlv + seq![Seq::<char>::empty()]);
            assert(views(out@) =~= head_lines + blocks(nodes, i + 1, node, col, width, lays@));
            let newh = Seq::new(mlv.len(), |j: int| if j < mh.len() { mh[j] } else { Seq::<Hit>::empty() });
            assert(node_block_hits(nodes, i as int, node, col, width, lays@)
                == seq![Seq::<Hit>::empty()] + newh + seq![Seq::<Hit>::empty()]);
            assert(blocks_hits(nodes, i + 1, node, col, width, lays@)
                == blocks_hits(nodes, i as int, node, col, width, lays@) + node_block_hits(nodes, i as int, node, col, width, lays@));
            assert(hits@.map_values(|v: Vec<Hit>| v@) =~= before_hits + seq![Seq::<Hit>::empty()] + newh + seq![Seq::<Hit>::empty()]);
            assert(hits@.map_values(|v: Vec<Hit>| v@) =~= head_hits + blocks_hits(nodes, i + 1, node, col, width, lays@));
        }
        i += 1;
    }
    let mut last = String::new();
    push_str(&mut last, "Selected: ");
    let summary = selection_summary(page, node, col, comp);
    push_str(&mut last, summary.as_str());
    push_str(&mut last, " | Insert mode: ");
    push_str(&mut last, label);
    out.push(last);
    hits.push(Vec::new());
    assert(views(out@) =~= page_lines(*page, title@, node, col, comp, label@, width, lays@));
    assert(hits@.map_values(|v: Vec<Hit>| v@) =~= page_hits(*page, node, col, width, lays@));
    (join_newlines(&out), hits)
}

/// How far the details panel scrolls: the lines of its text (at least
/// one) past the `visible` rows; 0 when no row is visible.
pub open spec fn max_scroll(text: Seq<char>, visible: usize) -> nat {
    let total = if text_lines(text).len() == 0 { 1 } else { text_lines(text).len() };
    if visible == 0 || total <= visible { 0 } else { (total - visible) as nat }
}

/// The largest scroll offset of the details panel showing `text` in
/// `visible` rows.
pub fn details_max_scroll(text: &str, visible: usize) -> (r: usize)
    ensures
        r as nat == max_scroll(text@, visible),
{
    if visible == 0 {
        return 0;
    }
    let lines = text_lines_of(text);
    assert(views(lines@).len() == lines@.len());
    let total = if lines.len() == 0 { 1 } else { lines.len() };
    if total <= visible { 0 } else { total - visible }
}

/// The details scroll offset after scrolling by `delta` rows, kept within
/// `0..=max`.
pub fn scroll_details_by(current: usize, delta: isize, max: usize) -> (r: usize)
    ensures
        r as int == if current + delta < 0 { 0 } else if current + delta > max { max as int } else { current + delta },
{
    let next: i128 = current as i128 + delta as i128;
    if next < 0 {
        0
    } else if next > max as i128 {
        max
    } else {
        next as usize
    }
}

/// The details panel text of the selected region with the click areas of
/// its lines (the header and footer texts have none).
pub fn details_text(region: SelectedRegion, header: &DdHeader, footer: &DdFooter, page: &Page, title: &str,
    sel: &Selection, insert_label: &str, width: usize, lays: &Vec<SectionLayout>) -> (r: (String, Vec<Vec<Hit>>))
    requires
        width <= usize::MAX / 8,
        sel.selected_column < usize::MAX,
        sel.selected_component < usize::MAX,
        sel.selected_header_column < usize::MAX,
        sel.selected_header_component < usize::MAX,
        region == SelectedRegion::Page ==> layouts_fit(page.nodes@, width, lays@) && page.nodes@.len() < usize::MAX,
    ensures
        region == SelectedRegion::Header ==> r.1@.len() == 0 && r.0@ == header_details(*header, true,
            sel.selected_header_section, sel.selected_header_column, sel.selected_header_component, insert_label@, width),
        region == SelectedRegion::Footer ==> r.1@.len() == 0
            && r.0@ == footer_details(*footer, true, sel.selected_header_section, sel.selected_header_column, width),
        region == SelectedRegion::Page && page.nodes@.len() == 0 ==> r.0@ == "No nodes on this page."@ && r.1@.len() == 0,
        region == SelectedRegion::Page && page.nodes@.len() > 0 ==> {
            &&& r.0@ == join_lines(page_lines(*page, title@, sel.selected_node, sel.selected_column,
                sel.selected_component, insert_label@, width, lays@))
            &&& r.1@.map_values(|v: Vec<Hit>| v@) == page_hits(*page, sel.selected_node, sel.selected_column, width, lays@)
        },
{
    match region {
        SelectedRegion::Header => (header_details_text(header, true, sel.selected_header_section, sel.selected_header_column,
            sel.selected_header_component, insert_label, width), Vec::new()),
        SelectedRegion::Footer => (footer_details_text(footer, true, sel.selected_header_section, sel.selected_header_column,
            width), Vec::new()),
        SelectedRegion::Page => page_details_text(page, title, sel.selected_node, sel.selected_column, sel.selected_component,
            insert_label, width, lays),
    }
}

} // verus!
