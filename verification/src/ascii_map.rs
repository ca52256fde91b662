//! The ASCII blueprints drawn in the details panel: boxes of fixed-width
//! lines for a hero, the header, the footer and a section with its columns.
use vstd::prelude::*;
use crate::components::{blueprint_label, component_blueprint_label, component_label, kind_label, kind_of};
use crate::labels::{
    aos_name, hero_image_class_name, hero_image_class_to_str, parent_data_aos_to_str,
    section_class_name, section_class_to_str,
};
use crate::site::{
    DdCard, DdFooter, DdHeader, DdHero, DdSection, HeroAos, HeroImageClass, SectionClass, SectionColumn,
    SectionComponent,
};
use crate::text::{
    decimal, fit_ascii_cell, fitted, join_lines, join_newlines, push_decimal, push_repeat, push_str, repeat,
    views,
};

verus! {

broadcast use vstd::string::group_string_axioms;

/// The top and bottom edge of a box whose lines hold `inner` characters:
/// `+`, `inner + 2` dashes, `+`.
pub open spec fn border(inner: nat) -> Seq<char> {
    seq!['+'] + repeat('-', inner + 2) + seq!['+']
}

/// A line inside a box: `| `, the line, ` |`.
pub open spec fn boxed_line(l: Seq<char>) -> Seq<char> {
    "| "@ + l + " |"@
}

/// `lines` drawn in a box: a border, each line boxed, a border.
pub open spec fn framed(lines: Seq<Seq<char>>, inner: nat) -> Seq<Seq<char>> {
    seq![border(inner)] + lines.map_values(|l: Seq<char>| boxed_line(l)) + seq![border(inner)]
}

/// The text of an optional field, `(none)` when it is unset.
pub open spec fn opt_text(o: Option<String>) -> Seq<char> {
    match o {
        Some(s) => s@,
        None => "(none)"@,
    }
}

/// Width of the lines inside the outer box of a panel `panel_width` wide:
/// four less than the panel, at least `min`.
pub open spec fn inner_width(panel_width: nat, min: nat) -> nat {
    if panel_width >= min + 4 { (panel_width - 4) as nat } else { min }
}

pub fn border_string(inner: usize) -> (r: String)
    requires
        inner + 2 <= usize::MAX,
    ensures
        r@ == border(inner as nat),
{
    let mut s = String::new();
    push_str(&mut s, "+");
    push_repeat(&mut s, '-', inner + 2);
    push_str(&mut s, "+");
    proof {
        reveal_strlit("+");
        assert(s@ =~= border(inner as nat));
    }
    s
}

pub fn boxed_string(l: &str) -> (r: String)
    ensures
        r@ == boxed_line(l@),
{
    let mut s = String::new();
    push_str(&mut s, "| ");
    push_str(&mut s, l);
    push_str(&mut s, " |");
    assert(s@ =~= boxed_line(l@));
    s
}

/// The lines of `lines` drawn in a box.
pub fn frame_lines(lines: &Vec<String>, inner: usize) -> (r: Vec<String>)
    requires
        inner + 2 <= usize::MAX,
    ensures
        views(r@) == framed(views(lines@), inner as nat),
{
    let edge = border_string(inner);
    let mut out: Vec<String> = Vec::new();
    out.push(border_string(inner));
    let mut i: usize = 0;
    while i < lines.len()
        invariant
            i <= lines@.len(),
            edge@ == border(inner as nat),
            views(out@) == seq![border(inner as nat)] + views(lines@).take(i as int).map_values(
                |l: Seq<char>| boxed_line(l),
            ),
        decreases lines@.len() - i,
    {
        let b = boxed_string(lines[i].as_str());
        let ghost before = views(out@);
        assert(b@ == boxed_line(views(lines@)[i as int]));
        out.push(b);
        proof {
            assert(views(out@) =~= before.push(boxed_line(views(lines@)[i as int])));
            assert(views(out@) =~= seq![border(inner as nat)] + views(lines@).take(i + 1).map_values(
                |l: Seq<char>| boxed_line(l),
            ));
        }
        i += 1;
    }
    out.push(edge);
    proof {
        assert(views(lines@).take(lines@.len() as int) =~= views(lines@));
        assert(views(out@) =~= framed(views(lines@), inner as nat));
    }
    out
}

/// The text of an optional field, `(none)` when it is unset.
pub fn opt_str(o: &Option<String>) -> (r: &str)
    ensures
        r@ == opt_text(*o),
{
    match o {
        Some(s) => s.as_str(),
        None => "(none)",
    }
}

/// `label` followed by `value`.
pub fn labeled(label: &str, value: &str) -> (r: String)
    ensures
        r@ == label@ + value@,
{
    let mut s = String::new();
    push_str(&mut s, label);
    push_str(&mut s, value);
    assert(s@ =~= label@ + value@);
    s
}

/// The lines of the hero blueprint, each fitted to `w` characters.
pub open spec fn hero_lines(hero: DdHero, w: nat) -> Seq<Seq<char>> {
    let class = match hero.parent_class { Some(c) => c, None => HeroImageClass::FullFull };
    let aos = match hero.parent_data_aos { Some(a) => a, None => HeroAos::FadeIn };
    seq![
        fitted("HERO"@, w),
        fitted("class: "@ + hero_image_class_name(class), w),
        fitted("aos: "@ + aos_name(aos), w),
        fitted("custom_css: "@ + opt_text(hero.parent_custom_css), w),
        fitted("title: "@ + hero.parent_title@, w),
        fitted("subtitle: "@ + hero.parent_subtitle@, w),
        fitted("cta: "@ + opt_text(hero.link_1_label) + " -> "@ + opt_text(hero.link_1_url), w),
        fitted("cta_2: "@ + opt_text(hero.link_2_label) + " -> "@ + opt_text(hero.link_2_url), w),
        fitted("image: "@ + hero.parent_image_url@, w),
    ]
}

/// The hero blueprint: its class, animation, custom CSS, texts, links and
/// image, one per line, in a box as wide as the panel (lines of at least
/// eight characters).
pub fn hero_ascii_map(hero: &DdHero, panel_width: usize) -> (r: String)
    requires
        panel_width <= usize::MAX - 8,
    ensures
        r@ == join_lines(framed(hero_lines(*hero, inner_width(panel_width as nat, 8)), inner_width(panel_width as nat, 8))),
{
    let w: usize = if panel_width >= 12 { panel_width - 4 } else { 8 };
    let class = match hero.parent_class { Some(c) => c, None => HeroImageClass::FullFull };
    let aos = match hero.parent_data_aos { Some(a) => a, None => HeroAos::FadeIn };
    let mut lines: Vec<String> = Vec::new();
    lines.push(fit_ascii_cell("HERO", w));
    lines.push(fit_ascii_cell(labeled("class: ", hero_image_class_to_str(class)).as_str(), w));
    lines.push(fit_ascii_cell(labeled("aos: ", parent_data_aos_to_str(aos)).as_str(), w));
    lines.push(fit_ascii_cell(labeled("custom_css: ", opt_str(&hero.parent_custom_css)).as_str(), w));
    lines.push(fit_ascii_cell(labeled("title: ", hero.parent_title.as_str()).as_str(), w));
    lines.push(fit_ascii_cell(labeled("subtitle: ", hero.parent_subtitle.as_str()).as_str(), w));
    let mut cta = labeled("cta: ", opt_str(&hero.link_1_label));
    push_str(&mut cta, " -> ");
    push_str(&mut cta, opt_str(&hero.link_1_url));
    lines.push(fit_ascii_cell(cta.as_str(), w));
    let mut cta2 = labeled("cta_2: ", opt_str(&hero.link_2_label));
    push_str(&mut cta2, " -> ");
    push_str(&mut cta2, opt_str(&hero.link_2_url));
    lines.push(fit_ascii_cell(cta2.as_str(), w));
    lines.push(fit_ascii_cell(labeled("image: ", hero.parent_image_url.as_str()).as_str(), w));
    proof {
        assert(views(lines@) =~= hero_lines(*hero, w as nat));
    }
    let framed_lines = frame_lines(&lines, w);
    join_newlines(&framed_lines)
}

/// Blocks one after another.
pub open spec fn concat<A>(blocks: Seq<Seq<A>>) -> Seq<A>
    decreases blocks.len(),
{
    if blocks.len() == 0 {
        Seq::empty()
    } else {
        concat(blocks.drop_last()) + blocks.last()
    }
}

pub proof fn lemma_concat_take<A>(blocks: Seq<Seq<A>>, i: int)
    requires
        0 <= i < blocks.len(),
    ensures
        concat(blocks.take(i + 1)) == concat(blocks.take(i)) + blocks[i],
{
    assert(blocks.take(i + 1).drop_last() =~= blocks.take(i));
}

/// The marker of an entry: `*` for the selected one, `-` otherwise.
pub open spec fn marker(active: bool) -> Seq<char> {
    if active { "*"@ } else { "-"@ }
}

/// The lines of one column in the header or footer blueprint: the column
/// with its width class, then its components by label (or `(empty)`).
pub open spec fn column_row_lines(col: SectionColumn, active: bool, w: nat) -> Seq<Seq<char>> {
    seq![fitted("  "@ + marker(active) + " column: "@ + col.id@ + " ["@ + col.width_class@ + "]"@, w)]
        + if col.components@.len() == 0 {
        seq![fitted("    (empty)"@, w)]
    } else {
        col.components@.map_values(|c: SectionComponent| fitted("    - "@ + kind_label(kind_of(c)), w))
    }
}

/// The column the marker goes to in a section: the selected one, clamped
/// to the last, in the selected section; the first elsewhere.
pub open spec fn marked_column(active: bool, selected_column: nat, n: nat) -> int {
    if active {
        if selected_column < n { selected_column as int } else { n - 1 }
    } else {
        0
    }
}

/// The lines of one section in the header or footer blueprint.
pub open spec fn region_section_lines(section: DdSection, active: bool, selected_column: nat, w: nat) -> Seq<Seq<char>> {
    let cols = section.columns@;
    let mc = marked_column(active, selected_column, cols.len());
    seq![fitted(marker(active) + " section: "@ + section.id@, w)] + if cols.len() == 0 {
        seq![fitted("  (no columns)"@, w)]
    } else {
        concat(Seq::new(cols.len(), |c: int| column_row_lines(cols[c], active && c == mc, w)))
    }
}

/// The section lines of the header or footer blueprint; the selected
/// section (clamped to the last) and its selected column are marked.
pub open spec fn region_sections_lines(sections: Seq<DdSection>, selected_section: nat, selected_column: nat, w: nat) -> Seq<Seq<char>> {
    if sections.len() == 0 {
        seq![fitted("(no sections - press '/' to add)"@, w)]
    } else {
        let act: int = if selected_section < sections.len() { selected_section as int } else { sections.len() - 1 };
        concat(Seq::new(sections.len(), |s: int| region_section_lines(sections[s], s == act, selected_column, w)))
    }
}

fn push_column_lines(lines: &mut Vec<String>, col: &SectionColumn, active: bool, w: usize)
    ensures
        views(final(lines)@) == views(old(lines)@) + column_row_lines(*col, active, w as nat),
{
    let ghost start = views(lines@);
    let mut head = String::new();
    push_str(&mut head, "  ");
    push_str(&mut head, if active { "*" } else { "-" });
    push_str(&mut head, " column: ");
    push_str(&mut head, col.id.as_str());
    push_str(&mut head, " [");
    push_str(&mut head, col.width_class.as_str());
    push_str(&mut head, "]");
    proof {
        assert(head@ =~= "  "@ + marker(active) + " column: "@ + col.id@ + " ["@ + col.width_class@ + "]"@);
    }
    lines.push(fit_ascii_cell(head.as_str(), w));
    let ghost mid = views(lines@);
    if col.components.len() == 0 {
        lines.push(fit_ascii_cell("    (empty)", w));
        assert(views(lines@) =~= start + column_row_lines(*col, active, w as nat));
    } else {
        let ghost comps = col.components@;
        let mut k: usize = 0;
        while k < col.components.len()
            invariant
                comps == col.components@,
                k <= comps.len(),
                views(lines@) == mid + comps.take(k as int).map_values(|c: SectionComponent| fitted("    - "@ + kind_label(kind_of(c)), w as nat)),
            decreases comps.len() - k,
        {
            let label = labeled("    - ", component_label(&col.components[k]));
            let line = fit_ascii_cell(label.as_str(), w);
            assert(line@ == fitted("    - "@ + kind_label(kind_of(comps[k as int])), w as nat));
            let ghost before = views(lines@);
            lines.push(line);
            proof {
                assert(views(lines@) =~= before.push(line@));
                assert(comps.take(k + 1).map_values(|c: SectionComponent| fitted("    - "@ + kind_label(kind_of(c)), w as nat)) =~= comps.take(k as int).map_values(|c: SectionComponent| fitted("    - "@ + kind_label(kind_of(c)), w as nat)).push(line@));
            }
            k += 1;
        }
        proof {
            assert(comps.take(comps.len() as int) =~= comps);
            assert(views(lines@) =~= start + column_row_lines(*col, active, w as nat));
        }
    }
}

fn push_region_section_lines(
    lines: &mut Vec<String>,
    section: &DdSection,
    active: bool,
    selected_column: usize,
    w: usize,
)
    ensures
        views(final(lines)@) == views(old(lines)@) + region_section_lines(*section, active, selected_column as nat, w as nat),
{
    let ghost start = views(lines@);
    let mut head = String::new();
    push_str(&mut head, if active { "*" } else { "-" });
    push_str(&mut head, " section: ");
    push_str(&mut head, section.id.as_str());
    assert(head@ =~= marker(active) + " section: "@ + section.id@);
    lines.push(fit_ascii_cell(head.as_str(), w));
    let ghost mid = views(lines@);
    let n = section.columns.len();
    if n == 0 {
        lines.push(fit_ascii_cell("  (no columns)", w));
        assert(views(lines@) =~= start + region_section_lines(*section, active, selected_column as nat, w as nat));
    } else {
        let mc: usize = if active {
            if selected_column < n { selected_column } else { n - 1 }
        } else {
            0
        };
        let ghost cols = section.columns@;
        let ghost blocks = Seq::new(cols.len(), |c: int| column_row_lines(cols[c], active && c == mc, w as nat));
        let mut c: usize = 0;
        while c < n
            invariant
                n == cols.len(),
                cols == section.columns@,
                mc == marked_column(active, selected_column as nat, n as nat),
                blocks == Seq::new(cols.len(), |c: int| column_row_lines(cols[c], active && c == mc, w as nat)),
                c <= n,
                views(lines@) == mid + concat(blocks.take(c as int)),
            decreases n - c,
        {
            push_column_lines(lines, &section.columns[c], active && c == mc, w);
            proof {
                lemma_concat_take(blocks, c as int);
            }
            c += 1;
        }
        proof {
            assert(blocks.take(n as int) =~= blocks);
            assert(views(lines@) =~= start + region_section_lines(*section, active, selected_column as nat, w as nat));
        }
    }
}

fn push_region_sections_lines(
    lines: &mut Vec<String>,
    sections: &Vec<DdSection>,
    selected_section: usize,
    selected_column: usize,
    w: usize,
)
    ensures
        views(final(lines)@) == views(old(lines)@) + region_sections_lines(sections@, selected_section as nat, selected_column as nat, w as nat),
{
    let ghost start = views(lines@);
    let n = sections.len();
    if n == 0 {
        lines.push(fit_ascii_cell("(no sections - press '/' to add)", w));
        assert(views(lines@) =~= start + region_sections_lines(sections@, selected_section as nat, selected_column as nat, w as nat));
    } else {
        let act: usize = if selected_section < n { selected_section } else { n - 1 };
        let ghost secs = sections@;
        let ghost blocks = Seq::new(secs.len(), |s: int| region_section_lines(secs[s], s == act, selected_column as nat, w as nat));
        let mut s: usize = 0;
        while s < n
            invariant
                n == secs.len(),
                secs == sections@,
                blocks == Seq::new(secs.len(), |s: int| region_section_lines(secs[s], s == act, selected_column as nat, w as nat)),
                s <= n,
                views(lines@) == start + concat(blocks.take(s as int)),
            decreases n - s,
        {
            push_region_section_lines(lines, &sections[s], s == act, selected_column, w);
            proof {
                lemma_concat_take(blocks, s as int);
            }
            s += 1;
        }
        proof {
            assert(blocks.take(n as int) =~= blocks);
        }
    }
}

/// The header blueprint's lines before its sections.
pub open spec fn header_head_lines(header: DdHeader, w: nat) -> Seq<Seq<char>> {
    seq![
        fitted("HEADER"@, w),
        fitted("id: "@ + header.id@, w),
        fitted("custom_css: "@ + opt_text(header.custom_css), w),
        fitted("alert: "@ + if header.alert is Some { "yes"@ } else { "(none)"@ }, w),
        fitted("sections:"@, w),
    ]
}

/// The footer blueprint's lines before its sections.
pub open spec fn footer_head_lines(footer: DdFooter, w: nat) -> Seq<Seq<char>> {
    seq![
        fitted("FOOTER"@, w),
        fitted("id: "@ + footer.id@, w),
        fitted("custom_css: "@ + opt_text(footer.custom_css), w),
        fitted("sections:"@, w),
    ]
}

/// Click targets of a blueprint whose lines hold none: one empty list per line.
pub open spec fn no_hits(hits: Seq<Vec<(usize, usize, usize, usize)>>, n: nat) -> bool {
    &&& hits.len() == n
    &&& forall|i: int| 0 <= i < n ==> (#[trigger] hits[i])@.len() == 0
}

fn empty_hits(n: usize) -> (r: Vec<Vec<(usize, usize, usize, usize)>>)
    ensures
        no_hits(r@, n as nat),
{
    let mut out: Vec<Vec<(usize, usize, usize, usize)>> = Vec::new();
    let mut i: usize = 0;
    while i < n
        invariant
            i <= n,
            no_hits(out@, i as nat),
        decreases n - i,
    {
        out.push(Vec::new());
        i += 1;
    }
    out
}

/// The header blueprint: id, custom CSS, whether it has an alert, then each
/// section with its columns and their components; the selected section and
/// column are marked `*`. It has no click targets.
pub fn header_ascii_map(
    header: &DdHeader,
    selected_section: usize,
    selected_column: usize,
    panel_width: usize,
) -> (r: (String, Vec<Vec<(usize, usize, usize, usize)>>))
    requires
        panel_width <= usize::MAX - 8,
    ensures
        ({
            let w = inner_width(panel_width as nat, 12);
            let lines = header_head_lines(*header, w)
                + region_sections_lines(header.sections@, selected_section as nat, selected_column as nat, w);
            &&& r.0@ == join_lines(framed(lines, w))
            &&& no_hits(r.1@, lines.len() + 2)
        }),
{
    let w: usize = if panel_width >= 16 { panel_width - 4 } else { 12 };
    let mut lines: Vec<String> = Vec::new();
    lines.push(fit_ascii_cell("HEADER", w));
    lines.push(fit_ascii_cell(labeled("id: ", header.id.as_str()).as_str(), w));
    lines.push(fit_ascii_cell(labeled("custom_css: ", opt_str(&header.custom_css)).as_str(), w));
    let alert = if header.alert.is_some() { "yes" } else { "(none)" };
    lines.push(fit_ascii_cell(labeled("alert: ", alert).as_str(), w));
    lines.push(fit_ascii_cell("sections:", w));
    assert(views(lines@) =~= header_head_lines(*header, w as nat));
    push_region_sections_lines(&mut lines, &header.sections, selected_section, selected_column, w);
    let out = frame_lines(&lines, w);
    let hits = empty_hits(out.len());
    (join_newlines(&out), hits)
}

/// The footer blueprint: id, custom CSS, then each section with its columns
/// and their components; the selected section and column are marked `*`.
/// It has no click targets.
pub fn footer_ascii_map(
    footer: &DdFooter,
    selected_section: usize,
    selected_column: usize,
    panel_width: usize,
) -> (r: (String, Vec<Vec<(usize, usize, usize, usize)>>))
    requires
        panel_width <= usize::MAX - 8,
    ensures
        ({
            let w = inner_width(panel_width as nat, 12);
            let lines = footer_head_lines(*footer, w)
                + region_sections_lines(footer.sections@, selected_section as nat, selected_column as nat, w);
            &&& r.0@ == join_lines(framed(lines, w))
            &&& no_hits(r.1@, lines.len() + 2)
        }),
{
    let w: usize = if panel_width >= 16 { panel_width - 4 } else { 12 };
    let mut lines: Vec<String> = Vec::new();
    lines.push(fit_ascii_cell("FOOTER", w));
    lines.push(fit_ascii_cell(labeled("id: ", footer.id.as_str()).as_str(), w));
    lines.push(fit_ascii_cell(labeled("custom_css: ", opt_str(&footer.custom_css)).as_str(), w));
    lines.push(fit_ascii_cell("sections:", w));
    assert(views(lines@) =~= footer_head_lines(*footer, w as nat));
    push_region_sections_lines(&mut lines, &footer.sections, selected_section, selected_column, w);
    let out = frame_lines(&lines, w);
    let hits = empty_hits(out.len());
    (join_newlines(&out), hits)
}

/// Greedy packing of boxes `widths` wide into rows at most `cap` wide, with
/// one column between boxes, after the first boxes: the finished rows, the
/// row being filled and its width. A box that does not fit next to the row
/// being filled starts a new row; a box wider than `cap` gets a row alone.
pub open spec fn pack_state(widths: Seq<usize>, cap: nat) -> (Seq<Seq<usize>>, Seq<usize>, nat)
    decreases widths.len(),
{
    if widths.len() == 0 {
        (Seq::empty(), Seq::empty(), 0)
    } else {
        let prev = pack_state(widths.drop_last(), cap);
        let idx = (widths.len() - 1) as usize;
        let w = widths.last() as nat;
        if prev.1.len() == 0 {
            (prev.0, prev.1.push(idx), w)
        } else if prev.2 + 1 + w > cap {
            (prev.0.push(prev.1), seq![idx], w)
        } else {
            (prev.0, prev.1.push(idx), prev.2 + 1 + w)
        }
    }
}

/// The rows of the greedy packing: box indices, left to right.
pub open spec fn packed_rows(widths: Seq<usize>, cap: nat) -> Seq<Seq<usize>> {
    let st = pack_state(widths, cap);
    if st.1.len() == 0 { st.0 } else { st.0.push(st.1) }
}

/// Width of the boxes of `row` side by side, `gap` columns apart.
pub open spec fn row_span(widths: Seq<usize>, row: Seq<usize>, gap: nat) -> nat
    decreases row.len(),
{
    if row.len() == 0 {
        0
    } else if row.len() == 1 {
        widths[row[0] as int] as nat
    } else {
        row_span(widths, row.drop_last(), gap) + gap + widths[row.last() as int] as nat
    }
}

/// `0, 1, ..., n - 1`.
pub open spec fn indices(n: nat) -> Seq<usize> {
    Seq::new(n, |i: int| i as usize)
}

proof fn lemma_pack_state(widths: Seq<usize>, cap: nat)
    requires
        widths.len() <= usize::MAX,
    ensures
        ({
            let st = pack_state(widths, cap);
            &&& concat(st.0) + st.1 == indices(widths.len())
            &&& st.2 == row_span(widths, st.1, 1)
            &&& (st.1.len() == 0 <==> widths.len() == 0)
            &&& st.1.len() >= 2 ==> st.2 <= cap
            &&& forall|k: int| 0 <= k < st.1.len() ==> (#[trigger] st.1[k]) < widths.len()
            &&& forall|r: int, k: int| 0 <= r < st.0.len() && 0 <= k < st.0[r].len() ==> (#[trigger] st.0[r][k]) < widths.len()
            &&& forall|r: int| 0 <= r < st.0.len() ==> (#[trigger] st.0[r]).len() >= 1
                && (st.0[r].len() >= 2 ==> row_span(widths, st.0[r], 1) <= cap)
        }),
    decreases widths.len(),
{
    if widths.len() > 0 {
        let dl = widths.drop_last();
        lemma_pack_state(dl, cap);
        let prev = pack_state(dl, cap);
        let st = pack_state(widths, cap);
        let idx = (widths.len() - 1) as usize;
        assert forall|k: int| 0 <= k < dl.len() implies dl[k] == widths[k] by {}
        assert(indices(widths.len()) =~= indices(dl.len()).push(idx));
        if prev.1.len() == 0 {
            assert(st.1 =~= seq![idx]);
            assert(concat(st.0) + st.1 =~= (concat(prev.0) + prev.1).push(idx));
        } else if prev.2 + 1 + widths.last() > cap {
            assert(st.0.drop_last() =~= prev.0);
            assert(concat(st.0) =~= concat(prev.0) + prev.1);
            assert(concat(st.0) + st.1 =~= (concat(prev.0) + prev.1).push(idx));
            assert(row_span(widths, prev.1, 1) == row_span(dl, prev.1, 1)) by {
                lemma_row_span_prefix_widths(dl, widths, prev.1);
            }
        } else {
            assert(st.1.drop_last() =~= prev.1);
            assert(concat(st.0) + st.1 =~= (concat(prev.0) + prev.1).push(idx));
            lemma_row_span_prefix_widths(dl, widths, prev.1);
        }
        assert forall|r: int, k: int| 0 <= r < st.0.len() && 0 <= k < st.0[r].len() implies (#[trigger] st.0[r][k]) < widths.len() by {
            if r < prev.0.len() {
                assert(st.0[r] == prev.0[r]);
            } else {
                assert(st.0[r] == prev.1);
            }
        }
        assert forall|r: int| 0 <= r < st.0.len() implies (#[trigger] st.0[r]).len() >= 1
            && (st.0[r].len() >= 2 ==> row_span(widths, st.0[r], 1) <= cap) by {
            if r < prev.0.len() {
                assert(st.0[r] == prev.0[r]);
                lemma_row_span_prefix_widths(dl, widths, prev.0[r]);
            }
        }
    }
}

/// The span of a row whose boxes all come before `a.len()` is the same
/// under widths `a` and under any `b` that starts with `a`.
proof fn lemma_row_span_prefix_widths(a: Seq<usize>, b: Seq<usize>, row: Seq<usize>)
    requires
        a.len() <= b.len(),
        forall|k: int| 0 <= k < a.len() ==> a[k] == b[k],
        forall|k: int| 0 <= k < row.len() ==> row[k] < a.len(),
    ensures
        row_span(a, row, 1) == row_span(b, row, 1),
    decreases row.len(),
{
    if row.len() > 1 {
        lemma_row_span_prefix_widths(a, b, row.drop_last());
    }
}

/// Views of a list of rows.
pub open spec fn row_views(rows: Seq<Vec<usize>>) -> Seq<Seq<usize>> {
    rows.map_values(|r: Vec<usize>| r@)
}

/// Packs boxes of the given widths into rows at most `cap` wide, greedily
/// left to right, one column apart.
pub fn pack_rows(widths: &Vec<usize>, cap: usize) -> (rows: Vec<Vec<usize>>)
    requires
        cap <= usize::MAX / 4,
        forall|k: int| 0 <= k < widths@.len() ==> #[trigger] widths@[k] <= usize::MAX / 4,
    ensures
        row_views(rows@) == packed_rows(widths@, cap as nat),
{
    let mut rows: Vec<Vec<usize>> = Vec::new();
    let mut cur: Vec<usize> = Vec::new();
    let mut cur_w: usize = 0;
    let mut i: usize = 0;
    while i < widths.len()
        invariant
            i <= widths@.len(),
            cap <= usize::MAX / 4,
            forall|k: int| 0 <= k < widths@.len() ==> #[trigger] widths@[k] <= usize::MAX / 4,
            pack_state(widths@.take(i as int), cap as nat) == (row_views(rows@), cur@, cur_w as nat),
            cur_w <= usize::MAX / 4,
        decreases widths@.len() - i,
    {
        proof {
            assert(widths@.take(i + 1).drop_last() =~= widths@.take(i as int));
        }
        let w = widths[i];
        if cur.len() == 0 {
            cur.push(i);
            cur_w = w;
        } else if cur_w + 1 + w > cap {
            let ghost before = row_views(rows@);
            let done = cur;
            rows.push(done);
            assert(row_views(rows@) =~= before.push(done@));
            cur = Vec::new();
            cur.push(i);
            assert(cur@ =~= seq![i]);
            cur_w = w;
        } else {
            cur.push(i);
            cur_w = cur_w + 1 + w;
        }
        i += 1;
    }
    proof {
        assert(widths@.take(widths@.len() as int) =~= widths@);
    }
    if cur.len() > 0 {
        let ghost before = row_views(rows@);
        let last = cur;
        rows.push(last);
        assert(row_views(rows@) =~= before.push(last@));
    }
    rows
}

/// Line `l` of a box whose lines are `w` wide; blank below its last line.
pub open spec fn box_part(b: Seq<Seq<char>>, w: nat, l: int) -> Seq<char> {
    if 0 <= l < b.len() { b[l] } else { repeat(' ', w) }
}

/// `parts` with `sep` between consecutive parts.
pub open spec fn joined(parts: Seq<Seq<char>>, sep: Seq<char>) -> Seq<char>
    decreases parts.len(),
{
    if parts.len() == 0 {
        Seq::empty()
    } else if parts.len() == 1 {
        parts[0]
    } else {
        joined(parts.drop_last(), sep) + sep + parts.last()
    }
}

/// Number of lines of the tallest box of `row`.
pub open spec fn row_height(boxes: Seq<Seq<Seq<char>>>, row: Seq<usize>) -> nat
    decreases row.len(),
{
    if row.len() == 0 {
        0
    } else {
        let h = row_height(boxes, row.drop_last());
        let b = boxes[row.last() as int].len();
        if b > h { b } else { h }
    }
}

/// The parts of line `l` of the boxes of `row`.
pub open spec fn row_parts(boxes: Seq<Seq<Seq<char>>>, widths: Seq<usize>, row: Seq<usize>, l: int) -> Seq<Seq<char>> {
    row.map_values(|idx: usize| box_part(boxes[idx as int], widths[idx as int] as nat, l))
}

/// The lines of a row of boxes drawn side by side, `sep` between boxes.
pub open spec fn row_lines(boxes: Seq<Seq<Seq<char>>>, widths: Seq<usize>, row: Seq<usize>, sep: Seq<char>) -> Seq<Seq<char>> {
    Seq::new(row_height(boxes, row), |l: int| joined(row_parts(boxes, widths, row, l), sep))
}

/// Row `r` of boxes with, for every row but the first, an empty line above.
pub open spec fn row_block(boxes: Seq<Seq<Seq<char>>>, widths: Seq<usize>, rows: Seq<Seq<usize>>, sep: Seq<char>, r: int) -> Seq<Seq<char>> {
    if r > 0 {
        seq![Seq::<char>::empty()] + row_lines(boxes, widths, rows[r], sep)
    } else {
        row_lines(boxes, widths, rows[r], sep)
    }
}

/// Rows of boxes drawn one under the other, an empty line between rows.
pub open spec fn rows_lines(boxes: Seq<Seq<Seq<char>>>, widths: Seq<usize>, rows: Seq<Seq<usize>>, sep: Seq<char>) -> Seq<Seq<char>> {
    concat(Seq::new(rows.len(), |r: int| row_block(boxes, widths, rows, sep, r)))
}

/// Views of a list of boxes of lines.
pub open spec fn box_views(boxes: Seq<Vec<String>>) -> Seq<Seq<Seq<char>>> {
    boxes.map_values(|b: Vec<String>| views(b@))
}

/// Every row names boxes that exist.
pub open spec fn rows_in_range(rows: Seq<Seq<usize>>, n: nat) -> bool {
    forall|r: int, k: int| 0 <= r < rows.len() && 0 <= k < rows[r].len() ==> (#[trigger] rows[r][k]) < n
}

fn row_height_of(boxes: &Vec<Vec<String>>, row: &Vec<usize>) -> (h: usize)
    requires
        forall|k: int| 0 <= k < row@.len() ==> (#[trigger] row@[k]) < boxes@.len(),
    ensures
        h == row_height(box_views(boxes@), row@),
{
    let mut h: usize = 0;
    let mut k: usize = 0;
    while k < row.len()
        invariant
            k <= row@.len(),
            forall|j: int| 0 <= j < row@.len() ==> (#[trigger] row@[j]) < boxes@.len(),
            h == row_height(box_views(boxes@), row@.take(k as int)),
        decreases row@.len() - k,
    {
        assert(row@.take(k + 1).drop_last() =~= row@.take(k as int));
        let b = boxes[row[k]].len();
        if b > h {
            h = b;
        }
        k += 1;
    }
    assert(row@.take(row@.len() as int) =~= row@);
    h
}

fn compose_line(boxes: &Vec<Vec<String>>, widths: &Vec<usize>, row: &Vec<usize>, sep: &str, l: usize) -> (r: String)
    requires
        widths@.len() == boxes@.len(),
        forall|k: int| 0 <= k < row@.len() ==> (#[trigger] row@[k]) < boxes@.len(),
    ensures
        r@ == joined(row_parts(box_views(boxes@), widths@, row@, l as int), sep@),
{
    let ghost bv = box_views(boxes@);
    let mut out = String::new();
    let mut k: usize = 0;
    while k < row.len()
        invariant
            k <= row@.len(),
            bv == box_views(boxes@),
            widths@.len() == boxes@.len(),
            forall|j: int| 0 <= j < row@.len() ==> (#[trigger] row@[j]) < boxes@.len(),
            out@ == joined(row_parts(bv, widths@, row@.take(k as int), l as int), sep@),
        decreases row@.len() - k,
    {
        let ghost prev = row_parts(bv, widths@, row@.take(k as int), l as int);
        let ghost next = row_parts(bv, widths@, row@.take(k + 1), l as int);
        assert(next.drop_last() =~= prev);
        if k > 0 {
            push_str(&mut out, sep);
        }
        let idx = row[k];
        if l < boxes[idx].len() {
            push_str(&mut out, boxes[idx][l].as_str());
        } else {
            push_repeat(&mut out, ' ', widths[idx]);
        }
        proof {
            assert(next.last() == box_part(bv[idx as int], widths@[idx as int] as nat, l as int));
            if k == 0 {
                assert(out@ =~= next[0]);
            } else {
                assert(out@ =~= joined(prev, sep@) + sep@ + next.last());
            }
        }
        k += 1;
    }
    assert(row@.take(row@.len() as int) =~= row@);
    out
}

/// The lines of rows of boxes drawn one under the other.
pub fn compose_rows(boxes: &Vec<Vec<String>>, widths: &Vec<usize>, rows: &Vec<Vec<usize>>, sep: &str) -> (r: Vec<String>)
    requires
        widths@.len() == boxes@.len(),
        rows_in_range(row_views(rows@), boxes@.len()),
    ensures
        views(r@) == rows_lines(box_views(boxes@), widths@, row_views(rows@), sep@),
{
    let ghost bv = box_views(boxes@);
    let ghost rv = row_views(rows@);
    let ghost blocks = Seq::new(rv.len(), |r: int| row_block(bv, widths@, rv, sep@, r));
    let mut out: Vec<String> = Vec::new();
    let mut r: usize = 0;
    while r < rows.len()
        invariant
            r <= rows@.len(),
            bv == box_views(boxes@),
            rv == row_views(rows@),
            blocks == Seq::new(rv.len(), |r: int| row_block(bv, widths@, rv, sep@, r)),
            widths@.len() == boxes@.len(),
            rows_in_range(rv, boxes@.len()),
            views(out@) == concat(blocks.take(r as int)),
        decreases rows@.len() - r,
    {
        let ghost start = views(out@);
        if r > 0 {
            out.push(String::new());
        }
        let ghost mid = views(out@);
        let row = &rows[r];
        assert(row@ == rv[r as int]);
        assert forall|k: int| 0 <= k < row@.len() implies (#[trigger] row@[k]) < boxes@.len() by {
            assert(rv[r as int][k] == row@[k]);
        }
        let h = row_height_of(boxes, row);
        let ghost lines = row_lines(bv, widths@, row@, sep@);
        let mut l: usize = 0;
        while l < h
            invariant
                l <= h,
                h == lines.len(),
                lines == row_lines(bv, widths@, row@, sep@),
                bv == box_views(boxes@),
                widths@.len() == boxes@.len(),
                forall|k: int| 0 <= k < row@.len() ==> (#[trigger] row@[k]) < boxes@.len(),
                views(out@) == mid + lines.take(l as int),
            decreases h - l,
        {
            let line = compose_line(boxes, widths, row, sep, l);
            let ghost before = views(out@);
            out.push(line);
            assert(views(out@) =~= before.push(line@));
            assert(lines.take(l + 1) =~= lines.take(l as int).push(lines[l as int]));
            l += 1;
        }
        proof {
            assert(lines.take(h as int) =~= lines);
            lemma_concat_take(blocks, r as int);
            if r > 0 {
                assert(mid =~= start.push(Seq::<char>::empty()));
                assert(views(out@) =~= start + blocks[r as int]);
            } else {
                assert(views(out@) =~= start + blocks[r as int]);
            }
        }
        r += 1;
    }
    assert(blocks.take(rv.len() as int) =~= blocks);
    out
}

/// Width of the lines inside a card's item boxes drawn in a box whose lines
/// are `container` wide, given the width the card's own width class asks
/// for: at most `container - 4`, at least 10.
pub open spec fn card_child_width(ratio: nat, container: nat) -> nat {
    let room: nat = if container >= 4 { (container - 4) as nat } else { 0 };
    let m = if ratio < room { ratio } else { room };
    if m > 10 { m } else { 10 }
}

/// The box of card item `i` (numbered from 1 on screen) with its title.
pub open spec fn card_box(i: nat, title: Seq<char>, cw: nat) -> Seq<Seq<char>> {
    seq![
        border(cw),
        boxed_line(fitted("card "@ + decimal(i + 1) + ":"@, cw)),
        boxed_line(fitted("title: "@ + title, cw)),
        border(cw),
    ]
}

/// The lines drawn for the items of a card inside a box `container` wide:
/// `(empty)` for a card without items, else one box per item, packed into
/// rows that fit `container` (boxes two columns apart within a row).
pub open spec fn card_items_lines(card: DdCard, container: nat, ratio: nat) -> Seq<Seq<char>> {
    let n = card.items@.len();
    if n == 0 {
        seq![fitted("(empty)"@, container)]
    } else {
        let cw = card_child_width(ratio, container);
        let boxes = Seq::new(n, |i: int| card_box(i as nat, card.items@[i].child_title@, cw));
        let widths = Seq::new(n, |i: int| (cw + 4) as usize);
        rows_lines(boxes, widths, packed_rows(widths, container), "  "@)
    }
}

/// The ASCII boxes of a card's items, for a card drawn in a box whose lines
/// are `container_inner_width` wide; `ratio_inner_width` is the line width
/// the card's own width class asks for in such a box.
pub fn card_items_ascii_lines(card: &DdCard, container_inner_width: usize, ratio_inner_width: usize) -> (r: Vec<String>)
    requires
        container_inner_width <= usize::MAX / 8,
        ratio_inner_width <= usize::MAX / 8,
    ensures
        views(r@) == card_items_lines(*card, container_inner_width as nat, ratio_inner_width as nat),
{
    let n = card.items.len();
    if n == 0 {
        let mut out: Vec<String> = Vec::new();
        out.push(fit_ascii_cell("(empty)", container_inner_width));
        assert(views(out@) =~= card_items_lines(*card, container_inner_width as nat, ratio_inner_width as nat));
        return out;
    }
    let room: usize = if container_inner_width >= 4 { container_inner_width - 4 } else { 0 };
    let m: usize = if ratio_inner_width < room { ratio_inner_width } else { room };
    let cw: usize = if m > 10 { m } else { 10 };
    let ghost items = card.items@;
    let mut boxes: Vec<Vec<String>> = Vec::new();
    let mut widths: Vec<usize> = Vec::new();
    let mut i: usize = 0;
    while i < n
        invariant
            n == items.len(),
            items == card.items@,
            i <= n,
            cw == card_child_width(ratio_inner_width as nat, container_inner_width as nat),
            cw <= usize::MAX / 8,
            boxes@.len() == i,
            widths@.len() == i,
            forall|j: int| 0 <= j < i ==> views((#[trigger] boxes@[j])@) == card_box(j as nat, items[j].child_title@, cw as nat),
            forall|j: int| 0 <= j < i ==> #[trigger] widths@[j] == cw + 4,
        decreases n - i,
    {
        let mut head = String::new();
        push_str(&mut head, "card ");
        push_decimal(&mut head, i + 1);
        push_str(&mut head, ":");
        let title = labeled("title: ", card.items[i].child_title.as_str());
        let mut b: Vec<String> = Vec::new();
        b.push(border_string(cw));
        b.push(boxed_string(fit_ascii_cell(head.as_str(), cw).as_str()));
        b.push(boxed_string(fit_ascii_cell(title.as_str(), cw).as_str()));
        b.push(border_string(cw));
        proof {
            assert(head@ =~= "card "@ + decimal((i + 1) as nat) + ":"@);
            assert(views(b@) =~= card_box(i as nat, items[i as int].child_title@, cw as nat));
        }
        let ghost old_boxes = boxes@;
        let ghost old_widths = widths@;
        boxes.push(b);
        widths.push(cw + 4);
        proof {
            assert forall|j: int| 0 <= j < i + 1 implies views((#[trigger] boxes@[j])@) == card_box(j as nat, items[j].child_title@, cw as nat) by {
                if j < i {
                    assert(boxes@[j] == old_boxes[j]);
                }
            }
            assert forall|j: int| 0 <= j < i + 1 implies #[trigger] widths@[j] == cw + 4 by {
                if j < i {
                    assert(widths@[j] == old_widths[j]);
                }
            }
        }
        i += 1;
    }
    let ghost sboxes = Seq::new(n as nat, |i: int| card_box(i as nat, items[i].child_title@, cw as nat));
    let ghost swidths = Seq::new(n as nat, |i: int| (cw + 4) as usize);
    assert(box_views(boxes@) =~= sboxes);
    assert(widths@ =~= swidths);
    let rows = pack_rows(&widths, container_inner_width);
    proof {
        lemma_pack_state(widths@, container_inner_width as nat);
        let st = pack_state(widths@, container_inner_width as nat);
        let rv = row_views(rows@);
        assert forall|r: int, k: int| 0 <= r < rv.len() && 0 <= k < rv[r].len() implies (#[trigger] rv[r][k]) < boxes@.len() by {
            if r < st.0.len() {
                assert(rv[r] == st.0[r]);
            } else {
                assert(rv[r] == st.1);
            }
        }
    }
    compose_rows(&boxes, &widths, &rows, "  ")
}

/// A line of text inside a column's item box.
pub open spec fn item_line(text: Seq<char>, iw: nat) -> Seq<char> {
    boxed_line(fitted(text, iw))
}

/// Lines paired with the component they belong to (`None` for none).
pub open spec fn tagged(lines: Seq<Seq<char>>, tag: Option<usize>) -> Seq<(Seq<char>, Option<usize>)> {
    lines.map_values(|l: Seq<char>| (l, tag))
}

/// Most components listed in a column's item box.
pub const MAX_COMPONENT_ROWS: usize = 4;

/// The lines a component adds to its column's item box, all belonging to
/// it: a card shows its own item boxes below its label; any other
/// component one line with its blueprint label.
pub open spec fn component_entry(c: SectionComponent, k: usize, iw: nat, card_ratio: nat) -> Seq<(Seq<char>, Option<usize>)> {
    match c {
        SectionComponent::Card(card) => seq![(item_line("- dd-card"@, iw), Some(k))]
            + tagged(card_items_lines(card, iw, card_ratio).map_values(|l: Seq<char>| item_line(l, iw)), Some(k)),
        _ => seq![(item_line("- "@ + blueprint_label(c), iw), Some(k))],
    }
}

/// The item box of a column, each line with the component it shows: the
/// column id (marked `*` when selected) and width class, then its first
/// components (or `(empty)`), a `+<n> more` line for the others, all in a
/// box whose lines are `iw` wide. `card_ratios[k]` is the line width the
/// width class of component `k`, if a card, asks for in this box.
pub open spec fn column_box(col: SectionColumn, active: bool, iw: nat, card_ratios: Seq<usize>) -> Seq<(Seq<char>, Option<usize>)> {
    let n = col.components@.len();
    let shown: nat = if n < 4 { n } else { 4 };
    tagged(seq![
        border(iw),
        item_line(marker(active) + " item: "@ + col.id@, iw),
        item_line("width: "@ + col.width_class@, iw),
    ], None) + (if n == 0 {
        seq![(item_line("(empty)"@, iw), None::<usize>)]
    } else {
        concat(Seq::new(shown, |k: int| component_entry(col.components@[k], k as usize, iw, card_ratios[k] as nat)))
            + if n > 4 { seq![(item_line("+"@ + decimal((n - 4) as nat) + " more"@, iw), None::<usize>)] } else { Seq::empty() }
    }) + seq![(border(iw), None::<usize>)]
}

/// The lines of a box with their components, as two lists.
pub open spec fn split_box(b: Seq<(Seq<char>, Option<usize>)>) -> (Seq<Seq<char>>, Seq<Option<usize>>) {
    (b.map_values(|e: (Seq<char>, Option<usize>)| e.0), b.map_values(|e: (Seq<char>, Option<usize>)| e.1))
}

fn push_tagged(lines: &mut Vec<String>, comps: &mut Vec<Option<usize>>, line: String, tag: Option<usize>)
    requires
        old(lines)@.len() == old(comps)@.len(),
    ensures
        views(final(lines)@) == views(old(lines)@).push(line@),
        final(comps)@ == old(comps)@.push(tag),
        final(lines)@.len() == final(comps)@.len(),
{
    let ghost before = views(lines@);
    lines.push(line);
    comps.push(tag);
    assert(views(lines@) =~= before.push(line@));
}

/// Whether the paired lists hold exactly the lines and tags of `b`.
pub open spec fn holds_box(lines: Seq<Seq<char>>, comps: Seq<Option<usize>>, b: Seq<(Seq<char>, Option<usize>)>) -> bool {
    &&& lines == split_box(b).0
    &&& comps == split_box(b).1
}

proof fn lemma_holds_push(lines: Seq<Seq<char>>, comps: Seq<Option<usize>>, b: Seq<(Seq<char>, Option<usize>)>, l: Seq<char>, t: Option<usize>)
    requires
        holds_box(lines, comps, b),
    ensures
        holds_box(lines.push(l), comps.push(t), b.push((l, t))),
{
    assert(split_box(b.push((l, t))).0 =~= split_box(b).0.push(l));
    assert(split_box(b.push((l, t))).1 =~= split_box(b).1.push(t));
}

proof fn lemma_holds_concat(b: Seq<(Seq<char>, Option<usize>)>, c: Seq<(Seq<char>, Option<usize>)>)
    ensures
        split_box(b + c).0 == split_box(b).0 + split_box(c).0,
        split_box(b + c).1 == split_box(b).1 + split_box(c).1,
{
    assert(split_box(b + c).0 =~= split_box(b).0 + split_box(c).0);
    assert(split_box(b + c).1 =~= split_box(b).1 + split_box(c).1);
}

fn push_component_entry(
    lines: &mut Vec<String>,
    comps: &mut Vec<Option<usize>>,
    c: &SectionComponent,
    k: usize,
    iw: usize,
    card_ratio: usize,
)
    requires
        old(lines)@.len() == old(comps)@.len(),
        iw <= usize::MAX / 8,
        card_ratio <= usize::MAX / 8,
    ensures
        final(lines)@.len() == final(comps)@.len(),
        forall|b: Seq<(Seq<char>, Option<usize>)>| holds_box(views(old(lines)@), old(comps)@, b)
            ==> holds_box(views(final(lines)@), final(comps)@, #[trigger] (b + component_entry(*c, k, iw as nat, card_ratio as nat))),
{
    let ghost l0 = views(lines@);
    let ghost c0 = comps@;
    let ghost e = component_entry(*c, k, iw as nat, card_ratio as nat);
    match c {
        SectionComponent::Card(card) => {
            let first = boxed_string(fit_ascii_cell("- dd-card", iw).as_str());
            push_tagged(lines, comps, first, Some(k));
            let ghost l1 = views(lines@);
            let ghost c1 = comps@;
            let card_lines = card_items_ascii_lines(card, iw, card_ratio);
            let ghost cl = views(card_lines@);
            let mut j: usize = 0;
            while j < card_lines.len()
                invariant
                    j <= card_lines@.len(),
                    cl == views(card_lines@),
                    lines@.len() == comps@.len(),
                    l1.len() == c1.len(),
                    views(lines@) == l1 + tagged(cl.take(j as int).map_values(|l: Seq<char>| item_line(l, iw as nat)), Some(k)).map_values(|e: (Seq<char>, Option<usize>)| e.0),
                    comps@ == c1 + tagged(cl.take(j as int).map_values(|l: Seq<char>| item_line(l, iw as nat)), Some(k)).map_values(|e: (Seq<char>, Option<usize>)| e.1),
                decreases card_lines@.len() - j,
            {
                let line = boxed_string(fit_ascii_cell(card_lines[j].as_str(), iw).as_str());
                let ghost vb = views(lines@);
                let ghost cb = comps@;
                push_tagged(lines, comps, line, Some(k));
                proof {
                    let t0 = tagged(cl.take(j as int).map_values(|l: Seq<char>| item_line(l, iw as nat)), Some(k));
                    let t1 = tagged(cl.take(j + 1).map_values(|l: Seq<char>| item_line(l, iw as nat)), Some(k));
                    assert(t1 =~= t0.push((item_line(cl[j as int], iw as nat), Some(k))));
                    assert(line@ == item_line(cl[j as int], iw as nat));
                    assert(views(lines@) =~= l1 + t1.map_values(|e: (Seq<char>, Option<usize>)| e.0));
                    assert(comps@ =~= c1 + t1.map_values(|e: (Seq<char>, Option<usize>)| e.1));
                }
                j += 1;
            }
            proof {
                assert(cl.take(cl.len() as int) =~= cl);
                assert forall|b: Seq<(Seq<char>, Option<usize>)>| holds_box(l0, c0, b)
                    implies holds_box(views(lines@), comps@, #[trigger] (b + component_entry(*c, k, iw as nat, card_ratio as nat))) by {
                    let head = seq![(item_line("- dd-card"@, iw as nat), Some(k))];
                    let rest = tagged(cl.map_values(|l: Seq<char>| item_line(l, iw as nat)), Some(k));
                    assert(e == head + rest);
                    assert(first@ == item_line("- dd-card"@, iw as nat));
                    lemma_holds_push(l0, c0, b, first@, Some(k));
                    lemma_holds_concat(b.push((first@, Some(k))), rest);
                    assert(split_box(rest).0 =~= rest.map_values(|e: (Seq<char>, Option<usize>)| e.0));
                    assert(b + e =~= b.push((first@, Some(k))) + rest);
                }
            }
        },
        _ => {
            let label = labeled("- ", component_blueprint_label(c).as_str());
            let line = boxed_string(fit_ascii_cell(label.as_str(), iw).as_str());
            push_tagged(lines, comps, line, Some(k));
            proof {
                assert forall|b: Seq<(Seq<char>, Option<usize>)>| holds_box(l0, c0, b)
                    implies holds_box(views(lines@), comps@, #[trigger] (b + component_entry(*c, k, iw as nat, card_ratio as nat))) by {
                    assert(line@ == item_line("- "@ + blueprint_label(*c), iw as nat));
                    lemma_holds_push(l0, c0, b, line@, Some(k));
                    assert(b + e =~= b.push((line@, Some(k))));
                }
            }
        },
    }
}

/// The item box of a column as its lines and the component each belongs to.
fn column_box_lines(col: &SectionColumn, active: bool, iw: usize, card_ratios: &Vec<usize>) -> (r: (Vec<String>, Vec<Option<usize>>))
    requires
        iw <= usize::MAX / 8,
        card_ratios@.len() == col.components@.len(),
        forall|k: int| 0 <= k < card_ratios@.len() ==> #[trigger] card_ratios@[k] <= usize::MAX / 8,
    ensures
        holds_box(views(r.0@), r.1@, column_box(*col, active, iw as nat, card_ratios@)),
{
    let mut lines: Vec<String> = Vec::new();
    let mut comps: Vec<Option<usize>> = Vec::new();
    push_tagged(&mut lines, &mut comps, border_string(iw), None);
    let mut idl = String::new();
    push_str(&mut idl, if active { "*" } else { "-" });
    push_str(&mut idl, " item: ");
    push_str(&mut idl, col.id.as_str());
    assert(idl@ =~= marker(active) + " item: "@ + col.id@);
    push_tagged(&mut lines, &mut comps, boxed_string(fit_ascii_cell(idl.as_str(), iw).as_str()), None);
    let wl = labeled("width: ", col.width_class.as_str());
    push_tagged(&mut lines, &mut comps, boxed_string(fit_ascii_cell(wl.as_str(), iw).as_str()), None);
    let ghost head = tagged(seq![
        border(iw as nat),
        item_line(marker(active) + " item: "@ + col.id@, iw as nat),
        item_line("width: "@ + col.width_class@, iw as nat),
    ], None);
    assert(views(lines@) =~= split_box(head).0);
    assert(comps@ =~= split_box(head).1);
    let n = col.components.len();
    let ghost body: Seq<(Seq<char>, Option<usize>)>;
    if n == 0 {
        let e = boxed_string(fit_ascii_cell("(empty)", iw).as_str());
        proof {
            lemma_holds_push(views(lines@), comps@, head, e@, None);
            body = seq![(item_line("(empty)"@, iw as nat), None::<usize>)];
            assert(head.push((e@, None)) =~= head + body);
        }
        push_tagged(&mut lines, &mut comps, e, None);
    } else {
        let shown: usize = if n < MAX_COMPONENT_ROWS { n } else { MAX_COMPONENT_ROWS };
        let ghost entries = Seq::new(shown as nat, |k: int| component_entry(col.components@[k], k as usize, iw as nat, card_ratios@[k] as nat));
        let mut k: usize = 0;
        while k < shown
            invariant
                k <= shown,
                shown <= n,
                n == col.components@.len(),
                iw <= usize::MAX / 8,
                card_ratios@.len() == n,
                forall|j: int| 0 <= j < card_ratios@.len() ==> #[trigger] card_ratios@[j] <= usize::MAX / 8,
                entries == Seq::new(shown as nat, |k: int| component_entry(col.components@[k], k as usize, iw as nat, card_ratios@[k] as nat)),
                lines@.len() == comps@.len(),
                holds_box(views(lines@), comps@, head + concat(entries.take(k as int))),
            decreases shown - k,
        {
            push_component_entry(&mut lines, &mut comps, &col.components[k], k, iw, card_ratios[k]);
            proof {
                lemma_concat_take(entries, k as int);
                assert(head + concat(entries.take(k + 1)) =~= head + concat(entries.take(k as int)) + entries[k as int]);
            }
            k += 1;
        }
        assert(entries.take(shown as int) =~= entries);
        if n > MAX_COMPONENT_ROWS {
            let mut more = String::new();
            push_str(&mut more, "+");
            push_decimal(&mut more, n - MAX_COMPONENT_ROWS);
            push_str(&mut more, " more");
            assert(more@ =~= "+"@ + decimal((n - 4) as nat) + " more"@);
            let e = boxed_string(fit_ascii_cell(more.as_str(), iw).as_str());
            proof {
                lemma_holds_push(views(lines@), comps@, head + concat(entries), e@, None);
                body = concat(entries) + seq![(item_line("+"@ + decimal((n - 4) as nat) + " more"@, iw as nat), None::<usize>)];
                assert((head + concat(entries)).push((e@, None)) =~= head + body);
            }
            push_tagged(&mut lines, &mut comps, e, None);
        } else {
            proof {
                body = concat(entries) + Seq::<(Seq<char>, Option<usize>)>::empty();
                assert(head + concat(entries) =~= head + body);
            }
        }
    }
    let edge = border_string(iw);
    proof {
        lemma_holds_push(views(lines@), comps@, head + body, edge@, None);
        assert((head + body).push((edge@, None)) =~= column_box(*col, active, iw as nat, card_ratios@));
    }
    push_tagged(&mut lines, &mut comps, edge, None);
    (lines, comps)
}

/// A click target: first and one-past-last character column of a box's
/// line, the box's column index and the component the line belongs to.
pub type Hit = (usize, usize, usize, usize);

/// The click targets on line `l` of a row of boxes drawn one column apart,
/// for each box whose line `l` belongs to a component; columns count from
/// the start of the framed line, two characters before the row.
pub open spec fn row_segs(comps: Seq<Seq<Option<usize>>>, widths: Seq<usize>, row: Seq<usize>, l: int) -> Seq<Hit>
    decreases row.len(),
{
    if row.len() == 0 {
        Seq::empty()
    } else {
        let prev = row_segs(comps, widths, row.drop_last(), l);
        let idx = row.last();
        let x0: nat = if row.len() == 1 { 0 } else { row_span(widths, row.drop_last(), 1) + 1 };
        let c = comps[idx as int];
        if 0 <= l < c.len() && c[l] is Some {
            prev.push(((x0 + 2) as usize, (x0 + widths[idx as int] + 2) as usize, idx, c[l]->0))
        } else {
            prev
        }
    }
}

proof fn lemma_row_span_take(widths: Seq<usize>, row: Seq<usize>, k: int)
    requires
        0 <= k < row.len(),
    ensures
        row_span(widths, row.take(k + 1), 1) == if k == 0 {
            widths[row[0] as int] as nat
        } else {
            row_span(widths, row.take(k), 1) + 1 + widths[row[k] as int] as nat
        },
{
    assert(row.take(k + 1).drop_last() =~= row.take(k));
}

proof fn lemma_row_span_mono(widths: Seq<usize>, row: Seq<usize>, k: int)
    requires
        0 <= k <= row.len(),
    ensures
        row_span(widths, row.take(k), 1) <= row_span(widths, row, 1),
    decreases row.len() - k,
{
    if k < row.len() {
        lemma_row_span_take(widths, row, k);
        lemma_row_span_mono(widths, row, k + 1);
    } else {
        assert(row.take(k) =~= row);
    }
}

/// Click targets on line `l` of a row.
fn line_segments(comps: &Vec<Vec<Option<usize>>>, widths: &Vec<usize>, row: &Vec<usize>, l: usize) -> (r: Vec<Hit>)
    requires
        comps@.len() == widths@.len(),
        forall|k: int| 0 <= k < row@.len() ==> (#[trigger] row@[k]) < widths@.len(),
        row_span(widths@, row@, 1) + 2 <= usize::MAX,
    ensures
        r@ == row_segs(comps@.map_values(|v: Vec<Option<usize>>| v@), widths@, row@, l as int),
{
    let ghost cv = comps@.map_values(|v: Vec<Option<usize>>| v@);
    let mut out: Vec<Hit> = Vec::new();
    let mut cur_x: usize = 0;
    let mut k: usize = 0;
    while k < row.len()
        invariant
            k <= row@.len(),
            cv == comps@.map_values(|v: Vec<Option<usize>>| v@),
            comps@.len() == widths@.len(),
            forall|j: int| 0 <= j < row@.len() ==> (#[trigger] row@[j]) < widths@.len(),
            row_span(widths@, row@, 1) + 2 <= usize::MAX,
            cur_x == row_span(widths@, row@.take(k as int), 1),
            out@ == row_segs(cv, widths@, row@.take(k as int), l as int),
        decreases row@.len() - k,
    {
        proof {
            lemma_row_span_take(widths@, row@, k as int);
            lemma_row_span_mono(widths@, row@, k + 1);
            assert(row@.take(k + 1).drop_last() =~= row@.take(k as int));
        }
        if k > 0 {
            cur_x += 1;
        }
        let idx = row[k];
        let start = cur_x;
        cur_x += widths[idx];
        let c = &comps[idx];
        assert(c@ == cv[idx as int]);
        if l < c.len() {
            if let Some(cp) = c[l] {
                out.push((start + 2, cur_x + 2, idx, cp));
            }
        }
        k += 1;
    }
    assert(row@.take(row@.len() as int) =~= row@);
    out
}

/// The lines of a list of boxes and their components, as two lists.
pub open spec fn box_lines_of(boxes: Seq<Seq<(Seq<char>, Option<usize>)>>) -> Seq<Seq<Seq<char>>> {
    boxes.map_values(|b: Seq<(Seq<char>, Option<usize>)>| split_box(b).0)
}

pub open spec fn box_comps_of(boxes: Seq<Seq<(Seq<char>, Option<usize>)>>) -> Seq<Seq<Option<usize>>> {
    boxes.map_values(|b: Seq<(Seq<char>, Option<usize>)>| split_box(b).1)
}

/// The click targets of rows of boxes drawn one under the other: none on
/// the empty line between rows.
pub open spec fn rows_segs(boxes: Seq<Seq<(Seq<char>, Option<usize>)>>, widths: Seq<usize>, rows: Seq<Seq<usize>>) -> Seq<Seq<Hit>> {
    concat(Seq::new(rows.len(), |r: int| (if r > 0 { seq![Seq::<Hit>::empty()] } else { Seq::empty() })
        + Seq::new(row_height(box_lines_of(boxes), rows[r]), |l: int| row_segs(box_comps_of(boxes), widths, rows[r], l))))
}

/// The section blueprint's lines before its columns.
pub open spec fn section_head_lines(section: DdSection, w: nat) -> Seq<Seq<char>> {
    let class = match section.section_class { Some(c) => c, None => SectionClass::FullContained };
    seq![
        fitted("SECTION"@, w),
        fitted("id: "@ + section.id@, w),
        fitted("title: "@ + opt_text(section.section_title), w),
        fitted("class: "@ + section_class_name(class), w),
        fitted("items:"@, w),
    ]
}

/// The item boxes of the columns of a section; the selected column
/// (clamped to the last) is marked.
pub open spec fn section_boxes(section: DdSection, selected_column: nat, item_widths: Seq<usize>, card_ratios: Seq<Seq<usize>>) -> Seq<Seq<(Seq<char>, Option<usize>)>> {
    let cols = section.columns@;
    let active: int = if selected_column < cols.len() { selected_column as int } else { cols.len() - 1 };
    Seq::new(cols.len(), |c: int| column_box(cols[c], c == active, item_widths[c] as nat, card_ratios[c]))
}

/// Widths of the item boxes: four more than their lines.
pub open spec fn box_widths(item_widths: Seq<usize>) -> Seq<usize> {
    item_widths.map_values(|iw: usize| (iw + 4) as usize)
}

/// A line of packed item boxes fitted to `w`; the empty line between rows
/// stays empty.
pub open spec fn fitted_row_line(l: Seq<char>, w: nat) -> Seq<char> {
    if l.len() == 0 { l } else { fitted(l, w) }
}

/// The lines inside the section's outer box: the head, then the item
/// boxes packed into rows, each line fitted to `w` but for the empty lines
/// between rows.
pub open spec fn section_inner_lines(section: DdSection, selected_column: nat, w: nat, item_widths: Seq<usize>, card_ratios: Seq<Seq<usize>>) -> Seq<Seq<char>> {
    let boxes = section_boxes(section, selected_column, item_widths, card_ratios);
    let widths = box_widths(item_widths);
    section_head_lines(section, w) + rows_lines(box_lines_of(boxes), widths, packed_rows(widths, w), " "@).map_values(|l: Seq<char>| fitted_row_line(l, w))
}

/// The click targets of each line of the section blueprint.
pub open spec fn section_hits(section: DdSection, selected_column: nat, w: nat, item_widths: Seq<usize>, card_ratios: Seq<Seq<usize>>) -> Seq<Seq<Hit>> {
    let boxes = section_boxes(section, selected_column, item_widths, card_ratios);
    let widths = box_widths(item_widths);
    seq![Seq::<Hit>::empty()] + Seq::new(5, |i: int| Seq::<Hit>::empty()) + rows_segs(boxes, widths, packed_rows(widths, w)) + seq![Seq::<Hit>::empty()]
}

/// The line widths the item boxes of a section may be given: what the
/// width class of a column asks for in a section whose lines are
/// `inner` wide, between 12 and `max(inner - 6, 12)`.
pub open spec fn valid_item_width(iw: nat, inner: nat) -> bool {
    12 <= iw && (iw <= 12 || iw + 6 <= inner)
}

/// The click targets of every line of the section blueprint, given its
/// item boxes (lines and components) and their packing into rows.
fn section_hit_lines(
    boxes: &Vec<Vec<String>>,
    comps: &Vec<Vec<Option<usize>>>,
    widths: &Vec<usize>,
    rows: &Vec<Vec<usize>>,
    Ghost(sboxes): Ghost<Seq<Seq<(Seq<char>, Option<usize>)>>>,
) -> (r: Vec<Vec<Hit>>)
    requires
        box_views(boxes@) == box_lines_of(sboxes),
        comps@.map_values(|v: Vec<Option<usize>>| v@) == box_comps_of(sboxes),
        widths@.len() == boxes@.len(),
        rows_in_range(row_views(rows@), boxes@.len()),
        forall|r: int| 0 <= r < rows@.len() ==> row_span(widths@, (#[trigger] rows@[r])@, 1) <= usize::MAX / 4,
    ensures
        r@.map_values(|v: Vec<Hit>| v@) == seq![Seq::<Hit>::empty()] + Seq::new(5, |i: int| Seq::<Hit>::empty())
            + rows_segs(sboxes, widths@, row_views(rows@)) + seq![Seq::<Hit>::empty()],
{
    let ghost rv = row_views(rows@);
    let ghost blocks = Seq::new(rv.len(), |r: int| (if r > 0 { seq![Seq::<Hit>::empty()] } else { Seq::empty() })
        + Seq::new(row_height(box_lines_of(sboxes), rv[r]), |l: int| row_segs(box_comps_of(sboxes), widths@, rv[r], l)));
    let mut out: Vec<Vec<Hit>> = Vec::new();
    let mut i: usize = 0;
    while i < 6
        invariant
            i <= 6,
            out@.map_values(|v: Vec<Hit>| v@) == Seq::new(i as nat, |j: int| Seq::<Hit>::empty()),
        decreases 6 - i,
    {
        let ghost b0 = out@.map_values(|v: Vec<Hit>| v@);
        let e: Vec<Hit> = Vec::new();
        assert(e@ =~= Seq::<Hit>::empty());
        out.push(e);
        assert(out@.map_values(|v: Vec<Hit>| v@) =~= b0.push(Seq::<Hit>::empty()));
        assert(out@.map_values(|v: Vec<Hit>| v@) =~= Seq::new((i + 1) as nat, |j: int| Seq::<Hit>::empty()));
        i += 1;
    }
    let ghost start = out@.map_values(|v: Vec<Hit>| v@);
    assert(start =~= seq![Seq::<Hit>::empty()] + Seq::new(5, |i: int| Seq::<Hit>::empty()));
    let mut r: usize = 0;
    while r < rows.len()
        invariant
            r <= rows@.len(),
            rv == row_views(rows@),
            blocks == Seq::new(rv.len(), |r: int| (if r > 0 { seq![Seq::<Hit>::empty()] } else { Seq::empty() })
                + Seq::new(row_height(box_lines_of(sboxes), rv[r]), |l: int| row_segs(box_comps_of(sboxes), widths@, rv[r], l))),
            box_views(boxes@) == box_lines_of(sboxes),
            comps@.map_values(|v: Vec<Option<usize>>| v@) == box_comps_of(sboxes),
            widths@.len() == boxes@.len(),
            rows_in_range(rv, boxes@.len()),
            forall|r: int| 0 <= r < rows@.len() ==> row_span(widths@, (#[trigger] rows@[r])@, 1) <= usize::MAX / 4,
            out@.map_values(|v: Vec<Hit>| v@) == start + concat(blocks.take(r as int)),
        decreases rows@.len() - r,
    {
        let ghost before = out@.map_values(|v: Vec<Hit>| v@);
        if r > 0 {
            out.push(Vec::new());
            assert(out@.map_values(|v: Vec<Hit>| v@) =~= before.push(Seq::<Hit>::empty()));
        }
        let ghost mid = out@.map_values(|v: Vec<Hit>| v@);
        let row = &rows[r];
        assert(row@ == rv[r as int]);
        assert forall|k: int| 0 <= k < row@.len() implies (#[trigger] row@[k]) < boxes@.len() by {
            assert(rv[r as int][k] == row@[k]);
        }
        assert(comps@.len() == widths@.len()) by {
            assert(comps@.map_values(|v: Vec<Option<usize>>| v@).len() == box_comps_of(sboxes).len());
            assert(box_views(boxes@).len() == box_lines_of(sboxes).len());
        }
        let h = row_height_of(boxes, row);
        let ghost segs = Seq::new(row_height(box_lines_of(sboxes), rv[r as int]), |l: int| row_segs(box_comps_of(sboxes), widths@, rv[r as int], l));
        let mut l: usize = 0;
        while l < h
            invariant
                l <= h,
                h == segs.len(),
                r < rv.len(),
                row@ == rv[r as int],
                segs == Seq::new(row_height(box_lines_of(sboxes), rv[r as int]), |l: int| row_segs(box_comps_of(sboxes), widths@, rv[r as int], l)),
                comps@.map_values(|v: Vec<Option<usize>>| v@) == box_comps_of(sboxes),
                comps@.len() == widths@.len(),
                widths@.len() == boxes@.len(),
                forall|k: int| 0 <= k < row@.len() ==> (#[trigger] row@[k]) < boxes@.len(),
                row_span(widths@, row@, 1) <= usize::MAX / 4,
                out@.map_values(|v: Vec<Hit>| v@) == mid + segs.take(l as int),
            decreases h - l,
        {
            let seg = line_segments(comps, widths, row, l);
            let ghost b2 = out@.map_values(|v: Vec<Hit>| v@);
            out.push(seg);
            proof {
                assert(out@.map_values(|v: Vec<Hit>| v@) =~= b2.push(seg@));
                assert(segs.take(l + 1) =~= segs.take(l as int).push(segs[l as int]));
            }
            l += 1;
        }
        proof {
            assert(segs.take(h as int) =~= segs);
            lemma_concat_take(blocks, r as int);
            if r > 0 {
                assert(out@.map_values(|v: Vec<Hit>| v@) =~= before + blocks[r as int]);
            } else {
                assert(out@.map_values(|v: Vec<Hit>| v@) =~= before + blocks[r as int]);
            }
        }
        r += 1;
    }
    let ghost before = out@.map_values(|v: Vec<Hit>| v@);
    out.push(Vec::new());
    proof {
        assert(blocks.take(rv.len() as int) =~= blocks);
        assert(out@.map_values(|v: Vec<Hit>| v@) =~= before.push(Seq::<Hit>::empty()));
    }
    out
}

/// The section blueprint: id, title and class, then the item box of each
/// column with its components, boxes packed into rows that fit the panel,
/// with the click target of every line that shows a component.
/// `item_widths[c]` is the line width the width class of column `c` asks
/// for, and `card_ratios[c][k]` the one the width class of component `k` of
/// column `c` asks for inside that column's box, when it is a card.
pub fn section_ascii_map(
    section: &DdSection,
    selected_column: usize,
    panel_width: usize,
    item_widths: &Vec<usize>,
    card_ratios: &Vec<Vec<usize>>,
) -> (r: (String, Vec<Vec<Hit>>))
    requires
        panel_width <= usize::MAX / 8,
        item_widths@.len() == section.columns@.len(),
        card_ratios@.len() == section.columns@.len(),
        forall|c: int| 0 <= c < item_widths@.len()
            ==> valid_item_width(#[trigger] item_widths@[c] as nat, inner_width(panel_width as nat, 12)),
        forall|c: int| 0 <= c < card_ratios@.len()
            ==> (#[trigger] card_ratios@[c])@.len() == section.columns@[c].components@.len(),
        forall|c: int, k: int| 0 <= c < card_ratios@.len() && 0 <= k < card_ratios@[c]@.len()
            ==> #[trigger] card_ratios@[c]@[k] <= usize::MAX / 8,
    ensures
        section.columns@.len() == 0 ==> r.0@ == "(no columns)"@ && r.1@.len() == 0,
        section.columns@.len() > 0 ==> ({
            let w = inner_width(panel_width as nat, 12);
            let cr = card_ratios@.map_values(|v: Vec<usize>| v@);
            &&& r.0@ == join_lines(framed(section_inner_lines(*section, selected_column as nat, w, item_widths@, cr), w))
            &&& r.1@.map_values(|v: Vec<Hit>| v@) == section_hits(*section, selected_column as nat, w, item_widths@, cr)
        }),
{
    let w: usize = if panel_width >= 16 { panel_width - 4 } else { 12 };
    let n = section.columns.len();
    if n == 0 {
        return ("(no columns)".to_string(), Vec::new());
    }
    let active: usize = if selected_column < n { selected_column } else { n - 1 };
    let ghost cr = card_ratios@.map_values(|v: Vec<usize>| v@);
    let ghost sboxes = section_boxes(*section, selected_column as nat, item_widths@, cr);
    let mut boxes: Vec<Vec<String>> = Vec::new();
    let mut comps: Vec<Vec<Option<usize>>> = Vec::new();
    let mut widths: Vec<usize> = Vec::new();
    let mut c: usize = 0;
    while c < n
        invariant
            c <= n,
            n == section.columns@.len(),
            n == item_widths@.len(),
            n == card_ratios@.len(),
            w == inner_width(panel_width as nat, 12),
            w <= usize::MAX / 8,
            active == if selected_column < n { selected_column as int } else { n - 1 },
            cr == card_ratios@.map_values(|v: Vec<usize>| v@),
            sboxes == section_boxes(*section, selected_column as nat, item_widths@, cr),
            forall|j: int| 0 <= j < item_widths@.len()
                ==> valid_item_width(#[trigger] item_widths@[j] as nat, w as nat),
            forall|j: int| 0 <= j < card_ratios@.len()
                ==> (#[trigger] card_ratios@[j])@.len() == section.columns@[j].components@.len(),
            forall|j: int, k: int| 0 <= j < card_ratios@.len() && 0 <= k < card_ratios@[j]@.len()
                ==> #[trigger] card_ratios@[j]@[k] <= usize::MAX / 8,
            boxes@.len() == c,
            comps@.len() == c,
            widths@.len() == c,
            forall|j: int| 0 <= j < c ==> holds_box(views((#[trigger] boxes@[j])@), comps@[j]@, sboxes[j]),
            forall|j: int| 0 <= j < c ==> #[trigger] widths@[j] == item_widths@[j] + 4,
        decreases n - c,
    {
        let iw = item_widths[c];
        assert(valid_item_width(item_widths@[c as int] as nat, w as nat));
        let ratios = &card_ratios[c];
        assert forall|k: int| 0 <= k < ratios@.len() implies #[trigger] ratios@[k] <= usize::MAX / 8 by {
            assert(card_ratios@[c as int]@[k] <= usize::MAX / 8);
        }
        let (bl, bc) = column_box_lines(&section.columns[c], c == active, iw, ratios);
        assert(cr[c as int] == ratios@);
        let ghost ob = boxes@;
        let ghost oc = comps@;
        let ghost ow = widths@;
        boxes.push(bl);
        comps.push(bc);
        widths.push(iw + 4);
        proof {
            assert forall|j: int| 0 <= j < c + 1 implies holds_box(views((#[trigger] boxes@[j])@), comps@[j]@, sboxes[j]) by {
                if j < c {
                    assert(boxes@[j] == ob[j] && comps@[j] == oc[j]);
                }
            }
            assert forall|j: int| 0 <= j < c + 1 implies #[trigger] widths@[j] == item_widths@[j] + 4 by {
                if j < c {
                    assert(widths@[j] == ow[j]);
                }
            }
        }
        c += 1;
    }
    let ghost swidths = box_widths(item_widths@);
    proof {
        assert(widths@ =~= swidths);
        assert(box_views(boxes@) =~= box_lines_of(sboxes));
        assert forall|j: int| 0 <= j < n implies comps@.map_values(|v: Vec<Option<usize>>| v@)[j] == #[trigger] box_comps_of(sboxes)[j] by {
            assert(holds_box(views(boxes@[j]@), comps@[j]@, sboxes[j]));
        }
        assert(comps@.map_values(|v: Vec<Option<usize>>| v@) =~= box_comps_of(sboxes));
    }
    let rows = pack_rows(&widths, w);
    let ghost rv = row_views(rows@);
    proof {
        lemma_pack_state(widths@, w as nat);
        let st = pack_state(widths@, w as nat);
        assert forall|r: int, k: int| 0 <= r < rv.len() && 0 <= k < rv[r].len() implies (#[trigger] rv[r][k]) < boxes@.len() by {
            if r < st.0.len() {
                assert(rv[r] == st.0[r]);
            } else {
                assert(rv[r] == st.1);
            }
        }
    }
    proof {
        let st = pack_state(widths@, w as nat);
        assert forall|r: int| 0 <= r < rows@.len() implies row_span(widths@, (#[trigger] rows@[r])@, 1) <= usize::MAX / 4 by {
            let row = rows@[r]@;
            assert(row == rv[r]);
            assert(rv == packed_rows(widths@, w as nat));
            if row.len() >= 2 {
                if r < st.0.len() {
                    assert(rv[r] == st.0[r]);
                } else {
                    assert(st.1.len() > 0);
                    assert(rv == st.0.push(st.1));
                    assert(rv.len() == rows@.len());
                    assert(r == st.0.len());
                    assert(rv[r] == st.1);
                }
            } else if row.len() == 1 {
                assert(row[0] < widths@.len()) by {
                    assert(rv[r][0] == row[0]);
                }
                assert(valid_item_width(item_widths@[row[0] as int] as nat, w as nat));
            }
        }
    }
    let composed = compose_rows(&boxes, &widths, &rows, " ");
    let mut lines: Vec<String> = Vec::new();
    lines.push(fit_ascii_cell("SECTION", w));
    lines.push(fit_ascii_cell(labeled("id: ", section.id.as_str()).as_str(), w));
    lines.push(fit_ascii_cell(labeled("title: ", opt_str(&section.section_title)).as_str(), w));
    let class = match section.section_class { Some(c) => c, None => SectionClass::FullContained };
    lines.push(fit_ascii_cell(labeled("class: ", section_class_to_str(class)).as_str(), w));
    lines.push(fit_ascii_cell("items:", w));
    let ghost head = views(lines@);
    assert(head =~= section_head_lines(*section, w as nat));
    let ghost cl = views(composed@);
    let mut i: usize = 0;
    while i < composed.len()
        invariant
            i <= composed@.len(),
            cl == views(composed@),
            views(lines@) == head + cl.take(i as int).map_values(|l: Seq<char>| fitted_row_line(l, w as nat)),
        decreases composed@.len() - i,
    {
        assert(cl[i as int] == composed@[i as int]@);
        let line = if composed[i].as_str().unicode_len() == 0 {
            let e = String::new();
            assert(e@ =~= cl[i as int]);
            e
        } else {
            fit_ascii_cell(composed[i].as_str(), w)
        };
        assert(line@ == fitted_row_line(cl[i as int], w as nat));
        let ghost before = views(lines@);
        lines.push(line);
        proof {
            assert(views(lines@) =~= before.push(line@));
            assert(cl.take(i + 1).map_values(|l: Seq<char>| fitted_row_line(l, w as nat))
                =~= cl.take(i as int).map_values(|l: Seq<char>| fitted_row_line(l, w as nat)).push(fitted_row_line(cl[i as int], w as nat)));
        }
        i += 1;
    }
    assert(cl.take(cl.len() as int) =~= cl);
    assert(views(lines@) =~= section_inner_lines(*section, selected_column as nat, w as nat, item_widths@, cr));
    let framed_lines = frame_lines(&lines, w);
    let text = join_newlines(&framed_lines);
    let hits = section_hit_lines(&boxes, &comps, &widths, &rows, Ghost(sboxes));
    proof {
        assert(hits@.map_values(|v: Vec<Hit>| v@) =~= section_hits(*section, selected_column as nat, w as nat, item_widths@, cr));
    }
    (text, hits)
}

} // verus!
