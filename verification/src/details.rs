//! Clicking into the details panel: which header section, column and
//! component, or which page node, column and component, a clicked line of
//! the blueprint text stands for.
use vstd::prelude::*;
use crate::ascii_map::Hit;
use crate::search::{contains_seq, find_chars, next_index_of};
use crate::text::{chars_of, parse_usize, parsed_usize, trim_chars, trimmed, views};
use crate::tree::{Selection, TreeRowKind};

verus! {

fn contains_text(t: &Vec<char>, q: &str) -> (r: bool)
    ensures
        r == contains_seq(t@, q@),
{
    let qc = chars_of(q);
    find_chars(t, &qc).is_some()
}

/// How many of `len` lines a click on line `up_to` reads: those up to and
/// including it.
pub open spec fn lines_read(up_to: usize, len: nat) -> nat {
    if up_to < len { (up_to + 1) as nat } else { len }
}

/// Counters of the header scan: the section, column and component picked
/// so far, and how many sections, columns (of the current section) and
/// components (of the current column) were seen.
pub type HeaderScan = (nat, nat, nat, nat, nat, nat);

/// One line of the header blueprint: a `section: ` line starts a section,
/// a `column: ` line a column, another line naming a `dd-` block a
/// component (each judged on the trimmed line).
pub open spec fn header_step(st: HeaderScan, l: Seq<char>) -> HeaderScan {
    let t = trimmed(l);
    if contains_seq(t, "section: "@) {
        (st.3, 0, 0, st.3 + 1, 0, 0)
    } else if contains_seq(t, "column: "@) {
        (st.0, st.4, 0, st.3, st.4 + 1, 0)
    } else if contains_seq(t, "dd-"@) && !contains_seq(t, "section:"@) {
        (st.0, st.1, st.5, st.3, st.4, st.5 + 1)
    } else {
        st
    }
}

/// The header scan over `lines`, in order.
pub open spec fn header_scan(lines: Seq<Seq<char>>) -> HeaderScan
    decreases lines.len(),
{
    if lines.len() == 0 {
        (0, 0, 0, 0, 0, 0)
    } else {
        header_step(header_scan(lines.drop_last()), lines.last())
    }
}

/// The header section, column and component that a click on line `up_to`
/// of the header blueprint picks (all 0 before the first section line).
pub fn select_header_from_details_lines(lines: &Vec<String>, up_to: usize) -> (r: (usize, usize, usize))
    ensures
        ({
            let st = header_scan(views(lines@).take(lines_read(up_to, lines@.len()) as int));
            r.0 as nat == st.0 && r.1 as nat == st.1 && r.2 as nat == st.2
        }),
{
    let n = if up_to < lines.len() { up_to + 1 } else { lines.len() };
    let mut sec: usize = 0;
    let mut col: usize = 0;
    let mut comp: usize = 0;
    let mut secs: usize = 0;
    let mut cols: usize = 0;
    let mut comps: usize = 0;
    let mut i: usize = 0;
    while i < n
        invariant
            n <= lines@.len(),
            i <= n,
            secs <= i && cols <= i && comps <= i,
            header_scan(views(lines@).take(i as int))
                == (sec as nat, col as nat, comp as nat, secs as nat, cols as nat, comps as nat),
        decreases n - i,
    {
        let l = chars_of(lines[i].as_str());
        let t = trim_chars(l.as_slice());
        proof {
            assert(views(lines@).take(i + 1).drop_last() =~= views(lines@).take(i as int));
            assert(views(lines@).take(i + 1).last() == lines@[i as int]@);
        }
        if contains_text(&t, "section: ") {
            sec = secs;
            secs += 1;
            col = 0;
            cols = 0;
            comp = 0;
            comps = 0;
        } else if contains_text(&t, "column: ") {
            col = cols;
            cols += 1;
            comp = 0;
            comps = 0;
        } else if contains_text(&t, "dd-") && !contains_text(&t, "section:") {
            comp = comps;
            comps += 1;
        }
        i += 1;
    }
    (sec, col, comp)
}

/// The number written between the first `[` of a line and the next `]`
/// (surrounding whitespace ignored), if it parses.
pub open spec fn bracket_number(l: Seq<char>) -> Option<nat> {
    match next_index_of(l, '[', 0) {
        None => None,
        Some(br) => {
            let rest = l.skip(br + 1);
            match next_index_of(rest, ']', 0) {
                None => None,
                Some(er) => parsed_usize(trimmed(rest.take(er))),
            }
        },
    }
}

/// Counters of the page scan: the node picked so far (none before the
/// first node line), the column and component picked, and how many
/// columns and components were seen since.
pub type PageScan = (Option<nat>, nat, nat, nat, nat);

/// One line of the page blueprint: a `[<n>] dd-hero` or `dd-section` line
/// starts node `n - 1`; after a node, an `item: ` or ` column: ` line
/// starts a column and a line naming another `dd-` block a component.
pub open spec fn page_step(st: PageScan, l: Seq<char>) -> PageScan {
    let st1 = match bracket_number(l) {
        Some(k) => if contains_seq(l, "dd-hero"@) || contains_seq(l, "dd-section"@) {
            (Some(if k == 0 { 0 } else { (k - 1) as nat }), 0, 0, 0, 0)
        } else {
            st
        },
        None => st,
    };
    if st1.0 is Some {
        let t = trimmed(l);
        let st2 = if contains_seq(t, "item: "@) || contains_seq(t, " column: "@) {
            (st1.0, st1.3, 0, st1.3 + 1, 0)
        } else {
            st1
        };
        if contains_seq(t, "dd-"@) && !contains_seq(t, "dd-section"@) && !contains_seq(t, "dd-hero"@) {
            (st2.0, st2.1, st2.4, st2.3, st2.4 + 1)
        } else {
            st2
        }
    } else {
        st1
    }
}

/// The page scan over `lines`, in order.
pub open spec fn page_scan(lines: Seq<Seq<char>>) -> PageScan
    decreases lines.len(),
{
    if lines.len() == 0 {
        (None, 0, 0, 0, 0)
    } else {
        page_step(page_scan(lines.drop_last()), lines.last())
    }
}

fn index_of(t: &[char], c: char, from: usize) -> (r: Option<usize>)
    requires
        from <= t@.len(),
    ensures
        match r {
            Some(i) => next_index_of(t@, c, from as int) == Some(i as int) && from <= i < t@.len(),
            None => next_index_of(t@, c, from as int) is None,
        },
{
    let mut i = from;
    while i < t.len()
        invariant
            from <= i <= t@.len(),
            next_index_of(t@, c, from as int) == next_index_of(t@, c, i as int),
        decreases t@.len() - i,
    {
        if t[i] == c {
            return Some(i);
        }
        i += 1;
    }
    None
}

proof fn lemma_next_index_shift(t: Seq<char>, c: char, k: int, from: int)
    requires
        0 <= k <= t.len(),
        0 <= from,
    ensures
        next_index_of(t.skip(k), c, from) == match next_index_of(t, c, from + k) {
            Some(i) => Some(i - k),
            None => None::<int>,
        },
    decreases t.len() - k - from,
{
    if from < t.len() - k {
        assert(t.skip(k)[from] == t[from + k]);
        lemma_next_index_shift(t, c, k, from + 1);
    }
}

fn bracket_number_of(l: &Vec<char>) -> (r: Option<usize>)
    ensures
        match bracket_number(l@) {
            Some(k) => r == Some(k as usize),
            None => r is None,
        },
{
    let len = l.len();
    let br = match index_of(l.as_slice(), '[', 0) {
        Some(b) => b,
        None => return None,
    };
    assert(br < len);
    proof {
        lemma_next_index_shift(l@, ']', br + 1, 0);
    }
    let er = match index_of(l.as_slice(), ']', br + 1) {
        Some(e) => e,
        None => return None,
    };
    let mut inner: Vec<char> = Vec::new();
    let mut k = br + 1;
    while k < er
        invariant
            br + 1 <= k <= er,
            er < l@.len(),
            inner@ == l@.subrange(br + 1, k as int),
        decreases er - k,
    {
        inner.push(l[k]);
        k += 1;
    }
    assert(inner@ =~= l@.skip(br + 1).take(er - (br + 1)));
    let t = trim_chars(inner.as_slice());
    parse_usize(t.as_slice())
}

/// The node, column and component picked by a click on line `up_to` of the
/// page blueprint, before the hit areas are looked at: the node of the
/// last node line at or above it, if any.
pub fn page_scan_lines(lines: &Vec<String>, up_to: usize) -> (r: (Option<usize>, usize, usize))
    ensures
        ({
            let st = page_scan(views(lines@).take(lines_read(up_to, lines@.len()) as int));
            &&& (st.0 is None <==> r.0 is None)
            &&& r.0 matches Some(k) ==> st.0 == Some(k as nat)
            &&& r.1 as nat == st.1 && r.2 as nat == st.2
        }),
{
    let n = if up_to < lines.len() { up_to + 1 } else { lines.len() };
    let mut node: Option<usize> = None;
    let mut col: usize = 0;
    let mut comp: usize = 0;
    let mut cols: usize = 0;
    let mut comps: usize = 0;
    let mut i: usize = 0;
    while i < n
        invariant
            n <= lines@.len(),
            i <= n,
            cols <= i && comps <= i,
            ({
                let st = page_scan(views(lines@).take(i as int));
                &&& (st.0 is None <==> node is None)
                &&& node matches Some(k) ==> st.0 == Some(k as nat)
                &&& st.1 == col as nat && st.2 == comp as nat && st.3 == cols as nat && st.4 == comps as nat
            }),
        decreases n - i,
    {
        let l = chars_of(lines[i].as_str());
        proof {
            assert(views(lines@).take(i + 1).drop_last() =~= views(lines@).take(i as int));
            assert(views(lines@).take(i + 1).last() == lines@[i as int]@);
        }
        match bracket_number_of(&l) {
            Some(k) => {
                if contains_text(&l, "dd-hero") || contains_text(&l, "dd-section") {
                    node = Some(if k == 0 { 0 } else { k - 1 });
                    col = 0;
                    comp = 0;
                    cols = 0;
                    comps = 0;
                }
            },
            None => {},
        }
        if node.is_some() {
            let t = trim_chars(l.as_slice());
            if contains_text(&t, "item: ") || contains_text(&t, " column: ") {
                col = cols;
                cols += 1;
                comps = 0;
                comp = 0;
            }
            if contains_text(&t, "dd-") && !contains_text(&t, "dd-section") && !contains_text(&t, "dd-hero") {
                comp = comps;
                comps += 1;
            }
        }
        i += 1;
    }
    (node, col, comp)
}

/// The first hit area of a line that holds column `x`.
pub open spec fn hit_at(segs: Seq<Hit>, x: usize) -> Option<Hit>
    decreases segs.len(),
{
    if segs.len() == 0 {
        None
    } else if segs[0].0 <= x && x < segs[0].1 {
        Some(segs[0])
    } else {
        hit_at(segs.skip(1), x)
    }
}

fn find_hit(segs: &Vec<Hit>, x: usize) -> (r: Option<Hit>)
    ensures
        r == hit_at(segs@, x),
{
    let mut i: usize = 0;
    assert(segs@.skip(0) =~= segs@);
    while i < segs.len()
        invariant
            i <= segs@.len(),
            hit_at(segs@, x) == hit_at(segs@.skip(i as int), x),
        decreases segs@.len() - i,
    {
        let s = segs[i];
        assert(segs@.skip(i as int)[0] == segs@[i as int]);
        assert(segs@.skip(i as int).skip(1) =~= segs@.skip(i + 1));
        if s.0 <= x && x < s.1 {
            return Some(s);
        }
        i += 1;
    }
    None
}

/// The page selection `(node, column, component)` after a click at column
/// `x` of line `up_to`: the scanned node with its column and component
/// when that node exists; then, when the click falls in a component's hit
/// area, that column and component of the scanned node (or else the
/// selected node), when that node exists.
pub open spec fn page_pick(lines: Seq<Seq<char>>, up_to: usize, x: usize, hits: Seq<Seq<Hit>>,
    node_count: nat, current: (usize, usize, usize)) -> (nat, nat, nat) {
    let st = page_scan(lines.take(lines_read(up_to, lines.len()) as int));
    let after_scan = match st.0 {
        Some(k) => if k < node_count { (k, st.1, st.2) } else { (current.0 as nat, current.1 as nat, current.2 as nat) },
        None => (current.0 as nat, current.1 as nat, current.2 as nat),
    };
    if up_to < hits.len() {
        match hit_at(hits[up_to as int], x) {
            Some(h) => {
                let k = match st.0 { Some(k) => k, None => current.0 as nat };
                if k < node_count { (k, h.2 as nat, h.3 as nat) } else { after_scan }
            },
            None => after_scan,
        }
    } else {
        after_scan
    }
}

/// Where a click at column `x` of line `up_to` of the page blueprint puts
/// the page selection (see `page_pick`); `hits` are the blueprint's hit
/// areas per line.
pub fn select_page_from_details_lines(lines: &Vec<String>, up_to: usize, x: usize, hits: &Vec<Vec<Hit>>,
    node_count: usize, current: (usize, usize, usize)) -> (r: (usize, usize, usize))
    ensures
        ({
            let p = page_pick(views(lines@), up_to, x, hits@.map_values(|v: Vec<Hit>| v@), node_count as nat, current);
            r.0 as nat == p.0 && r.1 as nat == p.1 && r.2 as nat == p.2
        }),
{
    let (node, col, comp) = page_scan_lines(lines, up_to);
    let ghost hv = hits@.map_values(|v: Vec<Hit>| v@);
    let ghost st = page_scan(views(lines@).take(lines_read(up_to, lines@.len()) as int));
    proof {
        assert(views(lines@).len() == lines@.len());
        assert(hv.len() == hits@.len());
    }
    let after_scan = match node {
        Some(k) => if k < node_count { (k, col, comp) } else { current },
        None => current,
    };
    if up_to < hits.len() {
        let h = find_hit(&hits[up_to], x);
        proof {
            assert(hv[up_to as int] == hits@[up_to as int]@);
        }
        match h {
            Some(h) => {
                let k = match node { Some(k) => k, None => current.0 };
                if k < node_count { (k, h.2, h.3) } else { after_scan }
            },
            None => after_scan,
        }
    } else {
        after_scan
    }
}

/// Which tree rows stand for the clicked element: the header root, the
/// selected header section, column and component, and the selected page
/// node, with its column `col` and component `comp`.
pub open spec fn click_row_matches(row: TreeRowKind, s: Selection, col: usize, comp: usize) -> bool {
    match row {
        TreeRowKind::HeaderRoot => true,
        TreeRowKind::HeaderSection { section_idx } => section_idx == s.selected_header_section,
        TreeRowKind::HeaderColumn { section_idx, column_idx } =>
            section_idx == s.selected_header_section && column_idx == s.selected_header_column,
        TreeRowKind::HeaderComponent { section_idx, column_idx, component_idx } =>
            section_idx == s.selected_header_section && column_idx == s.selected_header_column
                && component_idx == s.selected_header_component,
        TreeRowKind::Hero { node_idx } | TreeRowKind::Section { node_idx } => node_idx == s.selected_node,
        TreeRowKind::Column { node_idx, column_idx } => node_idx == s.selected_node && column_idx == col,
        TreeRowKind::Component { node_idx, column_idx, component_idx } =>
            node_idx == s.selected_node && column_idx == col && component_idx == comp,
        _ => false,
    }
}

/// The column and component a clicked line narrows the tree row to: none
/// (`usize::MAX`) on a node or header line (`[` with `dd-hero`,
/// `dd-section` or `dd-header`), no component on a column or item line,
/// else the selected ones.
pub open spec fn click_depth(line: Seq<char>, s: Selection) -> (usize, usize) {
    if contains_seq(line, "["@) && (contains_seq(line, "dd-hero"@) || contains_seq(line, "dd-section"@)
        || contains_seq(line, "dd-header"@)) {
        (usize::MAX, usize::MAX)
    } else if contains_seq(line, "column: "@) || contains_seq(line, "item: "@) {
        (s.selected_column, usize::MAX)
    } else {
        (s.selected_column, s.selected_component)
    }
}

/// The tree row to select after a click on `line`: the last row standing
/// for the clicked element (see `click_row_matches`), if any.
pub fn clicked_tree_row(rows: &Vec<TreeRowKind>, s: &Selection, line: &str) -> (r: Option<usize>)
    ensures
        ({
            let d = click_depth(line@, *s);
            match r {
                Some(i) => i < rows@.len() && click_row_matches(rows@[i as int], *s, d.0, d.1)
                    && forall|k: int| i < k < rows@.len() ==> !click_row_matches(#[trigger] rows@[k], *s, d.0, d.1),
                None => forall|k: int| 0 <= k < rows@.len() ==> !click_row_matches(#[trigger] rows@[k], *s, d.0, d.1),
            }
        }),
{
    let l = chars_of(line);
    let (col, comp) = if contains_text(&l, "[") && (contains_text(&l, "dd-hero") || contains_text(&l, "dd-section") || contains_text(&l, "dd-header")) {
        (usize::MAX, usize::MAX)
    } else if contains_text(&l, "column: ") || contains_text(&l, "item: ") {
        (s.selected_column, usize::MAX)
    } else {
        (s.selected_column, s.selected_component)
    };
    assert((col, comp) == click_depth(line@, *s));
    let mut i = rows.len();
    while i > 0
        invariant
            i <= rows@.len(),
            (col, comp) == click_depth(line@, *s),
            forall|k: int| i <= k < rows@.len() ==> !click_row_matches(#[trigger] rows@[k], *s, col, comp),
        decreases i,
    {
        let row = rows[i - 1];
        let m = match row {
            TreeRowKind::HeaderRoot => true,
            TreeRowKind::HeaderSection { section_idx } => section_idx == s.selected_header_section,
            TreeRowKind::HeaderColumn { section_idx, column_idx } =>
                section_idx == s.selected_header_section && column_idx == s.selected_header_column,
            TreeRowKind::HeaderComponent { section_idx, column_idx, component_idx } =>
                section_idx == s.selected_header_section && column_idx == s.selected_header_column
                    && component_idx == s.selected_header_component,
            TreeRowKind::Hero { node_idx } | TreeRowKind::Section { node_idx } => node_idx == s.selected_node,
            TreeRowKind::Column { node_idx, column_idx } => node_idx == s.selected_node && column_idx == col,
            TreeRowKind::Component { node_idx, column_idx, component_idx } =>
                node_idx == s.selected_node && column_idx == col && component_idx == comp,
            _ => false,
        };
        assert(m == click_row_matches(row, *s, col, comp));
        if m {
            return Some(i - 1);
        }
        i -= 1;
    }
    None
}

} // verus!
