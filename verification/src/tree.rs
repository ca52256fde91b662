//! The structure tree of the left panel: which rows it shows for a page,
//! the header or the footer, which parts are folded, and how the selected
//! row and the selected element follow each other.
use vstd::prelude::*;
use crate::ascii_map::{concat, lemma_concat_take};
use crate::site::{DdFooter, DdHeader, DdSection, Page, PageNode, SectionColumn, SectionComponent};

verus! {

/// What a row of the structure tree stands for.
#[derive(Clone, Copy, Debug, PartialEq, Eq, Structural)]
pub enum TreeRowKind {
    HeaderRoot,
    HeaderSection { section_idx: usize },
    HeaderColumn { section_idx: usize, column_idx: usize },
    HeaderComponent { section_idx: usize, column_idx: usize, component_idx: usize },
    FooterRoot,
    FooterSection { section_idx: usize },
    FooterColumn { section_idx: usize, column_idx: usize },
    FooterComponent { section_idx: usize, column_idx: usize, component_idx: usize },
    PageHead,
    Hero { node_idx: usize },
    Section { node_idx: usize },
    Column { node_idx: usize, column_idx: usize },
    Component { node_idx: usize, column_idx: usize, component_idx: usize },
    AccordionItem { node_idx: usize, column_idx: usize, component_idx: usize, item_idx: usize },
    AlternatingItem { node_idx: usize, column_idx: usize, component_idx: usize, item_idx: usize },
    CardItem { node_idx: usize, column_idx: usize, component_idx: usize, item_idx: usize },
    FilmstripItem { node_idx: usize, column_idx: usize, component_idx: usize, item_idx: usize },
    MilestonesItem { node_idx: usize, column_idx: usize, component_idx: usize, item_idx: usize },
    SliderItem { node_idx: usize, column_idx: usize, component_idx: usize, item_idx: usize },
}

/// The components whose items the tree can list.
#[derive(Clone, Copy, Debug, PartialEq, Eq, Structural)]
pub enum ItemsKind {
    Accordion,
    Alternating,
    Card,
    Filmstrip,
    Milestones,
    Slider,
}

/// Which parts of the tree are folded. Page sections and the item lists
/// of components are open unless listed here, by (page, node[, column,
/// component]); a header section is open only when listed, as
/// `(usize::MAX, section)` among `sections`.
pub struct Expansion {
    pub sections: Vec<(usize, usize)>,
    pub accordion_items: Vec<(usize, usize, usize, usize)>,
    pub alternating_items: Vec<(usize, usize, usize, usize)>,
    pub card_items: Vec<(usize, usize, usize, usize)>,
    pub filmstrip_items: Vec<(usize, usize, usize, usize)>,
    pub milestones_items: Vec<(usize, usize, usize, usize)>,
    pub slider_items: Vec<(usize, usize, usize, usize)>,
    pub header_column_expanded: bool,
}

/// The folded item lists of one kind.
pub open spec fn folded_items(e: Expansion, kind: ItemsKind) -> Seq<(usize, usize, usize, usize)> {
    match kind {
        ItemsKind::Accordion => e.accordion_items@,
        ItemsKind::Alternating => e.alternating_items@,
        ItemsKind::Card => e.card_items@,
        ItemsKind::Filmstrip => e.filmstrip_items@,
        ItemsKind::Milestones => e.milestones_items@,
        ItemsKind::Slider => e.slider_items@,
    }
}

/// Whether section `node` of page `page` shows its columns.
pub open spec fn section_open(e: Expansion, page: usize, node: usize) -> bool {
    !e.sections@.contains((page, node))
}

/// Whether header section `section` shows its columns.
pub open spec fn header_section_open(e: Expansion, section: usize) -> bool {
    e.sections@.contains((usize::MAX, section))
}

/// Whether the items of a component are listed.
pub open spec fn items_open(e: Expansion, kind: ItemsKind, page: usize, node: usize, col: usize, comp: usize) -> bool {
    !folded_items(e, kind).contains((page, node, col, comp))
}

fn contains_pair(v: &Vec<(usize, usize)>, k: (usize, usize)) -> (r: bool)
    ensures
        r == v@.contains(k),
{
    let mut i: usize = 0;
    while i < v.len()
        invariant
            i <= v@.len(),
            forall|j: int| 0 <= j < i ==> v@[j] != k,
        decreases v@.len() - i,
    {
        if v[i].0 == k.0 && v[i].1 == k.1 {
            assert(v@[i as int] == k);
            return true;
        }
        i += 1;
    }
    false
}

fn contains_quad(v: &Vec<(usize, usize, usize, usize)>, k: (usize, usize, usize, usize)) -> (r: bool)
    ensures
        r == v@.contains(k),
{
    let mut i: usize = 0;
    while i < v.len()
        invariant
            i <= v@.len(),
            forall|j: int| 0 <= j < i ==> v@[j] != k,
        decreases v@.len() - i,
    {
        if v[i].0 == k.0 && v[i].1 == k.1 && v[i].2 == k.2 && v[i].3 == k.3 {
            assert(v@[i as int] == k);
            return true;
        }
        i += 1;
    }
    false
}

/// Adds `k` to the set `v` (`present`) or takes it out (`!present`).
fn set_pair(v: &mut Vec<(usize, usize)>, k: (usize, usize), present: bool)
    ensures
        forall|x: (usize, usize)| #[trigger] final(v)@.contains(x) <==> (if x == k { present } else { old(v)@.contains(x) }),
{
    if present {
        if !contains_pair(v, k) {
            v.push(k);
            assert forall|x: (usize, usize)| #[trigger] v@.contains(x) <==> (if x == k { present } else { old(v)@.contains(x) }) by {
                if x != k && v@.contains(x) {
                    let j = choose|j: int| 0 <= j < v@.len() && v@[j] == x;
                    assert(old(v)@[j] == x);
                }
                if old(v)@.contains(x) {
                    let j = choose|j: int| 0 <= j < old(v)@.len() && old(v)@[j] == x;
                    assert(v@[j] == x);
                }
                if x == k {
                    assert(v@[v@.len() - 1] == k);
                }
            }
        }
    } else {
        let mut kept: Vec<(usize, usize)> = Vec::new();
        let mut i: usize = 0;
        while i < v.len()
            invariant
                i <= v@.len(),
                v@ == old(v)@,
                forall|x: (usize, usize)| #[trigger] kept@.contains(x) <==> (x != k && old(v)@.take(i as int).contains(x)),
            decreases v@.len() - i,
        {
            let e = v[i];
            let ghost before = kept@;
            if !(e.0 == k.0 && e.1 == k.1) {
                kept.push(e);
            }
            assert forall|x: (usize, usize)| #[trigger] kept@.contains(x) <==> (x != k && old(v)@.take(i + 1).contains(x)) by {
                let t = old(v)@.take(i + 1);
                assert(t =~= old(v)@.take(i as int).push(e));
                if kept@.contains(x) {
                    let j = choose|j: int| 0 <= j < kept@.len() && kept@[j] == x;
                    if j < before.len() {
                        assert(before[j] == x);
                        assert(before.contains(x));
                        let w = choose|w: int| 0 <= w < i && old(v)@.take(i as int)[w] == x;
                        assert(t[w] == x);
                    } else {
                        assert(t[i as int] == x);
                    }
                }
                if x != k && t.contains(x) {
                    let w = choose|w: int| 0 <= w < t.len() && t[w] == x;
                    if w < i {
                        assert(old(v)@.take(i as int)[w] == x);
                        assert(before.contains(x));
                        let j = choose|j: int| 0 <= j < before.len() && before[j] == x;
                        assert(kept@[j] == x);
                    } else {
                        assert(kept@[kept@.len() - 1] == x);
                    }
                }
            }
            i += 1;
        }
        assert(old(v)@.take(old(v)@.len() as int) =~= old(v)@);
        *v = kept;
    }
}

/// Adds `k` to the set `v` (`present`) or takes it out (`!present`).
fn set_quad(v: &mut Vec<(usize, usize, usize, usize)>, k: (usize, usize, usize, usize), present: bool)
    ensures
        forall|x: (usize, usize, usize, usize)| #[trigger] final(v)@.contains(x) <==> (if x == k { present } else { old(v)@.contains(x) }),
{
    if present {
        if !contains_quad(v, k) {
            v.push(k);
            assert forall|x: (usize, usize, usize, usize)| #[trigger] v@.contains(x) <==> (if x == k { present } else { old(v)@.contains(x) }) by {
                if x != k && v@.contains(x) {
                    let j = choose|j: int| 0 <= j < v@.len() && v@[j] == x;
                    assert(old(v)@[j] == x);
                }
                if old(v)@.contains(x) {
                    let j = choose|j: int| 0 <= j < old(v)@.len() && old(v)@[j] == x;
                    assert(v@[j] == x);
                }
                if x == k {
                    assert(v@[v@.len() - 1] == k);
                }
            }
        }
    } else {
        let mut kept: Vec<(usize, usize, usize, usize)> = Vec::new();
        let mut i: usize = 0;
        while i < v.len()
            invariant
                i <= v@.len(),
                v@ == old(v)@,
                forall|x: (usize, usize, usize, usize)| #[trigger] kept@.contains(x) <==> (x != k && old(v)@.take(i as int).contains(x)),
            decreases v@.len() - i,
        {
            let e = v[i];
            let ghost before = kept@;
            if !(e.0 == k.0 && e.1 == k.1 && e.2 == k.2 && e.3 == k.3) {
                kept.push(e);
            }
            assert forall|x: (usize, usize, usize, usize)| #[trigger] kept@.contains(x) <==> (x != k && old(v)@.take(i + 1).contains(x)) by {
                let t = old(v)@.take(i + 1);
                assert(t =~= old(v)@.take(i as int).push(e));
                if kept@.contains(x) {
                    let j = choose|j: int| 0 <= j < kept@.len() && kept@[j] == x;
                    if j < before.len() {
                        assert(before[j] == x);
                        assert(before.contains(x));
                        let w = choose|w: int| 0 <= w < i && old(v)@.take(i as int)[w] == x;
                        assert(t[w] == x);
                    } else {
                        assert(t[i as int] == x);
                    }
                }
                if x != k && t.contains(x) {
                    let w = choose|w: int| 0 <= w < t.len() && t[w] == x;
                    if w < i {
                        assert(old(v)@.take(i as int)[w] == x);
                        assert(before.contains(x));
                        let j = choose|j: int| 0 <= j < before.len() && before[j] == x;
                        assert(kept@[j] == x);
                    } else {
                        assert(kept@[kept@.len() - 1] == x);
                    }
                }
            }
            i += 1;
        }
        assert(old(v)@.take(old(v)@.len() as int) =~= old(v)@);
        *v = kept;
    }
}

impl Expansion {
    /// The tree as the editor starts: every page section and item list
    /// open, the header open, none of its sections open.
    pub fn new() -> (r: Expansion)
        ensures
            r.sections@.len() == 0,
            forall|k: ItemsKind| folded_items(r, k).len() == 0,
            r.header_column_expanded,
            forall|p: usize, n: usize| #[trigger] section_open(r, p, n),
            forall|s: usize| !#[trigger] header_section_open(r, s),
            forall|k: ItemsKind, p: usize, n: usize, c: usize, m: usize| #[trigger] items_open(r, k, p, n, c, m),
    {
        Expansion {
            sections: Vec::new(),
            accordion_items: Vec::new(),
            alternating_items: Vec::new(),
            card_items: Vec::new(),
            filmstrip_items: Vec::new(),
            milestones_items: Vec::new(),
            slider_items: Vec::new(),
            header_column_expanded: true,
        }
    }

    /// Whether section `node_idx` of page `page` shows its columns.
    pub fn is_section_expanded(&self, page: usize, node_idx: usize) -> (r: bool)
        ensures
            r == section_open(*self, page, node_idx),
    {
        !contains_pair(&self.sections, (page, node_idx))
    }

    /// Opens or folds section `node_idx` of page `page`.
    pub fn set_section_expanded(&mut self, page: usize, node_idx: usize, expanded: bool)
        ensures
            forall|p: usize, n: usize| #[trigger] section_open(*final(self), p, n)
                == if p == page && n == node_idx { expanded } else { section_open(*old(self), p, n) },
            forall|s: usize| #[trigger] header_section_open(*final(self), s)
                == if page == usize::MAX && s == node_idx { !expanded } else { header_section_open(*old(self), s) },
            forall|k: ItemsKind| #[trigger] folded_items(*final(self), k) == folded_items(*old(self), k),
            final(self).header_column_expanded == old(self).header_column_expanded,
    {
        set_pair(&mut self.sections, (page, node_idx), !expanded);
    }

    /// Whether header section `section_idx` shows its columns.
    pub fn is_header_section_expanded(&self, section_idx: usize) -> (r: bool)
        ensures
            r == header_section_open(*self, section_idx),
    {
        contains_pair(&self.sections, (usize::MAX, section_idx))
    }

    /// Opens or folds header section `section_idx`.
    pub fn set_header_section_expanded(&mut self, section_idx: usize, expanded: bool)
        ensures
            forall|s: usize| #[trigger] header_section_open(*final(self), s)
                == if s == section_idx { expanded } else { header_section_open(*old(self), s) },
            forall|p: usize, n: usize| #[trigger] section_open(*final(self), p, n)
                == if p == usize::MAX && n == section_idx { !expanded } else { section_open(*old(self), p, n) },
            forall|k: ItemsKind| #[trigger] folded_items(*final(self), k) == folded_items(*old(self), k),
            final(self).header_column_expanded == old(self).header_column_expanded,
    {
        set_pair(&mut self.sections, (usize::MAX, section_idx), expanded);
    }

    /// Whether the items of a component are listed.
    pub fn is_items_expanded(&self, kind: ItemsKind, page: usize, node_idx: usize, column_idx: usize, component_idx: usize) -> (r: bool)
        ensures
            r == items_open(*self, kind, page, node_idx, column_idx, component_idx),
    {
        let key = (page, node_idx, column_idx, component_idx);
        let folded = match kind {
            ItemsKind::Accordion => contains_quad(&self.accordion_items, key),
            ItemsKind::Alternating => contains_quad(&self.alternating_items, key),
            ItemsKind::Card => contains_quad(&self.card_items, key),
            ItemsKind::Filmstrip => contains_quad(&self.filmstrip_items, key),
            ItemsKind::Milestones => contains_quad(&self.milestones_items, key),
            ItemsKind::Slider => contains_quad(&self.slider_items, key),
        };
        !folded
    }

    /// Lists or folds the items of a component.
    pub fn set_items_expanded(&mut self, kind: ItemsKind, page: usize, node_idx: usize, column_idx: usize, component_idx: usize, expanded: bool)
        ensures
            forall|k: ItemsKind, p: usize, n: usize, c: usize, m: usize| #[trigger] items_open(*final(self), k, p, n, c, m)
                == if k == kind && p == page && n == node_idx && c == column_idx && m == component_idx {
                    expanded
                } else {
                    items_open(*old(self), k, p, n, c, m)
                },
            final(self).sections@ == old(self).sections@,
            final(self).header_column_expanded == old(self).header_column_expanded,
    {
        let key = (page, node_idx, column_idx, component_idx);
        match kind {
            ItemsKind::Accordion => set_quad(&mut self.accordion_items, key, !expanded),
            ItemsKind::Alternating => set_quad(&mut self.alternating_items, key, !expanded),
            ItemsKind::Card => set_quad(&mut self.card_items, key, !expanded),
            ItemsKind::Filmstrip => set_quad(&mut self.filmstrip_items, key, !expanded),
            ItemsKind::Milestones => set_quad(&mut self.milestones_items, key, !expanded),
            ItemsKind::Slider => set_quad(&mut self.slider_items, key, !expanded),
        }
    }
}

/// The row of item `i` of a component's item list.
pub open spec fn item_row(kind: ItemsKind, node: usize, col: usize, comp: usize, i: usize) -> TreeRowKind {
    match kind {
        ItemsKind::Accordion => TreeRowKind::AccordionItem { node_idx: node, column_idx: col, component_idx: comp, item_idx: i },
        ItemsKind::Alternating => TreeRowKind::AlternatingItem { node_idx: node, column_idx: col, component_idx: comp, item_idx: i },
        ItemsKind::Card => TreeRowKind::CardItem { node_idx: node, column_idx: col, component_idx: comp, item_idx: i },
        ItemsKind::Filmstrip => TreeRowKind::FilmstripItem { node_idx: node, column_idx: col, component_idx: comp, item_idx: i },
        ItemsKind::Milestones => TreeRowKind::MilestonesItem { node_idx: node, column_idx: col, component_idx: comp, item_idx: i },
        ItemsKind::Slider => TreeRowKind::SliderItem { node_idx: node, column_idx: col, component_idx: comp, item_idx: i },
    }
}

/// The kind and number of the items a component lists, if it lists any.
pub open spec fn item_list(c: SectionComponent) -> Option<(ItemsKind, nat)> {
    match c {
        SectionComponent::Accordion(a) => Some((ItemsKind::Accordion, a.items@.len())),
        SectionComponent::Alternating(a) => Some((ItemsKind::Alternating, a.items@.len())),
        SectionComponent::Card(a) => Some((ItemsKind::Card, a.items@.len())),
        SectionComponent::Filmstrip(a) => Some((ItemsKind::Filmstrip, a.items@.len())),
        SectionComponent::Milestones(a) => Some((ItemsKind::Milestones, a.items@.len())),
        SectionComponent::Slider(a) => Some((ItemsKind::Slider, a.items@.len())),
        _ => None,
    }
}

/// The rows of a component of a page section: the component, then its
/// items when it has a list that is open.
pub open spec fn component_rows(e: Expansion, page: usize, node: usize, col: usize, comp: usize, c: SectionComponent) -> Seq<TreeRowKind> {
    seq![TreeRowKind::Component { node_idx: node, column_idx: col, component_idx: comp }] + match item_list(c) {
        Some((kind, n)) => if items_open(e, kind, page, node, col, comp) {
            Seq::new(n, |i: int| item_row(kind, node, col, comp, i as usize))
        } else {
            Seq::empty()
        },
        None => Seq::empty(),
    }
}

/// The rows of a column of a page section: the column, then its components.
pub open spec fn column_rows(e: Expansion, page: usize, node: usize, col: usize, column: SectionColumn) -> Seq<TreeRowKind> {
    seq![TreeRowKind::Column { node_idx: node, column_idx: col }]
        + concat(Seq::new(column.components@.len(), |k: int| component_rows(e, page, node, col, k as usize, column.components@[k])))
}

/// The rows of a page node: a hero is one row; a section is its row, then,
/// when open, its columns.
pub open spec fn node_rows(e: Expansion, page: usize, node: usize, n: PageNode) -> Seq<TreeRowKind> {
    match n {
        PageNode::Hero(_) => seq![TreeRowKind::Hero { node_idx: node }],
        PageNode::Section(s) => seq![TreeRowKind::Section { node_idx: node }] + if section_open(e, page, node) {
            concat(Seq::new(s.columns@.len(), |c: int| column_rows(e, page, node, c as usize, s.columns@[c])))
        } else {
            Seq::empty()
        },
    }
}

/// The tree of page `page`: its head row, then the rows of its nodes.
pub open spec fn page_rows(e: Expansion, page: usize, p: Page) -> Seq<TreeRowKind> {
    seq![TreeRowKind::PageHead] + concat(Seq::new(p.nodes@.len(), |i: int| node_rows(e, page, i as usize, p.nodes@[i])))
}

fn push_component_rows(rows: &mut Vec<TreeRowKind>, e: &Expansion, page: usize, node: usize, col: usize, comp: usize, c: &SectionComponent)
    ensures
        final(rows)@ == old(rows)@ + component_rows(*e, page, node, col, comp, *c),
{
    rows.push(TreeRowKind::Component { node_idx: node, column_idx: col, component_idx: comp });
    let ghost mid = rows@;
    let (kind, n): (ItemsKind, usize) = match c {
        SectionComponent::Accordion(a) => (ItemsKind::Accordion, a.items.len()),
        SectionComponent::Alternating(a) => (ItemsKind::Alternating, a.items.len()),
        SectionComponent::Card(a) => (ItemsKind::Card, a.items.len()),
        SectionComponent::Filmstrip(a) => (ItemsKind::Filmstrip, a.items.len()),
        SectionComponent::Milestones(a) => (ItemsKind::Milestones, a.items.len()),
        SectionComponent::Slider(a) => (ItemsKind::Slider, a.items.len()),
        _ => {
            assert(rows@ =~= old(rows)@ + component_rows(*e, page, node, col, comp, *c));
            return;
        },
    };
    assert(item_list(*c) == Some((kind, n as nat)));
    if !e.is_items_expanded(kind, page, node, col, comp) {
        assert(rows@ =~= old(rows)@ + component_rows(*e, page, node, col, comp, *c));
        return;
    }
    let mut i: usize = 0;
    while i < n
        invariant
            i <= n,
            rows@ == mid + Seq::new(i as nat, |j: int| item_row(kind, node, col, comp, j as usize)),
        decreases n - i,
    {
        let r = match kind {
            ItemsKind::Accordion => TreeRowKind::AccordionItem { node_idx: node, column_idx: col, component_idx: comp, item_idx: i },
            ItemsKind::Alternating => TreeRowKind::AlternatingItem { node_idx: node, column_idx: col, component_idx: comp, item_idx: i },
            ItemsKind::Card => TreeRowKind::CardItem { node_idx: node, column_idx: col, component_idx: comp, item_idx: i },
            ItemsKind::Filmstrip => TreeRowKind::FilmstripItem { node_idx: node, column_idx: col, component_idx: comp, item_idx: i },
            ItemsKind::Milestones => TreeRowKind::MilestonesItem { node_idx: node, column_idx: col, component_idx: comp, item_idx: i },
            ItemsKind::Slider => TreeRowKind::SliderItem { node_idx: node, column_idx: col, component_idx: comp, item_idx: i },
        };
        rows.push(r);
        assert(rows@ =~= mid + Seq::new((i + 1) as nat, |j: int| item_row(kind, node, col, comp, j as usize)));
        i += 1;
    }
    assert(rows@ =~= old(rows)@ + component_rows(*e, page, node, col, comp, *c));
}

fn push_column_rows(rows: &mut Vec<TreeRowKind>, e: &Expansion, page: usize, node: usize, col: usize, column: &SectionColumn)
    ensures
        final(rows)@ == old(rows)@ + column_rows(*e, page, node, col, *column),
{
    rows.push(TreeRowKind::Column { node_idx: node, column_idx: col });
    let ghost mid = rows@;
    let ghost blocks = Seq::new(column.components@.len(), |k: int| component_rows(*e, page, node, col, k as usize, column.components@[k]));
    let mut k: usize = 0;
    while k < column.components.len()
        invariant
            k <= column.components@.len(),
            blocks == Seq::new(column.components@.len(), |k: int| component_rows(*e, page, node, col, k as usize, column.components@[k])),
            rows@ == mid + concat(blocks.take(k as int)),
        decreases column.components@.len() - k,
    {
        push_component_rows(rows, e, page, node, col, k, &column.components[k]);
        proof {
            lemma_concat_take(blocks, k as int);
        }
        k += 1;
    }
    assert(blocks.take(blocks.len() as int) =~= blocks);
    assert(rows@ =~= old(rows)@ + column_rows(*e, page, node, col, *column));
}

fn push_node_rows(rows: &mut Vec<TreeRowKind>, e: &Expansion, page: usize, node: usize, n: &PageNode)
    ensures
        final(rows)@ == old(rows)@ + node_rows(*e, page, node, *n),
{
    match n {
        PageNode::Hero(_) => {
            rows.push(TreeRowKind::Hero { node_idx: node });
            assert(rows@ =~= old(rows)@ + node_rows(*e, page, node, *n));
        },
        PageNode::Section(s) => {
            rows.push(TreeRowKind::Section { node_idx: node });
            if !e.is_section_expanded(page, node) {
                assert(rows@ =~= old(rows)@ + node_rows(*e, page, node, *n));
                return;
            }
            let ghost mid = rows@;
            let ghost blocks = Seq::new(s.columns@.len(), |c: int| column_rows(*e, page, node, c as usize, s.columns@[c]));
            let mut c: usize = 0;
            while c < s.columns.len()
                invariant
                    c <= s.columns@.len(),
                    blocks == Seq::new(s.columns@.len(), |c: int| column_rows(*e, page, node, c as usize, s.columns@[c])),
                    rows@ == mid + concat(blocks.take(c as int)),
                decreases s.columns@.len() - c,
            {
                push_column_rows(rows, e, page, node, c, &s.columns[c]);
                proof {
                    lemma_concat_take(blocks, c as int);
                }
                c += 1;
            }
            assert(blocks.take(blocks.len() as int) =~= blocks);
            assert(rows@ =~= old(rows)@ + node_rows(*e, page, node, *n));
        },
    }
}

/// The rows of the structure tree for page `selected_page` of `pages`;
/// none when there are no pages.
pub fn build_page_tree_rows(pages: &Vec<Page>, selected_page: usize, e: &Expansion) -> (r: Vec<TreeRowKind>)
    requires
        pages@.len() == 0 || selected_page < pages@.len(),
    ensures
        r@ == if pages@.len() == 0 { Seq::empty() } else { page_rows(*e, selected_page, pages@[selected_page as int]) },
{
    let mut rows: Vec<TreeRowKind> = Vec::new();
    if pages.len() == 0 {
        return rows;
    }
    let p = &pages[selected_page];
    rows.push(TreeRowKind::PageHead);
    let ghost blocks = Seq::new(p.nodes@.len(), |i: int| node_rows(*e, selected_page, i as usize, p.nodes@[i]));
    let mut i: usize = 0;
    while i < p.nodes.len()
        invariant
            i <= p.nodes@.len(),
            blocks == Seq::new(p.nodes@.len(), |i: int| node_rows(*e, selected_page, i as usize, p.nodes@[i])),
            rows@ == seq![TreeRowKind::PageHead] + concat(blocks.take(i as int)),
        decreases p.nodes@.len() - i,
    {
        push_node_rows(&mut rows, e, selected_page, i, &p.nodes[i]);
        proof {
            lemma_concat_take(blocks, i as int);
        }
        i += 1;
    }
    assert(blocks.take(blocks.len() as int) =~= blocks);
    rows
}

/// The rows of a column of a header (`footer == false`) or footer section:
/// the column, then one row per component.
pub open spec fn region_column_rows(footer: bool, s: usize, c: usize, column: SectionColumn) -> Seq<TreeRowKind> {
    seq![if footer { TreeRowKind::FooterColumn { section_idx: s, column_idx: c } } else { TreeRowKind::HeaderColumn { section_idx: s, column_idx: c } }]
        + Seq::new(column.components@.len(), |k: int| if footer {
            TreeRowKind::FooterComponent { section_idx: s, column_idx: c, component_idx: k as usize }
        } else {
            TreeRowKind::HeaderComponent { section_idx: s, column_idx: c, component_idx: k as usize }
        })
}

/// The rows of a header or footer section: its row, then, when `open`, its
/// columns.
pub open spec fn region_section_rows(footer: bool, s: usize, section: DdSection, open: bool) -> Seq<TreeRowKind> {
    seq![if footer { TreeRowKind::FooterSection { section_idx: s } } else { TreeRowKind::HeaderSection { section_idx: s } }]
        + if open {
        concat(Seq::new(section.columns@.len(), |c: int| region_column_rows(footer, s, c as usize, section.columns@[c])))
    } else {
        Seq::empty()
    }
}

/// The header tree: its root, then, when its sections are listed, each
/// section (with its columns and components when that section is open).
pub open spec fn header_rows(e: Expansion, h: DdHeader) -> Seq<TreeRowKind> {
    seq![TreeRowKind::HeaderRoot] + if e.header_column_expanded {
        concat(Seq::new(h.sections@.len(), |i: int| region_section_rows(false, i as usize, h.sections@[i], header_section_open(e, i as usize))))
    } else {
        Seq::empty()
    }
}

/// The footer tree: its root, then every section with its columns and
/// their components.
pub open spec fn footer_rows(f: DdFooter) -> Seq<TreeRowKind> {
    seq![TreeRowKind::FooterRoot]
        + concat(Seq::new(f.sections@.len(), |i: int| region_section_rows(true, i as usize, f.sections@[i], true)))
}

fn push_region_column_rows(rows: &mut Vec<TreeRowKind>, footer: bool, s: usize, c: usize, column: &SectionColumn)
    ensures
        final(rows)@ == old(rows)@ + region_column_rows(footer, s, c, *column),
{
    rows.push(if footer { TreeRowKind::FooterColumn { section_idx: s, column_idx: c } } else { TreeRowKind::HeaderColumn { section_idx: s, column_idx: c } });
    let ghost mid = rows@;
    let mut k: usize = 0;
    while k < column.components.len()
        invariant
            k <= column.components@.len(),
            rows@ == mid + Seq::new(k as nat, |j: int| if footer {
                TreeRowKind::FooterComponent { section_idx: s, column_idx: c, component_idx: j as usize }
            } else {
                TreeRowKind::HeaderComponent { section_idx: s, column_idx: c, component_idx: j as usize }
            }),
        decreases column.components@.len() - k,
    {
        rows.push(if footer {
            TreeRowKind::FooterComponent { section_idx: s, column_idx: c, component_idx: k }
        } else {
            TreeRowKind::HeaderComponent { section_idx: s, column_idx: c, component_idx: k }
        });
        assert(rows@ =~= mid + Seq::new((k + 1) as nat, |j: int| if footer {
            TreeRowKind::FooterComponent { section_idx: s, column_idx: c, component_idx: j as usize }
        } else {
            TreeRowKind::HeaderComponent { section_idx: s, column_idx: c, component_idx: j as usize }
        }));
        k += 1;
    }
    assert(rows@ =~= old(rows)@ + region_column_rows(footer, s, c, *column));
}

fn push_region_section_rows(rows: &mut Vec<TreeRowKind>, footer: bool, s: usize, section: &DdSection, open: bool)
    ensures
        final(rows)@ == old(rows)@ + region_section_rows(footer, s, *section, open),
{
    rows.push(if footer { TreeRowKind::FooterSection { section_idx: s } } else { TreeRowKind::HeaderSection { section_idx: s } });
    if !open {
        assert(rows@ =~= old(rows)@ + region_section_rows(footer, s, *section, open));
        return;
    }
    let ghost mid = rows@;
    let ghost blocks = Seq::new(section.columns@.len(), |c: int| region_column_rows(footer, s, c as usize, section.columns@[c]));
    let mut c: usize = 0;
    while c < section.columns.len()
        invariant
            c <= section.columns@.len(),
            blocks == Seq::new(section.columns@.len(), |c: int| region_column_rows(footer, s, c as usize, section.columns@[c])),
            rows@ == mid + concat(blocks.take(c as int)),
        decreases section.columns@.len() - c,
    {
        push_region_column_rows(rows, footer, s, c, &section.columns[c]);
        proof {
            lemma_concat_take(blocks, c as int);
        }
        c += 1;
    }
    assert(blocks.take(blocks.len() as int) =~= blocks);
    assert(rows@ =~= old(rows)@ + region_section_rows(footer, s, *section, open));
}

/// The rows of the header tree (see `header_rows`).
pub fn build_header_tree_rows(header: &DdHeader, e: &Expansion) -> (r: Vec<TreeRowKind>)
    ensures
        r@ == header_rows(*e, *header),
{
    let mut rows: Vec<TreeRowKind> = Vec::new();
    rows.push(TreeRowKind::HeaderRoot);
    if !e.header_column_expanded {
        assert(rows@ =~= header_rows(*e, *header));
        return rows;
    }
    let ghost blocks = Seq::new(header.sections@.len(), |i: int| region_section_rows(false, i as usize, header.sections@[i], header_section_open(*e, i as usize)));
    let mut i: usize = 0;
    while i < header.sections.len()
        invariant
            i <= header.sections@.len(),
            e.header_column_expanded,
            blocks == Seq::new(header.sections@.len(), |i: int| region_section_rows(false, i as usize, header.sections@[i], header_section_open(*e, i as usize))),
            rows@ == seq![TreeRowKind::HeaderRoot] + concat(blocks.take(i as int)),
        decreases header.sections@.len() - i,
    {
        let open = e.is_header_section_expanded(i);
        push_region_section_rows(&mut rows, false, i, &header.sections[i], open);
        proof {
            lemma_concat_take(blocks, i as int);
        }
        i += 1;
    }
    assert(blocks.take(blocks.len() as int) =~= blocks);
    rows
}

/// The rows of the footer tree (see `footer_rows`).
pub fn build_footer_tree_rows(footer: &DdFooter) -> (r: Vec<TreeRowKind>)
    ensures
        r@ == footer_rows(*footer),
{
    let mut rows: Vec<TreeRowKind> = Vec::new();
    rows.push(TreeRowKind::FooterRoot);
    let ghost blocks = Seq::new(footer.sections@.len(), |i: int| region_section_rows(true, i as usize, footer.sections@[i], true));
    let mut i: usize = 0;
    while i < footer.sections.len()
        invariant
            i <= footer.sections@.len(),
            blocks == Seq::new(footer.sections@.len(), |i: int| region_section_rows(true, i as usize, footer.sections@[i], true)),
            rows@ == seq![TreeRowKind::FooterRoot] + concat(blocks.take(i as int)),
        decreases footer.sections@.len() - i,
    {
        push_region_section_rows(&mut rows, true, i, &footer.sections[i], true);
        proof {
            lemma_concat_take(blocks, i as int);
        }
        i += 1;
    }
    assert(blocks.take(blocks.len() as int) =~= blocks);
    rows
}

/// Whether a row is an open section (page or header); other rows count as
/// closed.
pub open spec fn row_open(e: Expansion, page: usize, row: TreeRowKind) -> bool {
    match row {
        TreeRowKind::Section { node_idx } => section_open(e, page, node_idx),
        TreeRowKind::HeaderSection { section_idx } => header_section_open(e, section_idx),
        _ => false,
    }
}

/// Whether a row shows as open (see `row_open`).
pub fn tree_row_is_expanded(e: &Expansion, page: usize, row: TreeRowKind) -> (r: bool)
    ensures
        r == row_open(*e, page, row),
{
    match row {
        TreeRowKind::Section { node_idx } => e.is_section_expanded(page, node_idx),
        TreeRowKind::HeaderSection { section_idx } => e.is_header_section_expanded(section_idx),
        _ => false,
    }
}

/// What is selected in the editor: the page head, or a node, column,
/// component and item of the page; and a section, column and component of
/// the header or footer.
#[derive(Clone, Copy, Debug, PartialEq, Eq, Structural)]
pub struct Selection {
    pub page_head_selected: bool,
    pub selected_node: usize,
    pub selected_column: usize,
    pub selected_component: usize,
    pub selected_nested_item: usize,
    pub selected_header_section: usize,
    pub selected_header_column: usize,
    pub selected_header_component: usize,
}

/// The selection after choosing a tree row: the element the row stands
/// for, with the finer levels reset to their first entry.
pub open spec fn selection_for_row(s: Selection, row: TreeRowKind) -> Selection {
    let s = Selection { page_head_selected: row is PageHead, ..s };
    match row {
        TreeRowKind::HeaderRoot | TreeRowKind::FooterRoot => Selection {
            selected_header_section: 0, selected_header_column: 0, selected_header_component: 0, ..s
        },
        TreeRowKind::HeaderSection { section_idx } | TreeRowKind::FooterSection { section_idx } => Selection {
            selected_header_section: section_idx, selected_header_column: 0, selected_header_component: 0, ..s
        },
        TreeRowKind::HeaderColumn { section_idx, column_idx } | TreeRowKind::FooterColumn { section_idx, column_idx } => Selection {
            selected_header_section: section_idx, selected_header_column: column_idx, selected_header_component: 0, ..s
        },
        TreeRowKind::HeaderComponent { section_idx, column_idx, component_idx }
        | TreeRowKind::FooterComponent { section_idx, column_idx, component_idx } => Selection {
            selected_header_section: section_idx, selected_header_column: column_idx, selected_header_component: component_idx, ..s
        },
        TreeRowKind::PageHead => s,
        TreeRowKind::Hero { node_idx } | TreeRowKind::Section { node_idx } => Selection {
            selected_node: node_idx, selected_column: 0, selected_component: 0, selected_nested_item: 0, ..s
        },
        TreeRowKind::Column { node_idx, column_idx } => Selection {
            selected_node: node_idx, selected_column: column_idx, selected_component: 0, selected_nested_item: 0, ..s
        },
        TreeRowKind::Component { node_idx, column_idx, component_idx } => Selection {
            selected_node: node_idx, selected_column: column_idx, selected_component: component_idx, selected_nested_item: 0, ..s
        },
        TreeRowKind::AccordionItem { node_idx, column_idx, component_idx, item_idx }
        | TreeRowKind::AlternatingItem { node_idx, column_idx, component_idx, item_idx }
        | TreeRowKind::CardItem { node_idx, column_idx, component_idx, item_idx }
        | TreeRowKind::FilmstripItem { node_idx, column_idx, component_idx, item_idx }
        | TreeRowKind::MilestonesItem { node_idx, column_idx, component_idx, item_idx }
        | TreeRowKind::SliderItem { node_idx, column_idx, component_idx, item_idx } => Selection {
            selected_node: node_idx, selected_column: column_idx, selected_component: component_idx, selected_nested_item: item_idx, ..s
        },
    }
}

/// Selects the element a tree row stands for (see `selection_for_row`).
pub fn apply_tree_row_selection(sel: &mut Selection, row: TreeRowKind)
    ensures
        *final(sel) == selection_for_row(*old(sel), row),
{
    sel.page_head_selected = match row { TreeRowKind::PageHead => true, _ => false };
    match row {
        TreeRowKind::HeaderRoot | TreeRowKind::FooterRoot => {
            sel.selected_header_section = 0;
            sel.selected_header_column = 0;
            sel.selected_header_component = 0;
        },
        TreeRowKind::HeaderSection { section_idx } | TreeRowKind::FooterSection { section_idx } => {
            sel.selected_header_section = section_idx;
            sel.selected_header_column = 0;
            sel.selected_header_component = 0;
        },
        TreeRowKind::HeaderColumn { section_idx, column_idx } | TreeRowKind::FooterColumn { section_idx, column_idx } => {
            sel.selected_header_section = section_idx;
            sel.selected_header_column = column_idx;
            sel.selected_header_component = 0;
        },
        TreeRowKind::HeaderComponent { section_idx, column_idx, component_idx }
        | TreeRowKind::FooterComponent { section_idx, column_idx, component_idx } => {
            sel.selected_header_section = section_idx;
            sel.selected_header_column = column_idx;
            sel.selected_header_component = component_idx;
        },
        TreeRowKind::PageHead => {},
        TreeRowKind::Hero { node_idx } | TreeRowKind::Section { node_idx } => {
            sel.selected_node = node_idx;
            sel.selected_column = 0;
            sel.selected_component = 0;
            sel.selected_nested_item = 0;
        },
        TreeRowKind::Column { node_idx, column_idx } => {
            sel.selected_node = node_idx;
            sel.selected_column = column_idx;
            sel.selected_component = 0;
            sel.selected_nested_item = 0;
        },
        TreeRowKind::Component { node_idx, column_idx, component_idx } => {
            sel.selected_node = node_idx;
            sel.selected_column = column_idx;
            sel.selected_component = component_idx;
            sel.selected_nested_item = 0;
        },
        TreeRowKind::AccordionItem { node_idx, column_idx, component_idx, item_idx }
        | TreeRowKind::AlternatingItem { node_idx, column_idx, component_idx, item_idx }
        | TreeRowKind::CardItem { node_idx, column_idx, component_idx, item_idx }
        | TreeRowKind::FilmstripItem { node_idx, column_idx, component_idx, item_idx }
        | TreeRowKind::MilestonesItem { node_idx, column_idx, component_idx, item_idx }
        | TreeRowKind::SliderItem { node_idx, column_idx, component_idx, item_idx } => {
            sel.selected_node = node_idx;
            sel.selected_column = column_idx;
            sel.selected_component = component_idx;
            sel.selected_nested_item = item_idx;
        },
    }
}

/// Whether a tree row stands for what is selected.
pub open spec fn row_matches(s: Selection, row: TreeRowKind) -> bool {
    match row {
        TreeRowKind::HeaderRoot | TreeRowKind::FooterRoot => true,
        TreeRowKind::HeaderSection { section_idx } | TreeRowKind::FooterSection { section_idx } => section_idx == s.selected_header_section,
        TreeRowKind::HeaderColumn { section_idx, column_idx } | TreeRowKind::FooterColumn { section_idx, column_idx } =>
            section_idx == s.selected_header_section && column_idx == s.selected_header_column,
        TreeRowKind::HeaderComponent { section_idx, column_idx, component_idx }
        | TreeRowKind::FooterComponent { section_idx, column_idx, component_idx } =>
            section_idx == s.selected_header_section && column_idx == s.selected_header_column
                && component_idx == s.selected_header_component,
        TreeRowKind::Hero { node_idx } | TreeRowKind::Section { node_idx } => !s.page_head_selected && node_idx == s.selected_node,
        TreeRowKind::Column { node_idx, column_idx } => node_idx == s.selected_node && column_idx == s.selected_column,
        TreeRowKind::Component { node_idx, column_idx, component_idx } =>
            node_idx == s.selected_node && column_idx == s.selected_column && component_idx == s.selected_component
                && s.selected_nested_item == 0,
        TreeRowKind::AccordionItem { node_idx, column_idx, component_idx, item_idx }
        | TreeRowKind::AlternatingItem { node_idx, column_idx, component_idx, item_idx }
        | TreeRowKind::CardItem { node_idx, column_idx, component_idx, item_idx }
        | TreeRowKind::FilmstripItem { node_idx, column_idx, component_idx, item_idx }
        | TreeRowKind::MilestonesItem { node_idx, column_idx, component_idx, item_idx }
        | TreeRowKind::SliderItem { node_idx, column_idx, component_idx, item_idx } =>
            node_idx == s.selected_node && column_idx == s.selected_column && component_idx == s.selected_component
                && item_idx == s.selected_nested_item,
        TreeRowKind::PageHead => s.page_head_selected,
    }
}

/// Whether a tree row stands for what is selected (see `row_matches`).
pub fn row_matches_selection(s: &Selection, row: TreeRowKind) -> (r: bool)
    ensures
        r == row_matches(*s, row),
{
    match row {
        TreeRowKind::HeaderRoot | TreeRowKind::FooterRoot => true,
        TreeRowKind::HeaderSection { section_idx } | TreeRowKind::FooterSection { section_idx } => section_idx == s.selected_header_section,
        TreeRowKind::HeaderColumn { section_idx, column_idx } | TreeRowKind::FooterColumn { section_idx, column_idx } =>
            section_idx == s.selected_header_section && column_idx == s.selected_header_column,
        TreeRowKind::HeaderComponent { section_idx, column_idx, component_idx }
        | TreeRowKind::FooterComponent { section_idx, column_idx, component_idx } =>
            section_idx == s.selected_header_section && column_idx == s.selected_header_column
                && component_idx == s.selected_header_component,
        TreeRowKind::Hero { node_idx } | TreeRowKind::Section { node_idx } => !s.page_head_selected && node_idx == s.selected_node,
        TreeRowKind::Column { node_idx, column_idx } => node_idx == s.selected_node && column_idx == s.selected_column,
        TreeRowKind::Component { node_idx, column_idx, component_idx } =>
            node_idx == s.selected_node && column_idx == s.selected_column && component_idx == s.selected_component
                && s.selected_nested_item == 0,
        TreeRowKind::AccordionItem { node_idx, column_idx, component_idx, item_idx }
        | TreeRowKind::AlternatingItem { node_idx, column_idx, component_idx, item_idx }
        | TreeRowKind::CardItem { node_idx, column_idx, component_idx, item_idx }
        | TreeRowKind::FilmstripItem { node_idx, column_idx, component_idx, item_idx }
        | TreeRowKind::MilestonesItem { node_idx, column_idx, component_idx, item_idx }
        | TreeRowKind::SliderItem { node_idx, column_idx, component_idx, item_idx } =>
            node_idx == s.selected_node && column_idx == s.selected_column && component_idx == s.selected_component
                && item_idx == s.selected_nested_item,
        TreeRowKind::PageHead => s.page_head_selected,
    }
}

/// The tree row to highlight for the selection: the current row if it
/// still stands for the selection; else the first row that does; else the
/// current row clamped to the last. Zero for an empty tree.
pub open spec fn synced_row(rows: Seq<TreeRowKind>, s: Selection, current: nat) -> nat {
    if rows.len() == 0 {
        0
    } else if current < rows.len() && row_matches(s, rows[current as int]) {
        current
    } else if exists|i: int| 0 <= i < rows.len() && row_matches(s, #[trigger] rows[i]) {
        (choose|i: int| 0 <= i < rows.len() && row_matches(s, #[trigger] rows[i])
            && forall|j: int| 0 <= j < i ==> !row_matches(s, #[trigger] rows[j])) as nat
    } else if current < rows.len() {
        current
    } else {
        (rows.len() - 1) as nat
    }
}

/// The tree row to highlight after the selection changed (see
/// `synced_row`).
pub fn sync_tree_row_with_selection(rows: &Vec<TreeRowKind>, s: &Selection, current: usize) -> (r: usize)
    ensures
        r == synced_row(rows@, *s, current as nat),
{
    if rows.len() == 0 {
        return 0;
    }
    if current < rows.len() && row_matches_selection(s, rows[current]) {
        return current;
    }
    let mut i: usize = 0;
    while i < rows.len()
        invariant
            i <= rows@.len(),
            rows@.len() > 0,
            !(current < rows@.len() && row_matches(*s, rows@[current as int])),
            forall|j: int| 0 <= j < i ==> !row_matches(*s, #[trigger] rows@[j]),
        decreases rows@.len() - i,
    {
        if row_matches_selection(s, rows[i]) {
            proof {
                let ii = i as int;
                assert(row_matches(*s, rows@[ii]));
                assert(exists|w: int| 0 <= w < rows@.len() && row_matches(*s, #[trigger] rows@[w])
                    && forall|j: int| 0 <= j < w ==> !row_matches(*s, #[trigger] rows@[j]));
                assert(exists|w: int| 0 <= w < rows@.len() && row_matches(*s, #[trigger] rows@[w]));
                let w = choose|w: int| 0 <= w < rows@.len() && row_matches(*s, #[trigger] rows@[w])
                    && forall|j: int| 0 <= j < w ==> !row_matches(*s, #[trigger] rows@[j]);
                if w < i {
                    assert(!row_matches(*s, rows@[w]));
                } else if w > i {
                    assert(!row_matches(*s, rows@[i as int]));
                }
            }
            return i;
        }
        i += 1;
    }
    if current < rows.len() { current } else { rows.len() - 1 }
}

/// Choosing a tree row selects what the row stands for: the row then
/// matches the selection.
pub proof fn law_selected_row_matches(s: Selection, row: TreeRowKind)
    ensures
        row_matches(selection_for_row(s, row), row),
{
}

/// A tree row chosen at `current` stays highlighted when the highlight is
/// synced with the selection it made.
pub proof fn law_sync_keeps_chosen_row(rows: Seq<TreeRowKind>, s: Selection, current: nat)
    requires
        current < rows.len(),
    ensures
        synced_row(rows, selection_for_row(s, rows[current as int]), current) == current,
{
}

/// What toggling the highlighted tree row does.
#[derive(Clone, Copy, Debug, PartialEq, Eq, Structural)]
pub enum ToggleEffect {
    /// Fold or unfold the item list of a component.
    Items { kind: ItemsKind, node_idx: usize, column_idx: usize, component_idx: usize },
    /// Show or hide the header's sections.
    HeaderColumns,
    /// Fold or unfold a header section.
    HeaderSection { section_idx: usize },
    /// Fold or unfold a page section.
    Section { node_idx: usize },
    /// Nothing to fold here: the row is edited with Enter.
    EnterToEdit,
    /// Nothing to fold: the page head is edited with Enter.
    EnterToEditHead,
    /// The row is not in a section.
    NotASection,
}

/// The kind of item list a component has.
pub open spec fn list_kind(c: SectionComponent) -> ItemsKind {
    match item_list(c) {
        Some((k, _)) => k,
        None => ItemsKind::Accordion,
    }
}

/// The node, column and component of a component or item row.
pub open spec fn component_of_row(row: TreeRowKind) -> Option<(usize, usize, usize)> {
    match row {
        TreeRowKind::Component { node_idx, column_idx, component_idx }
        | TreeRowKind::AccordionItem { node_idx, column_idx, component_idx, .. }
        | TreeRowKind::AlternatingItem { node_idx, column_idx, component_idx, .. }
        | TreeRowKind::CardItem { node_idx, column_idx, component_idx, .. }
        | TreeRowKind::FilmstripItem { node_idx, column_idx, component_idx, .. }
        | TreeRowKind::MilestonesItem { node_idx, column_idx, component_idx, .. }
        | TreeRowKind::SliderItem { node_idx, column_idx, component_idx, .. } => Some((node_idx, column_idx, component_idx)),
        _ => None,
    }
}

/// `i` clamped to the last of `n` entries (0 when there are none).
pub open spec fn clamp_last(i: usize, n: nat) -> usize {
    if n == 0 { 0 } else if i < n { i } else { (n - 1) as usize }
}

/// Whether node `node` of the page is a section.
pub open spec fn is_section_node(p: Page, node: usize) -> bool {
    node < p.nodes@.len() && p.nodes@[node as int] is Section
}

/// What toggling `row` of the tree of page `p` does: a component or item
/// row toggles the component's item list when the component (clamped
/// within its section) has one, else its section; section rows toggle the
/// section; header rows the header's list or section; other rows only
/// give a hint.
pub open spec fn toggle_effect(p: Page, row: TreeRowKind) -> ToggleEffect {
    match component_of_row(row) {
        Some((node, col, comp)) => if !is_section_node(p, node) {
            ToggleEffect::NotASection
        } else {
            let cols = p.nodes@[node as int]->Section_0.columns@;
            let ci = clamp_last(col, cols.len());
            let comps = cols[ci as int].components@;
            let ki = clamp_last(comp, comps.len());
            if comps.len() > 0 && item_list(comps[ki as int]) is Some {
                ToggleEffect::Items { kind: list_kind(comps[ki as int]), node_idx: node, column_idx: ci, component_idx: ki }
            } else {
                ToggleEffect::Section { node_idx: node }
            }
        },
        None => match row {
            TreeRowKind::HeaderRoot => ToggleEffect::HeaderColumns,
            TreeRowKind::HeaderSection { section_idx } => ToggleEffect::HeaderSection { section_idx },
            TreeRowKind::PageHead => ToggleEffect::EnterToEditHead,
            TreeRowKind::Hero { .. } => ToggleEffect::NotASection,
            TreeRowKind::Section { node_idx } | TreeRowKind::Column { node_idx, .. } =>
                if is_section_node(p, node_idx) { ToggleEffect::Section { node_idx } } else { ToggleEffect::NotASection },
            _ => ToggleEffect::EnterToEdit,
        },
    }
}

/// The rows toggling may meet without a panic: a component or item row in
/// a section names a section that has columns.
pub open spec fn toggle_safe(p: Page, row: TreeRowKind) -> bool {
    match component_of_row(row) {
        Some((node, _, _)) => is_section_node(p, node) ==> p.nodes@[node as int]->Section_0.columns@.len() > 0,
        None => true,
    }
}

/// What toggling left unchanged and what it flipped, for `effect`.
pub open spec fn toggled(old: Expansion, new: Expansion, page: usize, effect: ToggleEffect) -> bool {
    &&& forall|k: ItemsKind, p: usize, n: usize, c: usize, m: usize| #[trigger] items_open(new, k, p, n, c, m)
        == if (effect matches ToggleEffect::Items { kind, node_idx, column_idx, component_idx }
            && k == kind && p == page && n == node_idx && c == column_idx && m == component_idx) {
            !items_open(old, k, p, n, c, m)
        } else {
            items_open(old, k, p, n, c, m)
        }
    &&& forall|p: usize, n: usize| #[trigger] section_open(new, p, n)
        == if (effect matches ToggleEffect::Section { node_idx } && p == page && n == node_idx) {
            !section_open(old, p, n)
        } else if (effect matches ToggleEffect::HeaderSection { section_idx } && p == usize::MAX && n == section_idx) {
            !section_open(old, p, n)
        } else {
            section_open(old, p, n)
        }
    &&& new.header_column_expanded == (if effect is HeaderColumns { !old.header_column_expanded } else { old.header_column_expanded })
}

/// The selection after a toggle: the toggled component or section (or
/// header section) becomes the selected element.
pub open spec fn selection_after_toggle(s: Selection, effect: ToggleEffect) -> Selection {
    match effect {
        ToggleEffect::Items { node_idx, column_idx, component_idx, .. } => Selection {
            selected_node: node_idx, selected_column: column_idx, selected_component: component_idx, selected_nested_item: 0, ..s
        },
        ToggleEffect::Section { node_idx } => Selection {
            selected_node: node_idx, selected_column: 0, selected_component: 0, selected_nested_item: 0, ..s
        },
        ToggleEffect::HeaderSection { section_idx } => Selection {
            selected_header_section: section_idx, selected_header_column: 0, selected_header_component: 0, ..s
        },
        _ => s,
    }
}

fn item_kind_of(c: &SectionComponent) -> (r: Option<ItemsKind>)
    ensures
        match item_list(*c) {
            Some((k, _)) => r == Some(k),
            None => r is None,
        },
{
    match c {
        SectionComponent::Accordion(_) => Some(ItemsKind::Accordion),
        SectionComponent::Alternating(_) => Some(ItemsKind::Alternating),
        SectionComponent::Card(_) => Some(ItemsKind::Card),
        SectionComponent::Filmstrip(_) => Some(ItemsKind::Filmstrip),
        SectionComponent::Milestones(_) => Some(ItemsKind::Milestones),
        SectionComponent::Slider(_) => Some(ItemsKind::Slider),
        _ => None,
    }
}

fn section_at(p: &Page, node: usize) -> (r: Option<&DdSection>)
    ensures
        match r {
            Some(s) => is_section_node(*p, node) && p.nodes@[node as int] == PageNode::Section(*s),
            None => !is_section_node(*p, node),
        },
{
    if node < p.nodes.len() {
        match &p.nodes[node] {
            PageNode::Section(s) => Some(s),
            PageNode::Hero(_) => None,
        }
    } else {
        None
    }
}

/// What toggling `row` of the tree of page `p` does (see `toggle_effect`).
pub fn tree_toggle_effect(p: &Page, row: TreeRowKind) -> (r: ToggleEffect)
    requires
        toggle_safe(*p, row),
    ensures
        r == toggle_effect(*p, row),
{
    let comp_row: Option<(usize, usize, usize)> = match row {
        TreeRowKind::Component { node_idx, column_idx, component_idx }
        | TreeRowKind::AccordionItem { node_idx, column_idx, component_idx, .. }
        | TreeRowKind::AlternatingItem { node_idx, column_idx, component_idx, .. }
        | TreeRowKind::CardItem { node_idx, column_idx, component_idx, .. }
        | TreeRowKind::FilmstripItem { node_idx, column_idx, component_idx, .. }
        | TreeRowKind::MilestonesItem { node_idx, column_idx, component_idx, .. }
        | TreeRowKind::SliderItem { node_idx, column_idx, component_idx, .. } => Some((node_idx, column_idx, component_idx)),
        _ => None,
    };
    match comp_row {
        Some((node, col, comp)) => {
            match section_at(p, node) {
                None => ToggleEffect::NotASection,
                Some(section) => {
                    let cols = &section.columns;
                    let ci: usize = if col < cols.len() { col } else { cols.len() - 1 };
                    let comps = &cols[ci].components;
                    let ki: usize = if comps.len() == 0 { 0 } else if comp < comps.len() { comp } else { comps.len() - 1 };
                    if comps.len() > 0 {
                        match item_kind_of(&comps[ki]) {
                            Some(kind) => ToggleEffect::Items { kind, node_idx: node, column_idx: ci, component_idx: ki },
                            None => ToggleEffect::Section { node_idx: node },
                        }
                    } else {
                        ToggleEffect::Section { node_idx: node }
                    }
                },
            }
        },
        None => match row {
            TreeRowKind::HeaderRoot => ToggleEffect::HeaderColumns,
            TreeRowKind::HeaderSection { section_idx } => ToggleEffect::HeaderSection { section_idx },
            TreeRowKind::PageHead => ToggleEffect::EnterToEditHead,
            TreeRowKind::Hero { .. } => ToggleEffect::NotASection,
            TreeRowKind::Section { node_idx } | TreeRowKind::Column { node_idx, .. } => {
                match section_at(p, node_idx) {
                    Some(_) => ToggleEffect::Section { node_idx },
                    None => ToggleEffect::NotASection,
                }
            },
            _ => ToggleEffect::EnterToEdit,
        },
    }
}

/// Toggles the highlighted row of the tree of page `page` (`p`): flips the
/// fold `tree_toggle_effect` names and selects what was toggled; returns
/// the effect and whether the toggled part is now open.
pub fn toggle_tree_row(p: &Page, page: usize, row: TreeRowKind, e: &mut Expansion, sel: &mut Selection) -> (r: (ToggleEffect, bool))
    requires
        toggle_safe(*p, row),
    ensures
        r.0 == toggle_effect(*p, row),
        toggled(*old(e), *final(e), page, r.0),
        *final(sel) == selection_after_toggle(*old(sel), r.0),
        r.0 matches ToggleEffect::Items { kind, node_idx, column_idx, component_idx }
            ==> r.1 == items_open(*final(e), kind, page, node_idx, column_idx, component_idx),
        r.0 matches ToggleEffect::Section { node_idx } ==> r.1 == section_open(*final(e), page, node_idx),
        r.0 matches ToggleEffect::HeaderSection { section_idx } ==> r.1 == header_section_open(*final(e), section_idx),
        r.0 is HeaderColumns ==> r.1 == final(e).header_column_expanded,
{
    let effect = tree_toggle_effect(p, row);
    match effect {
        ToggleEffect::Items { kind, node_idx, column_idx, component_idx } => {
            let was = e.is_items_expanded(kind, page, node_idx, column_idx, component_idx);
            e.set_items_expanded(kind, page, node_idx, column_idx, component_idx, !was);
            sel.selected_node = node_idx;
            sel.selected_column = column_idx;
            sel.selected_component = component_idx;
            sel.selected_nested_item = 0;
            (effect, !was)
        },
        ToggleEffect::HeaderColumns => {
            e.header_column_expanded = !e.header_column_expanded;
            (effect, e.header_column_expanded)
        },
        ToggleEffect::HeaderSection { section_idx } => {
            let was = e.is_header_section_expanded(section_idx);
            e.set_header_section_expanded(section_idx, !was);
            sel.selected_header_section = section_idx;
            sel.selected_header_column = 0;
            sel.selected_header_component = 0;
            (effect, !was)
        },
        ToggleEffect::Section { node_idx } => {
            let was = e.is_section_expanded(page, node_idx);
            e.set_section_expanded(page, node_idx, !was);
            sel.selected_node = node_idx;
            sel.selected_column = 0;
            sel.selected_component = 0;
            sel.selected_nested_item = 0;
            (effect, !was)
        },
        _ => (effect, false),
    }
}

/// Toggling the same row twice leaves the folds as they were.
pub proof fn law_toggle_twice_restores(e0: Expansion, e1: Expansion, e2: Expansion, page: usize, effect: ToggleEffect)
    requires
        toggled(e0, e1, page, effect),
        toggled(e1, e2, page, effect),
    ensures
        forall|k: ItemsKind, p: usize, n: usize, c: usize, m: usize| #[trigger] items_open(e2, k, p, n, c, m) == items_open(e0, k, p, n, c, m),
        forall|p: usize, n: usize| #[trigger] section_open(e2, p, n) == section_open(e0, p, n),
        e2.header_column_expanded == e0.header_column_expanded,
{
    assert forall|k: ItemsKind, p: usize, n: usize, c: usize, m: usize| #[trigger] items_open(e2, k, p, n, c, m) == items_open(e0, k, p, n, c, m) by {
        assert(items_open(e1, k, p, n, c, m) == items_open(e1, k, p, n, c, m));
    }
    assert forall|p: usize, n: usize| #[trigger] section_open(e2, p, n) == section_open(e0, p, n) by {
        assert(section_open(e1, p, n) == section_open(e1, p, n));
    }
}

} // verus!
