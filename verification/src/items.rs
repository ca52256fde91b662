//! Adding and removing the items of list components (accordion,
//! alternating, card, filmstrip, milestones, slider) of the selected
//! component, as the structure tree's item keys do.
use vstd::prelude::*;
use crate::components::opt_is;
use crate::section_ids::{component_index, normalize_section_columns};
use crate::site::{
    AccordionItem, AlternatingItem, CardItem, CardLinkTarget, FilmstripItem, MilestonesItem, Page, PageNode,
    SectionComponent, SliderItem,
};
use crate::text::{decimal, push_decimal, push_str};
use crate::tree::{items_open, Expansion, ItemsKind, Selection, TreeRowKind};

verus! {

broadcast use vstd::string::group_string_axioms;

/// What an item edit did.
#[derive(Clone, Copy, Debug, PartialEq, Eq, Structural)]
pub enum ItemEdit {
    /// The page has no nodes.
    NoSection,
    /// The selected node is a hero.
    NotASection,
    /// The selected column has no components.
    NoComponents,
    /// The selected component has no list of this kind.
    WrongComponent,
    /// The list has one item, which stays.
    KeepOne,
    /// An item was added at `item_idx`.
    Added { node_idx: usize, column_idx: usize, component_idx: usize, item_idx: usize },
    /// Item `removed_idx` was removed; `item_idx` is selected next.
    Removed { node_idx: usize, column_idx: usize, component_idx: usize, removed_idx: usize, item_idx: usize },
}

/// `"<label> <n>"`.
pub open spec fn numbered(label: Seq<char>, n: nat) -> Seq<char> {
    label + " "@ + decimal(n)
}

fn numbered_string(label: &str, n: usize) -> (r: String)
    ensures
        r@ == numbered(label@, n as nat),
{
    let mut s = String::new();
    push_str(&mut s, label);
    push_str(&mut s, " ");
    push_decimal(&mut s, n);
    assert(s@ =~= numbered(label@, n as nat));
    s
}

fn owned(s: &str) -> (r: String)
    ensures
        r@ == s@,
{
    let mut o = String::new();
    push_str(&mut o, s);
    assert(o@ =~= s@);
    o
}

/// A new card item, numbered `n`.
pub open spec fn is_new_card_item(it: CardItem, n: nat) -> bool {
    &&& it.child_image_url@ == "https://dummyimage.com/720x720/000/fff"@
    &&& it.child_image_alt@ == "Image alt text"@
    &&& it.child_title@ == numbered("Title"@, n)
    &&& it.child_subtitle@ == "Subtitle"@
    &&& it.child_copy@ == "Copy"@
    &&& opt_is(it.child_link_url, "/front"@)
    &&& it.child_link_target == Some(CardLinkTarget::SelfTarget)
    &&& opt_is(it.child_link_label, "Learn More"@)
}

/// A new accordion item, numbered `n`.
pub open spec fn is_new_accordion_item(it: AccordionItem, n: nat) -> bool {
    &&& it.child_title@ == numbered("Accordion Item"@, n)
    &&& it.child_copy@ == "Accordion content"@
}

/// A new alternating item, numbered `n`.
pub open spec fn is_new_alternating_item(it: AlternatingItem, n: nat) -> bool {
    &&& it.child_image_url@ == "https://dummyimage.com/600x400/000/fff"@
    &&& it.child_image_alt@ == numbered("Alternating image"@, n)
    &&& it.child_title@ == numbered("Alternating Item"@, n)
    &&& it.child_copy@ == "Alternating content"@
}

/// A new filmstrip item, numbered `n`.
pub open spec fn is_new_filmstrip_item(it: FilmstripItem, n: nat) -> bool {
    &&& it.child_image_url@ == "https://dummyimage.com/256x256/000/fff"@
    &&& it.child_image_alt@ == "Image alt text"@
    &&& it.child_title@ == numbered("Title"@, n)
}

/// A new milestones item, numbered `n`.
pub open spec fn is_new_milestones_item(it: MilestonesItem, n: nat) -> bool {
    &&& it.child_percentage@ == "70"@
    &&& it.child_title@ == numbered("Title"@, n)
    &&& it.child_subtitle@ == "Subtitle"@
    &&& it.child_copy@ == "Copy"@
    &&& it.child_link_url is None
    &&& it.child_link_target == Some(CardLinkTarget::SelfTarget)
    &&& it.child_link_label is None
}

/// A new slider item, numbered `n`.
pub open spec fn is_new_slider_item(it: SliderItem, n: nat) -> bool {
    &&& it.child_title@ == numbered("Title"@, n)
    &&& it.child_copy@ == "Copy"@
    &&& opt_is(it.child_link_url, "/path"@)
    &&& it.child_link_target == Some(CardLinkTarget::SelfTarget)
    &&& opt_is(it.child_link_label, "Learn More"@)
    &&& it.child_image_url@ == "https://dummyimage.com/720x720/000/fff"@
    &&& it.child_image_alt@ == "Image alt text"@
}

/// The number of items of a component's list of `kind`, if it is such a
/// list.
pub open spec fn list_len(c: SectionComponent, kind: ItemsKind) -> Option<nat> {
    match (c, kind) {
        (SectionComponent::Accordion(a), ItemsKind::Accordion) => Some(a.items@.len()),
        (SectionComponent::Alternating(a), ItemsKind::Alternating) => Some(a.items@.len()),
        (SectionComponent::Card(a), ItemsKind::Card) => Some(a.items@.len()),
        (SectionComponent::Filmstrip(a), ItemsKind::Filmstrip) => Some(a.items@.len()),
        (SectionComponent::Milestones(a), ItemsKind::Milestones) => Some(a.items@.len()),
        (SectionComponent::Slider(a), ItemsKind::Slider) => Some(a.items@.len()),
        _ => None,
    }
}

/// `b` is `a` with a new item numbered `n` inserted at `idx` in its list.
pub open spec fn item_inserted(a: SectionComponent, b: SectionComponent, idx: int, n: nat) -> bool {
    match (a, b) {
        (SectionComponent::Accordion(x), SectionComponent::Accordion(y)) =>
            y.parent_type == x.parent_type && y.parent_class == x.parent_class && y.parent_data_aos == x.parent_data_aos
            && y.parent_group_name == x.parent_group_name && y.multiple == x.multiple
            && y.items@.len() == x.items@.len() + 1 && y.items@.remove(idx) == x.items@ && is_new_accordion_item(y.items@[idx], n),
        (SectionComponent::Alternating(x), SectionComponent::Alternating(y)) =>
            y.parent_type == x.parent_type && y.parent_class == x.parent_class && y.parent_data_aos == x.parent_data_aos
            && y.items@.len() == x.items@.len() + 1 && y.items@.remove(idx) == x.items@ && is_new_alternating_item(y.items@[idx], n),
        (SectionComponent::Card(x), SectionComponent::Card(y)) =>
            y.parent_type == x.parent_type && y.parent_data_aos == x.parent_data_aos && y.parent_width == x.parent_width
            && y.items@.len() == x.items@.len() + 1 && y.items@.remove(idx) == x.items@ && is_new_card_item(y.items@[idx], n),
        (SectionComponent::Filmstrip(x), SectionComponent::Filmstrip(y)) =>
            y.parent_type == x.parent_type && y.parent_data_aos == x.parent_data_aos
            && y.items@.len() == x.items@.len() + 1 && y.items@.remove(idx) == x.items@ && is_new_filmstrip_item(y.items@[idx], n),
        (SectionComponent::Milestones(x), SectionComponent::Milestones(y)) =>
            y.parent_data_aos == x.parent_data_aos && y.parent_width == x.parent_width
            && y.items@.len() == x.items@.len() + 1 && y.items@.remove(idx) == x.items@ && is_new_milestones_item(y.items@[idx], n),
        (SectionComponent::Slider(x), SectionComponent::Slider(y)) =>
            y.parent_title == x.parent_title
            && y.items@.len() == x.items@.len() + 1 && y.items@.remove(idx) == x.items@ && is_new_slider_item(y.items@[idx], n),
        _ => false,
    }
}

/// `b` is `a` with the item at `idx` of its list removed.
pub open spec fn item_removed(a: SectionComponent, b: SectionComponent, idx: int) -> bool {
    match (a, b) {
        (SectionComponent::Accordion(x), SectionComponent::Accordion(y)) =>
            y.parent_type == x.parent_type && y.parent_class == x.parent_class && y.parent_data_aos == x.parent_data_aos
            && y.parent_group_name == x.parent_group_name && y.multiple == x.multiple && y.items@ == x.items@.remove(idx),
        (SectionComponent::Alternating(x), SectionComponent::Alternating(y)) =>
            y.parent_type == x.parent_type && y.parent_class == x.parent_class && y.parent_data_aos == x.parent_data_aos
            && y.items@ == x.items@.remove(idx),
        (SectionComponent::Card(x), SectionComponent::Card(y)) =>
            y.parent_type == x.parent_type && y.parent_data_aos == x.parent_data_aos && y.parent_width == x.parent_width
            && y.items@ == x.items@.remove(idx),
        (SectionComponent::Filmstrip(x), SectionComponent::Filmstrip(y)) =>
            y.parent_type == x.parent_type && y.parent_data_aos == x.parent_data_aos && y.items@ == x.items@.remove(idx),
        (SectionComponent::Milestones(x), SectionComponent::Milestones(y)) =>
            y.parent_data_aos == x.parent_data_aos && y.parent_width == x.parent_width && y.items@ == x.items@.remove(idx),
        (SectionComponent::Slider(x), SectionComponent::Slider(y)) =>
            y.parent_title == x.parent_title && y.items@ == x.items@.remove(idx),
        _ => false,
    }
}

/// Where an item edit applies, given the selection.
#[derive(Clone, Copy, Debug, PartialEq, Eq, Structural)]
pub enum Target {
    NoSection,
    NotASection,
    /// The selected column has no components (a section without columns
    /// is first given an empty one).
    NoComponents { node_idx: usize },
    Component { node_idx: usize, column_idx: usize, component_idx: usize },
}

/// The selected node (clamped to the last), column and component (each
/// clamped within its parent) of a page.
pub open spec fn item_target(p: Page, sel: Selection) -> Target {
    let nodes = p.nodes@;
    if nodes.len() == 0 {
        Target::NoSection
    } else {
        let ni = crate::tree::clamp_last(sel.selected_node, nodes.len());
        match nodes[ni as int] {
            PageNode::Hero(_) => Target::NotASection,
            PageNode::Section(s) => if s.columns@.len() == 0 {
                Target::NoComponents { node_idx: ni }
            } else {
                let col = crate::tree::clamp_last(sel.selected_column, s.columns@.len());
                let comps = s.columns@[col as int].components@;
                if comps.len() == 0 {
                    Target::NoComponents { node_idx: ni }
                } else {
                    Target::Component { node_idx: ni, column_idx: col, component_idx: crate::tree::clamp_last(sel.selected_component, comps.len()) }
                }
            },
        }
    }
}

/// `new` is `old` with only the section at `ni` given an empty column
/// when it had none.
pub open spec fn section_normalized_at(old: Page, new: Page, ni: int) -> bool {
    &&& new.nodes@.len() == old.nodes@.len()
    &&& forall|j: int| 0 <= j < old.nodes@.len() && j != ni ==> new.nodes@[j] == old.nodes@[j]
    &&& old.nodes@[ni] matches PageNode::Section(os)
    &&& new.nodes@[ni] matches PageNode::Section(ns)
    &&& ns.id == os.id && ns.section_title == os.section_title && ns.section_class == os.section_class
        && ns.item_box_class == os.item_box_class
    &&& (os.columns@.len() > 0 ==> ns == os)
    &&& (os.columns@.len() == 0 ==> ns.columns@.len() == 1 && ns.columns@[0].id@ == "column-1"@
        && ns.columns@[0].width_class@ == "dd-u-1-1"@ && ns.columns@[0].components@.len() == 0)
}

/// `new` is `old` with only component `ci` of column `col` of section `ni`
/// changed, from `a` to `b` where `edit(a, b)`.
pub open spec fn component_edited(old: Page, new: Page, ni: int, col: int, ci: int, edit: spec_fn(SectionComponent, SectionComponent) -> bool) -> bool {
    &&& new.nodes@.len() == old.nodes@.len()
    &&& forall|j: int| 0 <= j < old.nodes@.len() && j != ni ==> new.nodes@[j] == old.nodes@[j]
    &&& old.nodes@[ni] matches PageNode::Section(os)
    &&& new.nodes@[ni] matches PageNode::Section(ns)
    &&& ns.id == os.id && ns.section_title == os.section_title && ns.section_class == os.section_class
        && ns.item_box_class == os.item_box_class
    &&& ns.columns@.len() == os.columns@.len()
    &&& forall|c: int| 0 <= c < os.columns@.len() && c != col ==> ns.columns@[c] == os.columns@[c]
    &&& ns.columns@[col].id == os.columns@[col].id && ns.columns@[col].width_class == os.columns@[col].width_class
    &&& ns.columns@[col].components@.len() == os.columns@[col].components@.len()
    &&& forall|k: int| 0 <= k < os.columns@[col].components@.len() && k != ci
        ==> ns.columns@[col].components@[k] == os.columns@[col].components@[k]
    &&& edit(os.columns@[col].components@[ci], ns.columns@[col].components@[ci])
}

/// The component a target names.
pub open spec fn targeted(p: Page, node: usize, col: usize, ci: usize) -> SectionComponent {
    p.nodes@[node as int]->Section_0.columns@[col as int].components@[ci as int]
}

/// Where a new item goes in a list of `len`: after the preferred item
/// (clamped to the end), else at the end.
pub open spec fn insert_index(preferred_after: Option<usize>, len: nat) -> nat {
    match preferred_after {
        Some(i) => if i + 1 < len { (i + 1) as nat } else { len },
        None => len,
    }
}

/// The page after the section at `ni` is given a column when it has none.
fn normalize_node(page: &mut Page, ni: usize)
    requires
        ni < old(page).nodes@.len(),
        old(page).nodes@[ni as int] is Section,
    ensures
        section_normalized_at(*old(page), *final(page), ni as int),
{
    if let PageNode::Section(section) = &mut page.nodes[ni] {
        normalize_section_columns(section);
    }
}

fn new_item_into(c: &mut SectionComponent, kind: ItemsKind, at: usize) -> (added: bool)
    requires
        list_len(*old(c), kind) matches Some(n) ==> at <= n && n < usize::MAX,
    ensures
        added == (list_len(*old(c), kind) is Some),
        added ==> item_inserted(*old(c), *final(c), at as int, list_len(*old(c), kind)->0 + 1),
        !added ==> *final(c) == *old(c),
{
    match c {
        SectionComponent::Accordion(x) => {
            if kind != ItemsKind::Accordion {
                return false;
            }
            let n = x.items.len() + 1;
            x.items.insert(at, AccordionItem {
                child_title: numbered_string("Accordion Item", n),
                child_copy: owned("Accordion content"),
            });
            assert(x.items@.remove(at as int) =~= old(c)->Accordion_0.items@);
            true
        },
        SectionComponent::Alternating(x) => {
            if kind != ItemsKind::Alternating {
                return false;
            }
            let n = x.items.len() + 1;
            x.items.insert(at, AlternatingItem {
                child_image_url: owned("https://dummyimage.com/600x400/000/fff"),
                child_image_alt: numbered_string("Alternating image", n),
                child_title: numbered_string("Alternating Item", n),
                child_copy: owned("Alternating content"),
            });
            assert(x.items@.remove(at as int) =~= old(c)->Alternating_0.items@);
            true
        },
        SectionComponent::Card(x) => {
            if kind != ItemsKind::Card {
                return false;
            }
            let n = x.items.len() + 1;
            x.items.insert(at, CardItem {
                child_image_url: owned("https://dummyimage.com/720x720/000/fff"),
                child_image_alt: owned("Image alt text"),
                child_title: numbered_string("Title", n),
                child_subtitle: owned("Subtitle"),
                child_copy: owned("Copy"),
                child_link_url: Some(owned("/front")),
                child_link_target: Some(CardLinkTarget::SelfTarget),
                child_link_label: Some(owned("Learn More")),
            });
            assert(x.items@.remove(at as int) =~= old(c)->Card_0.items@);
            true
        },
        SectionComponent::Filmstrip(x) => {
            if kind != ItemsKind::Filmstrip {
                return false;
            }
            let n = x.items.len() + 1;
            x.items.insert(at, FilmstripItem {
                child_image_url: owned("https://dummyimage.com/256x256/000/fff"),
                child_image_alt: owned("Image alt text"),
                child_title: numbered_string("Title", n),
            });
            assert(x.items@.remove(at as int) =~= old(c)->Filmstrip_0.items@);
            true
        },
        SectionComponent::Milestones(x) => {
            if kind != ItemsKind::Milestones {
                return false;
            }
            let n = x.items.len() + 1;
            x.items.insert(at, MilestonesItem {
                child_percentage: owned("70"),
                child_title: numbered_string("Title", n),
                child_subtitle: owned("Subtitle"),
                child_copy: owned("Copy"),
                child_link_url: None,
                child_link_target: Some(CardLinkTarget::SelfTarget),
                child_link_label: None,
            });
            assert(x.items@.remove(at as int) =~= old(c)->Milestones_0.items@);
            true
        },
        SectionComponent::Slider(x) => {
            if kind != ItemsKind::Slider {
                return false;
            }
            let n = x.items.len() + 1;
            x.items.insert(at, SliderItem {
                child_title: numbered_string("Title", n),
                child_copy: owned("Copy"),
                child_link_url: Some(owned("/path")),
                child_link_target: Some(CardLinkTarget::SelfTarget),
                child_link_label: Some(owned("Learn More")),
                child_image_url: owned("https://dummyimage.com/720x720/000/fff"),
                child_image_alt: owned("Image alt text"),
            });
            assert(x.items@.remove(at as int) =~= old(c)->Slider_0.items@);
            true
        },
        _ => false,
    }
}

fn list_len_of(c: &SectionComponent, kind: ItemsKind) -> (r: Option<usize>)
    ensures
        match list_len(*c, kind) {
            Some(n) => r is Some && r->0 as nat == n,
            None => r is None,
        },
{
    match (c, kind) {
        (SectionComponent::Accordion(a), ItemsKind::Accordion) => Some(a.items.len()),
        (SectionComponent::Alternating(a), ItemsKind::Alternating) => Some(a.items.len()),
        (SectionComponent::Card(a), ItemsKind::Card) => Some(a.items.len()),
        (SectionComponent::Filmstrip(a), ItemsKind::Filmstrip) => Some(a.items.len()),
        (SectionComponent::Milestones(a), ItemsKind::Milestones) => Some(a.items.len()),
        (SectionComponent::Slider(a), ItemsKind::Slider) => Some(a.items.len()),
        _ => None,
    }
}

/// Adds a new item to the list of `kind` of the selected component (see
/// `item_target`): after the preferred item, or at the end.
pub fn add_list_item(page: &mut Page, sel: &Selection, preferred_after: Option<usize>, kind: ItemsKind) -> (r: ItemEdit)
    requires
        item_target(*old(page), *sel) matches Target::Component { node_idx, column_idx, component_idx }
            ==> (list_len(targeted(*old(page), node_idx, column_idx, component_idx), kind) matches Some(n) ==> n + 1 < usize::MAX),
    ensures
        match item_target(*old(page), *sel) {
            Target::NoSection => r == ItemEdit::NoSection && final(page).nodes@ == old(page).nodes@,
            Target::NotASection => r == ItemEdit::NotASection && final(page).nodes@ == old(page).nodes@,
            Target::NoComponents { node_idx } => r == ItemEdit::NoComponents
                && section_normalized_at(*old(page), *final(page), node_idx as int),
            Target::Component { node_idx, column_idx, component_idx } =>
                match list_len(targeted(*old(page), node_idx, column_idx, component_idx), kind) {
                    None => r == ItemEdit::WrongComponent && final(page).nodes@ == old(page).nodes@,
                    Some(n) => {
                        let at = insert_index(preferred_after, n);
                        &&& r == (ItemEdit::Added { node_idx, column_idx, component_idx, item_idx: at as usize })
                        &&& component_edited(*old(page), *final(page), node_idx as int, column_idx as int, component_idx as int,
                            |a: SectionComponent, b: SectionComponent| item_inserted(a, b, at as int, n + 1))
                    },
                },
        },
{
    let n = page.nodes.len();
    if n == 0 {
        return ItemEdit::NoSection;
    }
    let ni = if sel.selected_node < n { sel.selected_node } else { n - 1 };
    let is_section = match &page.nodes[ni] { PageNode::Section(_) => true, PageNode::Hero(_) => false };
    if !is_section {
        return ItemEdit::NotASection;
    }
    normalize_node(page, ni);
    let ghost mid = *page;
    let r = match &mut page.nodes[ni] {
        PageNode::Section(section) => {
            let cols = section.columns.len();
            let col = if sel.selected_column < cols { sel.selected_column } else { cols - 1 };
            let comps = section.columns[col].components.len();
            match component_index(comps, sel.selected_component) {
                None => ItemEdit::NoComponents,
                Some(ci) => {
                    match list_len_of(&section.columns[col].components[ci], kind) {
                        None => ItemEdit::WrongComponent,
                        Some(len) => {
                            let at = match preferred_after {
                                Some(i) => if i < len && i + 1 < len { i + 1 } else { len },
                                None => len,
                            };
                            let added = new_item_into(&mut section.columns[col].components[ci], kind, at);
                            ItemEdit::Added { node_idx: ni, column_idx: col, component_idx: ci, item_idx: at }
                        },
                    }
                },
            }
        },
        PageNode::Hero(_) => ItemEdit::NotASection,
    };
    r
}

fn remove_item_from(c: &mut SectionComponent, kind: ItemsKind, at: usize)
    requires
        list_len(*old(c), kind) matches Some(n) && at < n,
    ensures
        item_removed(*old(c), *final(c), at as int),
{
    match c {
        SectionComponent::Accordion(x) => { x.items.remove(at); },
        SectionComponent::Alternating(x) => { x.items.remove(at); },
        SectionComponent::Card(x) => { x.items.remove(at); },
        SectionComponent::Filmstrip(x) => { x.items.remove(at); },
        SectionComponent::Milestones(x) => { x.items.remove(at); },
        SectionComponent::Slider(x) => { x.items.remove(at); },
        _ => {},
    }
}

/// The item a removal takes out of a list of `len`: the preferred one,
/// else the selected item clamped to the last.
pub open spec fn removal_index(preferred: Option<usize>, selected_item: usize, len: nat) -> nat {
    match preferred {
        Some(i) => i as nat,
        None => if selected_item < len { selected_item as nat } else { (len - 1) as nat },
    }
}

/// Without a preferred item, a removal takes the selected item itself
/// whenever it is in the list, and the last item only when the selection
/// is past the end; a preferred item is taken as it is.
pub proof fn law_removal_takes_the_selected_item(preferred: Option<usize>, selected_item: usize, len: nat)
    requires
        len > 0,
    ensures
        preferred is None ==> removal_index(preferred, selected_item, len) < len,
        preferred is None && selected_item < len ==> removal_index(preferred, selected_item, len) == selected_item,
        preferred is None && selected_item >= len ==> removal_index(preferred, selected_item, len) + 1 == len,
        preferred matches Some(p) ==> removal_index(preferred, selected_item, len) == p,
{
}

/// Removes an item from the list of `kind` of the selected component (see
/// `item_target`): the preferred item, else the selected one; a list keeps
/// at least one item. The item at the same place (or the new last) is
/// selected next.
pub fn remove_list_item(page: &mut Page, sel: &Selection, preferred: Option<usize>, kind: ItemsKind) -> (r: ItemEdit)
    requires
        item_target(*old(page), *sel) matches Target::Component { node_idx, column_idx, component_idx }
            ==> (list_len(targeted(*old(page), node_idx, column_idx, component_idx), kind) matches Some(n)
                ==> (n > 1 && preferred is Some ==> preferred->0 < n)),
    ensures
        match item_target(*old(page), *sel) {
            Target::NoSection => r == ItemEdit::NoSection && final(page).nodes@ == old(page).nodes@,
            Target::NotASection => r == ItemEdit::NotASection && final(page).nodes@ == old(page).nodes@,
            Target::NoComponents { node_idx } => r == ItemEdit::NoComponents
                && section_normalized_at(*old(page), *final(page), node_idx as int),
            Target::Component { node_idx, column_idx, component_idx } =>
                match list_len(targeted(*old(page), node_idx, column_idx, component_idx), kind) {
                    None => r == ItemEdit::WrongComponent && final(page).nodes@ == old(page).nodes@,
                    Some(n) => if n <= 1 {
                        r == ItemEdit::KeepOne && final(page).nodes@ == old(page).nodes@
                    } else {
                        let at = removal_index(preferred, sel.selected_nested_item, n);
                        let next: nat = if at < n - 1 { at } else { (n - 2) as nat };
                        &&& r == (ItemEdit::Removed { node_idx, column_idx, component_idx, removed_idx: at as usize, item_idx: next as usize })
                        &&& component_edited(*old(page), *final(page), node_idx as int, column_idx as int, component_idx as int,
                            |a: SectionComponent, b: SectionComponent| item_removed(a, b, at as int))
                    },
                },
        },
        item_target(*old(page), *sel) matches Target::Component { node_idx, column_idx, component_idx }
            ==> (list_len(targeted(*old(page), node_idx, column_idx, component_idx), kind) matches Some(n)
                ==> (n > 1 ==> (r matches ItemEdit::Removed { removed_idx, .. }
                    && removed_idx as int == match preferred {
                        Some(p) => p as int,
                        None => if sel.selected_nested_item < n { sel.selected_nested_item as int } else { n - 1 },
                    }))),
{
    let n = page.nodes.len();
    if n == 0 {
        return ItemEdit::NoSection;
    }
    let ni = if sel.selected_node < n { sel.selected_node } else { n - 1 };
    let is_section = match &page.nodes[ni] { PageNode::Section(_) => true, PageNode::Hero(_) => false };
    if !is_section {
        return ItemEdit::NotASection;
    }
    normalize_node(page, ni);
    let r = match &mut page.nodes[ni] {
        PageNode::Section(section) => {
            let cols = section.columns.len();
            let col = if sel.selected_column < cols { sel.selected_column } else { cols - 1 };
            let comps = section.columns[col].components.len();
            match component_index(comps, sel.selected_component) {
                None => ItemEdit::NoComponents,
                Some(ci) => {
                    match list_len_of(&section.columns[col].components[ci], kind) {
                        None => ItemEdit::WrongComponent,
                        Some(len) => {
                            if len <= 1 {
                                ItemEdit::KeepOne
                            } else {
                                let at = match preferred {
                                    Some(i) => i,
                                    None => if sel.selected_nested_item < len { sel.selected_nested_item } else { len - 1 },
                                };
                                remove_item_from(&mut section.columns[col].components[ci], kind, at);
                                let next = if at < len - 1 { at } else { len - 2 };
                                ItemEdit::Removed { node_idx: ni, column_idx: col, component_idx: ci, removed_idx: at, item_idx: next }
                            }
                        },
                    }
                },
            }
        },
        PageNode::Hero(_) => ItemEdit::NotASection,
    };
    r
}

/// The item of the highlighted tree row that an edit of a `kind` list
/// prefers: the row's item when it is an item of that kind. Removal from
/// accordion and alternating lists always takes the selected item.
pub open spec fn preferred_from_row(row: TreeRowKind, kind: ItemsKind, removing: bool) -> Option<usize> {
    if removing && (kind == ItemsKind::Accordion || kind == ItemsKind::Alternating) {
        None
    } else {
        match (row, kind) {
            (TreeRowKind::AccordionItem { item_idx, .. }, ItemsKind::Accordion) => Some(item_idx),
            (TreeRowKind::AlternatingItem { item_idx, .. }, ItemsKind::Alternating) => Some(item_idx),
            (TreeRowKind::CardItem { item_idx, .. }, ItemsKind::Card) => Some(item_idx),
            (TreeRowKind::FilmstripItem { item_idx, .. }, ItemsKind::Filmstrip) => Some(item_idx),
            (TreeRowKind::MilestonesItem { item_idx, .. }, ItemsKind::Milestones) => Some(item_idx),
            (TreeRowKind::SliderItem { item_idx, .. }, ItemsKind::Slider) => Some(item_idx),
            _ => None,
        }
    }
}

/// The preferred item for an edit (see `preferred_from_row`).
pub fn preferred_item(row: TreeRowKind, kind: ItemsKind, removing: bool) -> (r: Option<usize>)
    ensures
        r == preferred_from_row(row, kind, removing),
{
    if removing && (kind == ItemsKind::Accordion || kind == ItemsKind::Alternating) {
        return None;
    }
    match (row, kind) {
        (TreeRowKind::AccordionItem { item_idx, .. }, ItemsKind::Accordion) => Some(item_idx),
        (TreeRowKind::AlternatingItem { item_idx, .. }, ItemsKind::Alternating) => Some(item_idx),
        (TreeRowKind::CardItem { item_idx, .. }, ItemsKind::Card) => Some(item_idx),
        (TreeRowKind::FilmstripItem { item_idx, .. }, ItemsKind::Filmstrip) => Some(item_idx),
        (TreeRowKind::MilestonesItem { item_idx, .. }, ItemsKind::Milestones) => Some(item_idx),
        (TreeRowKind::SliderItem { item_idx, .. }, ItemsKind::Slider) => Some(item_idx),
        _ => None,
    }
}

/// Adding an item and then removing the item just added gives back the
/// list the component had.
pub proof fn law_add_then_remove_restores(a: SectionComponent, b: SectionComponent, c: SectionComponent, at: int, n: nat)
    requires
        item_inserted(a, b, at, n),
        item_removed(b, c, at),
    ensures
        list_len(a, ItemsKind::Accordion) is Some ==> c->Accordion_0.items@ == a->Accordion_0.items@,
        list_len(a, ItemsKind::Alternating) is Some ==> c->Alternating_0.items@ == a->Alternating_0.items@,
        list_len(a, ItemsKind::Card) is Some ==> c->Card_0.items@ == a->Card_0.items@,
        list_len(a, ItemsKind::Filmstrip) is Some ==> c->Filmstrip_0.items@ == a->Filmstrip_0.items@,
        list_len(a, ItemsKind::Milestones) is Some ==> c->Milestones_0.items@ == a->Milestones_0.items@,
        list_len(a, ItemsKind::Slider) is Some ==> c->Slider_0.items@ == a->Slider_0.items@,
{
}

/// The selection after an item edit: for accordion and alternating lists
/// the edited component and the new item; for the other lists the new
/// item within the selected component.
pub open spec fn selection_after_edit(s: Selection, kind: ItemsKind, edit: ItemEdit) -> Selection {
    match edit {
        ItemEdit::Added { node_idx, column_idx, component_idx, item_idx }
        | ItemEdit::Removed { node_idx, column_idx, component_idx, item_idx, .. } =>
            if kind == ItemsKind::Accordion || kind == ItemsKind::Alternating {
                Selection { selected_node: node_idx, selected_column: column_idx, selected_component: component_idx, selected_nested_item: item_idx, ..s }
            } else {
                Selection { selected_nested_item: item_idx, ..s }
            },
        _ => s,
    }
}

/// The component whose list an edit opens in the tree: the edited one for
/// accordion and alternating lists; for the others the selected column
/// and component as they were.
pub open spec fn opened_list(s: Selection, kind: ItemsKind, edit: ItemEdit) -> Option<(usize, usize, usize)> {
    match edit {
        ItemEdit::Added { node_idx, column_idx, component_idx, .. }
        | ItemEdit::Removed { node_idx, column_idx, component_idx, .. } =>
            if kind == ItemsKind::Accordion || kind == ItemsKind::Alternating {
                Some((node_idx, column_idx, component_idx))
            } else {
                Some((node_idx, s.selected_column, s.selected_component))
            },
        _ => None,
    }
}

/// After an item edit on page `page`: selects the new item (see
/// `selection_after_edit`) and opens the list in the tree (see
/// `opened_list`).
pub fn follow_item_edit(sel: &mut Selection, e: &mut Expansion, page: usize, kind: ItemsKind, edit: ItemEdit)
    ensures
        *final(sel) == selection_after_edit(*old(sel), kind, edit),
        forall|k: ItemsKind, p: usize, n: usize, c: usize, m: usize| #[trigger] items_open(*final(e), k, p, n, c, m)
            == if (opened_list(*old(sel), kind, edit) matches Some((ln, lc, lm)) && k == kind && p == page && n == ln && c == lc && m == lm) {
                true
            } else {
                items_open(*old(e), k, p, n, c, m)
            },
        final(e).sections@ == old(e).sections@,
        final(e).header_column_expanded == old(e).header_column_expanded,
{
    let target = match edit {
        ItemEdit::Added { node_idx, column_idx, component_idx, item_idx }
        | ItemEdit::Removed { node_idx, column_idx, component_idx, item_idx, .. } => Some((node_idx, column_idx, component_idx, item_idx)),
        _ => None,
    };
    if let Some((ni, col, ci, item)) = target {
        if kind == ItemsKind::Accordion || kind == ItemsKind::Alternating {
            sel.selected_node = ni;
            sel.selected_column = col;
            sel.selected_component = ci;
            sel.selected_nested_item = item;
            e.set_items_expanded(kind, page, ni, col, ci, true);
        } else {
            let (c0, m0) = (sel.selected_column, sel.selected_component);
            sel.selected_nested_item = item;
            e.set_items_expanded(kind, page, ni, c0, m0, true);
        }
    }
}

} // verus!
