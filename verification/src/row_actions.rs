//! Which edit a key applies to the highlighted tree row: deleting,
//! duplicating or moving it, and moving up or down in a sidebar part.
use vstd::prelude::*;
use crate::components::ComponentKind;
use crate::hints::SidebarSection;
use crate::navigation::SelectedRegion;
use crate::site::{Page, PageNode, SectionComponent};
use crate::tree::{clamp_last, Selection};
use crate::tree::TreeRowKind;

verus! {

/// The edit that deleting or duplicating a row applies.
#[derive(Clone, Copy, Debug, PartialEq, Eq, Structural)]
pub enum RowAction {
    /// No row is highlighted.
    NothingSelected,
    /// The row cannot take this edit.
    Refused,
    /// The page node of the row.
    Node { node_idx: usize },
    PageComponent { node_idx: usize, column_idx: usize, component_idx: usize },
    HeaderComponent { section_idx: usize, column_idx: usize, component_idx: usize },
    FooterComponent { section_idx: usize, column_idx: usize, component_idx: usize },
    /// The selected item of the selected component's list.
    Item,
    /// The selected column.
    Column,
    HeaderSection { section_idx: usize },
    FooterSection { section_idx: usize },
}

/// Whether a row is an item of a component's list.
pub open spec fn is_item_row(row: TreeRowKind) -> bool {
    ||| row is AccordionItem
    ||| row is AlternatingItem
    ||| row is CardItem
    ||| row is FilmstripItem
    ||| row is MilestonesItem
    ||| row is SliderItem
}

fn item_row(row: TreeRowKind) -> (r: bool)
    ensures
        r == is_item_row(row),
{
    match row {
        TreeRowKind::AccordionItem { .. } | TreeRowKind::AlternatingItem { .. } | TreeRowKind::CardItem { .. }
        | TreeRowKind::FilmstripItem { .. } | TreeRowKind::MilestonesItem { .. } | TreeRowKind::SliderItem { .. } => true,
        _ => false,
    }
}

/// What deleting the highlighted row does: the page head and the header
/// and footer roots cannot be deleted; a header or footer section only
/// while its region has another one.
pub open spec fn delete_action_for(row: Option<TreeRowKind>, header_sections: usize, footer_sections: usize) -> RowAction {
    match row {
        None => RowAction::NothingSelected,
        Some(r) => match r {
            TreeRowKind::PageHead | TreeRowKind::HeaderRoot | TreeRowKind::FooterRoot => RowAction::Refused,
            TreeRowKind::Hero { node_idx } | TreeRowKind::Section { node_idx } => RowAction::Node { node_idx },
            TreeRowKind::Component { node_idx, column_idx, component_idx } =>
                RowAction::PageComponent { node_idx, column_idx, component_idx },
            TreeRowKind::HeaderComponent { section_idx, column_idx, component_idx } =>
                RowAction::HeaderComponent { section_idx, column_idx, component_idx },
            TreeRowKind::FooterComponent { section_idx, column_idx, component_idx } =>
                RowAction::FooterComponent { section_idx, column_idx, component_idx },
            TreeRowKind::Column { .. } | TreeRowKind::HeaderColumn { .. } | TreeRowKind::FooterColumn { .. } => RowAction::Column,
            TreeRowKind::HeaderSection { section_idx } =>
                if header_sections <= 1 { RowAction::Refused } else { RowAction::HeaderSection { section_idx } },
            TreeRowKind::FooterSection { section_idx } =>
                if footer_sections <= 1 { RowAction::Refused } else { RowAction::FooterSection { section_idx } },
            _ => if is_item_row(r) { RowAction::Item } else { RowAction::Refused },
        },
    }
}

/// The edit that deleting the highlighted row applies.
pub fn delete_action(row: Option<TreeRowKind>, header_sections: usize, footer_sections: usize) -> (r: RowAction)
    ensures
        r == delete_action_for(row, header_sections, footer_sections),
        row matches Some(TreeRowKind::Component { node_idx, column_idx, component_idx })
            ==> r == (RowAction::PageComponent { node_idx, column_idx, component_idx }),
        r matches RowAction::Node { node_idx }
            ==> (row == Some(TreeRowKind::Hero { node_idx }) || row == Some(TreeRowKind::Section { node_idx })),
        r matches RowAction::PageComponent { node_idx, column_idx, component_idx }
            ==> row == Some(TreeRowKind::Component { node_idx, column_idx, component_idx }),
        row matches Some(x) ==> acts_on_row(x, r),
{
    match row {
        None => RowAction::NothingSelected,
        Some(r) => match r {
            TreeRowKind::PageHead | TreeRowKind::HeaderRoot | TreeRowKind::FooterRoot => RowAction::Refused,
            TreeRowKind::Hero { node_idx } | TreeRowKind::Section { node_idx } => RowAction::Node { node_idx },
            TreeRowKind::Component { node_idx, column_idx, component_idx } =>
                RowAction::PageComponent { node_idx, column_idx, component_idx },
            TreeRowKind::HeaderComponent { section_idx, column_idx, component_idx } =>
                RowAction::HeaderComponent { section_idx, column_idx, component_idx },
            TreeRowKind::FooterComponent { section_idx, column_idx, component_idx } =>
                RowAction::FooterComponent { section_idx, column_idx, component_idx },
            TreeRowKind::Column { .. } | TreeRowKind::HeaderColumn { .. } | TreeRowKind::FooterColumn { .. } => RowAction::Column,
            TreeRowKind::HeaderSection { section_idx } =>
                if header_sections <= 1 { RowAction::Refused } else { RowAction::HeaderSection { section_idx } },
            TreeRowKind::FooterSection { section_idx } =>
                if footer_sections <= 1 { RowAction::Refused } else { RowAction::FooterSection { section_idx } },
            _ => if item_row(r) { RowAction::Item } else { RowAction::Refused },
        },
    }
}

/// What duplicating the highlighted row does: nodes, components and
/// items are copied; other rows cannot be.
pub open spec fn duplicate_action_for(row: Option<TreeRowKind>) -> RowAction {
    match row {
        None => RowAction::NothingSelected,
        Some(r) => match r {
            TreeRowKind::Hero { node_idx } | TreeRowKind::Section { node_idx } => RowAction::Node { node_idx },
            TreeRowKind::Component { node_idx, column_idx, component_idx } =>
                RowAction::PageComponent { node_idx, column_idx, component_idx },
            TreeRowKind::HeaderComponent { section_idx, column_idx, component_idx } =>
                RowAction::HeaderComponent { section_idx, column_idx, component_idx },
            TreeRowKind::FooterComponent { section_idx, column_idx, component_idx } =>
                RowAction::FooterComponent { section_idx, column_idx, component_idx },
            _ => if is_item_row(r) { RowAction::Item } else { RowAction::Refused },
        },
    }
}

/// The edit that duplicating the highlighted row applies.
pub fn duplicate_action(row: Option<TreeRowKind>) -> (r: RowAction)
    ensures
        r == duplicate_action_for(row),
        row matches Some(TreeRowKind::Component { node_idx, column_idx, component_idx })
            ==> r == (RowAction::PageComponent { node_idx, column_idx, component_idx }),
        r matches RowAction::Node { node_idx }
            ==> (row == Some(TreeRowKind::Hero { node_idx }) || row == Some(TreeRowKind::Section { node_idx })),
        r matches RowAction::PageComponent { node_idx, column_idx, component_idx }
            ==> row == Some(TreeRowKind::Component { node_idx, column_idx, component_idx }),
        row matches Some(x) ==> acts_on_row(x, r),
{
    match row {
        None => RowAction::NothingSelected,
        Some(r) => match r {
            TreeRowKind::Hero { node_idx } | TreeRowKind::Section { node_idx } => RowAction::Node { node_idx },
            TreeRowKind::Component { node_idx, column_idx, component_idx } =>
                RowAction::PageComponent { node_idx, column_idx, component_idx },
            TreeRowKind::HeaderComponent { section_idx, column_idx, component_idx } =>
                RowAction::HeaderComponent { section_idx, column_idx, component_idx },
            TreeRowKind::FooterComponent { section_idx, column_idx, component_idx } =>
                RowAction::FooterComponent { section_idx, column_idx, component_idx },
            _ => if item_row(r) { RowAction::Item } else { RowAction::Refused },
        },
    }
}

/// What moving the highlighted row does: nodes, components, columns and
/// items move; other rows stay (`Refused`), as does nothing when no row is
/// highlighted.
pub open spec fn move_action_for(row: Option<TreeRowKind>) -> RowAction {
    match row {
        None => RowAction::NothingSelected,
        Some(r) => match r {
            TreeRowKind::Hero { node_idx } | TreeRowKind::Section { node_idx } => RowAction::Node { node_idx },
            TreeRowKind::Component { node_idx, column_idx, component_idx } =>
                RowAction::PageComponent { node_idx, column_idx, component_idx },
            TreeRowKind::HeaderComponent { section_idx, column_idx, component_idx } =>
                RowAction::HeaderComponent { section_idx, column_idx, component_idx },
            TreeRowKind::FooterComponent { section_idx, column_idx, component_idx } =>
                RowAction::FooterComponent { section_idx, column_idx, component_idx },
            TreeRowKind::Column { .. } | TreeRowKind::HeaderColumn { .. } | TreeRowKind::FooterColumn { .. } => RowAction::Column,
            _ => if is_item_row(r) { RowAction::Item } else { RowAction::Refused },
        },
    }
}

/// The edit that moving the highlighted row applies.
pub fn move_action(row: Option<TreeRowKind>) -> (r: RowAction)
    ensures
        r == move_action_for(row),
        row matches Some(TreeRowKind::Component { node_idx, column_idx, component_idx })
            ==> r == (RowAction::PageComponent { node_idx, column_idx, component_idx }),
        r matches RowAction::Node { node_idx }
            ==> (row == Some(TreeRowKind::Hero { node_idx }) || row == Some(TreeRowKind::Section { node_idx })),
        r matches RowAction::PageComponent { node_idx, column_idx, component_idx }
            ==> row == Some(TreeRowKind::Component { node_idx, column_idx, component_idx }),
        row matches Some(x) ==> acts_on_row(x, r),
{
    match row {
        None => RowAction::NothingSelected,
        Some(r) => match r {
            TreeRowKind::Hero { node_idx } | TreeRowKind::Section { node_idx } => RowAction::Node { node_idx },
            TreeRowKind::Component { node_idx, column_idx, component_idx } =>
                RowAction::PageComponent { node_idx, column_idx, component_idx },
            TreeRowKind::HeaderComponent { section_idx, column_idx, component_idx } =>
                RowAction::HeaderComponent { section_idx, column_idx, component_idx },
            TreeRowKind::FooterComponent { section_idx, column_idx, component_idx } =>
                RowAction::FooterComponent { section_idx, column_idx, component_idx },
            TreeRowKind::Column { .. } | TreeRowKind::HeaderColumn { .. } | TreeRowKind::FooterColumn { .. } => RowAction::Column,
            _ => if item_row(r) { RowAction::Item } else { RowAction::Refused },
        },
    }
}

/// `a` acts on the row `row` itself: a component row's action is that
/// component, and a node or page-component action only comes from the row
/// of that node or that component.
pub open spec fn acts_on_row(row: TreeRowKind, a: RowAction) -> bool {
    &&& (row matches TreeRowKind::Component { node_idx, column_idx, component_idx }
        ==> a == (RowAction::PageComponent { node_idx, column_idx, component_idx }))
    &&& (a matches RowAction::Node { node_idx }
        ==> (row == TreeRowKind::Hero { node_idx } || row == TreeRowKind::Section { node_idx }))
    &&& (a matches RowAction::PageComponent { node_idx, column_idx, component_idx }
        ==> row == (TreeRowKind::Component { node_idx, column_idx, component_idx }))
    &&& (row matches TreeRowKind::HeaderComponent { section_idx, column_idx, component_idx }
        ==> a == (RowAction::HeaderComponent { section_idx, column_idx, component_idx }))
    &&& (row matches TreeRowKind::FooterComponent { section_idx, column_idx, component_idx }
        ==> a == (RowAction::FooterComponent { section_idx, column_idx, component_idx }))
    &&& (a matches RowAction::HeaderComponent { section_idx, column_idx, component_idx }
        ==> row == (TreeRowKind::HeaderComponent { section_idx, column_idx, component_idx }))
    &&& (a matches RowAction::FooterComponent { section_idx, column_idx, component_idx }
        ==> row == (TreeRowKind::FooterComponent { section_idx, column_idx, component_idx }))
    &&& (a matches RowAction::HeaderSection { section_idx } ==> row == (TreeRowKind::HeaderSection { section_idx }))
    &&& (a matches RowAction::FooterSection { section_idx } ==> row == (TreeRowKind::FooterSection { section_idx }))
    &&& (a is Item ==> is_item_row(row))
    &&& (is_item_row(row) ==> a is Item)
}

/// Deleting, duplicating and moving the highlighted row all act on that
/// row: `d`, `y` and J/K on a component row edit exactly that component
/// (never the section holding it), and only a hero or section row edits a
/// whole node.
pub proof fn law_row_edits_act_on_the_row(row: TreeRowKind, header_sections: usize, footer_sections: usize)
    ensures
        acts_on_row(row, delete_action_for(Some(row), header_sections, footer_sections)),
        acts_on_row(row, duplicate_action_for(Some(row))),
        acts_on_row(row, move_action_for(Some(row))),
{
}

/// What the up and down keys do in a sidebar part.
#[derive(Clone, Copy, Debug, PartialEq, Eq, Structural)]
pub enum VerticalStep {
    /// Select the header (up) or the footer (down) region.
    Region { footer: bool },
    /// Go to the previous (up) or next (down) page, wrapping around.
    Page { forward: bool },
    /// Move the tree cursor one row up or down.
    TreeRow { forward: bool },
}

/// The up or down key (`down`) in the focused sidebar part.
pub fn vertical_step(section: SidebarSection, down: bool) -> (r: VerticalStep)
    ensures
        r == match section {
            SidebarSection::Regions => VerticalStep::Region { footer: down },
            SidebarSection::Pages => VerticalStep::Page { forward: down },
            SidebarSection::Layouts => VerticalStep::TreeRow { forward: down },
        },
{
    match section {
        SidebarSection::Regions => VerticalStep::Region { footer: down },
        SidebarSection::Pages => VerticalStep::Page { forward: down },
        SidebarSection::Layouts => VerticalStep::TreeRow { forward: down },
    }
}

/// What inserting the picked kind does in the selected region.
#[derive(Clone, Copy, Debug, PartialEq, Eq, Structural)]
pub enum InsertAction {
    /// A hero node on the page (whatever the region).
    Hero,
    /// A section in the header, the footer or on the page.
    Section(SelectedRegion),
    /// A component in the header, the footer or on the page.
    Component(SelectedRegion),
}

/// Inserting the picked kind: a hero always goes on the page; a section
/// or component goes to the selected region.
pub fn insert_action(kind: ComponentKind, region: SelectedRegion) -> (r: InsertAction)
    ensures
        r == if kind == ComponentKind::Hero {
            InsertAction::Hero
        } else if kind == ComponentKind::Section {
            InsertAction::Section(region)
        } else {
            InsertAction::Component(region)
        },
{
    match kind {
        ComponentKind::Hero => InsertAction::Hero,
        ComponentKind::Section => InsertAction::Section(region),
        _ => InsertAction::Component(region),
    }
}

/// The picker's highlighted entry kept within `total` entries (0 when
/// there are none).
pub fn normalize_component_picker_selection(selected: usize, total: usize) -> (r: usize)
    ensures
        r == clamp_last(selected, total as nat),
{
    if total == 0 { 0 } else if selected < total { selected } else { total - 1 }
}

/// The selected component: the selected node, column and component, each
/// clamped to the last; `None` on an empty page, on a hero or in an empty
/// column.
pub fn selected_component<'a>(page: &'a Page, sel: &Selection) -> (r: Option<&'a SectionComponent>)
    requires
        page.nodes@.len() > 0 ==> (page.nodes@[clamp_last(sel.selected_node, page.nodes@.len()) as int] matches PageNode::Section(s)
            ==> s.columns@.len() > 0),
    ensures
        page.nodes@.len() == 0 ==> r is None,
        page.nodes@.len() > 0 ==> match crate::moves::selected_component_at(*page, *sel) {
            Some((ni, col, ci)) => r == Some(&page.nodes@[ni as int]->Section_0.columns@[col as int].components@[ci as int]),
            None => r is None,
        },
{
    let n = page.nodes.len();
    if n == 0 {
        return None;
    }
    let ni = if sel.selected_node < n { sel.selected_node } else { n - 1 };
    match &page.nodes[ni] {
        PageNode::Hero(_) => None,
        PageNode::Section(s) => {
            let cols = s.columns.len();
            let col = if sel.selected_column < cols { sel.selected_column } else { cols - 1 };
            match crate::section_ids::component_index(s.columns[col].components.len(), sel.selected_component) {
                Some(ci) => Some(&s.columns[col].components[ci]),
                None => None,
            }
        },
    }
}

} // verus!
