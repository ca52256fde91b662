use dd_siteforge::components::ComponentKind;
use dd_siteforge::edits::{
    add_column, add_selected_component_to_section, add_region_column, add_region_component, add_region_section,
    delete_page_component, delete_selected_node, delete_region_component, delete_region_section,
    duplicate_selected_collection_item, duplicate_page_component, duplicate_page_node, duplicate_region_component,
    add_hero, add_section, node_insert_notice_text, remove_selected_column, remove_region_column, ColumnEdit,
    ComponentAdd, ComponentDelete, SectionDelete,
};
use dd_siteforge::history::{page_after_undo, push_undo, UNDO_DEPTH};
use dd_siteforge::moves::{
    column_move_text, move_selected_collection_item, move_page_column, move_page_component, move_page_node,
    move_region_column, move_region_component, snap_tree_row, swap_entries, target_index, ColumnMove,
};
use dd_siteforge::site::{DdHero, DdSection, Page, PageNode, SectionColumn, SectionComponent};
use dd_siteforge::tree::{Selection, TreeRowKind};

fn sel() -> Selection {
    Selection {
        page_head_selected: false,
        selected_node: 0,
        selected_column: 0,
        selected_component: 0,
        selected_nested_item: 0,
        selected_header_section: 0,
        selected_header_column: 0,
        selected_header_component: 0,
    }
}

fn column(id: &str, components: Vec<SectionComponent>) -> SectionColumn {
    SectionColumn { id: id.to_string(), width_class: "dd-u-1-1".to_string(), components }
}

fn section(id: &str, columns: Vec<SectionColumn>) -> DdSection {
    DdSection { id: id.to_string(), section_title: None, section_class: None, item_box_class: None, columns }
}

fn hero(title: &str) -> DdHero {
    DdHero {
        parent_class: None,
        parent_data_aos: None,
        parent_custom_css: None,
        parent_title: title.to_string(),
        parent_subtitle: String::new(),
        parent_copy: None,
        link_1_label: None,
        link_1_url: None,
        link_1_target: None,
        link_2_label: None,
        link_2_url: None,
        link_2_target: None,
        parent_image_url: String::new(),
        parent_image_alt: None,
        parent_image_mobile: None,
        parent_image_tablet: None,
        parent_image_desktop: None,
        parent_image_class: None,
    }
}

fn node_names(page: &Page) -> Vec<String> {
    page.nodes
        .iter()
        .map(|n| match n {
            PageNode::Hero(h) => format!("hero:{}", h.parent_title),
            PageNode::Section(s) => format!("section:{}", s.id),
        })
        .collect()
}

fn column_ids(s: &DdSection) -> Vec<String> {
    s.columns.iter().map(|c| c.id.clone()).collect()
}

fn section_of(page: &Page, i: usize) -> &DdSection {
    match &page.nodes[i] {
        PageNode::Section(s) => s,
        PageNode::Hero(_) => panic!("not a section"),
    }
}

fn kinds(c: &SectionColumn) -> Vec<&'static str> {
    c.components.iter().map(dd_siteforge::components::component_label).collect()
}

fn three_nodes() -> Page {
    Page { nodes: vec![PageNode::Hero(hero("a")), PageNode::Section(section("b", vec![])), PageNode::Hero(hero("c"))] }
}

#[test]
fn swapping_entries_twice_restores_the_order() {
    let mut v = vec![1, 2, 3, 4];
    swap_entries(&mut v, 0, 3);
    assert_eq!(v, vec![4, 2, 3, 1]);
    swap_entries(&mut v, 0, 3);
    assert_eq!(v, vec![1, 2, 3, 4]);
    swap_entries(&mut v, 2, 2);
    assert_eq!(v, vec![1, 2, 3, 4]);
}

#[test]
fn move_targets_stay_inside_the_list() {
    assert_eq!(target_index(0, -1, 3), None);
    assert_eq!(target_index(2, 1, 3), None);
    assert_eq!(target_index(1, 1, 3), Some(2));
    assert_eq!(target_index(1, -1, 3), Some(0));
}

#[test]
fn moving_a_node_down_and_back_up_restores_the_page() {
    let mut page = three_nodes();
    assert_eq!(move_page_node(&mut page, 0, 1), Some(1));
    assert_eq!(node_names(&page), vec!["section:b", "hero:a", "hero:c"]);
    assert_eq!(move_page_node(&mut page, 1, -1), Some(0));
    assert_eq!(node_names(&page), vec!["hero:a", "section:b", "hero:c"]);
    assert_eq!(move_page_node(&mut page, 2, 1), None);
    assert_eq!(move_page_node(&mut page, 5, -1), None);
    let mut single = Page { nodes: vec![PageNode::Hero(hero("x"))] };
    assert_eq!(move_page_node(&mut single, 0, 0), None);
}

#[test]
fn moving_components_swaps_them_within_their_column() {
    let comps = vec![ComponentKind::Cta.default_component(), ComponentKind::Card.default_component()];
    let mut page = Page { nodes: vec![PageNode::Section(section("s", vec![column("c", comps)]))] };
    assert_eq!(move_page_component(&mut page, 0, 0, 0, 1), Some(1));
    assert_eq!(kinds(&section_of(&page, 0).columns[0]), vec!["dd-card", "dd-cta"]);
    assert_eq!(move_page_component(&mut page, 0, 0, 1, 1), None);
    assert_eq!(move_page_component(&mut page, 0, 3, 0, 1), None);
    let mut header = vec![section("h", vec![column("c", vec![ComponentKind::Image.default_component(), ComponentKind::Alert.default_component()])])];
    assert_eq!(move_region_component(&mut header, 0, 0, 1, -1), Some(0));
    assert_eq!(kinds(&header[0].columns[0]), vec!["dd-alert", "dd-image"]);
    assert_eq!(move_region_component(&mut header, 1, 0, 0, 1), None);
}

#[test]
fn moving_an_item_swaps_it_with_its_neighbour() {
    let mut page = Page { nodes: vec![PageNode::Section(section("s", vec![column("c", vec![ComponentKind::Card.default_component()])]))] };
    let titles = |p: &Page| match &section_of(p, 0).columns[0].components[0] {
        SectionComponent::Card(c) => c.items.iter().map(|i| i.child_title.clone()).collect::<Vec<_>>(),
        _ => vec![],
    };
    assert_eq!(duplicate_selected_collection_item(&mut page, &sel()), Some(1));
    if let PageNode::Section(s) = &mut page.nodes[0] {
        if let SectionComponent::Card(c) = &mut s.columns[0].components[0] {
            c.items[1].child_title = "Second".to_string();
        }
    }
    let before = titles(&page);
    assert_eq!(before.len(), 2);
    assert_eq!(move_selected_collection_item(&mut page, &sel(), 1), Some(1));
    let after = titles(&page);
    assert_eq!(after[0], before[1]);
    assert_eq!(after[1], before[0]);
    assert_eq!(move_selected_collection_item(&mut page, &sel(), -1), None);
}

#[test]
fn moving_columns_reports_the_edges() {
    let mut page = Page { nodes: vec![PageNode::Section(section("s", vec![column("a", vec![]), column("b", vec![])]))] };
    assert_eq!(move_page_column(&mut page, 0, 0, true), ColumnMove::AlreadyFirst);
    assert_eq!(move_page_column(&mut page, 0, 0, false), ColumnMove::Moved(1));
    assert_eq!(column_ids(section_of(&page, 0)), vec!["b", "a"]);
    assert_eq!(move_page_column(&mut page, 0, 9, false), ColumnMove::AlreadyLast);
    let mut empty = Page { nodes: vec![PageNode::Section(section("e", vec![]))] };
    assert_eq!(move_page_column(&mut empty, 0, 0, true), ColumnMove::TooFew);
    assert_eq!(column_ids(section_of(&empty, 0)), vec!["column-1"]);
    let mut heroes = Page { nodes: vec![PageNode::Hero(hero("h"))] };
    assert_eq!(move_page_column(&mut heroes, 0, 0, true), ColumnMove::NotASection);
    assert_eq!(move_page_column(&mut Page { nodes: vec![] }, 0, 0, true), ColumnMove::NoSection);
    let mut header: Vec<DdSection> = vec![];
    assert_eq!(move_region_column(&mut header, 0, 0, true), ColumnMove::NoSection);
    assert_eq!(column_move_text(ColumnMove::NoSection, true, true), "No header sections to modify.");
    assert_eq!(column_move_text(ColumnMove::Moved(0), true, false), "Moved header column down.");
    assert_eq!(column_move_text(ColumnMove::Moved(0), false, true), "Moved column up.");
}

#[test]
fn snapping_picks_the_first_matching_row() {
    let rows = vec![TreeRowKind::PageHead, TreeRowKind::Column { node_idx: 0, column_idx: 1 }, TreeRowKind::Column { node_idx: 0, column_idx: 1 }];
    assert_eq!(snap_tree_row(&rows, TreeRowKind::Column { node_idx: 0, column_idx: 1 }, 0), 1);
    assert_eq!(snap_tree_row(&rows, TreeRowKind::Column { node_idx: 1, column_idx: 0 }, 7), 7);
}

#[test]
fn inserting_nodes_goes_after_the_selection() {
    let mut page = Page { nodes: vec![] };
    assert_eq!(add_hero(&mut page, 5), 0);
    match &page.nodes[0] {
        PageNode::Hero(h) => {
            assert_eq!(h.parent_title, "New Hero");
            assert_eq!(h.parent_image_url, "/assets/images/hero-new.jpg");
            assert_eq!(h.parent_image_alt.as_deref(), Some("Hero image"));
        },
        _ => panic!("expected a hero"),
    }
    assert_eq!(add_section(&mut page, 0), 1);
    assert_eq!(section_of(&page, 1).id, "section-1");
    assert_eq!(column_ids(section_of(&page, 1)), vec!["column-1"]);
    assert_eq!(add_section(&mut page, 0), 1);
    assert_eq!(section_of(&page, 1).id, "section-2");
    assert_eq!(node_insert_notice_text(true, 0), "Inserted dd-hero at position 1.");
    assert_eq!(node_insert_notice_text(false, 11), "Inserted dd-section at position 12.");
}

#[test]
fn deleting_a_node_keeps_the_selection_in_place() {
    let mut page = three_nodes();
    assert_eq!(delete_selected_node(&mut page, 9), Some((2, 1)));
    assert_eq!(node_names(&page), vec!["hero:a", "section:b"]);
    assert_eq!(delete_selected_node(&mut page, 0), Some((0, 0)));
    assert_eq!(delete_selected_node(&mut page, 0), Some((0, 0)));
    assert_eq!(delete_selected_node(&mut page, 0), None);
}

#[test]
fn duplicating_a_node_inserts_a_copy_after_it() {
    let mut page = three_nodes();
    assert_eq!(duplicate_page_node(&mut page, 0), Some(1));
    assert_eq!(node_names(&page), vec!["hero:a", "hero:a", "section:b", "hero:c"]);
    assert_eq!(duplicate_page_node(&mut page, 4), None);
}

#[test]
fn duplicating_and_deleting_components() {
    let mut page = Page { nodes: vec![PageNode::Section(section("s", vec![column("c", vec![ComponentKind::Cta.default_component()])]))] };
    assert_eq!(duplicate_page_component(&mut page, 0, 0, 0), Some(1));
    assert_eq!(kinds(&section_of(&page, 0).columns[0]), vec!["dd-cta", "dd-cta"]);
    assert_eq!(duplicate_page_component(&mut page, 0, 0, 2), None);
    assert_eq!(delete_page_component(&mut page, 0, 0, 1), ComponentDelete::Deleted(0));
    assert_eq!(delete_page_component(&mut page, 0, 0, 0), ComponentDelete::Deleted(0));
    assert_eq!(delete_page_component(&mut page, 0, 0, 0), ComponentDelete::Missing);
    let mut heroes = Page { nodes: vec![PageNode::Hero(hero("h"))] };
    assert_eq!(delete_page_component(&mut heroes, 0, 0, 0), ComponentDelete::NotASection);
    let mut footer = vec![section("f", vec![column("c", vec![ComponentKind::Image.default_component()])])];
    assert_eq!(duplicate_region_component(&mut footer, 0, 0, 0), Some(1));
    assert_eq!(delete_region_component(&mut footer, 0, 0, 1), Some(0));
    assert_eq!(delete_region_component(&mut footer, 0, 1, 0), None);
    assert_eq!(footer[0].columns[0].components.len(), 1);
}

#[test]
fn adding_components_goes_after_the_selected_one() {
    let mut page = Page { nodes: vec![PageNode::Section(section("s", vec![]))] };
    assert_eq!(add_selected_component_to_section(&mut page, 0, 0, 0, ComponentKind::Hero), ComponentAdd::TopLevelKind);
    assert_eq!(
        add_selected_component_to_section(&mut page, 0, 0, 0, ComponentKind::Cta),
        ComponentAdd::Added { column_idx: 0, component_idx: 0 }
    );
    assert_eq!(
        add_selected_component_to_section(&mut page, 0, 0, 0, ComponentKind::Image),
        ComponentAdd::Added { column_idx: 0, component_idx: 1 }
    );
    assert_eq!(kinds(&section_of(&page, 0).columns[0]), vec!["dd-cta", "dd-image"]);
    assert_eq!(add_selected_component_to_section(&mut Page { nodes: vec![] }, 0, 0, 0, ComponentKind::Cta), ComponentAdd::NoSection);
    let mut header = vec![section("h", vec![column("c", vec![])])];
    assert_eq!(add_region_component(&mut header, 0, 0, 3, ComponentKind::Alert), Some(0));
    assert_eq!(add_region_component(&mut header, 0, 0, 3, ComponentKind::Image), Some(1));
    assert_eq!(kinds(&header[0].columns[0]), vec!["dd-alert", "dd-image"]);
}

#[test]
fn adding_and_removing_columns() {
    let mut page = Page { nodes: vec![PageNode::Section(section("s", vec![]))] };
    assert_eq!(add_column(&mut page, 0), ColumnEdit::Done(1));
    assert_eq!(column_ids(section_of(&page, 0)), vec!["column-1", "column-2"]);
    assert_eq!(remove_selected_column(&mut page, 0, 9), ColumnEdit::Done(0));
    assert_eq!(column_ids(section_of(&page, 0)), vec!["column-1"]);
    assert_eq!(remove_selected_column(&mut page, 0, 0), ColumnEdit::TooFew);
    let mut heroes = Page { nodes: vec![PageNode::Hero(hero("h"))] };
    assert_eq!(add_column(&mut heroes, 0), ColumnEdit::NotASection);
    let mut header = vec![section("h", vec![column("column-1", vec![])])];
    assert_eq!(add_region_column(&mut header, 0), Some(1));
    assert_eq!(column_ids(&header[0]), vec!["column-1", "column-2"]);
    assert_eq!(remove_region_column(&mut header, 0, 0), ColumnEdit::Done(0));
    assert_eq!(column_ids(&header[0]), vec!["column-2"]);
    assert_eq!(remove_region_column(&mut vec![], 0, 0), ColumnEdit::NoSection);
}

#[test]
fn header_sections_are_added_and_the_last_one_is_kept() {
    let mut header = vec![section("h1", vec![column("c", vec![])])];
    assert_eq!(add_region_section(&mut header, 0, false), 1);
    assert_eq!(header[1].id, "header-section-2");
    assert_eq!(add_region_section(&mut header, 9, true), 2);
    assert_eq!(header[2].id, "footer-section-3");
    assert_eq!(delete_region_section(&mut header, 5), SectionDelete::Missing);
    assert_eq!(delete_region_section(&mut header, 2), SectionDelete::Deleted(1));
    assert_eq!(delete_region_section(&mut header, 0), SectionDelete::Deleted(0));
    assert_eq!(delete_region_section(&mut header, 0), SectionDelete::LastOne);
    assert_eq!(header.len(), 1);
}

#[test]
fn duplicating_an_item_inserts_a_copy_after_it() {
    let mut page = Page { nodes: vec![PageNode::Section(section("s", vec![column("c", vec![ComponentKind::Accordion.default_component()])]))] };
    let count = |p: &Page| match &section_of(p, 0).columns[0].components[0] {
        SectionComponent::Accordion(a) => a.items.len(),
        _ => 0,
    };
    let n = count(&page);
    assert_eq!(duplicate_selected_collection_item(&mut page, &sel()), Some(1));
    assert_eq!(count(&page), n + 1);
    let mut s = sel();
    s.selected_nested_item = 100;
    assert_eq!(duplicate_selected_collection_item(&mut page, &s), None);
    assert_eq!(count(&page), n + 1);
}

#[test]
fn the_undo_history_keeps_the_latest_snapshots() {
    let mut h: Vec<usize> = Vec::new();
    for i in 0..(UNDO_DEPTH + 5) {
        push_undo(&mut h, i);
        assert!(h.len() <= UNDO_DEPTH);
        assert_eq!(*h.last().unwrap(), i);
    }
    assert_eq!(h[0], 5);
    assert_eq!(page_after_undo(3, 2), 1);
    assert_eq!(page_after_undo(3, 0), 0);
    assert_eq!(page_after_undo(1, 2), 1);
}

use dd_siteforge::hints::SidebarSection;
use dd_siteforge::row_actions::{delete_action, duplicate_action, move_action, vertical_step, RowAction, VerticalStep};

#[test]
fn row_edits_depend_on_the_row_kind() {
    assert_eq!(delete_action(None, 2, 2), RowAction::NothingSelected);
    assert_eq!(delete_action(Some(TreeRowKind::PageHead), 2, 2), RowAction::Refused);
    assert_eq!(delete_action(Some(TreeRowKind::Section { node_idx: 3 }), 2, 2), RowAction::Node { node_idx: 3 });
    assert_eq!(delete_action(Some(TreeRowKind::HeaderSection { section_idx: 0 }), 1, 2), RowAction::Refused);
    assert_eq!(
        delete_action(Some(TreeRowKind::FooterSection { section_idx: 1 }), 1, 2),
        RowAction::FooterSection { section_idx: 1 }
    );
    assert_eq!(
        delete_action(Some(TreeRowKind::CardItem { node_idx: 0, column_idx: 0, component_idx: 0, item_idx: 1 }), 1, 1),
        RowAction::Item
    );
    assert_eq!(delete_action(Some(TreeRowKind::FooterColumn { section_idx: 0, column_idx: 0 }), 1, 1), RowAction::Column);
    assert_eq!(duplicate_action(Some(TreeRowKind::Column { node_idx: 0, column_idx: 0 })), RowAction::Refused);
    assert_eq!(
        duplicate_action(Some(TreeRowKind::HeaderComponent { section_idx: 0, column_idx: 1, component_idx: 2 })),
        RowAction::HeaderComponent { section_idx: 0, column_idx: 1, component_idx: 2 }
    );
    assert_eq!(move_action(Some(TreeRowKind::HeaderColumn { section_idx: 0, column_idx: 0 })), RowAction::Column);
    assert_eq!(move_action(Some(TreeRowKind::HeaderRoot)), RowAction::Refused);
    assert_eq!(vertical_step(SidebarSection::Regions, true), VerticalStep::Region { footer: true });
    assert_eq!(vertical_step(SidebarSection::Pages, false), VerticalStep::Page { forward: false });
    assert_eq!(vertical_step(SidebarSection::Layouts, true), VerticalStep::TreeRow { forward: true });
}

use dd_siteforge::navigation::SelectedRegion;
use dd_siteforge::row_actions::{insert_action, normalize_component_picker_selection, selected_component, InsertAction};

#[test]
fn inserting_goes_to_the_selected_region() {
    assert_eq!(insert_action(ComponentKind::Hero, SelectedRegion::Header), InsertAction::Hero);
    assert_eq!(insert_action(ComponentKind::Section, SelectedRegion::Footer), InsertAction::Section(SelectedRegion::Footer));
    assert_eq!(insert_action(ComponentKind::Cta, SelectedRegion::Page), InsertAction::Component(SelectedRegion::Page));
    assert_eq!(normalize_component_picker_selection(7, 3), 2);
    assert_eq!(normalize_component_picker_selection(7, 0), 0);
    assert_eq!(normalize_component_picker_selection(1, 3), 1);
}

#[test]
fn the_selected_component_is_clamped_into_its_column() {
    let page = Page { nodes: vec![PageNode::Section(section("s", vec![column("c", vec![ComponentKind::Cta.default_component(), ComponentKind::Image.default_component()])]))] };
    let mut s = sel();
    s.selected_component = 9;
    let c = selected_component(&page, &s).expect("a component");
    assert_eq!(dd_siteforge::components::component_label(c), "dd-image");
    assert!(selected_component(&Page { nodes: vec![] }, &s).is_none());
}
