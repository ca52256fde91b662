use dd_siteforge::notices::toggle_notice;
use dd_siteforge::toasts::ToastLevel;
use dd_siteforge::components::ComponentKind;
use dd_siteforge::items::{add_list_item, follow_item_edit, preferred_item, remove_list_item, ItemEdit};
use dd_siteforge::site::{DdSection, Page, PageNode, SectionColumn, SectionComponent, DdHeader, DdFooter};
use dd_siteforge::tree::{
    apply_tree_row_selection, build_footer_tree_rows, build_header_tree_rows, build_page_tree_rows,
    row_matches_selection, sync_tree_row_with_selection, toggle_tree_row, tree_row_is_expanded, Expansion,
    ItemsKind, Selection, ToggleEffect, TreeRowKind,
};

fn sel() -> Selection {
    Selection {
        page_head_selected: false,
        selected_node: 0,
        selected_column: 0,
        selected_component: 0,
        selected_nested_item: 0,
        selected_header_section: 0,
        selected_header_column: 0,
        selected_header_component: 0,
    }
}

fn page_with(components: Vec<SectionComponent>) -> Page {
    Page {
        nodes: vec![PageNode::Section(DdSection {
            id: "s".to_string(),
            section_title: None,
            section_class: None,
            item_box_class: None,
            columns: vec![SectionColumn { id: "c".to_string(), width_class: "dd-u-1-1".to_string(), components }],
        })],
    }
}

fn card_titles(page: &Page) -> Vec<String> {
    match &page.nodes[0] {
        PageNode::Section(s) => match &s.columns[0].components[0] {
            SectionComponent::Card(c) => c.items.iter().map(|i| i.child_title.clone()).collect(),
            _ => panic!("not a card"),
        },
        _ => panic!("not a section"),
    }
}

#[test]
fn page_tree_lists_head_sections_columns_components_and_items() {
    let page = page_with(vec![ComponentKind::Card.default_component(), ComponentKind::Cta.default_component()]);
    let n_items = match &page.nodes[0] {
        PageNode::Section(s) => match &s.columns[0].components[0] {
            SectionComponent::Card(c) => c.items.len(),
            _ => 0,
        },
        _ => 0,
    };
    let exp = Expansion::new();
    let rows = build_page_tree_rows(&vec![page], 0, &exp);
    assert_eq!(rows[0], TreeRowKind::PageHead);
    assert_eq!(rows[1], TreeRowKind::Section { node_idx: 0 });
    assert_eq!(rows[2], TreeRowKind::Column { node_idx: 0, column_idx: 0 });
    assert_eq!(rows[3], TreeRowKind::Component { node_idx: 0, column_idx: 0, component_idx: 0 });
    assert_eq!(rows.len(), 4 + n_items + 1);
    assert_eq!(rows[4], TreeRowKind::CardItem { node_idx: 0, column_idx: 0, component_idx: 0, item_idx: 0 });
    assert_eq!(*rows.last().unwrap(), TreeRowKind::Component { node_idx: 0, column_idx: 0, component_idx: 1 });
    assert!(build_page_tree_rows(&vec![], 0, &exp).is_empty());
}

#[test]
fn folding_a_section_hides_its_rows_and_toggling_twice_restores_them() {
    let page = page_with(vec![ComponentKind::Cta.default_component()]);
    let mut exp = Expansion::new();
    let mut s = sel();
    let (effect, open) = toggle_tree_row(&page, 0, TreeRowKind::Section { node_idx: 0 }, &mut exp, &mut s);
    assert_eq!(effect, ToggleEffect::Section { node_idx: 0 });
    assert!(!open);
    assert!(!tree_row_is_expanded(&exp, 0, TreeRowKind::Section { node_idx: 0 }));
    let pages = vec![page];
    assert_eq!(build_page_tree_rows(&pages, 0, &exp), vec![TreeRowKind::PageHead, TreeRowKind::Section { node_idx: 0 }]);
    let (_, open) = toggle_tree_row(&pages[0], 0, TreeRowKind::Column { node_idx: 0, column_idx: 0 }, &mut exp, &mut s);
    assert!(open);
    assert_eq!(build_page_tree_rows(&pages, 0, &exp).len(), 4);
}

#[test]
fn toggling_a_card_row_folds_its_items() {
    let page = page_with(vec![ComponentKind::Card.default_component()]);
    let mut exp = Expansion::new();
    let mut s = sel();
    let row = TreeRowKind::CardItem { node_idx: 0, column_idx: 5, component_idx: 9, item_idx: 0 };
    let (effect, open) = toggle_tree_row(&page, 0, row, &mut exp, &mut s);
    assert_eq!(effect, ToggleEffect::Items { kind: ItemsKind::Card, node_idx: 0, column_idx: 0, component_idx: 0 });
    assert!(!open);
    assert_eq!(build_page_tree_rows(&vec![page], 0, &exp).len(), 4);
}

#[test]
fn toggle_hints_for_rows_without_folds() {
    let page = page_with(vec![]);
    let mut exp = Expansion::new();
    let mut s = sel();
    assert_eq!(toggle_tree_row(&page, 0, TreeRowKind::PageHead, &mut exp, &mut s).0, ToggleEffect::EnterToEditHead);
    assert_eq!(toggle_tree_row(&page, 0, TreeRowKind::FooterRoot, &mut exp, &mut s).0, ToggleEffect::EnterToEdit);
    assert_eq!(toggle_tree_row(&page, 0, TreeRowKind::Hero { node_idx: 0 }, &mut exp, &mut s).0, ToggleEffect::NotASection);
    assert_eq!(toggle_tree_row(&page, 0, TreeRowKind::HeaderRoot, &mut exp, &mut s), (ToggleEffect::HeaderColumns, false));
    assert_eq!(toggle_tree_row(&page, 0, TreeRowKind::HeaderRoot, &mut exp, &mut s), (ToggleEffect::HeaderColumns, true));
}

#[test]
fn header_tree_shows_sections_only_when_listed() {
    let header = DdHeader {
        id: "h".to_string(),
        custom_css: None,
        alert: None,
        sections: vec![DdSection {
            id: "hs".to_string(),
            section_title: None,
            section_class: None,
            item_box_class: None,
            columns: vec![SectionColumn { id: "c".into(), width_class: "w".into(), components: vec![ComponentKind::Cta.default_component()] }],
        }],
    };
    let mut exp = Expansion::new();
    assert!(exp.header_column_expanded);
    exp.header_column_expanded = false;
    assert_eq!(build_header_tree_rows(&header, &exp), vec![TreeRowKind::HeaderRoot]);
    exp.header_column_expanded = true;
    assert_eq!(build_header_tree_rows(&header, &exp), vec![TreeRowKind::HeaderRoot, TreeRowKind::HeaderSection { section_idx: 0 }]);
    exp.set_header_section_expanded(0, true);
    assert_eq!(build_header_tree_rows(&header, &exp).len(), 4);
    let footer = DdFooter { id: "f".into(), custom_css: None, sections: header.sections };
    assert_eq!(
        build_footer_tree_rows(&footer),
        vec![
            TreeRowKind::FooterRoot,
            TreeRowKind::FooterSection { section_idx: 0 },
            TreeRowKind::FooterColumn { section_idx: 0, column_idx: 0 },
            TreeRowKind::FooterComponent { section_idx: 0, column_idx: 0, component_idx: 0 },
        ]
    );
}

#[test]
fn choosing_a_row_selects_it_and_sync_finds_it() {
    let rows = vec![
        TreeRowKind::PageHead,
        TreeRowKind::Section { node_idx: 0 },
        TreeRowKind::Column { node_idx: 0, column_idx: 0 },
        TreeRowKind::Component { node_idx: 0, column_idx: 0, component_idx: 0 },
    ];
    let mut s = sel();
    apply_tree_row_selection(&mut s, rows[3]);
    assert!(row_matches_selection(&s, rows[3]));
    assert_eq!(sync_tree_row_with_selection(&rows, &s, 3), 3);
    // The section and column rows stand for the selection too; the first wins.
    assert_eq!(sync_tree_row_with_selection(&rows, &s, 0), 1);
    apply_tree_row_selection(&mut s, rows[0]);
    assert!(s.page_head_selected);
    assert_eq!(sync_tree_row_with_selection(&rows, &s, 1), 0);
    s.selected_node = 7;
    s.page_head_selected = false;
    assert_eq!(sync_tree_row_with_selection(&rows, &s, 9), 3);
    assert_eq!(sync_tree_row_with_selection(&vec![], &s, 9), 0);
}

#[test]
fn adding_and_removing_card_items() {
    let mut page = page_with(vec![ComponentKind::Card.default_component()]);
    let before = card_titles(&page);
    let n = before.len();
    let s = sel();
    let edit = add_list_item(&mut page, &s, Some(0), ItemsKind::Card);
    assert_eq!(edit, ItemEdit::Added { node_idx: 0, column_idx: 0, component_idx: 0, item_idx: 1 });
    let after = card_titles(&page);
    assert_eq!(after.len(), n + 1);
    assert_eq!(after[1], format!("Title {}", n + 1));
    let edit = remove_list_item(&mut page, &s, Some(1), ItemsKind::Card);
    assert_eq!(edit, ItemEdit::Removed { node_idx: 0, column_idx: 0, component_idx: 0, removed_idx: 1, item_idx: 1.min(n - 1) });
    assert_eq!(card_titles(&page), before);
    assert_eq!(add_list_item(&mut page, &s, None, ItemsKind::Accordion), ItemEdit::WrongComponent);
}

#[test]
fn a_list_keeps_its_last_item() {
    let mut page = page_with(vec![ComponentKind::Card.default_component()]);
    let s = sel();
    while card_titles(&page).len() > 1 {
        remove_list_item(&mut page, &s, None, ItemsKind::Card);
    }
    assert_eq!(remove_list_item(&mut page, &s, None, ItemsKind::Card), ItemEdit::KeepOne);
    assert_eq!(card_titles(&page).len(), 1);
}

#[test]
fn edits_on_pages_without_components() {
    let mut empty = Page { nodes: vec![] };
    assert_eq!(add_list_item(&mut empty, &sel(), None, ItemsKind::Card), ItemEdit::NoSection);
    let mut page = page_with(vec![]);
    assert_eq!(add_list_item(&mut page, &sel(), None, ItemsKind::Card), ItemEdit::NoComponents);
    let mut bare = Page {
        nodes: vec![PageNode::Section(DdSection { id: "s".into(), section_title: None, section_class: None, item_box_class: None, columns: vec![] })],
    };
    assert_eq!(remove_list_item(&mut bare, &sel(), None, ItemsKind::Card), ItemEdit::NoComponents);
    match &bare.nodes[0] {
        PageNode::Section(s) => assert_eq!(s.columns.len(), 1),
        _ => panic!(),
    }
}

#[test]
fn preferred_items_and_follow_up() {
    let row = TreeRowKind::AccordionItem { node_idx: 0, column_idx: 0, component_idx: 0, item_idx: 2 };
    assert_eq!(preferred_item(row, ItemsKind::Accordion, false), Some(2));
    assert_eq!(preferred_item(row, ItemsKind::Accordion, true), None);
    assert_eq!(preferred_item(row, ItemsKind::Card, false), None);
    let mut s = sel();
    s.selected_column = 4;
    let mut exp = Expansion::new();
    exp.set_items_expanded(ItemsKind::Card, 0, 0, 4, 0, false);
    follow_item_edit(&mut s, &mut exp, 0, ItemsKind::Card, ItemEdit::Added { node_idx: 0, column_idx: 0, component_idx: 0, item_idx: 3 });
    assert_eq!(s.selected_nested_item, 3);
    assert_eq!(s.selected_column, 4);
    assert!(exp.is_items_expanded(ItemsKind::Card, 0, 0, 4, 0));
}

#[test]
fn fold_toggles_report_what_changed() {
    let card = ToggleEffect::Items { kind: ItemsKind::Card, node_idx: 0, column_idx: 0, component_idx: 0 };
    assert_eq!(toggle_notice(card, true), (ToastLevel::Info, "Collapsed card items.".to_string()));
    assert_eq!(toggle_notice(card, false), (ToastLevel::Info, "Expanded card items.".to_string()));
    assert_eq!(toggle_notice(ToggleEffect::Section { node_idx: 1 }, true), (ToastLevel::Info, "Collapsed section.".to_string()));
    assert_eq!(toggle_notice(ToggleEffect::HeaderColumns, false), (ToastLevel::Info, "Expanded header columns.".to_string()));
    assert_eq!(toggle_notice(ToggleEffect::EnterToEdit, false), (ToastLevel::Info, "Press Enter to edit.".to_string()));
    assert_eq!(toggle_notice(ToggleEffect::EnterToEditHead, false), (ToastLevel::Info, "Press Enter to edit page head.".to_string()));
    assert_eq!(toggle_notice(ToggleEffect::NotASection, false), (ToastLevel::Warning, "Selected row is not a section.".to_string()));
}
