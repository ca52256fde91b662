use dd_siteforge::details::{clicked_tree_row, select_header_from_details_lines, select_page_from_details_lines, page_scan_lines};
use dd_siteforge::hints::{footer_hint, SidebarSection};
use dd_siteforge::navigation::{
    column_notice_text, cycle_page, jump_tree_row, selected_header_section_column_total, selected_section_column_total,
    step_column, step_tree_row,
};
use dd_siteforge::panel::{footer_details_text, header_selection_summary, selection_summary};
use dd_siteforge::site::{DdFooter, DdHeader, DdSection, Page, PageNode, SectionColumn};
use dd_siteforge::tree::{Expansion, Selection, TreeRowKind};
use dd_siteforge::tree_label::tree_row_label;

fn sel() -> Selection {
    Selection {
        page_head_selected: false,
        selected_node: 0,
        selected_column: 0,
        selected_component: 0,
        selected_nested_item: 0,
        selected_header_section: 0,
        selected_header_column: 0,
        selected_header_component: 0,
    }
}

fn section(id: &str, cols: usize) -> DdSection {
    DdSection {
        id: id.to_string(),
        section_title: None,
        section_class: None,
        item_box_class: None,
        columns: (0..cols)
            .map(|i| SectionColumn { id: format!("c{}", i + 1), width_class: "dd-u-1-1".to_string(), components: vec![] })
            .collect(),
    }
}

fn lines(v: &[&str]) -> Vec<String> {
    v.iter().map(|s| s.to_string()).collect()
}

#[test]
fn status_line_hints_depend_on_focus_width_and_dirtiness() {
    assert_eq!(footer_hint(true, SidebarSection::Pages, false, 200), "F1:Help  Esc:Close  Ctrl+Q:Quit");
    assert_eq!(
        footer_hint(false, SidebarSection::Pages, false, 79),
        "F1:Help  Shift+A:Add  r:Rename  Ctrl+Q:Quit"
    );
    assert_eq!(
        footer_hint(false, SidebarSection::Regions, true, 200),
        "*  F1:Help  j/k:Header/Footer  Enter:Edit  Ctrl+Q:Quit"
    );
    assert_eq!(
        footer_hint(false, SidebarSection::Layouts, false, 109),
        "F1:Help  /:Insert  d:Del  y:Dup  u:Undo  J/K:Move  Ctrl+Q:Quit"
    );
    assert!(footer_hint(false, SidebarSection::Layouts, false, 110).contains("p:Preview"));
    assert_eq!(footer_hint(false, SidebarSection::Pages, true, 5), "*  F1");
    assert_eq!(footer_hint(false, SidebarSection::Pages, false, 0), "");
}

#[test]
fn the_tree_cursor_stops_at_both_ends() {
    let rows = vec![TreeRowKind::PageHead, TreeRowKind::Section { node_idx: 0 }, TreeRowKind::Column { node_idx: 0, column_idx: 2 }];
    let mut s = sel();
    assert_eq!(step_tree_row(&rows, 0, false, &mut s), 0);
    assert_eq!(step_tree_row(&rows, 0, true, &mut s), 1);
    assert_eq!(s.selected_node, 0);
    assert_eq!(step_tree_row(&rows, 1, true, &mut s), 2);
    assert_eq!(s.selected_column, 2);
    assert_eq!(step_tree_row(&rows, 2, true, &mut s), 2);
    assert_eq!(step_tree_row(&vec![], 4, true, &mut s), 4);
    assert_eq!(jump_tree_row(&rows, false, &mut s), Some(0));
    assert!(s.page_head_selected);
    assert_eq!(jump_tree_row(&rows, true, &mut s), Some(2));
    assert!(!s.page_head_selected);
    assert_eq!(jump_tree_row(&vec![], true, &mut s), None);
}

#[test]
fn pages_cycle_around_both_ways() {
    assert_eq!(cycle_page(3, 2, true), Some(0));
    assert_eq!(cycle_page(3, 0, false), Some(2));
    assert_eq!(cycle_page(3, 1, false), Some(0));
    assert_eq!(cycle_page(0, 0, true), None);
    for p in 0..4 {
        let next = cycle_page(4, p, true).unwrap();
        assert_eq!(cycle_page(4, next, false), Some(p));
    }
}

#[test]
fn column_steps_and_notices() {
    assert_eq!(step_column(0, 0, true), None);
    assert_eq!(step_column(3, 2, true), Some(2));
    assert_eq!(step_column(3, 0, false), Some(0));
    assert_eq!(step_column(3, 1, true), Some(2));
    assert_eq!(column_notice_text(false, 1, 3), "Selected column 2 of 3.");
    assert_eq!(column_notice_text(true, 0, 1), "Selected header column 1 of 1.");
    let page = Page { nodes: vec![PageNode::Section(section("s", 2))] };
    assert_eq!(selected_section_column_total(&page, 7), Some(2));
    assert_eq!(selected_section_column_total(&Page { nodes: vec![] }, 0), None);
    assert_eq!(selected_header_section_column_total(&vec![section("a", 1), section("b", 3)], 9), Some(3));
    assert_eq!(selected_header_section_column_total(&vec![], 0), None);
}

#[test]
fn header_details_clicks_count_sections_columns_and_components() {
    let text = lines(&[
        "Site header",
        "",
        "*[01] dd-header h",
        "| section: top |",
        "| column: c1 |",
        "| dd-alert |",
        "| dd-image |",
        "| column: c2 |",
        "| dd-navigation |",
        "| section: bottom |",
    ]);
    assert_eq!(select_header_from_details_lines(&text, 6), (0, 0, 1));
    assert_eq!(select_header_from_details_lines(&text, 8), (0, 1, 0));
    assert_eq!(select_header_from_details_lines(&text, 9), (1, 0, 0));
    assert_eq!(select_header_from_details_lines(&text, 99), (1, 0, 0));
    assert_eq!(select_header_from_details_lines(&text, 1), (0, 0, 0));
}

#[test]
fn page_details_clicks_find_the_node_and_its_parts() {
    let text = lines(&[
        "Page blueprint: Home",
        "",
        " [01] dd-hero",
        "+---+",
        "",
        "*[02] dd-section s",
        "| item: c1 |",
        "| dd-cta |",
        "| dd-card |",
        "| item: c2 |",
        "| dd-image |",
    ]);
    assert_eq!(page_scan_lines(&text, 1), (None, 0, 0));
    assert_eq!(page_scan_lines(&text, 2), (Some(0), 0, 0));
    assert_eq!(page_scan_lines(&text, 8), (Some(1), 0, 1));
    assert_eq!(page_scan_lines(&text, 10), (Some(1), 1, 0));
    let no_hits: Vec<Vec<(usize, usize, usize, usize)>> = vec![];
    assert_eq!(select_page_from_details_lines(&text, 8, 0, &no_hits, 2, (0, 5, 5)), (1, 0, 1));
    assert_eq!(select_page_from_details_lines(&text, 8, 0, &no_hits, 1, (0, 5, 5)), (0, 5, 5));
    let mut hits = vec![vec![]; 11];
    hits[8] = vec![(0, 4, 0, 0), (4, 9, 1, 3)];
    assert_eq!(select_page_from_details_lines(&text, 8, 5, &hits, 2, (0, 5, 5)), (1, 1, 3));
    assert_eq!(select_page_from_details_lines(&text, 8, 20, &hits, 2, (0, 5, 5)), (1, 0, 1));
}

#[test]
fn a_click_selects_the_deepest_matching_tree_row() {
    let rows = vec![
        TreeRowKind::PageHead,
        TreeRowKind::Section { node_idx: 0 },
        TreeRowKind::Column { node_idx: 0, column_idx: 0 },
        TreeRowKind::Component { node_idx: 0, column_idx: 0, component_idx: 0 },
    ];
    let s = sel();
    assert_eq!(clicked_tree_row(&rows, &s, "| dd-cta |"), Some(3));
    assert_eq!(clicked_tree_row(&rows, &s, "| item: c1 |"), Some(2));
    assert_eq!(clicked_tree_row(&rows, &s, "*[01] dd-section s"), Some(1));
    assert_eq!(clicked_tree_row(&rows[..1].to_vec(), &s, "x"), None);
}

#[test]
fn selection_summaries_name_the_selected_parts() {
    let page = Page { nodes: vec![PageNode::Section(section("intro", 1))] };
    assert_eq!(selection_summary(&page, 4, 0, 1), "node 1 (dd-section:intro), column 1, component 2");
    assert_eq!(selection_summary(&Page { nodes: vec![] }, 0, 0, 0), "(none)");
    let header = DdHeader { id: "h".to_string(), custom_css: None, alert: None, sections: vec![section("top", 1)] };
    assert_eq!(header_selection_summary(&header, 3, 0, 0), "dd-header:h, section:top, column 1, component 1");
    let bare = DdHeader { id: "h".to_string(), custom_css: None, alert: None, sections: vec![] };
    assert_eq!(header_selection_summary(&bare, 0, 0, 0), "dd-header (no sections - press '/' to add dd-section)");
    let footer = DdFooter { id: "f".to_string(), custom_css: None, sections: vec![] };
    let text = footer_details_text(&footer, true, 0, 0, 40);
    assert!(text.starts_with("Site footer\n\n*[01] dd-footer f\n"));
}

#[test]
fn tree_labels_number_rows_from_one() {
    let header = DdHeader { id: "h".to_string(), custom_css: None, alert: None, sections: vec![section("top", 2)] };
    let footer = DdFooter { id: "f".to_string(), custom_css: None, sections: vec![section("bottom", 1)] };
    let pages = vec![Page { nodes: vec![PageNode::Section(section("s", 1))] }];
    let e = Expansion::new();
    let label = |row| tree_row_label(&e, &header, &footer, &pages, 0, "Home", row);
    assert_eq!(label(TreeRowKind::FooterRoot), "1. [FOOTER] dd-footer (f)");
    assert_eq!(label(TreeRowKind::HeaderColumn { section_idx: 0, column_idx: 5 }), "    |- column 2 (c2) [dd-u-1-1]");
    assert_eq!(label(TreeRowKind::FooterSection { section_idx: 0 }), "  1 dd-section (bottom)");
    assert_eq!(label(TreeRowKind::PageHead), "[HEAD] Home");
    assert_eq!(label(TreeRowKind::Column { node_idx: 0, column_idx: 0 }), "  |- column 1 (c1) [dd-u-1-1]");
}
