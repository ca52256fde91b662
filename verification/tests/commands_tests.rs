use dd_siteforge::clicks::{click_target_at, double_click_opens_page_head, ClickTarget, Panels};
use dd_siteforge::commands::{
    is_double_click, main_key_command, overlay_key, overlay_wheel, pages_key_command, Command, PagesCommand,
};
use dd_siteforge::history::{commit_delete_page, move_page, restore_from_trash};
use dd_siteforge::layout::Rect;
use dd_siteforge::modal::{Key, KeyPress};
use dd_siteforge::page_details::{details_max_scroll, page_details_text, scroll_details_by};
use dd_siteforge::site::{DdSection, Page, PageNode, SectionColumn};

fn key(k: Key) -> KeyPress {
    KeyPress { key: k, ctrl: false, shift: false }
}

fn shifted(c: char) -> KeyPress {
    KeyPress { key: Key::Char(c), ctrl: false, shift: true }
}

fn ctrl(c: char) -> KeyPress {
    KeyPress { key: Key::Char(c), ctrl: true, shift: false }
}

#[test]
fn main_screen_keys_map_to_commands() {
    assert_eq!(main_key_command(key(Key::F(1))), Command::ShowHelp);
    assert_eq!(main_key_command(key(Key::F(3))), Command::OpenValidation);
    assert_eq!(main_key_command(key(Key::F(9))), Command::Nothing);
    assert_eq!(main_key_command(shifted('E')), Command::BeginExport);
    assert_eq!(main_key_command(key(Key::Char('E'))), Command::Nothing);
    assert_eq!(main_key_command(key(Key::Char('p'))), Command::BeginPreview);
    assert_eq!(main_key_command(ctrl('p')), Command::Nothing);
    assert_eq!(main_key_command(ctrl('q')), Command::RequestQuit);
    assert_eq!(main_key_command(key(Key::Char('q'))), Command::Nothing);
    assert_eq!(main_key_command(key(Key::Char('J'))), Command::MoveRow(1));
    assert_eq!(main_key_command(key(Key::Char('K'))), Command::MoveRow(-1));
    assert_eq!(main_key_command(key(Key::PageUp)), Command::ScrollDetails(-5));
    assert_eq!(main_key_command(key(Key::Tab)), Command::NextPage);
    assert_eq!(main_key_command(key(Key::Char('2'))), Command::FocusPages);
    assert_eq!(main_key_command(key(Key::Char(' '))), Command::ToggleRow);
}

#[test]
fn page_list_keys_need_their_modifiers() {
    assert_eq!(pages_key_command(shifted('A')), Some(PagesCommand::NewPage));
    assert_eq!(pages_key_command(key(Key::Char('A'))), None);
    assert_eq!(pages_key_command(key(Key::Char('u'))), Some(PagesCommand::RestorePage));
    assert_eq!(pages_key_command(ctrl('u')), None);
    assert_eq!(pages_key_command(key(Key::Char('r'))), Some(PagesCommand::RenamePage));
    assert_eq!(pages_key_command(shifted('r')), None);
    assert_eq!(pages_key_command(shifted('K')), Some(PagesCommand::MovePageUp));
}

#[test]
fn overlays_scroll_within_bounds_and_close() {
    assert_eq!(overlay_key(3, 5, 1, Key::Esc), None);
    assert_eq!(overlay_key(3, 5, 1, Key::F(1)), None);
    assert_eq!(overlay_key(3, 5, 2, Key::F(1)), Some(3));
    assert_eq!(overlay_key(4, 5, 1, Key::PageDown), Some(5));
    assert_eq!(overlay_key(4, 5, 1, Key::PageUp), Some(0));
    assert_eq!(overlay_key(4, 5, 1, Key::Char('j')), Some(5));
    assert_eq!(overlay_key(4, 5, 1, Key::Char('G')), Some(5));
    assert_eq!(overlay_key(4, 5, 1, Key::Home), Some(0));
    assert_eq!(overlay_wheel(1, 10, false), 0);
    assert_eq!(overlay_wheel(9, 10, true), 10);
}

#[test]
fn double_clicks_need_the_same_cell_and_a_short_gap() {
    assert!(is_double_click(Some((3, 4)), 100, 3, 4));
    assert!(!is_double_click(Some((3, 4)), 420, 3, 4));
    assert!(!is_double_click(Some((3, 5)), 10, 3, 4));
    assert!(!is_double_click(None, 0, 3, 4));
}

fn panels() -> Panels {
    Panels {
        tree: Rect { x: 0, y: 0, width: 20, height: 10 },
        pages: Rect { x: 0, y: 10, width: 20, height: 5 },
        regions: Rect { x: 0, y: 15, width: 20, height: 4 },
        details: Rect { x: 20, y: 0, width: 40, height: 20 },
    }
}

#[test]
fn clicks_land_on_rows_pages_regions_and_text() {
    let p = panels();
    assert_eq!(click_target_at(&p, 5, 3, 10, 4, 3, 0, 0), ClickTarget::TreeRow(6));
    assert_eq!(click_target_at(&p, 5, 0, 10, 4, 3, 0, 0), ClickTarget::Nothing);
    assert_eq!(click_target_at(&p, 5, 9, 10, 0, 3, 0, 0), ClickTarget::Nothing);
    assert_eq!(click_target_at(&p, 5, 12, 10, 0, 3, 0, 0), ClickTarget::Page(1));
    assert_eq!(click_target_at(&p, 5, 14, 10, 0, 3, 0, 0), ClickTarget::Nothing);
    assert_eq!(click_target_at(&p, 5, 16, 10, 0, 3, 0, 0), ClickTarget::HeaderRegion);
    assert_eq!(click_target_at(&p, 5, 17, 10, 0, 3, 0, 0), ClickTarget::FooterRegion);
    assert_eq!(click_target_at(&p, 25, 2, 10, 0, 3, 0, 7), ClickTarget::Details { line: 8, column: 4 });
    assert_eq!(click_target_at(&p, 58, 2, 10, 0, 3, 0, 7), ClickTarget::Nothing);
    assert!(double_click_opens_page_head(p.pages, 3, 11));
    assert!(!double_click_opens_page_head(p.pages, 3, 10));
}

#[test]
fn deleted_pages_go_to_the_trash_and_come_back_last() {
    let mut pages = vec!["a", "b", "c"];
    let mut trash: Vec<&str> = Vec::new();
    assert_eq!(commit_delete_page(&mut pages, &mut trash, 1), Some(1));
    assert_eq!(pages, vec!["a", "c"]);
    assert_eq!(trash, vec!["b"]);
    assert_eq!(restore_from_trash(&mut pages, &mut trash), Some(2));
    assert_eq!(pages, vec!["a", "c", "b"]);
    assert!(trash.is_empty());
    assert_eq!(restore_from_trash(&mut pages, &mut trash), None);
    let mut one = vec!["x"];
    assert_eq!(commit_delete_page(&mut one, &mut trash, 0), None);
    assert_eq!(move_page(&mut pages, 0, true), Some(1));
    assert_eq!(pages, vec!["c", "a", "b"]);
    assert_eq!(move_page(&mut pages, 0, false), None);
    assert_eq!(move_page(&mut pages, 2, true), None);
    assert_eq!(move_page(&mut pages, 2, false), Some(1));
    assert_eq!(pages, vec!["c", "b", "a"]);
}

#[test]
fn page_details_list_each_node_with_its_map() {
    let empty = Page { nodes: vec![] };
    let (text, hits) = page_details_text(&empty, "Home", 0, 0, 0, "dd-cta", 40, &vec![]);
    assert_eq!(text, "No nodes on this page.");
    assert!(hits.is_empty());
    let page = Page {
        nodes: vec![PageNode::Section(DdSection {
            id: "intro".to_string(),
            section_title: None,
            section_class: None,
            item_box_class: None,
            columns: vec![],
        })],
    };
    let (text, hits) = page_details_text(&page, "Home", 0, 0, 0, "dd-cta", 40, &vec![(vec![], vec![])]);
    let lines: Vec<&str> = text.lines().collect();
    assert_eq!(
        lines,
        vec![
            "Page blueprint: Home",
            "",
            "*[01] dd-section intro",
            "(no columns)",
            "",
            "Selected: node 1 (dd-section:intro), column 1, component 1 | Insert mode: dd-cta",
        ]
    );
    assert_eq!(hits.len(), lines.len());
    let _ = SectionColumn { id: String::new(), width_class: String::new(), components: vec![] };
}

#[test]
fn the_details_panel_scrolls_within_its_text() {
    assert_eq!(details_max_scroll("a\nb\nc\nd", 2), 2);
    assert_eq!(details_max_scroll("a\nb\n", 2), 0);
    assert_eq!(details_max_scroll("", 0), 0);
    assert_eq!(details_max_scroll("a\r\nb\r\nc", 1), 2);
    assert_eq!(scroll_details_by(1, -5, 4), 0);
    assert_eq!(scroll_details_by(1, 5, 4), 4);
    assert_eq!(scroll_details_by(1, 2, 4), 3);
}

use dd_siteforge::modal::ModalConfig;
use dd_siteforge::navigation::SelectedRegion;
use dd_siteforge::page_details::details_text;
use dd_siteforge::site::{DdFooter, DdHeader};
use dd_siteforge::tree::Selection;

#[test]
fn dialogs_default_to_four_fifths_of_the_screen() {
    let c = ModalConfig::default();
    assert_eq!((c.width_percent, c.height_percent), (80, 80));
    assert_eq!(c.footer_text, "Tab/Up/Down: navigate | Ctrl+S: save | Esc: cancel");
}

#[test]
fn the_details_text_follows_the_selected_region() {
    let sel = Selection {
        page_head_selected: false,
        selected_node: 0,
        selected_column: 0,
        selected_component: 0,
        selected_nested_item: 0,
        selected_header_section: 0,
        selected_header_column: 0,
        selected_header_component: 0,
    };
    let header = DdHeader { id: "top".to_string(), custom_css: None, alert: None, sections: vec![] };
    let footer = DdFooter { id: "bottom".to_string(), custom_css: None, sections: vec![] };
    let page = Page { nodes: vec![] };
    let (h, hits) = details_text(SelectedRegion::Header, &header, &footer, &page, "Home", &sel, "dd-cta", 40, &vec![]);
    assert!(h.starts_with("Site header\n\n*[01] dd-header top\n"));
    assert!(h.ends_with("| Insert mode: dd-cta"));
    assert!(hits.is_empty());
    let (f, _) = details_text(SelectedRegion::Footer, &header, &footer, &page, "Home", &sel, "dd-cta", 40, &vec![]);
    assert!(f.starts_with("Site footer\n\n*[01] dd-footer bottom\n"));
    let (p, _) = details_text(SelectedRegion::Page, &header, &footer, &page, "Home", &sel, "dd-cta", 40, &vec![]);
    assert_eq!(p, "No nodes on this page.");
}
