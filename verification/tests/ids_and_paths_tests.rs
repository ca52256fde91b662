use dd_siteforge::pages::dedupe_page_id;
use dd_siteforge::paths::{
    backup_path_for, chrono_like_format, display_relative_path, normalize_relative_path,
};
use dd_siteforge::section_ids::{
    component_index, ensure_page_section_ids, next_section_id_for_page, normalize_section_columns,
};
use dd_siteforge::site::{DdHero, DdSection, Page, PageNode};

fn sec(id: &str) -> PageNode {
    PageNode::Section(DdSection {
        id: id.to_string(),
        section_title: None,
        section_class: None,
        item_box_class: None,
        columns: vec![],
    })
}

fn hero() -> PageNode {
    PageNode::Hero(DdHero {
        parent_class: None,
        parent_data_aos: None,
        parent_custom_css: None,
        parent_title: String::new(),
        parent_subtitle: String::new(),
        parent_copy: None,
        link_1_label: None,
        link_1_url: None,
        link_1_target: None,
        link_2_label: None,
        link_2_url: None,
        link_2_target: None,
        parent_image_url: String::new(),
        parent_image_alt: None,
        parent_image_mobile: None,
        parent_image_tablet: None,
        parent_image_desktop: None,
        parent_image_class: None,
    })
}

fn ids(page: &Page) -> Vec<Option<String>> {
    page.nodes
        .iter()
        .map(|n| match n {
            PageNode::Section(s) => Some(s.id.clone()),
            PageNode::Hero(_) => None,
        })
        .collect()
}

#[test]
fn next_section_id_skips_ids_in_use() {
    let page = Page { nodes: vec![sec("section-1"), hero(), sec("section-3"), sec("  ")] };
    assert_eq!(next_section_id_for_page(&page), "section-2");
    let page = Page { nodes: vec![sec("section-1"), sec("section-2")] };
    assert_eq!(next_section_id_for_page(&page), "section-3");
    assert_eq!(next_section_id_for_page(&Page { nodes: vec![] }), "section-1");
}

#[test]
fn ensure_ids_fills_blank_and_duplicate_ids() {
    let mut page = Page { nodes: vec![sec("intro"), sec(""), hero(), sec("intro"), sec(" section-1 ")] };
    ensure_page_section_ids(&mut page);
    assert_eq!(
        ids(&page),
        vec![
            Some("intro".to_string()),
            Some("section-1".to_string()),
            None,
            Some("section-2".to_string()),
            Some("section-3".to_string()),
        ]
    );
}

#[test]
fn ensure_ids_keeps_valid_distinct_ids() {
    let mut page = Page { nodes: vec![sec(" a "), sec("b"), hero()] };
    ensure_page_section_ids(&mut page);
    assert_eq!(ids(&page), vec![Some(" a ".to_string()), Some("b".to_string()), None]);
}

#[test]
fn component_index_clamps_to_the_last() {
    assert_eq!(component_index(0, 3), None);
    assert_eq!(component_index(3, 1), Some(1));
    assert_eq!(component_index(3, 7), Some(2));
}

#[test]
fn normalize_gives_a_section_one_full_width_column() {
    let mut s = DdSection { id: "s".into(), section_title: None, section_class: None, item_box_class: None, columns: vec![] };
    normalize_section_columns(&mut s);
    assert_eq!(s.columns.len(), 1);
    assert_eq!(s.columns[0].id, "column-1");
    assert_eq!(s.columns[0].width_class, "dd-u-1-1");
    normalize_section_columns(&mut s);
    assert_eq!(s.columns.len(), 1);
}

#[test]
fn relative_paths_lose_leading_dot_slashes_and_trailing_slashes() {
    assert_eq!(normalize_relative_path("  ./a//b/ "), "a//b");
    assert_eq!(normalize_relative_path("././x"), "x");
    assert_eq!(normalize_relative_path(".//x//"), "x");
    assert_eq!(normalize_relative_path("./"), "");
    assert_eq!(normalize_relative_path("../up"), "../up");
}

#[test]
fn display_path_prefers_the_relative_form() {
    assert_eq!(display_relative_path("/abs/out", ""), "/abs/out");
    assert_eq!(display_relative_path("/abs/out", "dist"), "./dist/");
}

#[test]
fn backup_path_appends_backup_suffix() {
    assert_eq!(backup_path_for("site.json"), "site.json.backup");
}

#[test]
fn save_time_label_counts_seconds() {
    assert_eq!(chrono_like_format(Some(42)), Some("42s since epoch".to_string()));
    assert_eq!(chrono_like_format(Some(0)), Some("0s since epoch".to_string()));
    assert_eq!(chrono_like_format(None), None);
}

#[test]
fn page_id_dedupes_with_first_free_number() {
    let existing = vec!["about".to_string(), "about-2".to_string(), "home".to_string()];
    assert_eq!(dedupe_page_id(&existing, "about", "about"), ("about-3".to_string(), "about-3".to_string()));
    assert_eq!(dedupe_page_id(&existing, "contact", "contact-us"), ("contact".to_string(), "contact-us".to_string()));
    assert_eq!(dedupe_page_id(&existing, "home", "/"), ("home-2".to_string(), "/-2".to_string()));
}
