use dd_siteforge::ascii_map::{
    card_items_ascii_lines, footer_ascii_map, header_ascii_map, hero_ascii_map, pack_rows, section_ascii_map,
};
use dd_siteforge::components::ComponentKind;
use dd_siteforge::site::{
    CardItem, CardType, DdCard, DdFooter, DdHeader, DdHero, DdSection, HeroAos, SectionColumn, SectionComponent,
};

fn boxed(l: &str) -> String {
    format!("| {} |", l)
}

fn border(inner: usize) -> String {
    format!("+{}+", "-".repeat(inner + 2))
}

fn pad(s: &str, w: usize) -> String {
    format!("{:<w$}", s, w = w)
}

fn column(id: &str, width_class: &str, components: Vec<SectionComponent>) -> SectionColumn {
    SectionColumn { id: id.to_string(), width_class: width_class.to_string(), components }
}

fn section(id: &str, columns: Vec<SectionColumn>) -> DdSection {
    DdSection { id: id.to_string(), section_title: None, section_class: None, item_box_class: None, columns }
}

fn card(titles: &[&str]) -> DdCard {
    DdCard {
        parent_type: CardType::Default,
        parent_data_aos: HeroAos::FadeIn,
        parent_width: "dd-u-1-1".to_string(),
        items: titles
            .iter()
            .map(|t| CardItem {
                child_image_url: String::new(),
                child_image_alt: String::new(),
                child_title: t.to_string(),
                child_subtitle: String::new(),
                child_copy: String::new(),
                child_link_url: None,
                child_link_target: None,
                child_link_label: None,
            })
            .collect(),
    }
}

#[test]
fn hero_map_lists_fields_in_a_box_and_truncates_long_lines() {
    let hero = DdHero {
        parent_class: None,
        parent_data_aos: None,
        parent_custom_css: None,
        parent_title: "T".to_string(),
        parent_subtitle: "S".to_string(),
        parent_copy: None,
        link_1_label: None,
        link_1_url: None,
        link_1_target: None,
        link_2_label: Some("L".to_string()),
        link_2_url: Some("/u".to_string()),
        link_2_target: None,
        parent_image_url: "i.png".to_string(),
        parent_image_alt: None,
        parent_image_mobile: None,
        parent_image_tablet: None,
        parent_image_desktop: None,
        parent_image_class: None,
    };
    let expected = vec![
        border(16),
        boxed(&pad("HERO", 16)),
        boxed("class: -full-..."),
        boxed(&pad("aos: fade-in", 16)),
        boxed("custom_css: (..."),
        boxed(&pad("title: T", 16)),
        boxed(&pad("subtitle: S", 16)),
        boxed("cta: (none) -..."),
        boxed(&pad("cta_2: L -> /u", 16)),
        boxed(&pad("image: i.png", 16)),
        border(16),
    ]
    .join("\n");
    assert_eq!(hero_ascii_map(&hero, 20), expected);
}

#[test]
fn hero_map_lines_are_at_least_eight_wide() {
    let hero = DdHero {
        parent_class: None,
        parent_data_aos: None,
        parent_custom_css: None,
        parent_title: String::new(),
        parent_subtitle: String::new(),
        parent_copy: None,
        link_1_label: None,
        link_1_url: None,
        link_1_target: None,
        link_2_label: None,
        link_2_url: None,
        link_2_target: None,
        parent_image_url: String::new(),
        parent_image_alt: None,
        parent_image_mobile: None,
        parent_image_tablet: None,
        parent_image_desktop: None,
        parent_image_class: None,
    };
    let map = hero_ascii_map(&hero, 3);
    assert_eq!(map.lines().next().unwrap(), border(8));
    assert_eq!(map.lines().nth(1).unwrap(), boxed(&pad("HERO", 8)));
}

#[test]
fn header_map_without_sections_says_how_to_add_one() {
    let header = DdHeader { id: "h".to_string(), custom_css: None, alert: None, sections: vec![] };
    let (map, hits) = header_ascii_map(&header, 0, 0, 20);
    let expected = vec![
        border(16),
        boxed(&pad("HEADER", 16)),
        boxed(&pad("id: h", 16)),
        boxed("custom_css: (..."),
        boxed(&pad("alert: (none)", 16)),
        boxed(&pad("sections:", 16)),
        boxed("(no sections ..."),
        border(16),
    ]
    .join("\n");
    assert_eq!(map, expected);
    assert_eq!(hits.len(), 8);
    assert!(hits.iter().all(|h| h.is_empty()));
}

#[test]
fn header_map_marks_the_selected_section_and_column() {
    let s1 = section("s1", vec![column("c1", "dd-u-1-1", vec![ComponentKind::Cta.default_component()]), column("c2", "dd-u-1-2", vec![])]);
    let s2 = section("s2", vec![]);
    let header = DdHeader { id: "h".to_string(), custom_css: Some("x".to_string()), alert: None, sections: vec![s1, s2] };
    let (map, hits) = header_ascii_map(&header, 0, 9, 40);
    let w = 36;
    let expected = vec![
        border(w),
        boxed(&pad("HEADER", w)),
        boxed(&pad("id: h", w)),
        boxed(&pad("custom_css: x", w)),
        boxed(&pad("alert: (none)", w)),
        boxed(&pad("sections:", w)),
        boxed(&pad("* section: s1", w)),
        boxed(&pad("  - column: c1 [dd-u-1-1]", w)),
        boxed(&pad("    - dd-cta", w)),
        boxed(&pad("  * column: c2 [dd-u-1-2]", w)),
        boxed(&pad("    (empty)", w)),
        boxed(&pad("- section: s2", w)),
        boxed(&pad("  (no columns)", w)),
        border(w),
    ]
    .join("\n");
    assert_eq!(map, expected);
    assert_eq!(hits.len(), 14);
}

#[test]
fn footer_map_lists_sections_and_clamps_the_selection() {
    let footer = DdFooter {
        id: "f".to_string(),
        custom_css: None,
        sections: vec![section("a", vec![column("c", "dd-u-1-1", vec![])])],
    };
    let (map, hits) = footer_ascii_map(&footer, 5, 5, 40);
    let w = 36;
    let expected = vec![
        border(w),
        boxed(&pad("FOOTER", w)),
        boxed(&pad("id: f", w)),
        boxed(&pad("custom_css: (none)", w)),
        boxed(&pad("sections:", w)),
        boxed(&pad("* section: a", w)),
        boxed(&pad("  * column: c [dd-u-1-1]", w)),
        boxed(&pad("    (empty)", w)),
        border(w),
    ]
    .join("\n");
    assert_eq!(map, expected);
    assert_eq!(hits.len(), 9);
}

#[test]
fn card_items_wrap_to_a_new_row_when_the_next_box_does_not_fit() {
    let c = card(&["A", "B"]);
    let b = border(12);
    let lines = card_items_ascii_lines(&c, 30, 12);
    let expected = vec![
        b.clone(),
        boxed(&pad("card 1:", 12)),
        boxed(&pad("title: A", 12)),
        b.clone(),
        String::new(),
        b.clone(),
        boxed(&pad("card 2:", 12)),
        boxed(&pad("title: B", 12)),
        b.clone(),
    ];
    assert_eq!(lines, expected);
}

#[test]
fn card_items_share_a_row_two_columns_apart_when_they_fit() {
    let c = card(&["A", "B"]);
    let b = border(12);
    let lines = card_items_ascii_lines(&c, 40, 12);
    let expected = vec![
        format!("{}  {}", b, b),
        format!("{}  {}", boxed(&pad("card 1:", 12)), boxed(&pad("card 2:", 12))),
        format!("{}  {}", boxed(&pad("title: A", 12)), boxed(&pad("title: B", 12))),
        format!("{}  {}", b, b),
    ];
    assert_eq!(lines, expected);
}

#[test]
fn card_child_width_is_capped_by_the_container_and_at_least_ten() {
    let c = card(&["A"]);
    // Room is 14 - 4 = 10; the class asks for 30.
    let lines = card_items_ascii_lines(&c, 14, 30);
    assert_eq!(lines[0], border(10));
    // A tiny container still gets ten-wide boxes.
    let lines = card_items_ascii_lines(&c, 6, 3);
    assert_eq!(lines[0], border(10));
}

#[test]
fn empty_card_shows_empty_marker() {
    let c = card(&[]);
    assert_eq!(card_items_ascii_lines(&c, 10, 12), vec!["(empty)   ".to_string()]);
}

#[test]
fn pack_rows_is_greedy_and_gives_oversized_boxes_a_row_alone() {
    assert_eq!(pack_rows(&vec![5, 5, 5], 11), vec![vec![0, 1], vec![2]]);
    assert_eq!(pack_rows(&vec![20, 3, 3], 10), vec![vec![0], vec![1, 2]]);
    assert_eq!(pack_rows(&vec![], 10), Vec::<Vec<usize>>::new());
}

#[test]
fn section_map_without_columns_says_so() {
    let s = section("s", vec![]);
    let (map, hits) = section_ascii_map(&s, 0, 30, &vec![], &vec![]);
    assert_eq!(map, "(no columns)");
    assert!(hits.is_empty());
}

#[test]
fn section_map_draws_column_boxes_with_click_targets_for_components() {
    let s = section("s", vec![column("c1", "dd-u-1-1", vec![ComponentKind::Cta.default_component()])]);
    let (map, hits) = section_ascii_map(&s, 0, 30, &vec![12], &vec![vec![0]]);
    let w = 26;
    let inner_box = |l: &str| pad(&boxed(l), w);
    let expected = vec![
        border(w),
        boxed(&pad("SECTION", w)),
        boxed(&pad("id: s", w)),
        boxed(&pad("title: (none)", w)),
        boxed(&pad("class: -full-contained", w)),
        boxed(&pad("items:", w)),
        boxed(&pad(&border(12), w)),
        boxed(&inner_box(&pad("* item: c1", 12))),
        boxed(&inner_box("width: dd...")),
        boxed(&inner_box("- dd-cta ...")),
        boxed(&pad(&border(12), w)),
        border(w),
    ]
    .join("\n");
    assert_eq!(map, expected);
    assert_eq!(hits.len(), 12);
    for (i, h) in hits.iter().enumerate() {
        if i == 9 {
            assert_eq!(h, &vec![(2, 18, 0, 0)]);
        } else {
            assert!(h.is_empty(), "line {} has targets", i);
        }
    }
}

#[test]
fn section_map_places_columns_side_by_side_and_offsets_targets() {
    let cta = || ComponentKind::Cta.default_component();
    let s = section("s", vec![column("a", "x", vec![cta()]), column("b", "x", vec![cta()])]);
    // Panel 40: lines 36 wide; two boxes of 16 fit one column apart.
    let (_map, hits) = section_ascii_map(&s, 1, 40, &vec![12, 12], &vec![vec![0], vec![0]]);
    assert_eq!(hits[9], vec![(2, 18, 0, 0), (19, 35, 1, 0)]);
}

#[test]
fn section_map_leaves_the_line_between_box_rows_empty() {
    let s = section(
        "s",
        vec![column("c1", "dd-u-1-1", vec![]), column("c2", "dd-u-1-1", vec![])],
    );
    let (map, hits) = section_ascii_map(&s, 0, 30, &vec![12, 12], &vec![vec![], vec![]]);
    let lines: Vec<&str> = map.lines().collect();
    let w = 26;
    assert_eq!(lines[6], boxed(&pad(&border(12), w)));
    let gap = lines.iter().position(|l| *l == "|  |").expect("an empty line between the rows");
    assert!(gap > 6 && gap < lines.len() - 1);
    assert_eq!(lines[gap + 1], boxed(&pad(&border(12), w)));
    assert!(hits[gap].is_empty());
}
