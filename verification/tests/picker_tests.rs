use dd_siteforge::modal::{ImagePickerState, Key, KeyPress, PagePickerState};
use dd_siteforge::pickers::{
    arrange_dir_entries, image_picker_open, image_picker_step, page_picker_step, picked_page_slug, OpenOutcome,
    PickAction,
};
use dd_siteforge::search::{filter_entries, filter_pages, DirEntryRow};

fn k(key: Key) -> KeyPress {
    KeyPress { key, ctrl: false, shift: false }
}

fn pages() -> PagePickerState {
    PagePickerState {
        pages: vec![
            ("index".to_string(), "Home".to_string()),
            ("about".to_string(), "About Us".to_string()),
            ("blog".to_string(), "News".to_string()),
        ],
        filter: String::new(),
        selected: 0,
        field_id: "link_url".to_string(),
    }
}

fn entry(name: &str, is_dir: bool) -> DirEntryRow {
    DirEntryRow { name: name.to_string(), is_dir }
}

fn picker() -> ImagePickerState {
    ImagePickerState {
        root: "/site/source/images".to_string(),
        dirs: vec![],
        filter: String::new(),
        selected: 0,
        field_id: "parent_image_url".to_string(),
    }
}

#[test]
fn page_filter_matches_title_or_slug_case_insensitively() {
    let p = pages();
    let found = filter_pages(&p.pages, "US");
    assert_eq!(found, vec![("about".to_string(), "About Us".to_string())]);
    let found = filter_pages(&p.pages, "blo");
    assert_eq!(found, vec![("blog".to_string(), "News".to_string())]);
    assert_eq!(filter_pages(&p.pages, "").len(), 3);
}

#[test]
fn page_picker_moves_filters_and_picks() {
    let mut p = pages();
    assert_eq!(page_picker_step(&mut p, k(Key::Down)), PickAction::Continue);
    assert_eq!(p.selected, 1);
    page_picker_step(&mut p, k(Key::Down));
    page_picker_step(&mut p, k(Key::Down));
    assert_eq!(p.selected, 2);
    assert_eq!(picked_page_slug(&p), Some("blog".to_string()));
    page_picker_step(&mut p, k(Key::Char('a')));
    assert_eq!(p.filter, "a");
    assert_eq!(p.selected, 0);
    page_picker_step(&mut p, k(Key::Char('!')));
    assert_eq!(p.filter, "a");
    page_picker_step(&mut p, KeyPress { key: Key::Char('b'), ctrl: true, shift: false });
    assert_eq!(p.filter, "a");
    page_picker_step(&mut p, k(Key::Char('b')));
    assert_eq!(picked_page_slug(&p), Some("about".to_string()));
    assert_eq!(page_picker_step(&mut p, k(Key::Enter)), PickAction::Take);
    page_picker_step(&mut p, k(Key::Backspace));
    assert_eq!(p.filter, "a");
    assert_eq!(page_picker_step(&mut p, k(Key::Esc)), PickAction::Cancel);
}

#[test]
fn page_picker_picks_nothing_past_the_list() {
    let mut p = pages();
    p.filter = "zzz".to_string();
    assert_eq!(picked_page_slug(&p), None);
}

#[test]
fn listing_hides_dot_files_and_puts_directories_first() {
    let raw = vec![
        entry("b.png", false),
        entry(".hidden", true),
        entry("Zeta", true),
        entry("a.png", false),
        entry("alpha", true),
        entry("A.PNG", false),
    ];
    let names: Vec<(String, bool)> = arrange_dir_entries(raw).into_iter().map(|e| (e.name, e.is_dir)).collect();
    assert_eq!(
        names,
        vec![
            ("alpha".to_string(), true),
            ("Zeta".to_string(), true),
            ("a.png".to_string(), false),
            ("A.PNG".to_string(), false),
            ("b.png".to_string(), false),
        ]
    );
}

#[test]
fn entry_filter_is_case_insensitive() {
    let es = vec![entry("Logo.PNG", false), entry("hero.jpg", false)];
    let found = filter_entries(&es, "png");
    assert_eq!(found.len(), 1);
    assert_eq!(found[0].name, "Logo.PNG");
}

#[test]
fn image_picker_descends_goes_up_and_picks_files() {
    let mut st = picker();
    let root_entries = vec![entry("icons", true), entry("hero.jpg", false)];
    st.filter = "x".to_string();
    image_picker_step(&mut st, k(Key::Backspace), &root_entries);
    assert_eq!(st.filter, "");
    assert_eq!(image_picker_open(&mut st, &root_entries), (OpenOutcome::Descended, None));
    assert_eq!(st.dirs, vec!["icons".to_string()]);
    assert_eq!(st.selected, 0);
    let icon_entries = vec![entry("a\\b.svg", false)];
    assert_eq!(
        image_picker_open(&mut st, &icon_entries),
        (OpenOutcome::Picked, Some("assets/images/icons/a/b.svg".to_string()))
    );
    assert_eq!(image_picker_step(&mut st, k(Key::Left), &icon_entries), PickAction::Continue);
    assert!(st.dirs.is_empty());
    image_picker_step(&mut st, k(Key::Left), &root_entries);
    assert!(st.dirs.is_empty());
    image_picker_step(&mut st, k(Key::Down), &root_entries);
    assert_eq!(st.selected, 1);
    assert_eq!(
        image_picker_open(&mut st, &root_entries),
        (OpenOutcome::Picked, Some("assets/images/hero.jpg".to_string()))
    );
    st.selected = 5;
    assert_eq!(image_picker_open(&mut st, &root_entries), (OpenOutcome::Nothing, None));
    assert_eq!(image_picker_step(&mut st, k(Key::Right), &root_entries), PickAction::Take);
    image_picker_step(&mut st, k(Key::Char('.')), &root_entries);
    assert_eq!(st.filter, ".");
    image_picker_step(&mut st, k(Key::Char(' ')), &root_entries);
    assert_eq!(st.filter, ".");
}
