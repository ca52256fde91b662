use dd_siteforge::commands::{main_key_command, open_validation_modal, route_key, Command, KeyRoute, Overlays};
use dd_siteforge::components::ComponentKind;
use dd_siteforge::form_edit::{form_edit_step, form_key_admitted, FieldKind, FormEdit, FormEditAction, FormEditState, FormField};
use dd_siteforge::hints::SidebarSection;
use dd_siteforge::items::{add_list_item, remove_list_item, ItemEdit};
use dd_siteforge::modal::{validation_errors_step, ImagePickerState, Key, KeyPress, Modal, ModalResult};
use dd_siteforge::notices::{form_edit_notice, item_edit_notice, validation_passed_notice};
use dd_siteforge::pages::dedupe_page_id;
use dd_siteforge::pickers::{image_picker_step, PickAction};
use dd_siteforge::site::{DdSection, Page, PageNode, SectionColumn, SectionComponent};
use dd_siteforge::toasts::ToastLevel;
use dd_siteforge::tree::{ItemsKind, Selection};

fn key(k: Key) -> KeyPress {
    KeyPress { key: k, ctrl: false, shift: false }
}

fn ctrl(c: char) -> KeyPress {
    KeyPress { key: Key::Char(c), ctrl: true, shift: false }
}

fn chars(s: &str) -> Vec<char> {
    s.chars().collect()
}

fn text(v: &Vec<char>) -> String {
    v.iter().collect()
}

fn field(id: &str, kind: FieldKind, value: &str) -> FormField {
    FormField {
        id: id.to_string(),
        kind,
        visible: true,
        value: chars(value),
        options: vec![],
        items: vec![],
        template: vec![],
        selected_item: 0,
    }
}

fn item(title: &str) -> FormEditState {
    FormEditState { fields: vec![field("child_title", FieldKind::Text, title)], focused: 0 }
}

fn list_field(min_items: usize, items: Vec<FormEditState>) -> FormField {
    let mut f = field("items", FieldKind::SubForm { min_items }, "");
    f.items = items;
    f.template = vec![field("child_title", FieldKind::Text, "New")];
    f
}

fn editor(fields: Vec<FormField>) -> FormEdit {
    FormEdit { state: FormEditState { fields, focused: 0 }, cursor_pos: 0, scroll: 0, drill: vec![] }
}

fn value(e: &FormEdit, i: usize) -> String {
    text(&e.state.fields[i].value)
}

#[test]
fn typing_and_backspace_edit_at_the_cursor() {
    let mut e = editor(vec![field("parent_title", FieldKind::Text, "ab")]);
    e.cursor_pos = 1;
    assert_eq!(form_edit_step(&mut e, key(Key::Char('X')), true, true), FormEditAction::Continue);
    assert_eq!(value(&e, 0), "aXb");
    assert_eq!(e.cursor_pos, 2);
    form_edit_step(&mut e, key(Key::Backspace), true, true);
    assert_eq!(value(&e, 0), "ab");
    assert_eq!(e.cursor_pos, 1);
    e.cursor_pos = 9;
    form_edit_step(&mut e, key(Key::Char('c')), true, true);
    assert_eq!(value(&e, 0), "abc");
    assert_eq!(e.cursor_pos, 3);
    form_edit_step(&mut e, key(Key::Left), true, true);
    assert_eq!(e.cursor_pos, 2);
    form_edit_step(&mut e, key(Key::Right), true, true);
    form_edit_step(&mut e, key(Key::Right), true, true);
    assert_eq!(e.cursor_pos, 3);
    assert_eq!(form_edit_step(&mut e, ctrl('x'), true, true), FormEditAction::Continue);
    assert_eq!(value(&e, 0), "abc");
}

#[test]
fn tab_skips_hidden_fields_and_wraps() {
    let mut hidden = field("b", FieldKind::Text, "hidden");
    hidden.visible = false;
    let mut e = editor(vec![field("a", FieldKind::Text, "one"), hidden, field("c", FieldKind::Text, "three!")]);
    form_edit_step(&mut e, key(Key::Tab), true, true);
    assert_eq!(e.state.focused, 2);
    assert_eq!(e.cursor_pos, 6);
    form_edit_step(&mut e, key(Key::Tab), true, true);
    assert_eq!(e.state.focused, 0);
    assert_eq!(e.cursor_pos, 3);
    form_edit_step(&mut e, key(Key::BackTab), true, true);
    assert_eq!(e.state.focused, 2);
    form_edit_step(&mut e, key(Key::Enter), true, true);
    assert_eq!(e.state.focused, 0);
}

#[test]
fn choices_cycle_through_their_options() {
    let mut choice = field("parent_class", FieldKind::Enum, "c");
    choice.options = vec![chars("a"), chars("b"), chars("c")];
    let mut e = editor(vec![choice]);
    form_edit_step(&mut e, key(Key::Right), true, true);
    assert_eq!(value(&e, 0), "a");
    form_edit_step(&mut e, key(Key::Left), true, true);
    assert_eq!(value(&e, 0), "c");
    form_edit_step(&mut e, key(Key::Left), true, true);
    assert_eq!(value(&e, 0), "b");
    form_edit_step(&mut e, key(Key::Char('z')), true, true);
    assert_eq!(value(&e, 0), "b");
}

#[test]
fn textarea_enter_breaks_lines_and_arrows_move_between_them() {
    let mut e = editor(vec![field("parent_copy", FieldKind::Textarea, "abcd")]);
    e.cursor_pos = 2;
    form_edit_step(&mut e, key(Key::Enter), true, true);
    assert_eq!(value(&e, 0), "ab\ncd");
    assert_eq!(e.cursor_pos, 3);
    form_edit_step(&mut e, key(Key::Up), true, true);
    assert_eq!(e.cursor_pos, 0);
    form_edit_step(&mut e, key(Key::PageDown), true, true);
    assert_eq!(e.cursor_pos, 3);
}

#[test]
fn list_items_are_added_removed_and_kept_to_the_minimum() {
    let mut e = editor(vec![list_field(1, vec![item("One")])]);
    assert_eq!(form_edit_step(&mut e, key(Key::Char('A')), true, true), FormEditAction::ItemAdded);
    let list = &e.state.fields[0];
    assert_eq!(list.items.len(), 2);
    assert_eq!(list.selected_item, 1);
    assert_eq!(text(&list.items[1].fields[0].value), "New");
    assert_eq!(form_edit_step(&mut e, key(Key::Char('X')), true, true), FormEditAction::ItemRemoved);
    assert_eq!(e.state.fields[0].items.len(), 1);
    assert_eq!(e.state.fields[0].selected_item, 0);
    assert_eq!(form_edit_step(&mut e, key(Key::Char('X')), true, true), FormEditAction::MustKeep(1));
    assert_eq!(e.state.fields[0].items.len(), 1);
    assert_eq!(
        form_edit_notice(FormEditAction::MustKeep(1), ""),
        Some((ToastLevel::Warning, "Must keep at least 1 item(s).".to_string()))
    );
    assert_eq!(form_edit_notice(FormEditAction::ItemAdded, ""), Some((ToastLevel::Success, "Item added.".to_string())));
}

#[test]
fn list_highlight_moves_and_leaves_the_list_at_its_ends() {
    let mut e = editor(vec![field("title", FieldKind::Text, "t"), list_field(0, vec![item("One"), item("Two")])]);
    e.state.focused = 1;
    form_edit_step(&mut e, key(Key::Char('j')), true, true);
    assert_eq!(e.state.fields[1].selected_item, 1);
    form_edit_step(&mut e, key(Key::Down), true, true);
    assert_eq!(e.state.focused, 0);
    e.state.focused = 1;
    form_edit_step(&mut e, key(Key::Char('k')), true, true);
    assert_eq!(e.state.fields[1].selected_item, 0);
    assert_eq!(e.state.focused, 1);
    form_edit_step(&mut e, key(Key::Up), true, true);
    assert_eq!(e.state.focused, 0);
    assert_eq!(e.cursor_pos, 1);
}

#[test]
fn drilling_into_an_item_then_saving_or_cancelling_returns_to_the_parent() {
    let mut e = editor(vec![list_field(0, vec![item("One"), item("Two")])]);
    e.cursor_pos = 0;
    e.scroll = 3;
    form_edit_step(&mut e, key(Key::Char('j')), true, true);
    assert_eq!(form_edit_step(&mut e, key(Key::Enter), true, true), FormEditAction::DrilledIn);
    assert_eq!(e.drill.len(), 1);
    assert_eq!(value(&e, 0), "Two");
    assert_eq!(e.cursor_pos, 3);
    assert_eq!(e.scroll, 0);
    form_edit_step(&mut e, key(Key::Char('!')), true, true);
    assert_eq!(form_edit_step(&mut e, ctrl('s'), true, true), FormEditAction::SaveItemToParent);
    assert!(e.drill.is_empty());
    assert_eq!(e.scroll, 3);
    assert_eq!(text(&e.state.fields[0].items[1].fields[0].value), "Two!");

    form_edit_step(&mut e, key(Key::Enter), true, true);
    form_edit_step(&mut e, key(Key::Char('?')), true, true);
    assert_eq!(form_edit_step(&mut e, key(Key::Esc), true, true), FormEditAction::CancelItem);
    assert!(e.drill.is_empty());
    assert_eq!(e.state.fields[0].items.len(), 2);
    assert_eq!(text(&e.state.fields[0].items[1].fields[0].value), "New");
    assert_eq!(form_edit_step(&mut e, ctrl('s'), true, true), FormEditAction::CommitTopLevel);
    assert_eq!(form_edit_step(&mut e, key(Key::Esc), true, true), FormEditAction::Close);
}

#[test]
fn ctrl_p_opens_the_picker_that_fits_the_field() {
    let mut e = editor(vec![field("parent_image_url", FieldKind::Url, ""), field("link_1_url", FieldKind::Url, "")]);
    assert_eq!(form_edit_step(&mut e, ctrl('p'), true, true), FormEditAction::OpenImagePicker);
    assert_eq!(form_edit_step(&mut e, ctrl('p'), true, false), FormEditAction::NoImagesFolder);
    e.state.focused = 1;
    assert_eq!(form_edit_step(&mut e, ctrl('p'), true, true), FormEditAction::OpenPagePicker);
    assert_eq!(form_edit_step(&mut e, ctrl('p'), false, true), FormEditAction::NoPages);
    assert_eq!(
        form_edit_notice(FormEditAction::NoImagesFolder, "/s/source/images"),
        Some((ToastLevel::Warning, "Source folder not found: /s/source/images".to_string()))
    );
    let mut plain = editor(vec![field("parent_title", FieldKind::Text, "")]);
    assert_eq!(form_edit_step(&mut plain, ctrl('p'), true, true), FormEditAction::Continue);
}

#[test]
fn a_focus_past_the_fields_closes_the_editor() {
    let mut e = editor(vec![]);
    assert_eq!(form_edit_step(&mut e, key(Key::Char('a')), true, true), FormEditAction::Close);
}

#[test]
fn f1_opens_help_while_form_edit_is_open() {
    let mut o = Overlays { help: false, help_scroll: 0, help_max: 10, theme: false, theme_scroll: 0, theme_max: 10 };
    let route = route_key(&mut o, true, SidebarSection::Layouts, key(Key::F(1)));
    assert_eq!(route, KeyRoute::HelpOverDialog);
    assert!(o.help);
    let route = route_key(&mut o, true, SidebarSection::Layouts, key(Key::Char('j')));
    assert_eq!(route, KeyRoute::HelpOverlay);
    let mut closed = Overlays { help: false, help_scroll: 0, help_max: 10, theme: false, theme_scroll: 0, theme_max: 10 };
    assert_eq!(route_key(&mut closed, true, SidebarSection::Layouts, key(Key::Char('x'))), KeyRoute::Dialog);
    assert!(!closed.help);
}

#[test]
fn open_validation_modal_on_clean_starter_pushes_success_toast_and_no_modal() {
    assert!(open_validation_modal(vec![]).is_none());
    let (level, message) = validation_passed_notice();
    assert_eq!(level, ToastLevel::Success);
    assert!(message.to_lowercase().contains("no validation errors"));
}

#[test]
fn open_validation_modal_with_errors_opens_modal_with_error_list() {
    match open_validation_modal(vec!["Page 'home': empty slug".to_string()]) {
        Some(Modal::ValidationErrors { errors, scroll_offset }) => {
            assert!(!errors.is_empty());
            assert_eq!(scroll_offset, 0);
            assert!(errors.iter().any(|e| e.contains("empty slug")));
        }
        _ => panic!("expected the error list"),
    }
}

#[test]
fn f3_then_j_k_scrolls_error_list() {
    assert_eq!(main_key_command(key(Key::F(3))), Command::OpenValidation);
    let mut scroll: usize = 0;
    assert_eq!(validation_errors_step(&mut scroll, 2, Key::Char('j')), ModalResult::Continue);
    assert_eq!(scroll, 1);
    assert_eq!(validation_errors_step(&mut scroll, 2, Key::Char('k')), ModalResult::Continue);
    assert_eq!(scroll, 0);
}

#[test]
fn f3_then_enter_dismisses_modal() {
    let mut scroll: usize = 0;
    assert_eq!(validation_errors_step(&mut scroll, 1, Key::Enter), ModalResult::CloseSuccess);
}

fn card_page() -> Page {
    Page {
        nodes: vec![PageNode::Section(DdSection {
            id: "s".to_string(),
            section_title: None,
            section_class: None,
            item_box_class: None,
            columns: vec![SectionColumn {
                id: "c".to_string(),
                width_class: "dd-u-1-1".to_string(),
                components: vec![ComponentKind::Card.default_component()],
            }],
        })],
    }
}

fn card_len(page: &Page) -> usize {
    match &page.nodes[0] {
        PageNode::Section(s) => match &s.columns[0].components[0] {
            SectionComponent::Card(c) => c.items.len(),
            _ => panic!("not a card"),
        },
        _ => panic!("not a section"),
    }
}

#[test]
fn dd_card_keyflow_add_remove_items_with_min_guard() {
    let sel = Selection {
        page_head_selected: false,
        selected_node: 0,
        selected_column: 0,
        selected_component: 0,
        selected_nested_item: 0,
        selected_header_section: 0,
        selected_header_column: 0,
        selected_header_component: 0,
    };
    let mut page = card_page();
    while card_len(&page) > 1 {
        remove_list_item(&mut page, &sel, None, ItemsKind::Card);
    }
    assert_eq!(card_len(&page), 1);
    add_list_item(&mut page, &sel, Some(0), ItemsKind::Card);
    assert_eq!(card_len(&page), 2);
    remove_list_item(&mut page, &sel, Some(1), ItemsKind::Card);
    assert_eq!(card_len(&page), 1);
    let edit = remove_list_item(&mut page, &sel, Some(0), ItemsKind::Card);
    assert_eq!(edit, ItemEdit::KeepOne);
    assert_eq!(card_len(&page), 1);
    let (level, message) = item_edit_notice(ItemsKind::Card, edit);
    assert!(message.contains("must keep at least one item"));
    assert_eq!(level, ToastLevel::Info);
}

#[test]
fn pages_panel_add_with_duplicate_title_dedupes_id_with_numeric_suffix() {
    let existing = vec!["page-home".to_string()];
    let (id, slug) = dedupe_page_id(&existing, "page-home", "home");
    assert_eq!(id, "page-home-2");
    assert_eq!(slug, "home-2");
    assert_eq!(existing[0], "page-home");
}

#[test]
fn image_picker_left_arrow_at_root_does_not_escape() {
    let mut state = ImagePickerState {
        root: "/tmp/dd_imgpicker_root".to_string(),
        dirs: vec![],
        filter: String::new(),
        selected: 0,
        field_id: "x".to_string(),
    };
    assert_eq!(image_picker_step(&mut state, key(Key::Left), &vec![]), PickAction::Continue);
    assert!(state.dirs.is_empty());
    assert_eq!(state.root, "/tmp/dd_imgpicker_root");
}

#[test]
fn opening_an_item_and_saving_it_unchanged_keeps_the_list() {
    let mut e = editor(vec![list_field(0, vec![item("One"), item("Two")])]);
    e.cursor_pos = 0;
    e.scroll = 2;
    form_edit_step(&mut e, key(Key::Enter), true, true);
    form_edit_step(&mut e, ctrl('s'), true, true);
    let titles: Vec<String> = e.state.fields[0].items.iter().map(|s| text(&s.fields[0].value)).collect();
    assert_eq!(titles, vec!["One".to_string(), "Two".to_string()]);
    assert_eq!(e.state.fields[0].selected_item, 0);
    assert_eq!(e.cursor_pos, 0);
    assert_eq!(e.scroll, 2);
    assert!(e.drill.is_empty());
}

#[test]
fn the_text_cursor_counts_utf8_bytes() {
    let mut e = editor(vec![field("a", FieldKind::Text, "x"), field("b", FieldKind::Text, "héllo")]);
    form_edit_step(&mut e, key(Key::Tab), true, true);
    assert_eq!(e.cursor_pos, 6);
    let mut e = editor(vec![field("t", FieldKind::Text, "é")]);
    e.cursor_pos = 2;
    form_edit_step(&mut e, key(Key::Right), true, true);
    assert_eq!(e.cursor_pos, 2);
    form_edit_step(&mut e, key(Key::Left), true, true);
    assert_eq!(e.cursor_pos, 1);
    assert!(!form_key_admitted(&e, key(Key::Char('x'))));
    assert!(!form_key_admitted(&e, key(Key::Backspace)));
    assert!(form_key_admitted(&e, key(Key::Left)));
    form_edit_step(&mut e, key(Key::Left), true, true);
    assert!(form_key_admitted(&e, key(Key::Char('x'))));
    form_edit_step(&mut e, key(Key::Char('x')), true, true);
    assert_eq!(value(&e, 0), "xé");
    assert_eq!(e.cursor_pos, 1);
    e.cursor_pos = 3;
    assert!(!form_key_admitted(&e, key(Key::Backspace)));
    e.cursor_pos = 1;
    assert!(form_key_admitted(&e, key(Key::Backspace)));
    form_edit_step(&mut e, key(Key::Backspace), true, true);
    assert_eq!(value(&e, 0), "é");
    assert_eq!(e.cursor_pos, 0);
}
