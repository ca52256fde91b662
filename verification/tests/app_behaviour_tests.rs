use dd_siteforge::clicks::{click_target_at, ClickTarget, Panels};
use dd_siteforge::commands::{
    begin_save_prompt, delete_page_prompt, main_key_command, open_component_picker, overlay_key, pages_key_command,
    request_quit, Command, PagesCommand,
};
use dd_siteforge::components::ComponentKind;
use dd_siteforge::edits::{add_region_component, add_selected_component_to_section, delete_page_component, duplicate_page_component, ComponentAdd};
use dd_siteforge::hints::{footer_hint, SidebarSection};
use dd_siteforge::history::{commit_delete_page, move_page, push_undo, restore_from_trash};
use dd_siteforge::layout::Rect;
use dd_siteforge::modal::{confirm_prompt_step, ConfirmKind, Key, KeyPress, Modal, ModalResult};
use dd_siteforge::moves::move_page_node;
use dd_siteforge::notices::{autosave_outcome, delete_page_notice, restore_page_notice, undo_last, undo_notice};
use dd_siteforge::toasts::ToastLevel;
use dd_siteforge::panel::footer_details_text;
use dd_siteforge::site::{DdFooter, DdHero, DdSection, Page, PageNode, SectionColumn, SectionComponent};

fn key(k: Key) -> KeyPress {
    KeyPress { key: k, ctrl: false, shift: false }
}

fn hero() -> DdHero {
    DdHero {
        parent_class: None,
        parent_data_aos: None,
        parent_custom_css: None,
        parent_title: "Welcome".to_string(),
        parent_subtitle: String::new(),
        parent_copy: None,
        link_1_label: None,
        link_1_url: None,
        link_1_target: None,
        link_2_label: None,
        link_2_url: None,
        link_2_target: None,
        parent_image_url: String::new(),
        parent_image_alt: None,
        parent_image_mobile: None,
        parent_image_tablet: None,
        parent_image_desktop: None,
        parent_image_class: None,
    }
}

fn section_with(components: Vec<SectionComponent>) -> DdSection {
    DdSection {
        id: "section-1".to_string(),
        section_title: None,
        section_class: None,
        item_box_class: None,
        columns: vec![SectionColumn { id: "column-1".to_string(), width_class: "dd-u-1-1".to_string(), components }],
    }
}

/// A page like the starter's: a hero, then a section whose first column
/// holds one component of `kind` (none for `None`).
fn starter_page(kind: Option<ComponentKind>) -> Page {
    let comps = kind.map(|k| vec![k.default_component()]).unwrap_or_default();
    Page { nodes: vec![PageNode::Hero(hero()), PageNode::Section(section_with(comps))] }
}

fn components(page: &Page) -> &Vec<SectionComponent> {
    match &page.nodes[1] {
        PageNode::Section(s) => &s.columns[0].components,
        _ => panic!("expected section"),
    }
}

#[test]
fn q_without_modifiers_does_not_quit() {
    assert_ne!(main_key_command(key(Key::Char('q'))), Command::RequestQuit);
    assert_eq!(main_key_command(KeyPress { key: Key::Char('q'), ctrl: true, shift: false }), Command::RequestQuit);
    assert!(request_quit(false).is_none());
}

#[test]
fn d_deletes_selected_component() {
    let mut page = starter_page(Some(ComponentKind::Banner));
    assert_eq!(main_key_command(key(Key::Char('d'))), Command::DeleteRow);
    delete_page_component(&mut page, 1, 0, 0);
    assert!(components(&page).is_empty());
}

#[test]
fn y_duplicates_selected_component() {
    let mut page = starter_page(Some(ComponentKind::Banner));
    assert_eq!(main_key_command(key(Key::Char('y'))), Command::DuplicateRow);
    duplicate_page_component(&mut page, 1, 0, 0);
    assert_eq!(components(&page).len(), 2);
}

#[test]
fn jk_reorders_nodes() {
    let mut page = starter_page(None);
    assert_eq!(main_key_command(KeyPress { key: Key::Char('J'), ctrl: false, shift: true }), Command::MoveRow(1));
    move_page_node(&mut page, 0, 1);
    assert!(matches!(page.nodes[0], PageNode::Section(_)));
    assert!(matches!(page.nodes[1], PageNode::Hero(_)));
    assert_eq!(main_key_command(KeyPress { key: Key::Char('K'), ctrl: false, shift: true }), Command::MoveRow(-1));
    move_page_node(&mut page, 1, -1);
    assert!(matches!(page.nodes[0], PageNode::Hero(_)));
}

#[test]
fn insert_component_after_selected_not_append() {
    let mut page = starter_page(Some(ComponentKind::Banner));
    add_selected_component_to_section(&mut page, 1, 0, 0, ComponentKind::Alert);
    assert_eq!(components(&page).len(), 2);
    assert!(matches!(components(&page)[1], SectionComponent::Alert(_)));
    let r = add_selected_component_to_section(&mut page, 1, 0, 0, ComponentKind::Image);
    assert_eq!(r, ComponentAdd::Added { column_idx: 0, component_idx: 1 });
    assert_eq!(components(&page).len(), 3);
    assert!(matches!(components(&page)[1], SectionComponent::Image(_)));
}

#[test]
fn footer_insert_adds_to_footer_not_page() {
    let page = starter_page(None);
    let mut footer = DdFooter { id: "footer".to_string(), custom_css: None, sections: vec![section_with(vec![])] };
    let before = components(&page).len();
    add_region_component(&mut footer.sections, 0, 0, 0, ComponentKind::RichText);
    assert!(footer.sections[0].columns[0].components.iter().any(|c| matches!(c, SectionComponent::RichText(_))));
    assert_eq!(components(&page).len(), before);
}

#[test]
fn u_undoes_component_delete() {
    let mut page = starter_page(Some(ComponentKind::Banner));
    let mut history: Vec<Page> = Vec::new();
    push_undo(&mut history, page.clone());
    delete_page_component(&mut page, 1, 0, 0);
    assert_eq!(main_key_command(key(Key::Char('u'))), Command::Undo);
    assert!(components(&page).is_empty());
    assert!(undo_last(&mut history, &mut page));
    assert_eq!(components(&page).len(), 1);
    assert!(history.is_empty());
    assert_eq!(undo_notice(true), (ToastLevel::Success, "Undid last change.".to_string()));
    assert!(!undo_last(&mut history, &mut page));
    assert_eq!(components(&page).len(), 1);
    assert_eq!(undo_notice(false), (ToastLevel::Warning, "Nothing to undo.".to_string()));
}

#[test]
fn ctrl_q_when_dirty_opens_confirm() {
    match request_quit(true) {
        Some(Modal::ConfirmPrompt { on_confirm, .. }) => assert_eq!(on_confirm, ConfirmKind::QuitUnsaved),
        _ => panic!("expected a confirm prompt"),
    }
    assert_eq!(confirm_prompt_step(Key::Char('y')), ModalResult::CloseSuccess);
}

#[test]
fn footer_hint_marks_dirty() {
    let clean = footer_hint(false, SidebarSection::Layouts, false, 120);
    assert!(!clean.starts_with('*'));
    let dirty = footer_hint(false, SidebarSection::Layouts, true, 120);
    assert!(dirty.starts_with('*'), "{dirty}");
}

#[test]
fn slash_opens_unified_component_picker() {
    assert_eq!(main_key_command(key(Key::Char('/'))), Command::OpenComponentPicker);
    assert!(matches!(open_component_picker(), Modal::ComponentPicker { .. }));
}

#[test]
fn s_without_path_opens_unified_save_prompt() {
    assert_eq!(main_key_command(key(Key::Char('s'))), Command::BeginSave);
    match begin_save_prompt(false) {
        Some(Modal::SavePrompt { path }) => assert_eq!(path, "site.json"),
        _ => panic!("expected SavePrompt"),
    }
}

#[test]
fn page_list_click_keeps_pages_focus() {
    let zero = Rect { x: 0, y: 0, width: 0, height: 0 };
    let panels = Panels { tree: zero, pages: Rect { x: 0, y: 1, width: 30, height: 10 }, regions: zero, details: zero };
    assert_eq!(click_target_at(&panels, 10, 2, 0, 0, 1, 0, 0), ClickTarget::Page(0));
}

#[test]
fn footer_details_are_not_a_stub() {
    let footer = DdFooter { id: "footer".to_string(), custom_css: None, sections: vec![section_with(vec![])] };
    let text = footer_details_text(&footer, false, 0, 0, 40);
    assert!(text.contains("dd-footer"), "{text}");
    assert!(!text.to_lowercase().contains("not yet implemented"));
}

#[test]
fn f2_opens_and_closes_with_f2_and_esc() {
    assert_eq!(main_key_command(key(Key::F(2))), Command::ShowTheme);
    assert_eq!(overlay_key(0, 0, 2, Key::Esc), None);
    assert_eq!(overlay_key(0, 0, 2, Key::F(2)), None);
}

#[test]
fn f2_scroll_keys_and_wheel_update_theme_scroll() {
    let scroll = overlay_key(0, 5, 2, Key::Down).unwrap();
    assert_eq!(scroll, 1);
    let scroll = overlay_key(scroll, 5, 2, Key::PageDown).unwrap();
    assert!(scroll >= 1);
    assert_eq!(overlay_key(scroll, 5, 2, Key::Char('g')), Some(0));
}

#[test]
fn pages_panel_shift_x_on_last_page_refuses_delete() {
    assert_eq!(pages_key_command(KeyPress { key: Key::Char('X'), ctrl: false, shift: true }), Some(PagesCommand::DeletePage));
    assert!(delete_page_prompt(1, "Home").is_none());
    let mut pages = vec!["Home"];
    let mut trash: Vec<&str> = Vec::new();
    assert_eq!(commit_delete_page(&mut pages, &mut trash, 0), None);
    assert_eq!(pages.len(), 1);
    let (level, message) = delete_page_notice(None);
    assert_eq!(level, ToastLevel::Warning);
    assert!(message.to_lowercase().contains("cannot delete"));
}

#[test]
fn pages_panel_shift_x_prompts_then_y_deletes_and_pushes_trash() {
    let mut pages = vec!["Home", "Contact"];
    let mut trash: Vec<&str> = Vec::new();
    assert!(matches!(delete_page_prompt(pages.len(), "Contact"), Some(Modal::ConfirmPrompt { .. })));
    assert_eq!(confirm_prompt_step(Key::Char('y')), ModalResult::CloseSuccess);
    let selected = commit_delete_page(&mut pages, &mut trash, 1);
    assert_eq!(pages.len(), 1);
    assert_eq!(trash.len(), 1);
    assert_eq!(trash[0], "Contact");
    assert_eq!(selected, Some(0));
}

#[test]
fn pages_panel_shift_x_prompts_then_n_cancels() {
    let pages = vec!["Home", "Contact"];
    assert!(delete_page_prompt(pages.len(), "Contact").is_some());
    assert_eq!(confirm_prompt_step(Key::Char('n')), ModalResult::CloseCancel);
    assert_eq!(pages.len(), 2);
}

#[test]
fn pages_panel_u_restores_last_deleted_page_and_selects_it() {
    let mut pages = vec!["Home", "Contact"];
    let mut trash: Vec<&str> = Vec::new();
    commit_delete_page(&mut pages, &mut trash, 1);
    assert_eq!(pages.len(), 1);
    assert_eq!(pages_key_command(key(Key::Char('u'))), Some(PagesCommand::RestorePage));
    let selected = restore_from_trash(&mut pages, &mut trash);
    assert_eq!(pages.len(), 2);
    assert_eq!(pages[1], "Contact");
    assert_eq!(selected, Some(1));
    assert!(trash.is_empty());
}

#[test]
fn pages_panel_u_with_empty_trash_is_noop() {
    let mut pages = vec!["Home"];
    let mut trash: Vec<&str> = Vec::new();
    assert_eq!(restore_from_trash(&mut pages, &mut trash), None);
    assert_eq!(pages.len(), 1);
    let (level, message) = restore_page_notice(None);
    assert_eq!(level, ToastLevel::Warning);
    assert!(message.to_lowercase().contains("no deleted"));
}

#[test]
fn pages_panel_shift_j_moves_current_page_down() {
    let mut pages = vec!["Home", "Contact", "About"];
    assert_eq!(pages_key_command(KeyPress { key: Key::Char('J'), ctrl: false, shift: true }), Some(PagesCommand::MovePageDown));
    assert_eq!(move_page(&mut pages, 0, true), Some(1));
    assert_eq!(pages[0], "Contact");
    assert_eq!(pages[1], "Home");
}

#[test]
fn pages_panel_shift_k_moves_current_page_up() {
    let mut pages = vec!["Home", "Contact"];
    assert_eq!(pages_key_command(KeyPress { key: Key::Char('K'), ctrl: false, shift: true }), Some(PagesCommand::MovePageUp));
    assert_eq!(move_page(&mut pages, 1, false), Some(0));
    assert_eq!(pages[0], "Contact");
    assert_eq!(pages[1], "Home");
}

#[test]
fn pages_panel_shift_j_at_last_is_noop() {
    let mut pages = vec!["Home"];
    assert_eq!(move_page(&mut pages, 0, true), None);
    assert_eq!(pages[0], "Home");
}

use dd_siteforge::commands::{mark_dirty_if_changed, tick_autosave, AutosaveStep};

#[test]
fn editing_a_page_title_marks_app_dirty() {
    let (dirty, start_clock) = mark_dirty_if_changed(true, false);
    assert!(dirty);
    assert!(start_clock);
}

#[test]
fn unchanged_model_stays_clean() {
    assert_eq!(mark_dirty_if_changed(false, false), (false, false));
}

#[test]
fn dirty_since_does_not_reset_on_subsequent_mutations() {
    let (dirty, start_clock) = mark_dirty_if_changed(true, false);
    assert!(dirty && start_clock);
    let (dirty, start_again) = mark_dirty_if_changed(true, dirty);
    assert!(dirty);
    assert!(!start_again, "subsequent mutations must NOT push dirty_since forward");
}

#[test]
fn tick_autosave_does_nothing_when_clean() {
    assert_eq!(tick_autosave(false, None, true), AutosaveStep::Wait);
    assert_eq!(tick_autosave(false, Some(10_000), true), AutosaveStep::Wait);
}

#[test]
fn tick_autosave_does_nothing_when_dirty_but_no_path() {
    assert_eq!(tick_autosave(true, Some(10_000), false), AutosaveStep::Wait);
}

#[test]
fn tick_autosave_holds_off_within_debounce_window() {
    assert_eq!(tick_autosave(true, Some(500), true), AutosaveStep::Wait);
    assert_eq!(tick_autosave(true, Some(2_100), true), AutosaveStep::Save);
    assert_eq!(tick_autosave(true, None, true), AutosaveStep::StartTiming);
}

#[test]
fn tick_autosave_save_outcome_cleans_or_warns() {
    assert_eq!(autosave_outcome(Ok(())), (false, None));
    let (dirty, notice) = autosave_outcome(Err("disk full".to_string()));
    assert!(dirty);
    assert_eq!(notice, Some((ToastLevel::Warning, "Autosave failed: disk full".to_string())));
}
