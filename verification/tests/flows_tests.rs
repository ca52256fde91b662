use dd_siteforge::clicks::{click_target_at, ClickTarget, Panels};
use dd_siteforge::commands::{main_key_command, open_validation_modal, Command};
use dd_siteforge::flows::{
    backup_notice, begin_output_flow, commit_rename_page, current_page_slug_for_preview, output_notice,
    preview_open_notice, rename_notice, submit_output_path, OutputStart, RenameOutcome,
};
use dd_siteforge::form_edit::{form_edit_step, FieldKind, FormEdit, FormEditAction, FormEditState, FormField};
use dd_siteforge::form_layout::{field_areas, field_at_click, form_scroll, form_slots, FieldBody, FieldLayout, FormLayout};
use dd_siteforge::layout::Rect;
use dd_siteforge::modal::{Key, KeyPress, Modal};
use dd_siteforge::notices::validation_passed_notice;
use dd_siteforge::toasts::ToastLevel;

fn key(k: Key) -> KeyPress {
    KeyPress { key: k, ctrl: false, shift: false }
}

fn empty_slug_errors() -> Vec<String> {
    vec!["Page 'home': empty slug".to_string()]
}

#[test]
fn begin_export_flow_on_clean_starter_without_export_dir_opens_path_prompt() {
    match begin_output_flow(vec![], None, false) {
        OutputStart::AskPath(Modal::ExportPathPrompt { path }) => assert_eq!(path, "./web/"),
        _ => panic!("expected ExportPathPrompt"),
    }
}

#[test]
fn begin_export_flow_with_invalid_site_opens_validation_modal() {
    assert!(matches!(
        begin_output_flow(empty_slug_errors(), Some("web"), false),
        OutputStart::Errors(Modal::ValidationErrors { .. })
    ));
}

#[test]
fn begin_export_flow_with_saved_export_dir_commits_directly() {
    match begin_output_flow(vec![], Some("web"), false) {
        OutputStart::WriteTo(dir) => assert_eq!(dir, "web"),
        _ => panic!("expected a direct export"),
    }
    let (level, message) = output_notice(Ok((1, "web")), false);
    assert_eq!(level, ToastLevel::Success);
    assert!(message.to_lowercase().contains("exported"));
    assert_eq!(message, "Exported 1 page(s) to web");
    assert!(matches!(begin_output_flow(vec![], Some("  "), false), OutputStart::AskPath(_)));
}

#[test]
fn e_key_with_clean_site_and_no_export_dir_opens_path_prompt() {
    assert_eq!(main_key_command(KeyPress { key: Key::Char('E'), ctrl: false, shift: true }), Command::BeginExport);
    assert!(matches!(begin_output_flow(vec![], None, false), OutputStart::AskPath(Modal::ExportPathPrompt { .. })));
}

#[test]
fn begin_preview_flow_with_invalid_site_opens_validation_modal() {
    assert!(matches!(
        begin_output_flow(empty_slug_errors(), None, true),
        OutputStart::Errors(Modal::ValidationErrors { .. })
    ));
}

#[test]
fn begin_preview_flow_without_export_dir_opens_path_prompt() {
    match begin_output_flow(vec![], None, true) {
        OutputStart::AskPath(Modal::PreviewPathPrompt { path }) => assert_eq!(path, "./web/"),
        _ => panic!("expected PreviewPathPrompt"),
    }
}

#[test]
fn p_key_with_clean_site_and_no_export_dir_opens_preview_path_prompt() {
    assert_eq!(main_key_command(key(Key::Char('p'))), Command::BeginPreview);
    assert!(matches!(begin_output_flow(vec![], None, true), OutputStart::AskPath(Modal::PreviewPathPrompt { .. })));
}

#[test]
fn output_paths_and_preview_notices() {
    assert_eq!(submit_output_path("  web/ ", false), Ok("web/".to_string()));
    assert_eq!(submit_output_path("  ", false), Err((ToastLevel::Warning, "Export path required.".to_string())));
    assert_eq!(submit_output_path("", true), Err((ToastLevel::Warning, "Preview path required.".to_string())));
    assert_eq!(output_notice(Err("disk full"), true), (ToastLevel::Warning, "Preview failed: disk full".to_string()));
    assert_eq!(output_notice(Err("disk full"), false), (ToastLevel::Warning, "Export failed: disk full".to_string()));
    assert_eq!(
        preview_open_notice(Ok("http://127.0.0.1:8000/"), Ok(())),
        (ToastLevel::Info, "Opening http://127.0.0.1:8000/ in browser\u{2026}".to_string())
    );
    assert_eq!(preview_open_notice(Ok("u"), Err("no browser")), (ToastLevel::Warning, "Browser open failed: no browser".to_string()));
    assert_eq!(preview_open_notice(Err("port busy"), Ok(())), (ToastLevel::Warning, "Preview server failed: port busy".to_string()));
}

#[test]
fn current_page_slug_for_preview_returns_selected_page_slug() {
    let slugs = vec!["home".to_string(), "contact".to_string()];
    assert_eq!(current_page_slug_for_preview(&slugs, 1), "contact");
    assert_eq!(current_page_slug_for_preview(&slugs, 9), "contact");
    assert_eq!(current_page_slug_for_preview(&vec![], 0), "index");
}

#[test]
fn load_with_diverging_backup_pushes_info_toast() {
    let notice = backup_notice(Some("{\"main\":\"new\"}"), Some("{\"backup\":\"old\"}"), Some("2024-01-02 03:04"));
    let (level, message) = notice.expect("a divergence notice");
    assert_eq!(level, ToastLevel::Info);
    assert!(message.to_lowercase().contains("differs from last manual save"));
    assert_eq!(message, "Loaded state differs from last manual save (2024-01-02 03:04).");
    assert_eq!(
        backup_notice(Some("a"), Some("b"), None).unwrap().1,
        "Loaded state differs from last manual save (unknown)."
    );
}

#[test]
fn load_with_matching_backup_pushes_no_toast() {
    assert!(backup_notice(Some("same"), Some("same"), None).is_none());
    assert!(backup_notice(Some("same"), None, None).is_none());
}

#[test]
fn pages_panel_r_renames_and_regenerates_slug_when_unlocked() {
    let outcome = commit_rename_page("  Front Page ", 0, 1, false);
    match &outcome {
        RenameOutcome::Renamed { title, regenerate_slug } => {
            assert_eq!(title, "Front Page");
            assert!(*regenerate_slug);
        }
        _ => panic!("expected a rename"),
    }
    assert_eq!(rename_notice(&outcome), (ToastLevel::Success, "Renamed page: Front Page".to_string()));
}

#[test]
fn pages_panel_r_with_locked_slug_renames_title_only() {
    match commit_rename_page("Front Page", 0, 1, true) {
        RenameOutcome::Renamed { title, regenerate_slug } => {
            assert_eq!(title, "Front Page");
            assert!(!regenerate_slug);
        }
        _ => panic!("expected a rename"),
    }
    let blank = commit_rename_page("   ", 0, 1, false);
    assert!(matches!(blank, RenameOutcome::TitleRequired));
    assert_eq!(rename_notice(&blank), (ToastLevel::Warning, "Title required.".to_string()));
    let gone = commit_rename_page("X", 3, 1, false);
    assert!(matches!(gone, RenameOutcome::PageGone));
    assert_eq!(rename_notice(&gone), (ToastLevel::Warning, "Page no longer exists.".to_string()));
}

#[test]
fn f3_on_clean_starter_pushes_success_toast() {
    assert_eq!(main_key_command(key(Key::F(3))), Command::OpenValidation);
    assert!(open_validation_modal(vec![]).is_none());
    let (level, message) = validation_passed_notice();
    assert_eq!(level, ToastLevel::Success);
    assert!(message.to_lowercase().contains("no validation errors"));
}

#[test]
fn f3_with_validation_errors_opens_modal() {
    assert!(matches!(open_validation_modal(empty_slug_errors()), Some(Modal::ValidationErrors { .. })));
}

fn text_field(id: &str, kind: FieldKind, value: &str) -> FormField {
    FormField {
        id: id.to_string(),
        kind,
        visible: true,
        value: value.chars().collect(),
        options: vec![],
        items: vec![],
        template: vec![],
        selected_item: 0,
    }
}

#[test]
fn tier_b_add_item_via_A_key() {
    let item = FormEditState { fields: vec![text_field("title", FieldKind::Text, "Q")], focused: 0 };
    let mut items = text_field("items", FieldKind::SubForm { min_items: 1 }, "");
    items.items = vec![item];
    items.template = vec![text_field("title", FieldKind::Text, "")];
    let mut e = FormEdit {
        state: FormEditState { fields: vec![text_field("parent_title", FieldKind::Text, "FAQ"), items], focused: 0 },
        cursor_pos: 0,
        scroll: 0,
        drill: vec![],
    };
    form_edit_step(&mut e, key(Key::Tab), true, true);
    assert_eq!(e.state.focused, 1);
    let before = e.state.fields[1].items.len();
    let r = form_edit_step(&mut e, KeyPress { key: Key::Char('A'), ctrl: false, shift: true }, true, true);
    assert_eq!(r, FormEditAction::ItemAdded);
    assert_eq!(e.state.fields[1].items.len(), before + 1);
}

#[test]
fn details_panel_single_click_selects_double_click_edits() {
    let zero = Rect { x: 0, y: 0, width: 0, height: 0 };
    let panels = Panels { tree: zero, pages: zero, regions: zero, details: Rect { x: 20, y: 1, width: 60, height: 30 } };
    assert!(matches!(click_target_at(&panels, 25, 4, 0, 0, 0, 0, 0), ClickTarget::Details { .. }));
}

#[test]
fn form_dialog_stacks_fields_scrolls_and_focuses_on_click() {
    let form = FormLayout {
        fields: vec![
            FieldLayout { visible: true, body: FieldBody::Line },
            FieldLayout { visible: false, body: FieldBody::Line },
            FieldLayout { visible: true, body: FieldBody::SubForm { items: 2 } },
            FieldLayout { visible: true, body: FieldBody::Textarea { value: "a\nb".to_string(), rows: 1 } },
        ],
        focused_field: 0,
    };
    let (slots, total) = form_slots(&form, 40, 10);
    assert_eq!(slots, vec![(0, 0, 1, 3), (2, 5, 6, 5), (3, 12, 13, 4)]);
    assert_eq!(total, 18);
    assert_eq!(form_scroll(total, 10, 20), 8);
    assert_eq!(form_scroll(total, 10, 3), 3);
    assert_eq!(form_scroll(5, 10, 3), 0);
    let content = Rect { x: 2, y: 4, width: 40, height: 10 };
    let areas = field_areas(&slots, 0, content);
    assert_eq!(
        areas,
        vec![
            (0, Rect { x: 2, y: 5, width: 40, height: 3 }),
            (2, Rect { x: 2, y: 10, width: 40, height: 4 }),
        ]
    );
    assert_eq!(field_at_click(&areas, 5, 11), Some(2));
    assert_eq!(field_at_click(&areas, 5, 8), None);
    let scrolled = field_areas(&slots, 8, content);
    assert_eq!(scrolled, vec![(3, Rect { x: 2, y: 9, width: 40, height: 4 })]);
}
