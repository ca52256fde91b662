use dd_siteforge::components::ComponentKind;
use dd_siteforge::modal::{
    component_picker_step, confirm_prompt_step, pop_char, prompt_step, submitted_text, template_picker_step,
    validation_errors_step, wrap_validation_lines, ConfirmKind, Key, KeyPress, Modal, ModalResult, PickerAction,
    PromptAction, PromptKeys, TemplateAction,
};

fn k(key: Key) -> KeyPress {
    KeyPress { key, ctrl: false, shift: false }
}

fn ctrl(key: Key) -> KeyPress {
    KeyPress { key, ctrl: true, shift: false }
}

const SAVE: PromptKeys = PromptKeys { ctrl_s_submits: false, ignore_ctrl_chars: false };
const TITLE: PromptKeys = PromptKeys { ctrl_s_submits: true, ignore_ctrl_chars: false };
const PATH: PromptKeys = PromptKeys { ctrl_s_submits: true, ignore_ctrl_chars: true };

#[test]
fn variant_names() {
    assert_eq!(Modal::SavePrompt { path: String::new() }.variant_name(), "SavePrompt");
    assert_eq!(Modal::TemplatePicker { selected: 0 }.variant_name(), "TemplatePicker");
    assert_eq!(
        Modal::ConfirmPrompt { message: String::new(), on_confirm: ConfirmKind::DeletePage }.variant_name(),
        "ConfirmPrompt"
    );
    assert_eq!(Modal::FormEdit { cursor_pos: 0, scroll_offset: 0, drill_depth: 0 }.variant_name(), "FormEdit");
}

#[test]
fn prompt_types_deletes_and_submits() {
    let mut text = String::from("ab");
    assert_eq!(prompt_step(&mut text, k(Key::Char('c')), SAVE), PromptAction::Continue);
    assert_eq!(text, "abc");
    assert_eq!(prompt_step(&mut text, k(Key::Backspace), SAVE), PromptAction::Continue);
    assert_eq!(text, "ab");
    assert_eq!(prompt_step(&mut text, k(Key::Enter), SAVE), PromptAction::Submit);
    assert_eq!(prompt_step(&mut text, k(Key::Esc), SAVE), PromptAction::Cancel);
    assert_eq!(prompt_step(&mut text, k(Key::Up), SAVE), PromptAction::Continue);
    assert_eq!(text, "ab");
    let mut empty = String::new();
    assert_eq!(prompt_step(&mut empty, k(Key::Backspace), SAVE), PromptAction::Continue);
    assert_eq!(empty, "");
}

#[test]
fn control_s_submits_only_where_prompts_allow_it() {
    let mut text = String::from("x");
    assert_eq!(prompt_step(&mut text, ctrl(Key::Char('s')), SAVE), PromptAction::Continue);
    assert_eq!(text, "xs");
    let mut text = String::from("x");
    assert_eq!(prompt_step(&mut text, ctrl(Key::Char('s')), TITLE), PromptAction::Submit);
    assert_eq!(text, "x");
    assert_eq!(prompt_step(&mut text, ctrl(Key::Char('a')), TITLE), PromptAction::Continue);
    assert_eq!(text, "xa");
    let mut path = String::from("p");
    assert_eq!(prompt_step(&mut path, ctrl(Key::Char('a')), PATH), PromptAction::Continue);
    assert_eq!(path, "p");
}

#[test]
fn submitted_text_is_trimmed_and_never_blank() {
    assert_eq!(submitted_text("  site.json "), Some("site.json".to_string()));
    assert_eq!(submitted_text(" \t "), None);
}

#[test]
fn pop_char_removes_one_character() {
    let mut s = String::from("héé");
    pop_char(&mut s);
    assert_eq!(s, "hé");
}

#[test]
fn validation_list_scrolls_within_its_entries() {
    let mut scroll = 0;
    assert_eq!(validation_errors_step(&mut scroll, 3, Key::Down), ModalResult::Continue);
    assert_eq!(scroll, 1);
    validation_errors_step(&mut scroll, 3, Key::Char('j'));
    validation_errors_step(&mut scroll, 3, Key::Down);
    assert_eq!(scroll, 2);
    validation_errors_step(&mut scroll, 3, Key::PageUp);
    assert_eq!(scroll, 0);
    validation_errors_step(&mut scroll, 3, Key::PageDown);
    assert_eq!(scroll, 2);
    validation_errors_step(&mut scroll, 3, Key::Char('k'));
    assert_eq!(scroll, 1);
    validation_errors_step(&mut scroll, 20, Key::PageDown);
    assert_eq!(scroll, 6);
    assert_eq!(validation_errors_step(&mut scroll, 3, Key::Esc), ModalResult::CloseSuccess);
    let mut none = 0;
    validation_errors_step(&mut none, 0, Key::Down);
    assert_eq!(none, 0);
}

#[test]
fn template_picker_stays_on_the_four_templates() {
    let mut sel = 0;
    assert_eq!(template_picker_step(&mut sel, Key::Up), TemplateAction::Continue);
    assert_eq!(sel, 0);
    for _ in 0..5 {
        template_picker_step(&mut sel, Key::Char('j'));
    }
    assert_eq!(sel, 3);
    assert_eq!(template_picker_step(&mut sel, Key::Enter), TemplateAction::Pick(3));
    assert_eq!(template_picker_step(&mut sel, Key::Esc), TemplateAction::Cancel);
}

#[test]
fn confirm_prompt_answers() {
    assert_eq!(confirm_prompt_step(Key::Char('Y')), ModalResult::CloseSuccess);
    assert_eq!(confirm_prompt_step(Key::Char('n')), ModalResult::CloseCancel);
    assert_eq!(confirm_prompt_step(Key::Esc), ModalResult::CloseCancel);
    assert_eq!(confirm_prompt_step(Key::Enter), ModalResult::Continue);
}

#[test]
fn component_picker_filters_and_inserts_the_highlighted_kind() {
    let mut query = String::new();
    let mut selected = 0;
    for c in "card".chars() {
        assert_eq!(component_picker_step(&mut query, &mut selected, Key::Char(c), false), PickerAction::Continue);
    }
    assert_eq!(query, "card");
    assert_eq!(component_picker_step(&mut query, &mut selected, Key::Enter, false), PickerAction::Insert(ComponentKind::Card));
    assert_eq!(component_picker_step(&mut query, &mut selected, Key::Esc, false), PickerAction::Cancel);
}

#[test]
fn component_picker_keeps_the_highlight_within_the_list() {
    let mut query = String::new();
    let mut selected = 0;
    for _ in 0..100 {
        component_picker_step(&mut query, &mut selected, Key::Down, false);
    }
    let total_outside_header = ComponentKind::all().len() - 2;
    assert_eq!(selected, total_outside_header - 1);
    component_picker_step(&mut query, &mut selected, Key::Up, false);
    assert_eq!(selected, total_outside_header - 2);
    let mut q = String::from("zzzzqqq");
    let mut s = 4;
    component_picker_step(&mut q, &mut s, Key::Backspace, false);
    assert_eq!(s, 0);
    assert_eq!(component_picker_step(&mut q, &mut s, Key::Enter, false), PickerAction::NothingSelected);
}

#[test]
fn validation_messages_are_numbered_and_wrapped() {
    let errors = vec!["abcdef".to_string(), String::new(), "x".to_string()];
    assert_eq!(
        wrap_validation_lines(&errors, 6),
        vec!["1. abc".to_string(), "   def".to_string(), "3. x".to_string()]
    );
    assert_eq!(
        wrap_validation_lines(&["ab".to_string()], 2),
        vec!["1. a".to_string(), "   b".to_string()]
    );
    let long: Vec<String> = (0..10).map(|_| "e".to_string()).collect();
    let wrapped = wrap_validation_lines(&long, 80);
    assert_eq!(wrapped[9], "10. e");
}
