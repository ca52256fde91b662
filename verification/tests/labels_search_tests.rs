use dd_siteforge::components::{component_blueprint_label, component_label, ComponentKind};
use dd_siteforge::labels::{
    next_alert_type, next_navigation_kind, parse_navigation_kind, section_class_to_str,
};
use dd_siteforge::responsive::{breakpoint_for_panel_chars, parse_dd_u_token_ratio, resolve_dd_u_ratio_for_panel, ResponsiveBp};
use dd_siteforge::search::{filtered_component_kinds, fuzzy_score};
use dd_siteforge::site::{AlertType, NavigationKind, SectionClass};
use dd_siteforge::text::{fit_ascii_cell, input_lines_preserve, truncate_ascii};

#[test]
fn truncation_and_cells() {
    assert_eq!(truncate_ascii("abcdef", 10), "abcdef");
    assert_eq!(truncate_ascii("abcdef", 5), "ab...");
    assert_eq!(truncate_ascii("abcdef", 3), "abc");
    assert_eq!(fit_ascii_cell("ab", 4), "ab  ");
    assert_eq!(fit_ascii_cell("abcdef", 5), "ab...");
}

#[test]
fn input_lines_keep_empty_lines() {
    assert_eq!(input_lines_preserve("a\n\nb"), vec!["a".to_string(), String::new(), "b".to_string()]);
    assert_eq!(input_lines_preserve(""), vec![String::new()]);
}

#[test]
fn width_tokens_resolve_by_breakpoint() {
    assert_eq!(breakpoint_for_panel_chars(59), ResponsiveBp::Base);
    assert_eq!(breakpoint_for_panel_chars(90), ResponsiveBp::Md);
    assert_eq!(breakpoint_for_panel_chars(200), ResponsiveBp::Xxl);
    assert_eq!(parse_dd_u_token_ratio("dd-u-1-2"), Some((ResponsiveBp::Base, (1, 2))));
    assert_eq!(parse_dd_u_token_ratio("dd-u-md-3-2"), Some((ResponsiveBp::Md, (2, 2))));
    assert_eq!(parse_dd_u_token_ratio("dd-u-0-2"), None);
    assert_eq!(parse_dd_u_token_ratio("dd-u-xs-1-2"), None);
    assert_eq!(resolve_dd_u_ratio_for_panel("dd-u-1-1 dd-u-md-1-2", 100), Some((1, 2)));
    assert_eq!(resolve_dd_u_ratio_for_panel("dd-u-1-1 dd-u-md-1-2", 40), Some((1, 1)));
    assert_eq!(resolve_dd_u_ratio_for_panel("dd-u-lg-1-3", 40), Some((1, 3)));
    assert_eq!(resolve_dd_u_ratio_for_panel("wide", 40), None);
}

#[test]
fn labels_and_cycles() {
    assert_eq!(section_class_to_str(SectionClass::FullContained), "-full-contained");
    assert_eq!(next_alert_type(AlertType::Default, false), AlertType::Success);
    assert_eq!(next_alert_type(next_alert_type(AlertType::Info, true), false), AlertType::Info);
    assert_eq!(next_navigation_kind(NavigationKind::Link, true), NavigationKind::Button);
    assert_eq!(parse_navigation_kind(" BUTTON "), Some(NavigationKind::Button));
    assert_eq!(parse_navigation_kind("x"), None);
}

#[test]
fn component_labels() {
    let cta = ComponentKind::Cta.default_component();
    assert_eq!(component_label(&cta), "dd-cta");
    assert_eq!(component_blueprint_label(&cta), "dd-cta | parent_title: Title");
}

#[test]
fn fuzzy_matching_and_picker_order() {
    assert!(fuzzy_score("crd", "dd-card").is_some());
    assert!(fuzzy_score("xyz", "dd-card").is_none());
    let kinds = filtered_component_kinds(false, "");
    assert!(!kinds.contains(&ComponentKind::HeaderSearch));
    let kinds = filtered_component_kinds(true, "");
    assert!(kinds.contains(&ComponentKind::HeaderSearch));
}

#[test]
fn fuzzy_scores_exact_values() {
    assert_eq!(fuzzy_score("", "anything"), Some(0));
    assert_eq!(fuzzy_score("CARD", "dd-card"), Some(997));
    assert_eq!(fuzzy_score("x", "éx"), Some(998));
    assert_eq!(fuzzy_score("crd", "dd-card"), Some(38));
    assert_eq!(fuzzy_score("dc", "dd-card"), Some(26));
}
