use vstd::prelude::*;

pub mod text;
pub mod textarea;
pub mod form_layout;
pub mod responsive;
pub mod site;
pub mod labels;
pub mod components;
pub mod search;
pub mod fresh;
pub mod section_ids;
pub mod pages;
pub mod ascii_map;
pub mod layout;
pub mod paths;
pub mod modal;
pub mod pickers;
pub mod toasts;
pub mod tree;
pub mod items;
pub mod tree_label;
pub mod hints;
pub mod moves;
pub mod navigation;
pub mod edits;
pub mod history;
pub mod details;
pub mod panel;
pub mod commands;
pub mod page_details;
pub mod clicks;
pub mod row_actions;
pub mod notices;
pub mod form_edit;
pub mod flows;

verus! {
}
