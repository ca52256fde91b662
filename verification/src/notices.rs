//! The notices the editor shows after an edit, and the state changes that
//! go with undoing and autosaving.
use vstd::prelude::*;
use crate::form_edit::FormEditAction;
use crate::items::ItemEdit;
use crate::text::{decimal, push_decimal, push_str};
use crate::toasts::ToastLevel;
use crate::tree::{ItemsKind, ToggleEffect};

verus! {

broadcast use vstd::string::group_string_axioms;

/// The block name of a list kind, as in `dd-card`.
pub open spec fn block_name(kind: ItemsKind) -> Seq<char> {
    match kind {
        ItemsKind::Accordion => "dd-accordion"@,
        ItemsKind::Alternating => "dd-alternating"@,
        ItemsKind::Card => "dd-card"@,
        ItemsKind::Filmstrip => "dd-filmstrip"@,
        ItemsKind::Milestones => "dd-milestones"@,
        ItemsKind::Slider => "dd-slider"@,
    }
}

/// How an added or removed item is named: `accordion` and `alternating`
/// plainly, the other lists by their block name.
pub open spec fn item_noun(kind: ItemsKind) -> Seq<char> {
    match kind {
        ItemsKind::Accordion => "accordion"@,
        ItemsKind::Alternating => "alternating"@,
        _ => block_name(kind),
    }
}

fn block_name_str(kind: ItemsKind) -> (r: &'static str)
    ensures
        r@ == block_name(kind),
{
    match kind {
        ItemsKind::Accordion => "dd-accordion",
        ItemsKind::Alternating => "dd-alternating",
        ItemsKind::Card => "dd-card",
        ItemsKind::Filmstrip => "dd-filmstrip",
        ItemsKind::Milestones => "dd-milestones",
        ItemsKind::Slider => "dd-slider",
    }
}

fn item_noun_str(kind: ItemsKind) -> (r: &'static str)
    ensures
        r@ == item_noun(kind),
{
    match kind {
        ItemsKind::Accordion => "accordion",
        ItemsKind::Alternating => "alternating",
        _ => block_name_str(kind),
    }
}

/// The notice after adding or removing an item of a `kind` list: a warning
/// on an empty page, else information on what was done or why nothing was,
/// items numbered from 1.
pub open spec fn item_edit_notice_text(kind: ItemsKind, edit: ItemEdit) -> (ToastLevel, Seq<char>) {
    match edit {
        ItemEdit::NoSection => (ToastLevel::Warning, "No selected section."@),
        ItemEdit::NotASection => (ToastLevel::Info, "Selected node is not a section."@),
        ItemEdit::NoComponents => (ToastLevel::Info, "Section has no components."@),
        ItemEdit::WrongComponent => (ToastLevel::Info, "Selected component is not "@ + block_name(kind) + "."@),
        ItemEdit::KeepOne => (ToastLevel::Info, block_name(kind) + " must keep at least one item."@),
        ItemEdit::Added { item_idx, .. } =>
            (ToastLevel::Info, "Added "@ + item_noun(kind) + " item "@ + decimal((item_idx + 1) as nat) + "."@),
        ItemEdit::Removed { removed_idx, .. } =>
            (ToastLevel::Info, "Removed "@ + item_noun(kind) + " item "@ + decimal((removed_idx + 1) as nat) + "."@),
    }
}

/// The notice after an item edit (see `item_edit_notice_text`).
pub fn item_edit_notice(kind: ItemsKind, edit: ItemEdit) -> (r: (ToastLevel, String))
    requires
        edit matches ItemEdit::Added { item_idx, .. } ==> item_idx < usize::MAX,
        edit matches ItemEdit::Removed { removed_idx, .. } ==> removed_idx < usize::MAX,
    ensures
        r.0 == item_edit_notice_text(kind, edit).0,
        r.1@ == item_edit_notice_text(kind, edit).1,
{
    let mut s = String::new();
    let level = match edit {
        ItemEdit::NoSection => {
            push_str(&mut s, "No selected section.");
            ToastLevel::Warning
        },
        ItemEdit::NotASection => {
            push_str(&mut s, "Selected node is not a section.");
            ToastLevel::Info
        },
        ItemEdit::NoComponents => {
            push_str(&mut s, "Section has no components.");
            ToastLevel::Info
        },
        ItemEdit::WrongComponent => {
            push_str(&mut s, "Selected component is not ");
            push_str(&mut s, block_name_str(kind));
            push_str(&mut s, ".");
            ToastLevel::Info
        },
        ItemEdit::KeepOne => {
            push_str(&mut s, block_name_str(kind));
            push_str(&mut s, " must keep at least one item.");
            ToastLevel::Info
        },
        ItemEdit::Added { item_idx, .. } => {
            push_str(&mut s, "Added ");
            push_str(&mut s, item_noun_str(kind));
            push_str(&mut s, " item ");
            push_decimal(&mut s, item_idx + 1);
            push_str(&mut s, ".");
            ToastLevel::Info
        },
        ItemEdit::Removed { removed_idx, .. } => {
            push_str(&mut s, "Removed ");
            push_str(&mut s, item_noun_str(kind));
            push_str(&mut s, " item ");
            push_decimal(&mut s, removed_idx + 1);
            push_str(&mut s, ".");
            ToastLevel::Info
        },
    };
    (level, s)
}

/// The notice after asking to delete a page: refused with a warning when
/// it is the last page, else the deleted page's title.
pub fn delete_page_notice(deleted_title: Option<&str>) -> (r: (ToastLevel, String))
    ensures
        deleted_title is None ==> r.0 == ToastLevel::Warning && r.1@ == "Cannot delete last page."@,
        deleted_title matches Some(t) ==> r.0 == ToastLevel::Success && r.1@ == "Deleted page: "@ + t@,
{
    match deleted_title {
        None => (ToastLevel::Warning, "Cannot delete last page.".to_string()),
        Some(t) => {
            let mut s = String::new();
            push_str(&mut s, "Deleted page: ");
            push_str(&mut s, t);
            (ToastLevel::Success, s)
        },
    }
}

/// The notice after asking to restore a page: a warning when the trash is
/// empty, else the restored page's title.
pub fn restore_page_notice(restored_title: Option<&str>) -> (r: (ToastLevel, String))
    ensures
        restored_title is None ==> r.0 == ToastLevel::Warning && r.1@ == "No deleted pages to restore."@,
        restored_title matches Some(t) ==> r.0 == ToastLevel::Success && r.1@ == "Restored page: "@ + t@,
{
    match restored_title {
        None => (ToastLevel::Warning, "No deleted pages to restore.".to_string()),
        Some(t) => {
            let mut s = String::new();
            push_str(&mut s, "Restored page: ");
            push_str(&mut s, t);
            (ToastLevel::Success, s)
        },
    }
}

/// Undoes the last edit: the latest snapshot leaves the history and
/// becomes the current state; with an empty history nothing changes.
/// Returns whether there was something to undo.
pub fn undo_last<T>(history: &mut Vec<T>, current: &mut T) -> (r: bool)
    ensures
        r == (old(history)@.len() > 0),
        !r ==> final(history)@ == old(history)@ && *final(current) == *old(current),
        r ==> final(history)@ == old(history)@.drop_last() && *final(current) == old(history)@.last(),
{
    match history.pop() {
        Some(s) => {
            *current = s;
            true
        },
        None => false,
    }
}

/// The notice after an undo: success, or a warning that there was nothing
/// to undo.
pub fn undo_notice(undone: bool) -> (r: (ToastLevel, String))
    ensures
        undone ==> r.0 == ToastLevel::Success && r.1@ == "Undid last change."@,
        !undone ==> r.0 == ToastLevel::Warning && r.1@ == "Nothing to undo."@,
{
    if undone {
        (ToastLevel::Success, "Undid last change.".to_string())
    } else {
        (ToastLevel::Warning, "Nothing to undo.".to_string())
    }
}

/// The notice when validation finds no errors.
pub fn validation_passed_notice() -> (r: (ToastLevel, String))
    ensures
        r.0 == ToastLevel::Success,
        r.1@ == "No validation errors."@,
{
    (ToastLevel::Success, "No validation errors.".to_string())
}

/// What an autosave's outcome leaves: after a successful save the site is
/// clean and its change clock cleared (`(false, None)`); after a failed one
/// it stays dirty and a warning `Autosave failed: <error>` is shown.
pub fn autosave_outcome(saved: Result<(), String>) -> (r: (bool, Option<(ToastLevel, String)>))
    ensures
        saved is Ok ==> r.0 == false && r.1 is None,
        saved matches Err(e) ==> r.0 == true && (r.1 matches Some((level, msg))
            && level == ToastLevel::Warning && msg@ == "Autosave failed: "@ + e@),
{
    match saved {
        Ok(()) => (false, None),
        Err(e) => {
            let mut s = String::new();
            push_str(&mut s, "Autosave failed: ");
            push_str(&mut s, e.as_str());
            (true, Some((ToastLevel::Warning, s)))
        },
    }
}

/// The notice after a key in the form editor, if any; the missing images
/// folder is named by `images_root`.
pub open spec fn form_edit_notice_text(a: FormEditAction, images_root: Seq<char>) -> Option<(ToastLevel, Seq<char>)> {
    match a {
        FormEditAction::ItemAdded => Some((ToastLevel::Success, "Item added."@)),
        FormEditAction::ItemRemoved => Some((ToastLevel::Info, "Item removed."@)),
        FormEditAction::MustKeep(n) =>
            Some((ToastLevel::Warning, "Must keep at least "@ + decimal(n as nat) + " item(s)."@)),
        FormEditAction::DrilledIn => Some((ToastLevel::Info, "Editing item. Ctrl+S returns to parent."@)),
        FormEditAction::SaveItemToParent => Some((ToastLevel::Success, "Item saved \u{2014} editing parent."@)),
        FormEditAction::CancelItem => Some((ToastLevel::Info, "Item edit cancelled."@)),
        FormEditAction::NoPages => Some((ToastLevel::Warning, "No pages to pick from."@)),
        FormEditAction::NoImagesFolder => Some((ToastLevel::Warning, "Source folder not found: "@ + images_root)),
        _ => None,
    }
}

/// The notice after a key in the form editor (see `form_edit_notice_text`).
pub fn form_edit_notice(a: FormEditAction, images_root: &str) -> (r: Option<(ToastLevel, String)>)
    ensures
        match form_edit_notice_text(a, images_root@) {
            Some((level, text)) => r matches Some((l, m)) && l == level && m@ == text,
            None => r is None,
        },
{
    let mut s = String::new();
    let level = match a {
        FormEditAction::ItemAdded => {
            push_str(&mut s, "Item added.");
            ToastLevel::Success
        },
        FormEditAction::ItemRemoved => {
            push_str(&mut s, "Item removed.");
            ToastLevel::Info
        },
        FormEditAction::MustKeep(n) => {
            push_str(&mut s, "Must keep at least ");
            push_decimal(&mut s, n);
            push_str(&mut s, " item(s).");
            ToastLevel::Warning
        },
        FormEditAction::DrilledIn => {
            push_str(&mut s, "Editing item. Ctrl+S returns to parent.");
            ToastLevel::Info
        },
        FormEditAction::SaveItemToParent => {
            push_str(&mut s, "Item saved \u{2014} editing parent.");
            ToastLevel::Success
        },
        FormEditAction::CancelItem => {
            push_str(&mut s, "Item edit cancelled.");
            ToastLevel::Info
        },
        FormEditAction::NoPages => {
            push_str(&mut s, "No pages to pick from.");
            ToastLevel::Warning
        },
        FormEditAction::NoImagesFolder => {
            push_str(&mut s, "Source folder not found: ");
            push_str(&mut s, images_root);
            ToastLevel::Warning
        },
        _ => {
            return None;
        },
    };
    Some((level, s))
}

/// The plain name of a list kind's items, as in `card items`.
pub open spec fn items_word(kind: ItemsKind) -> Seq<char> {
    match kind {
        ItemsKind::Accordion => "accordion"@,
        ItemsKind::Alternating => "alternating"@,
        ItemsKind::Card => "card"@,
        ItemsKind::Filmstrip => "filmstrip"@,
        ItemsKind::Milestones => "milestones"@,
        ItemsKind::Slider => "slider"@,
    }
}

fn items_word_str(kind: ItemsKind) -> (r: &'static str)
    ensures
        r@ == items_word(kind),
{
    match kind {
        ItemsKind::Accordion => "accordion",
        ItemsKind::Alternating => "alternating",
        ItemsKind::Card => "card",
        ItemsKind::Filmstrip => "filmstrip",
        ItemsKind::Milestones => "milestones",
        ItemsKind::Slider => "slider",
    }
}

/// The notice after folding or unfolding a tree row: what was collapsed
/// (when it was open before) or expanded, the hint to press Enter on rows
/// without a fold, or a warning for a row outside a section.
pub open spec fn toggle_notice_text(effect: ToggleEffect, was_expanded: bool) -> (ToastLevel, Seq<char>) {
    let verb = if was_expanded { "Collapsed "@ } else { "Expanded "@ };
    match effect {
        ToggleEffect::Items { kind, .. } => (ToastLevel::Info, verb + items_word(kind) + " items."@),
        ToggleEffect::HeaderColumns => (ToastLevel::Info, verb + "header columns."@),
        ToggleEffect::HeaderSection { .. } => (ToastLevel::Info, verb + "header section."@),
        ToggleEffect::Section { .. } => (ToastLevel::Info, verb + "section."@),
        ToggleEffect::EnterToEdit => (ToastLevel::Info, "Press Enter to edit."@),
        ToggleEffect::EnterToEditHead => (ToastLevel::Info, "Press Enter to edit page head."@),
        ToggleEffect::NotASection => (ToastLevel::Warning, "Selected row is not a section."@),
    }
}

/// The notice after a fold toggle (see `toggle_notice_text`);
/// `was_expanded` tells whether the fold was open before the toggle.
pub fn toggle_notice(effect: ToggleEffect, was_expanded: bool) -> (r: (ToastLevel, String))
    ensures
        r.0 == toggle_notice_text(effect, was_expanded).0,
        r.1@ == toggle_notice_text(effect, was_expanded).1,
{
    let mut s = String::new();
    let verb = if was_expanded { "Collapsed " } else { "Expanded " };
    let level = match effect {
        ToggleEffect::Items { kind, .. } => {
            push_str(&mut s, verb);
            push_str(&mut s, items_word_str(kind));
            push_str(&mut s, " items.");
            ToastLevel::Info
        },
        ToggleEffect::HeaderColumns => {
            push_str(&mut s, verb);
            push_str(&mut s, "header columns.");
            ToastLevel::Info
        },
        ToggleEffect::HeaderSection { .. } => {
            push_str(&mut s, verb);
            push_str(&mut s, "header section.");
            ToastLevel::Info
        },
        ToggleEffect::Section { .. } => {
            push_str(&mut s, verb);
            push_str(&mut s, "section.");
            ToastLevel::Info
        },
        ToggleEffect::EnterToEdit => {
            push_str(&mut s, "Press Enter to edit.");
            ToastLevel::Info
        },
        ToggleEffect::EnterToEditHead => {
            push_str(&mut s, "Press Enter to edit page head.");
            ToastLevel::Info
        },
        ToggleEffect::NotASection => {
            push_str(&mut s, "Selected row is not a section.");
            ToastLevel::Warning
        },
    };
    (level, s)
}

} // verus!
