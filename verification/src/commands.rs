//! What a key press or a mouse event asks of the editor when no dialog is
//! open: the command of each key, the scrolling of the help and theme
//! overlays, the page list's own keys and double clicks.
use vstd::prelude::*;
use crate::modal::{ConfirmKind, Key, KeyPress, Modal};
use crate::text::push_str;

verus! {

broadcast use vstd::string::group_string_axioms;

/// An editor command bound to a key of the main screen.
#[derive(Clone, Copy, Debug, PartialEq, Eq, Structural)]
pub enum Command {
    ShowHelp,
    ShowTheme,
    OpenValidation,
    BeginExport,
    BeginPreview,
    RequestQuit,
    Up,
    Down,
    CollapseRow,
    ExpandRow,
    JumpFirstRow,
    JumpLastRow,
    /// Scroll the details panel by this many rows.
    ScrollDetails(i8),
    ToggleRow,
    EnterRow,
    NextPage,
    PrevPage,
    BeginSave,
    OpenComponentPicker,
    DeleteRow,
    DuplicateRow,
    Undo,
    /// Move the selected row by this many places.
    MoveRow(i8),
    AddColumn,
    RemoveColumn,
    PrevColumn,
    NextColumn,
    EditColumnId,
    EditColumnWidth,
    AddItem,
    RemoveItem,
    FocusRegions,
    FocusPages,
    FocusLayouts,
    Nothing,
}

/// The command of a key of the main screen (Shift+E exports, `p` without
/// Control previews, Ctrl+Q quits; other bindings ignore the modifiers).
pub open spec fn key_command(k: KeyPress) -> Command {
    match k.key {
        Key::F(1) => Command::ShowHelp,
        Key::F(2) => Command::ShowTheme,
        Key::F(3) => Command::OpenValidation,
        Key::Up => Command::Up,
        Key::Down => Command::Down,
        Key::PageUp => Command::ScrollDetails(-5i8),
        Key::PageDown => Command::ScrollDetails(5i8),
        Key::Enter => Command::EnterRow,
        Key::Tab => Command::NextPage,
        Key::BackTab => Command::PrevPage,
        Key::Char(c) => {
            if c == 'E' && k.shift {
                Command::BeginExport
            } else if c == 'p' && !k.ctrl {
                Command::BeginPreview
            } else if c == 'q' && k.ctrl {
                Command::RequestQuit
            } else {
                char_command(c)
            }
        },
        _ => Command::Nothing,
    }
}

/// The command of a plain character key.
pub open spec fn char_command(c: char) -> Command {
    if c == 'k' { Command::Up }
    else if c == 'j' { Command::Down }
    else if c == 'h' { Command::CollapseRow }
    else if c == 'l' { Command::ExpandRow }
    else if c == 'g' { Command::JumpFirstRow }
    else if c == 'G' { Command::JumpLastRow }
    else if c == ' ' { Command::ToggleRow }
    else if c == 's' { Command::BeginSave }
    else if c == '/' { Command::OpenComponentPicker }
    else if c == 'd' { Command::DeleteRow }
    else if c == 'y' { Command::DuplicateRow }
    else if c == 'u' { Command::Undo }
    else if c == 'J' { Command::MoveRow(1i8) }
    else if c == 'K' { Command::MoveRow(-1i8) }
    else if c == 'C' { Command::AddColumn }
    else if c == 'V' { Command::RemoveColumn }
    else if c == 'c' { Command::PrevColumn }
    else if c == 'v' { Command::NextColumn }
    else if c == 'r' { Command::EditColumnId }
    else if c == 'f' { Command::EditColumnWidth }
    else if c == 'A' { Command::AddItem }
    else if c == 'X' { Command::RemoveItem }
    else if c == '1' { Command::FocusRegions }
    else if c == '2' { Command::FocusPages }
    else if c == '3' { Command::FocusLayouts }
    else { Command::Nothing }
}

fn command_of_char(c: char) -> (r: Command)
    ensures
        r == char_command(c),
        c == 'c' ==> r == Command::PrevColumn,
        c == 'v' ==> r == Command::NextColumn,
{
    match c {
        'k' => Command::Up,
        'j' => Command::Down,
        'h' => Command::CollapseRow,
        'l' => Command::ExpandRow,
        'g' => Command::JumpFirstRow,
        'G' => Command::JumpLastRow,
        ' ' => Command::ToggleRow,
        's' => Command::BeginSave,
        '/' => Command::OpenComponentPicker,
        'd' => Command::DeleteRow,
        'y' => Command::DuplicateRow,
        'u' => Command::Undo,
        'J' => Command::MoveRow(1i8),
        'K' => Command::MoveRow(-1i8),
        'C' => Command::AddColumn,
        'V' => Command::RemoveColumn,
        'c' => Command::PrevColumn,
        'v' => Command::NextColumn,
        'r' => Command::EditColumnId,
        'f' => Command::EditColumnWidth,
        'A' => Command::AddItem,
        'X' => Command::RemoveItem,
        '1' => Command::FocusRegions,
        '2' => Command::FocusPages,
        '3' => Command::FocusLayouts,
        _ => Command::Nothing,
    }
}

/// The command a key press of the main screen asks for.
pub fn main_key_command(k: KeyPress) -> (r: Command)
    ensures
        r == key_command(k),
        k.key == Key::Char('c') ==> r == Command::PrevColumn,
        k.key == Key::Char('v') ==> r == Command::NextColumn,
        k.key == Key::Up || k.key == Key::Char('k') ==> r == Command::Up,
        k.key == Key::Down || k.key == Key::Char('j') ==> r == Command::Down,
        k.key == Key::Char('J') ==> r == Command::MoveRow(1i8),
        k.key == Key::Char('K') ==> r == Command::MoveRow(-1i8),
        k.key == Key::Char('h') ==> r == Command::CollapseRow,
        k.key == Key::Char('l') ==> r == Command::ExpandRow,
        k.key == Key::Char('d') ==> r == Command::DeleteRow,
        k.key == Key::Char('y') ==> r == Command::DuplicateRow,
        k.key == Key::Char('u') ==> r == Command::Undo,
        k.key == Key::Char('A') ==> r == Command::AddItem,
        k.key == Key::Char('X') ==> r == Command::RemoveItem,
        k.key == Key::Char('C') ==> r == Command::AddColumn,
        k.key == Key::Char('V') ==> r == Command::RemoveColumn,
{
    match k.key {
        Key::F(n) => if n == 1 {
            Command::ShowHelp
        } else if n == 2 {
            Command::ShowTheme
        } else if n == 3 {
            Command::OpenValidation
        } else {
            Command::Nothing
        },
        Key::Up => Command::Up,
        Key::Down => Command::Down,
        Key::PageUp => Command::ScrollDetails(-5i8),
        Key::PageDown => Command::ScrollDetails(5i8),
        Key::Enter => Command::EnterRow,
        Key::Tab => Command::NextPage,
        Key::BackTab => Command::PrevPage,
        Key::Char(c) => {
            if c == 'E' && k.shift {
                Command::BeginExport
            } else if c == 'p' && !k.ctrl {
                Command::BeginPreview
            } else if c == 'q' && k.ctrl {
                Command::RequestQuit
            } else {
                command_of_char(c)
            }
        },
        _ => Command::Nothing,
    }
}

/// `c` selects the previous column and `v` the next one, with or without
/// modifiers; no other key of the main screen selects a column.
pub proof fn law_column_keys(k: KeyPress)
    ensures
        k.key == Key::Char('c') ==> key_command(k) == Command::PrevColumn,
        k.key == Key::Char('v') ==> key_command(k) == Command::NextColumn,
        key_command(k) == Command::PrevColumn ==> k.key == Key::Char('c'),
        key_command(k) == Command::NextColumn ==> k.key == Key::Char('v'),
{
}

/// A key of the page list, which it handles before the main screen does.
#[derive(Clone, Copy, Debug, PartialEq, Eq, Structural)]
pub enum PagesCommand {
    NewPage,
    DeletePage,
    RestorePage,
    MovePageDown,
    MovePageUp,
    RenamePage,
}

/// The page list's command of a key press: Shift+A, Shift+X, Shift+J and
/// Shift+K, `u` without Control, and `r` without Control or Shift.
pub open spec fn pages_command(k: KeyPress) -> Option<PagesCommand> {
    match k.key {
        Key::Char(c) => {
            if c == 'A' && k.shift { Some(PagesCommand::NewPage) }
            else if c == 'X' && k.shift { Some(PagesCommand::DeletePage) }
            else if c == 'u' && !k.ctrl { Some(PagesCommand::RestorePage) }
            else if c == 'J' && k.shift { Some(PagesCommand::MovePageDown) }
            else if c == 'K' && k.shift { Some(PagesCommand::MovePageUp) }
            else if c == 'r' && !k.ctrl && !k.shift { Some(PagesCommand::RenamePage) }
            else { None }
        },
        _ => None,
    }
}

/// The page list's command of a key press, if it has one.
pub fn pages_key_command(k: KeyPress) -> (r: Option<PagesCommand>)
    ensures
        r == pages_command(k),
{
    match k.key {
        Key::Char(c) => {
            if c == 'A' && k.shift {
                Some(PagesCommand::NewPage)
            } else if c == 'X' && k.shift {
                Some(PagesCommand::DeletePage)
            } else if c == 'u' && !k.ctrl {
                Some(PagesCommand::RestorePage)
            } else if c == 'J' && k.shift {
                Some(PagesCommand::MovePageDown)
            } else if c == 'K' && k.shift {
                Some(PagesCommand::MovePageUp)
            } else if c == 'r' && !k.ctrl && !k.shift {
                Some(PagesCommand::RenamePage)
            } else {
                None
            }
        },
        _ => None,
    }
}

/// `a + b`, at most `max` (and at most `usize::MAX`).
pub open spec fn add_capped(a: usize, b: usize, max: usize) -> usize {
    let s = if a + b > usize::MAX { usize::MAX as int } else { a + b };
    if s < max { s as usize } else { max }
}

/// `a - b`, at least 0.
pub open spec fn sub_floored(a: usize, b: usize) -> usize {
    if a < b { 0 } else { (a - b) as usize }
}

/// The scroll position of the help or theme overlay after a key press;
/// `None` when the key (`Esc`, or the overlay's own function key `close`)
/// closes it.
pub open spec fn overlay_scroll(scroll: usize, max: usize, close: u8, key: Key) -> Option<usize> {
    match key {
        Key::Esc => None,
        Key::F(n) => if n == close { None } else { Some(scroll) },
        Key::Down | Key::Char('j') => Some(add_capped(scroll, 1, max)),
        Key::Up | Key::Char('k') => Some(sub_floored(scroll, 1)),
        Key::PageDown => Some(add_capped(scroll, 10, max)),
        Key::PageUp => Some(sub_floored(scroll, 10)),
        Key::Home | Key::Char('g') => Some(0),
        Key::End | Key::Char('G') => Some(max),
        _ => Some(scroll),
    }
}

fn add_capped_exec(a: usize, b: usize, max: usize) -> (r: usize)
    ensures
        r == add_capped(a, b, max),
{
    let s = a.saturating_add(b);
    if s < max { s } else { max }
}

fn sub_floored_exec(a: usize, b: usize) -> (r: usize)
    ensures
        r == sub_floored(a, b),
{
    a.saturating_sub(b)
}

/// Handles a key in the help (close key F1) or theme (F2) overlay.
pub fn overlay_key(scroll: usize, max: usize, close: u8, key: Key) -> (r: Option<usize>)
    ensures
        r == overlay_scroll(scroll, max, close, key),
{
    match key {
        Key::Esc => None,
        Key::F(n) => if n == close { None } else { Some(scroll) },
        Key::Down => Some(add_capped_exec(scroll, 1, max)),
        Key::Up => Some(sub_floored_exec(scroll, 1)),
        Key::PageDown => Some(add_capped_exec(scroll, 10, max)),
        Key::PageUp => Some(sub_floored_exec(scroll, 10)),
        Key::Home => Some(0),
        Key::End => Some(max),
        Key::Char(c) => if c == 'j' {
            Some(add_capped_exec(scroll, 1, max))
        } else if c == 'k' {
            Some(sub_floored_exec(scroll, 1))
        } else if c == 'g' {
            Some(0)
        } else if c == 'G' {
            Some(max)
        } else {
            Some(scroll)
        },
        _ => Some(scroll),
    }
}

/// The scroll position of an overlay after a wheel step: three rows up,
/// or three rows down but not past `max`.
pub fn overlay_wheel(scroll: usize, max: usize, down: bool) -> (r: usize)
    ensures
        r == if down { add_capped(scroll, 3, max) } else { sub_floored(scroll, 3) },
{
    if down { add_capped_exec(scroll, 3, max) } else { sub_floored_exec(scroll, 3) }
}

/// The longest gap between two clicks of a double click, in milliseconds.
pub const DOUBLE_CLICK_MS: u64 = 420;

/// A click at `(col, row)` is a double click when the previous click was at
/// the same cell less than `DOUBLE_CLICK_MS` milliseconds before.
pub fn is_double_click(last: Option<(u16, u16)>, elapsed_ms: u64, col: u16, row: u16) -> (r: bool)
    ensures
        r == (last == Some((col, row)) && elapsed_ms < DOUBLE_CLICK_MS),
{
    match last {
        Some((c, r)) => c == col && r == row && elapsed_ms < DOUBLE_CLICK_MS,
        None => false,
    }
}

/// Quitting with unsaved changes asks first (`Some` of the question);
/// otherwise the editor quits at once (`None`).
pub fn request_quit(dirty: bool) -> (r: Option<Modal>)
    ensures
        !dirty ==> r is None,
        dirty ==> (r matches Some(Modal::ConfirmPrompt { message, on_confirm })
            && message@ == "Unsaved changes. Quit anyway? y/n"@ && on_confirm == ConfirmKind::QuitUnsaved),
{
    if dirty {
        Some(Modal::ConfirmPrompt {
            message: "Unsaved changes. Quit anyway? y/n".to_string(),
            on_confirm: ConfirmKind::QuitUnsaved,
        })
    } else {
        None
    }
}

/// Saving a site that has no file yet asks for a path, `site.json` to
/// start with; a site with a file is saved to it at once (`None`).
pub fn begin_save_prompt(has_path: bool) -> (r: Option<Modal>)
    ensures
        has_path ==> r is None,
        !has_path ==> (r matches Some(Modal::SavePrompt { path }) && path@ == "site.json"@),
{
    if has_path {
        None
    } else {
        Some(Modal::SavePrompt { path: "site.json".to_string() })
    }
}

/// The component picker as it opens: no query, first entry highlighted.
pub fn open_component_picker() -> (r: Modal)
    ensures
        r matches Modal::ComponentPicker { query, selected } && query@.len() == 0 && selected == 0,
{
    Modal::ComponentPicker { query: String::new(), selected: 0 }
}

/// The validation dialog for `errors`: none when there are no errors (a
/// success notice is shown instead), else the list from its top.
pub fn open_validation_modal(errors: Vec<String>) -> (r: Option<Modal>)
    ensures
        errors@.len() == 0 ==> r is None,
        errors@.len() > 0 ==> (r matches Some(Modal::ValidationErrors { errors: e, scroll_offset })
            && e@ == errors@ && scroll_offset == 0),
{
    if errors.len() == 0 {
        None
    } else {
        Some(Modal::ValidationErrors { errors, scroll_offset: 0 })
    }
}

/// Asking to delete the selected page: refused (`None`) when it is the
/// only page, else the question `Delete "<title>"? y/n`.
pub fn delete_page_prompt(page_count: usize, title: &str) -> (r: Option<Modal>)
    ensures
        page_count <= 1 ==> r is None,
        page_count > 1 ==> (r matches Some(Modal::ConfirmPrompt { message, on_confirm })
            && message@ == "Delete \""@ + title@ + "\"? y/n"@ && on_confirm == ConfirmKind::DeletePage),
{
    if page_count <= 1 {
        return None;
    }
    let mut message = String::new();
    push_str(&mut message, "Delete \"");
    push_str(&mut message, title);
    push_str(&mut message, "\"? y/n");
    Some(Modal::ConfirmPrompt { message, on_confirm: ConfirmKind::DeletePage })
}

/// How long the site must stay changed before it is saved on its own, in
/// milliseconds.
pub const AUTOSAVE_DEBOUNCE_MS: u64 = 2000;

/// What the autosave timer does on a tick.
#[derive(Clone, Copy, Debug, PartialEq, Eq, Structural)]
pub enum AutosaveStep {
    /// Nothing to do yet.
    Wait,
    /// The site is changed but no change time is known: start timing now.
    StartTiming,
    /// Save the site to its file.
    Save,
}

/// The autosave decision: nothing while the site is unchanged; timing
/// starts when a change has no time yet; a site with a file is saved once
/// it has stayed changed for `AUTOSAVE_DEBOUNCE_MS`.
pub open spec fn autosave_decision(dirty: bool, changed_for_ms: Option<u64>, has_path: bool) -> AutosaveStep {
    if !dirty {
        AutosaveStep::Wait
    } else {
        match changed_for_ms {
            None => AutosaveStep::StartTiming,
            Some(ms) => if ms < AUTOSAVE_DEBOUNCE_MS || !has_path { AutosaveStep::Wait } else { AutosaveStep::Save },
        }
    }
}

/// What the autosave timer does on a tick (see `autosave_decision`);
/// `changed_for_ms` is how long ago the site was first changed.
pub fn tick_autosave(dirty: bool, changed_for_ms: Option<u64>, has_path: bool) -> (r: AutosaveStep)
    ensures
        r == autosave_decision(dirty, changed_for_ms, has_path),
{
    if !dirty {
        return AutosaveStep::Wait;
    }
    match changed_for_ms {
        None => AutosaveStep::StartTiming,
        Some(ms) => if ms < AUTOSAVE_DEBOUNCE_MS || !has_path { AutosaveStep::Wait } else { AutosaveStep::Save },
    }
}

/// After the site is compared with its saved form: whether it is now
/// dirty, and whether the change clock starts now (only when it was clean
/// and has changed).
pub open spec fn dirty_after(changed: bool, dirty: bool) -> (bool, bool) {
    if changed { (true, !dirty) } else { (dirty, false) }
}

/// Marks the site dirty when it differs from its saved form; the change
/// clock starts only on the first change.
pub fn mark_dirty_if_changed(changed: bool, dirty: bool) -> (r: (bool, bool))
    ensures
        r == dirty_after(changed, dirty),
{
    if changed { (true, !dirty) } else { (dirty, false) }
}

/// A site that is already dirty keeps the time of its first change: later
/// changes never restart the autosave clock, and a dirty site stays dirty
/// until it is saved.
pub proof fn law_dirty_clock_keeps_first_change(changed: bool)
    ensures
        dirty_after(changed, true) == (true, false),
{
}

/// Where a key press goes.
#[derive(Clone, Copy, Debug, PartialEq, Eq, Structural)]
pub enum KeyRoute {
    /// F1 over an open dialog: the help opens on top, the dialog stays.
    HelpOverDialog,
    /// The open dialog's own handler.
    Dialog,
    /// The help overlay's keys.
    HelpOverlay,
    /// The theme overlay's keys.
    ThemeOverlay,
    /// The page list's own command.
    PagesPanel(PagesCommand),
    /// A command of the main screen.
    Main(Command),
}

/// Routing a key: an open dialog takes it (F1 opening the help above it)
/// unless an overlay is shown; the help overlay comes before the theme
/// overlay; otherwise the page list, when focused, takes its own keys and
/// the main screen the rest.
pub open spec fn key_route(help_open: bool, theme_open: bool, dialog_open: bool, section: crate::hints::SidebarSection,
    k: KeyPress) -> KeyRoute {
    if !(help_open || theme_open) && dialog_open {
        if k.key == Key::F(1) { KeyRoute::HelpOverDialog } else { KeyRoute::Dialog }
    } else if help_open {
        KeyRoute::HelpOverlay
    } else if theme_open {
        KeyRoute::ThemeOverlay
    } else if section == crate::hints::SidebarSection::Pages && pages_command(k) is Some {
        KeyRoute::PagesPanel(pages_command(k)->0)
    } else {
        KeyRoute::Main(key_command(k))
    }
}

/// The help and theme overlays: whether each is shown, its scroll offset
/// and the largest offset its text allows.
#[derive(Clone, Copy, Debug, PartialEq, Eq, Structural)]
pub struct Overlays {
    pub help: bool,
    pub help_scroll: usize,
    pub help_max: usize,
    pub theme: bool,
    pub theme_scroll: usize,
    pub theme_max: usize,
}

/// The overlays after a key that went to `route`: F1 over a dialog shows
/// the help from its top; the overlays scroll or close (closing resets
/// the scroll); the main screen's F1 and F2 show the help and the theme.
pub open spec fn overlays_after(o: Overlays, route: KeyRoute, key: Key) -> Overlays {
    match route {
        KeyRoute::HelpOverDialog => Overlays { help: true, help_scroll: 0, ..o },
        KeyRoute::HelpOverlay => match overlay_scroll(o.help_scroll, o.help_max, 1, key) {
            None => Overlays { help: false, help_scroll: 0, ..o },
            Some(s) => Overlays { help_scroll: s, ..o },
        },
        KeyRoute::ThemeOverlay => match overlay_scroll(o.theme_scroll, o.theme_max, 2, key) {
            None => Overlays { theme: false, theme_scroll: 0, ..o },
            Some(s) => Overlays { theme_scroll: s, ..o },
        },
        KeyRoute::Main(Command::ShowHelp) => Overlays { help: true, ..o },
        KeyRoute::Main(Command::ShowTheme) => Overlays { theme: true, ..o },
        _ => o,
    }
}

/// Routes a key press (see `key_route`) and applies what it does to the
/// overlays (see `overlays_after`); the returned route says which handler
/// runs for the rest.
pub fn route_key(o: &mut Overlays, dialog_open: bool, section: crate::hints::SidebarSection, k: KeyPress) -> (r: KeyRoute)
    ensures
        r == key_route(old(o).help, old(o).theme, dialog_open, section, k),
        *final(o) == overlays_after(*old(o), r, k.key),
{
    let r = if !(o.help || o.theme) && dialog_open {
        if k.key == Key::F(1) { KeyRoute::HelpOverDialog } else { KeyRoute::Dialog }
    } else if o.help {
        KeyRoute::HelpOverlay
    } else if o.theme {
        KeyRoute::ThemeOverlay
    } else {
        let pc = if section == crate::hints::SidebarSection::Pages { pages_key_command(k) } else { None };
        match pc {
            Some(c) => KeyRoute::PagesPanel(c),
            None => KeyRoute::Main(main_key_command(k)),
        }
    };
    match r {
        KeyRoute::HelpOverDialog => {
            o.help = true;
            o.help_scroll = 0;
        },
        KeyRoute::HelpOverlay => match overlay_key(o.help_scroll, o.help_max, 1, k.key) {
            None => {
                o.help = false;
                o.help_scroll = 0;
            },
            Some(s) => o.help_scroll = s,
        },
        KeyRoute::ThemeOverlay => match overlay_key(o.theme_scroll, o.theme_max, 2, k.key) {
            None => {
                o.theme = false;
                o.theme_scroll = 0;
            },
            Some(s) => o.theme_scroll = s,
        },
        KeyRoute::Main(Command::ShowHelp) => o.help = true,
        KeyRoute::Main(Command::ShowTheme) => o.theme = true,
        _ => {},
    }
    r
}

} // verus!
