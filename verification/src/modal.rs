//! The modal dialogs: which one is open, and how each answers a key press.
//! Each handler here decides: it takes the dialog's state and the key and
//! gives the new state and what the application is to do next.
use vstd::prelude::*;
use crate::components::ComponentKind;
use crate::search::{filtered_component_kinds, lemma_picker_result_unique, picker_kinds};
use crate::ascii_map::{concat, lemma_concat_take};
use crate::text::{
    chars_of, decimal, push_char, push_decimal, push_repeat, push_str, repeat, string_of_take, trim_chars,
    trimmed, views,
};

verus! {

broadcast use vstd::string::group_string_axioms;

/// The keys the dialogs tell apart.
#[derive(Clone, Copy, Debug, PartialEq, Eq, Structural)]
pub enum Key {
    Enter,
    Esc,
    Up,
    Down,
    Left,
    Right,
    PageUp,
    PageDown,
    Backspace,
    Tab,
    BackTab,
    Home,
    End,
    /// A function key, `F(1)` for F1.
    F(u8),
    Char(char),
    Other,
}

/// A key press: the key and whether Control and Shift were held.
#[derive(Clone, Copy, Debug, PartialEq, Eq, Structural)]
pub struct KeyPress {
    pub key: Key,
    pub ctrl: bool,
    pub shift: bool,
}

/// What a dialog asks of the application after a key press.
#[derive(Clone, Copy, Debug, PartialEq, Eq, Structural)]
pub enum ModalResult {
    /// Stay open, keep handling events.
    Continue,
    /// Close after success.
    CloseSuccess,
    /// Close after a cancel.
    CloseCancel,
}

/// The action a yes/no prompt confirms.
#[derive(Clone, Copy, Debug, PartialEq, Eq, Structural)]
pub enum ConfirmKind {
    DeletePage,
    QuitUnsaved,
}

/// An open image picker: the images root, the directory shown (as the
/// names of the directories below the root that lead to it), the name
/// filter typed so far, the highlighted entry and the form field the
/// picked path goes to.
pub struct ImagePickerState {
    pub root: String,
    pub dirs: Vec<String>,
    pub filter: String,
    pub selected: usize,
    pub field_id: String,
}

/// An open page picker: `(slug, title)` of each page when it opened, the
/// filter typed so far, the highlighted page and the form field the
/// page's link goes to.
pub struct PagePickerState {
    pub pages: Vec<(String, String)>,
    pub filter: String,
    pub selected: usize,
    pub field_id: String,
}

/// The dialog that is open over the main screen.
pub enum Modal {
    /// Picking a component to insert.
    ComponentPicker { query: String, selected: usize },
    /// Entering the path to save the site to.
    SavePrompt { path: String },
    /// Picking the template of a new page.
    TemplatePicker { selected: usize },
    /// Entering the title of a new page.
    NewPageTitlePrompt { title: String },
    /// Entering the directory to export the site to.
    ExportPathPrompt { path: String },
    /// Entering the directory to preview the site from.
    PreviewPathPrompt { path: String },
    /// Entering a new title for a page.
    RenamePagePrompt { title: String, page_idx: usize },
    /// A yes/no question.
    ConfirmPrompt { message: String, on_confirm: ConfirmKind },
    /// The list of validation errors.
    ValidationErrors { errors: Vec<String>, scroll_offset: usize },
    /// Picking an image file.
    ImagePicker { state: ImagePickerState },
    /// Picking a page to link to.
    PagePicker { state: PagePickerState },
    /// The form editor: text cursor, scroll, and how deep it has drilled
    /// into nested item forms.
    FormEdit { cursor_pos: usize, scroll_offset: u16, drill_depth: usize },
}

/// The frame of a dialog: its share of the screen and its footer line.
pub struct ModalConfig {
    pub width_percent: u16,
    pub height_percent: u16,
    pub footer_text: String,
}

impl Default for ModalConfig {
    /// Four fifths of the screen each way, with the form keys in the
    /// footer.
    fn default() -> (r: Self)
        ensures
            r.width_percent == 80,
            r.height_percent == 80,
            r.footer_text@ == "Tab/Up/Down: navigate | Ctrl+S: save | Esc: cancel"@,
    {
        ModalConfig {
            width_percent: 80,
            height_percent: 80,
            footer_text: "Tab/Up/Down: navigate | Ctrl+S: save | Esc: cancel".to_string(),
        }
    }
}

/// The name of a dialog's variant.
pub open spec fn modal_name(m: Modal) -> Seq<char> {
    match m {
        Modal::ComponentPicker { .. } => "ComponentPicker"@,
        Modal::SavePrompt { .. } => "SavePrompt"@,
        Modal::FormEdit { .. } => "FormEdit"@,
        Modal::TemplatePicker { .. } => "TemplatePicker"@,
        Modal::NewPageTitlePrompt { .. } => "NewPageTitlePrompt"@,
        Modal::ExportPathPrompt { .. } => "ExportPathPrompt"@,
        Modal::PreviewPathPrompt { .. } => "PreviewPathPrompt"@,
        Modal::RenamePagePrompt { .. } => "RenamePagePrompt"@,
        Modal::ConfirmPrompt { .. } => "ConfirmPrompt"@,
        Modal::ValidationErrors { .. } => "ValidationErrors"@,
        Modal::ImagePicker { .. } => "ImagePicker"@,
        Modal::PagePicker { .. } => "PagePicker"@,
    }
}

impl Modal {
    /// The name of the dialog's variant.
    pub fn variant_name(&self) -> (r: &'static str)
        ensures
            r@ == modal_name(*self),
    {
        match self {
            Modal::ComponentPicker { .. } => "ComponentPicker",
            Modal::SavePrompt { .. } => "SavePrompt",
            Modal::FormEdit { .. } => "FormEdit",
            Modal::TemplatePicker { .. } => "TemplatePicker",
            Modal::NewPageTitlePrompt { .. } => "NewPageTitlePrompt",
            Modal::ExportPathPrompt { .. } => "ExportPathPrompt",
            Modal::PreviewPathPrompt { .. } => "PreviewPathPrompt",
            Modal::RenamePagePrompt { .. } => "RenamePagePrompt",
            Modal::ConfirmPrompt { .. } => "ConfirmPrompt",
            Modal::ValidationErrors { .. } => "ValidationErrors",
            Modal::ImagePicker { .. } => "ImagePicker",
            Modal::PagePicker { .. } => "PagePicker",
        }
    }
}

/// Removes the last character of `s`, if any.
pub fn pop_char(s: &mut String)
    ensures
        final(s)@ == if old(s)@.len() > 0 { old(s)@.drop_last() } else { old(s)@ },
{
    let cs = chars_of(s.as_str());
    if cs.len() > 0 {
        *s = string_of_take(cs.as_slice(), cs.len() - 1);
        assert(s@ =~= old(s)@.drop_last());
    }
}

/// What a key does to a one-line text prompt.
#[derive(Clone, Copy, Debug, PartialEq, Eq, Structural)]
pub enum PromptAction {
    /// Close without acting.
    Cancel,
    /// Keep editing.
    Continue,
    /// Act on the text entered.
    Submit,
}

/// How a text prompt reads keys: whether Control+S submits like Enter,
/// and whether a character typed with Control held is ignored rather than
/// entered.
#[derive(Clone, Copy, Debug, PartialEq, Eq, Structural)]
pub struct PromptKeys {
    pub ctrl_s_submits: bool,
    pub ignore_ctrl_chars: bool,
}

/// The keys of the save prompt: Enter submits; every character is typed.
pub fn save_prompt_keys() -> (r: PromptKeys)
    ensures
        r == (PromptKeys { ctrl_s_submits: false, ignore_ctrl_chars: false }),
{
    PromptKeys { ctrl_s_submits: false, ignore_ctrl_chars: false }
}

/// The keys of the title prompts (new page, rename): Enter or Control+S
/// submits; other characters are typed.
pub fn title_prompt_keys() -> (r: PromptKeys)
    ensures
        r == (PromptKeys { ctrl_s_submits: true, ignore_ctrl_chars: false }),
{
    PromptKeys { ctrl_s_submits: true, ignore_ctrl_chars: false }
}

/// The keys of the path prompts (export, preview): Enter or Control+S
/// submits; characters typed with Control are ignored.
pub fn path_prompt_keys() -> (r: PromptKeys)
    ensures
        r == (PromptKeys { ctrl_s_submits: true, ignore_ctrl_chars: true }),
{
    PromptKeys { ctrl_s_submits: true, ignore_ctrl_chars: true }
}

/// The text of a prompt after a key, and the action the key asks for:
/// Esc cancels, Enter (or Control+S where it submits) submits, Backspace
/// deletes the last character, a character is appended; other keys change
/// nothing.
pub open spec fn prompt_next(text: Seq<char>, k: KeyPress, keys: PromptKeys) -> (Seq<char>, PromptAction) {
    match k.key {
        Key::Esc => (text, PromptAction::Cancel),
        Key::Enter => (text, PromptAction::Submit),
        Key::Backspace => (if text.len() > 0 { text.drop_last() } else { text }, PromptAction::Continue),
        Key::Char(c) => if keys.ctrl_s_submits && k.ctrl && c == 's' {
            (text, PromptAction::Submit)
        } else if keys.ignore_ctrl_chars && k.ctrl {
            (text, PromptAction::Continue)
        } else {
            (text.push(c), PromptAction::Continue)
        },
        _ => (text, PromptAction::Continue),
    }
}

/// Applies a key to the text of a one-line prompt (see `prompt_next`).
pub fn prompt_step(text: &mut String, k: KeyPress, keys: PromptKeys) -> (r: PromptAction)
    ensures
        (final(text)@, r) == prompt_next(old(text)@, k, keys),
{
    match k.key {
        Key::Esc => PromptAction::Cancel,
        Key::Enter => PromptAction::Submit,
        Key::Backspace => {
            pop_char(text);
            PromptAction::Continue
        },
        Key::Char(c) => {
            if keys.ctrl_s_submits && k.ctrl && c == 's' {
                PromptAction::Submit
            } else if keys.ignore_ctrl_chars && k.ctrl {
                PromptAction::Continue
            } else {
                push_char(text, c);
                PromptAction::Continue
            }
        },
        _ => PromptAction::Continue,
    }
}

/// Typing a character into a prompt and then pressing Backspace leaves the
/// text as it was.
pub proof fn law_prompt_backspace_undoes_typing(text: Seq<char>, c: char, ctrl: bool, shift: bool, keys: PromptKeys)
    requires
        !(keys.ctrl_s_submits && ctrl && c == 's'),
        !(keys.ignore_ctrl_chars && ctrl),
    ensures
        ({
            let typed = prompt_next(text, KeyPress { key: Key::Char(c), ctrl, shift }, keys);
            let back = prompt_next(typed.0, KeyPress { key: Key::Backspace, ctrl: false, shift: false }, keys);
            &&& typed.1 == PromptAction::Continue
            &&& back.0 == text
        }),
{
    assert(text.push(c).drop_last() =~= text);
}

/// The value a prompt submits: its text trimmed, when that is not empty.
pub open spec fn submitted(text: Seq<char>) -> Option<Seq<char>> {
    if trimmed(text).len() > 0 { Some(trimmed(text)) } else { None }
}

/// The trimmed text of a submitted prompt, or `None` when it is blank
/// (the prompt then stays open with a warning).
pub fn submitted_text(text: &str) -> (r: Option<String>)
    ensures
        match r {
            Some(s) => submitted(text@) == Some(s@),
            None => submitted(text@) is None,
        },
{
    let cs = chars_of(text);
    let t = trim_chars(cs.as_slice());
    if t.len() == 0 {
        None
    } else {
        Some(string_of_take(t.as_slice(), t.len()))
    }
}

/// The scroll of the validation-error list after a key (`None` once the
/// list is closed): Enter or Esc closes it; Up/`k` and Down/`j` move one
/// entry, PageUp/PageDown five, never past the first or the last entry.
pub open spec fn validation_next(scroll: nat, len: nat, key: Key) -> Option<nat> {
    let last: nat = if len > 0 { (len - 1) as nat } else { 0 };
    match key {
        Key::Enter | Key::Esc => None,
        Key::Up | Key::Char('k') => Some(if scroll > 0 { (scroll - 1) as nat } else { 0 }),
        Key::Down | Key::Char('j') => Some(if scroll + 1 < (if len > 1 { len } else { 1 }) { scroll + 1 } else { scroll }),
        Key::PageUp => Some(if scroll >= 5 { (scroll - 5) as nat } else { 0 }),
        Key::PageDown => Some(if scroll + 5 < last { scroll + 5 } else { last }),
        _ => Some(scroll),
    }
}

/// Applies a key to the validation-error list showing `errors_len`
/// entries from `scroll`; `CloseSuccess` when it closes.
pub fn validation_errors_step(scroll: &mut usize, errors_len: usize, key: Key) -> (r: ModalResult)
    requires
        *old(scroll) + 5 <= usize::MAX,
    ensures
        match validation_next(*old(scroll) as nat, errors_len as nat, key) {
            None => r == ModalResult::CloseSuccess && *final(scroll) == *old(scroll),
            Some(n) => r == ModalResult::Continue && *final(scroll) == n,
        },
{
    match key {
        Key::Enter | Key::Esc => ModalResult::CloseSuccess,
        Key::Up | Key::Char('k') => {
            *scroll = if *scroll > 0 { *scroll - 1 } else { 0 };
            ModalResult::Continue
        },
        Key::Down | Key::Char('j') => {
            let cap: usize = if errors_len > 1 { errors_len } else { 1 };
            if *scroll + 1 < cap {
                *scroll = *scroll + 1;
            }
            ModalResult::Continue
        },
        Key::PageUp => {
            *scroll = if *scroll >= 5 { *scroll - 5 } else { 0 };
            ModalResult::Continue
        },
        Key::PageDown => {
            let last: usize = if errors_len > 0 { errors_len - 1 } else { 0 };
            *scroll = if *scroll + 5 < last { *scroll + 5 } else { last };
            ModalResult::Continue
        },
        _ => ModalResult::Continue,
    }
}

/// The validation-error list never scrolls past its last entry: a scroll
/// on an entry stays on an entry whatever the key.
pub proof fn law_validation_scroll_stays_in_list(scroll: nat, len: nat, key: Key)
    requires
        scroll < (if len > 1 { len } else { 1 }),
    ensures
        match validation_next(scroll, len, key) {
            Some(n) => n < (if len > 1 { len } else { 1 }),
            None => true,
        },
{
}

/// Moving down one entry and back up returns to the same entry when there
/// was an entry below.
pub proof fn law_validation_down_up(scroll: nat, len: nat)
    requires
        scroll + 1 < len,
    ensures
        validation_next(validation_next(scroll, len, Key::Down)->0, len, Key::Up) == Some(scroll),
{
}

/// Number of page templates offered (blank, hero only, hero and section,
/// copy of the current page).
pub const TEMPLATE_COUNT: usize = 4;

/// What the template picker asks for after a key.
#[derive(Clone, Copy, Debug, PartialEq, Eq, Structural)]
pub enum TemplateAction {
    Cancel,
    Continue,
    /// Add a page from template number `0`.
    Pick(usize),
}

/// The highlighted template after a key, and the action.
pub open spec fn template_next(selected: nat, key: Key) -> (nat, TemplateAction) {
    match key {
        Key::Esc => (selected, TemplateAction::Cancel),
        Key::Up | Key::Char('k') => (if selected > 0 { (selected - 1) as nat } else { 0 }, TemplateAction::Continue),
        Key::Down | Key::Char('j') => (if selected < 3 { selected + 1 } else { selected }, TemplateAction::Continue),
        Key::Enter => (selected, TemplateAction::Pick(selected as usize)),
        _ => (selected, TemplateAction::Continue),
    }
}

/// Applies a key to the template picker.
pub fn template_picker_step(selected: &mut usize, key: Key) -> (r: TemplateAction)
    ensures
        (*final(selected) as nat, r) == template_next(*old(selected) as nat, key),
{
    match key {
        Key::Esc => TemplateAction::Cancel,
        Key::Up | Key::Char('k') => {
            if *selected > 0 {
                *selected = *selected - 1;
            }
            TemplateAction::Continue
        },
        Key::Down | Key::Char('j') => {
            if *selected < TEMPLATE_COUNT - 1 {
                *selected = *selected + 1;
            }
            TemplateAction::Continue
        },
        Key::Enter => TemplateAction::Pick(*selected),
        _ => TemplateAction::Continue,
    }
}

/// The highlighted template stays one of the four.
pub proof fn law_template_selection_in_range(selected: nat, key: Key)
    requires
        selected < 4,
    ensures
        template_next(selected, key).0 < 4,
        template_next(selected, key).1 matches TemplateAction::Pick(p) ==> p < 4,
{
}

/// What a yes/no prompt's key decides: `y`/`Y` confirms (`CloseSuccess`),
/// `n`/`N`/Esc cancels (`CloseCancel`), other keys are ignored.
pub open spec fn confirm_answer(key: Key) -> ModalResult {
    match key {
        Key::Char('y') | Key::Char('Y') => ModalResult::CloseSuccess,
        Key::Char('n') | Key::Char('N') | Key::Esc => ModalResult::CloseCancel,
        _ => ModalResult::Continue,
    }
}

/// Reads a key of a yes/no prompt (see `confirm_answer`).
pub fn confirm_prompt_step(key: Key) -> (r: ModalResult)
    ensures
        r == confirm_answer(key),
{
    match key {
        Key::Char('y') | Key::Char('Y') => ModalResult::CloseSuccess,
        Key::Char('n') | Key::Char('N') | Key::Esc => ModalResult::CloseCancel,
        _ => ModalResult::Continue,
    }
}

/// What the component picker asks for after a key.
#[derive(Clone, Copy, Debug, PartialEq, Eq, Structural)]
pub enum PickerAction {
    Cancel,
    Continue,
    /// Insert a component of this kind.
    Insert(ComponentKind),
    /// Enter with nothing listed: close with a warning.
    NothingSelected,
}

/// A highlight kept within a list of `total` entries.
pub open spec fn clamp_selection(selected: nat, total: nat) -> nat {
    if total == 0 { 0 } else if selected < total { selected } else { (total - 1) as nat }
}

/// The component picker after a key: its query, highlight and action.
/// Up and Down move the highlight within the listed kinds; typing or
/// deleting edits the query and keeps the highlight within the new list;
/// Enter inserts the highlighted kind.
pub open spec fn component_picker_next(query: Seq<char>, selected: nat, key: Key, in_header: bool) -> (Seq<char>, nat, PickerAction) {
    let listed = picker_kinds(in_header, query);
    match key {
        Key::Esc => (query, selected, PickerAction::Cancel),
        Key::Up => (query, if selected > 0 { (selected - 1) as nat } else { 0 }, PickerAction::Continue),
        Key::Down => (query, clamp_selection(selected + 1, listed.len()), PickerAction::Continue),
        Key::Backspace => {
            let q = if query.len() > 0 { query.drop_last() } else { query };
            (q, clamp_selection(selected, picker_kinds(in_header, q).len()), PickerAction::Continue)
        },
        Key::Enter => if listed.len() > 0 {
            (query, selected, PickerAction::Insert(listed[clamp_selection(selected, listed.len()) as int]))
        } else {
            (query, selected, PickerAction::NothingSelected)
        },
        Key::Char(c) => {
            let q = query.push(c);
            (q, clamp_selection(selected, picker_kinds(in_header, q).len()), PickerAction::Continue)
        },
        _ => (query, selected, PickerAction::Continue),
    }
}

/// Applies a key to the component picker (see `component_picker_next`).
pub fn component_picker_step(query: &mut String, selected: &mut usize, key: Key, in_header: bool) -> (r: PickerAction)
    requires
        *old(selected) < usize::MAX,
    ensures
        (final(query)@, *final(selected) as nat, r) == component_picker_next(old(query)@, *old(selected) as nat, key, in_header),
{
    match key {
        Key::Esc => PickerAction::Cancel,
        Key::Up => {
            if *selected > 0 {
                *selected = *selected - 1;
            }
            PickerAction::Continue
        },
        Key::Down => {
            let listed = filtered_component_kinds(in_header, query.as_str());
            proof {
                lemma_picker_result_unique(in_header, query@, listed@);
            }
            let total = listed.len();
            *selected = if total == 0 { 0 } else if *selected + 1 < total { *selected + 1 } else { total - 1 };
            PickerAction::Continue
        },
        Key::Backspace => {
            pop_char(query);
            let listed = filtered_component_kinds(in_header, query.as_str());
            proof {
                lemma_picker_result_unique(in_header, query@, listed@);
            }
            let total = listed.len();
            *selected = if total == 0 { 0 } else if *selected < total { *selected } else { total - 1 };
            PickerAction::Continue
        },
        Key::Enter => {
            let listed = filtered_component_kinds(in_header, query.as_str());
            proof {
                lemma_picker_result_unique(in_header, query@, listed@);
            }
            let total = listed.len();
            if total > 0 {
                let at = if *selected < total { *selected } else { total - 1 };
                PickerAction::Insert(listed[at])
            } else {
                PickerAction::NothingSelected
            }
        },
        Key::Char(c) => {
            push_char(query, c);
            let listed = filtered_component_kinds(in_header, query.as_str());
            proof {
                lemma_picker_result_unique(in_header, query@, listed@);
            }
            let total = listed.len();
            *selected = if total == 0 { 0 } else if *selected < total { *selected } else { total - 1 };
            PickerAction::Continue
        },
        _ => PickerAction::Continue,
    }
}

/// `s` cut into pieces of `w` characters (at least one), the last piece
/// holding what is left; no pieces for the empty text.
pub open spec fn chunks(s: Seq<char>, w: nat) -> Seq<Seq<char>>
    decreases s.len(),
{
    let w1: nat = if w == 0 { 1 } else { w };
    if s.len() == 0 {
        Seq::empty()
    } else if s.len() <= w1 {
        seq![s]
    } else {
        seq![s.take(w1 as int)] + chunks(s.skip(w1 as int), w)
    }
}

/// The numbered prefix of error `i` (counted from 0): `"<i + 1>. "`.
pub open spec fn error_prefix(i: nat) -> Seq<char> {
    decimal(i + 1) + ". "@
}

/// The rows of error `i` wrapped to `width` columns: its text in pieces as
/// wide as the room after the prefix (at least one character), the first
/// after the prefix, the others indented as far.
pub open spec fn wrapped_error(i: nat, err: Seq<char>, width: nat) -> Seq<Seq<char>> {
    let prefix = error_prefix(i);
    let body: nat = if width > prefix.len() + 1 { (width - prefix.len()) as nat } else { 1 };
    let cs = chunks(err, body);
    Seq::new(cs.len(), |k: int| (if k == 0 { prefix } else { repeat(' ', prefix.len()) }) + cs[k])
}

/// All errors numbered and wrapped, one after another.
pub open spec fn wrapped_errors(errors: Seq<Seq<char>>, width: nat) -> Seq<Seq<char>> {
    concat(Seq::new(errors.len(), |i: int| wrapped_error(i as nat, errors[i], width)))
}

/// Wrapping keeps every character: the pieces, put back together, are the
/// text; and no piece is wider than the room given.
pub proof fn law_chunks_round_trip(s: Seq<char>, w: nat)
    ensures
        concat(chunks(s, w)) == s,
        forall|k: int| 0 <= k < chunks(s, w).len() ==> (#[trigger] chunks(s, w)[k]).len() <= (if w == 0 { 1 } else { w }),
        forall|k: int| 0 <= k < chunks(s, w).len() ==> (#[trigger] chunks(s, w)[k]).len() > 0,
    decreases s.len(),
{
    let w1: nat = if w == 0 { 1 } else { w };
    if s.len() == 0 {
    } else if s.len() <= w1 {
        lemma_concat_single(s);
    } else {
        let rest = s.skip(w1 as int);
        law_chunks_round_trip(rest, w);
        lemma_concat_prepend(s.take(w1 as int), chunks(rest, w));
        assert(s =~= s.take(w1 as int) + rest);
        let c = chunks(s, w);
        assert forall|k: int| 0 <= k < c.len() implies (#[trigger] c[k]).len() <= w1 && c[k].len() > 0 by {
            if k > 0 {
                assert(c[k] == chunks(rest, w)[k - 1]);
            }
        }
    }
}

proof fn lemma_concat_single(x: Seq<char>)
    ensures
        concat(seq![x]) == x,
{
    assert(seq![x].drop_last() =~= Seq::<Seq<char>>::empty());
    assert(concat(Seq::<Seq<char>>::empty()) == Seq::<char>::empty());
    assert(concat(seq![x]) == concat(seq![x].drop_last()) + seq![x].last());
    assert(Seq::<char>::empty() + x =~= x);
}

proof fn lemma_concat_prepend(x: Seq<char>, rest: Seq<Seq<char>>)
    ensures
        concat(seq![x] + rest) == x + concat(rest),
    decreases rest.len(),
{
    if rest.len() == 0 {
        assert(seq![x] + rest =~= seq![x]);
        lemma_concat_single(x);
        assert(x + concat(rest) =~= x);
    } else {
        lemma_concat_prepend(x, rest.drop_last());
        assert((seq![x] + rest).drop_last() =~= seq![x] + rest.drop_last());
        assert(x + concat(rest) =~= x + concat(rest.drop_last()) + rest.last());
    }
}

/// The rows of one error, numbered `i + 1`, wrapped to `width` columns.
fn push_wrapped_error(out: &mut Vec<String>, i: usize, err: &str, width: usize)
    requires
        i < usize::MAX,
    ensures
        views(final(out)@) == views(old(out)@) + wrapped_error(i as nat, err@, width as nat),
{
    let mut prefix = String::new();
    push_decimal(&mut prefix, i + 1);
    push_str(&mut prefix, ". ");
    assert(prefix@ =~= error_prefix(i as nat));
    let plen = prefix.unicode_len();
    let body: usize = if plen < width && width - plen > 1 { width - plen } else { 1 };
    assert(body as nat == (if width > plen + 1 { (width - plen) as nat } else { 1nat }));
    let cs = chars_of(err);
    let ghost start = views(out@);
    let ghost rows = wrapped_error(i as nat, err@, width as nat);
    let ghost allc = chunks(err@, body as nat);
    let mut pos: usize = 0;
    let mut k: usize = 0;
    assert(cs@.skip(0) =~= cs@);
    assert(allc.skip(0) =~= allc);
    while pos < cs.len()
        invariant
            cs@ == err@,
            pos <= cs@.len(),
            body >= 1,
            prefix@ == error_prefix(i as nat),
            plen == prefix@.len(),
            allc == chunks(err@, body as nat),
            k <= allc.len(),
            k <= pos,
            allc.skip(k as int) == chunks(cs@.skip(pos as int), body as nat),
            views(out@) == start + Seq::new(k as nat, |j: int| (if j == 0 { prefix@ } else { repeat(' ', plen as nat) }) + allc[j]),
        decreases cs@.len() - pos,
    {
        let end = if cs.len() - pos <= body { cs.len() } else { pos + body };
        let mut line = String::new();
        if k == 0 {
            push_str(&mut line, prefix.as_str());
        } else {
            push_repeat(&mut line, ' ', plen);
        }
        let mut j = pos;
        while j < end
            invariant
                pos <= j <= end,
                end <= cs@.len(),
                line@ == (if k == 0 { prefix@ } else { repeat(' ', plen as nat) }) + cs@.subrange(pos as int, j as int),
            decreases end - j,
        {
            push_char(&mut line, cs[j]);
            assert(line@ =~= (if k == 0 { prefix@ } else { repeat(' ', plen as nat) }) + cs@.subrange(pos as int, j + 1));
            j += 1;
        }
        proof {
            let rest = cs@.skip(pos as int);
            let piece = cs@.subrange(pos as int, end as int);
            let cr = chunks(rest, body as nat);
            if rest.len() <= body {
                assert(rest =~= piece);
                assert(cr == seq![rest]);
                assert(cs@.skip(end as int) =~= Seq::<char>::empty());
                assert(cr.skip(1) =~= chunks(cs@.skip(end as int), body as nat));
            } else {
                assert(rest.take(body as int) =~= piece);
                assert(rest.skip(body as int) =~= cs@.skip(end as int));
                assert(cr.skip(1) =~= chunks(cs@.skip(end as int), body as nat));
            }
            assert(cr[0] == piece);
            assert(allc.skip(k as int)[0] == allc[k as int]);
            assert(allc.skip(k + 1) =~= allc.skip(k as int).skip(1));
        }
        let ghost before = views(out@);
        out.push(line);
        proof {
            assert(views(out@) =~= before.push(line@));
            assert(views(out@) =~= start + Seq::new((k + 1) as nat, |j: int| (if j == 0 { prefix@ } else { repeat(' ', plen as nat) }) + allc[j]));
        }
        pos = end;
        k += 1;
    }
    proof {
        assert(cs@.skip(pos as int) =~= Seq::<char>::empty());
        assert(allc.skip(k as int).len() == 0);
        assert(views(out@) =~= start + rows);
    }
}

/// The validation errors as numbered rows wrapped to `width` columns (see
/// `wrapped_error`); an empty error gives no row.
pub fn wrap_validation_lines(errors: &[String], width: usize) -> (r: Vec<String>)
    ensures
        views(r@) == wrapped_errors(views(errors@), width as nat),
{
    let ghost ev = views(errors@);
    let ghost blocks = Seq::new(ev.len(), |i: int| wrapped_error(i as nat, ev[i], width as nat));
    let mut out: Vec<String> = Vec::new();
    let mut i: usize = 0;
    while i < errors.len()
        invariant
            i <= errors@.len(),
            ev == views(errors@),
            blocks == Seq::new(ev.len(), |i: int| wrapped_error(i as nat, ev[i], width as nat)),
            views(out@) == concat(blocks.take(i as int)),
        decreases errors@.len() - i,
    {
        push_wrapped_error(&mut out, i, errors[i].as_str(), width);
        proof {
            lemma_concat_take(blocks, i as int);
        }
        i += 1;
    }
    assert(blocks.take(ev.len() as int) =~= blocks);
    out
}

} // verus!
