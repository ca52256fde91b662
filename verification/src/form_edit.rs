//! The form editor: a dialog of fields (text, links, multi-line text,
//! choices and lists of sub-forms) edited key by key, with drilling into
//! the items of a list and returning from them.
//!
//! A new list item is a fresh form made from the list's template. The text
//! cursor is a UTF-8 byte offset into the focused text: Left and Right move
//! it one byte, typing moves it one byte on, and a key that would edit
//! text inside a character is not taken (see `form_key_ok`). Moving
//! between lines of a multi-line field counts the offset in characters.
//! The scroll offset only changes when the editor
//! enters or leaves an item; bringing the focused field into view after a
//! key is `form_layout::auto_scroll_for_focus`, which needs the dialog's
//! size.
use vstd::prelude::*;
use crate::modal::{Key, KeyPress};
use crate::search::{contains_seq, contains_str, lemma_bytes_grow, utf8_bytes, utf8_width, utf8_width_exec};
use crate::text::{split_lines, string_of};
use crate::textarea::{clamp_row, cursor_col_of, cursor_row_of, row_col_offset, textarea_move_cursor_vertical};

verus! {

broadcast use vstd::string::group_string_axioms;

/// What a field holds and how keys edit it.
#[derive(Clone, Copy, Debug, PartialEq, Eq, Structural)]
pub enum FieldKind {
    /// One line of text.
    Text,
    /// A link or an image path: text, with a picker on Control+P.
    Url,
    /// Several lines of text.
    Textarea,
    /// One of `options`, cycled with Left and Right.
    Enum,
    /// A list of items, each a form of the fields of `template`; at least
    /// `min_items` of them stay.
    SubForm { min_items: usize },
}

/// A field of a form: its id, its kind, whether it is shown, its text
/// (for a choice the chosen option), the options of a choice, and for a
/// list its items, the fields a new item starts with and the highlighted
/// item.
#[derive(Debug)]
pub struct FormField {
    pub id: String,
    pub kind: FieldKind,
    pub visible: bool,
    pub value: Vec<char>,
    pub options: Vec<Vec<char>>,
    pub items: Vec<FormEditState>,
    pub template: Vec<FormField>,
    pub selected_item: usize,
}

/// A form: its fields and the focused one.
#[derive(Debug)]
pub struct FormEditState {
    pub fields: Vec<FormField>,
    pub focused: usize,
}

/// Where the editor returns to after editing an item: the form it came
/// from (holding a fresh item in the edited item's place), its text
/// cursor and scroll offset, and which field and item were drilled into.
#[derive(Debug)]
pub struct DrillFrame {
    pub parent: FormEditState,
    pub cursor_pos: usize,
    pub scroll: u16,
    pub field: usize,
    pub item_idx: usize,
}

/// The open form editor: the form shown, the text cursor (a UTF-8 byte
/// offset into the focused field's text), the scroll offset, and the forms
/// it drilled down from, innermost last.
#[derive(Debug)]
pub struct FormEdit {
    pub state: FormEditState,
    pub cursor_pos: usize,
    pub scroll: u16,
    pub drill: Vec<DrillFrame>,
}

/// What the application does after a key in the form editor.
#[derive(Clone, Copy, Debug, PartialEq, Eq, Structural)]
pub enum FormEditAction {
    /// Keep editing.
    Continue,
    /// Open the image picker for the focused link field.
    OpenImagePicker,
    /// Open the page picker for the focused link field.
    OpenPagePicker,
    /// The images folder does not exist.
    NoImagesFolder,
    /// There are no pages to pick from.
    NoPages,
    /// A list item was added.
    ItemAdded,
    /// A list item was removed.
    ItemRemoved,
    /// A list keeps at least this many items.
    MustKeep(usize),
    /// Now editing a list item.
    DrilledIn,
    /// The edited item went back into its list; editing the parent.
    SaveItemToParent,
    /// The item's edits were dropped; editing the parent.
    CancelItem,
    /// Apply the form to the site and close.
    CommitTopLevel,
    /// Close without applying.
    Close,
}

/// Whether keys type into a field.
pub open spec fn accepts_text(k: FieldKind) -> bool {
    k == FieldKind::Text || k == FieldKind::Url || k == FieldKind::Textarea
}

/// The editor is in a usable state: each frame of the drill stack names a
/// field of the form it returns to.
pub open spec fn form_edit_ok(e: FormEdit) -> bool {
    forall|k: int| 0 <= k < e.drill@.len() ==> (#[trigger] e.drill@[k]).field < e.drill@[k].parent.fields@.len()
}

/// The index `k` steps from `from` among `n` fields, forwards or
/// backwards, wrapping around.
pub open spec fn step_index(from: int, k: int, n: int, forward: bool) -> int {
    if forward { (from + k) % n } else { (from - k) % n }
}

/// The first of the fields `1..=k` steps away from `from` that is shown,
/// if any.
pub open spec fn first_visible_within(fields: Seq<FormField>, from: int, k: int, forward: bool) -> Option<int>
    decreases k,
{
    if k <= 0 {
        None
    } else {
        match first_visible_within(fields, from, k - 1, forward) {
            Some(i) => Some(i),
            None => {
                let i = step_index(from, k, fields.len() as int, forward);
                if fields[i].visible { Some(i) } else { None }
            },
        }
    }
}

/// The field the focus moves to: the next (or previous) shown field,
/// wrapping around; the focus stays when no other field is shown.
pub open spec fn moved_focus(s: FormEditState, forward: bool) -> usize {
    let n = s.fields@.len() as int;
    match first_visible_within(s.fields@, s.focused as int, n - 1, forward) {
        Some(i) => i as usize,
        None => s.focused,
    }
}

fn focus_target(s: &FormEditState, forward: bool) -> (r: usize)
    requires
        s.focused < s.fields@.len(),
    ensures
        r == moved_focus(*s, forward),
        r < s.fields@.len(),
{
    let n = s.fields.len();
    let f = s.focused;
    let mut k: usize = 1;
    while k < n
        invariant
            n == s.fields@.len(),
            f == s.focused,
            f < n,
            1 <= k <= n,
            first_visible_within(s.fields@, f as int, k - 1, forward) is None,
        decreases n - k,
    {
        let i = if forward {
            if k < n - f { f + k } else { k - (n - f) }
        } else {
            if k <= f { f - k } else { f + (n - k) }
        };
        proof {
            let fi = f as int;
            let ki = k as int;
            let ni = n as int;
            if forward {
                if ki < ni - fi {
                    assert((fi + ki) % ni == fi + ki) by (nonlinear_arith)
                        requires 0 <= fi + ki < ni;
                } else {
                    assert((fi + ki) % ni == fi + ki - ni) by (nonlinear_arith)
                        requires ni <= fi + ki < 2 * ni;
                }
            } else {
                if ki <= fi {
                    assert((fi - ki) % ni == fi - ki) by (nonlinear_arith)
                        requires 0 <= fi - ki < ni;
                } else {
                    assert((fi - ki) % ni == fi - ki + ni) by (nonlinear_arith)
                        requires -ni < fi - ki < 0, ni > 0;
                }
            }
            assert(i == step_index(fi, ki, ni, forward));
        }
        if s.fields[i].visible {
            proof {
                assert(first_visible_within(s.fields@, f as int, k as int, forward) == Some(i as int));
                lemma_first_visible_stays(s.fields@, f as int, k as int, n as int - 1, forward);
            }
            return i;
        }
        k += 1;
    }
    f
}

proof fn lemma_first_visible_stays(fields: Seq<FormField>, from: int, k: int, m: int, forward: bool)
    requires
        0 < k <= m,
        first_visible_within(fields, from, k, forward) is Some,
    ensures
        first_visible_within(fields, from, m, forward) == first_visible_within(fields, from, k, forward),
    decreases m - k,
{
    if m > k {
        lemma_first_visible_stays(fields, from, k, m - 1, forward);
    }
}

/// `b` is where a character starts (or the text ends) in the UTF-8 bytes
/// of `v`.
pub open spec fn at_boundary(v: Seq<char>, b: int) -> bool {
    exists|k: int| 0 <= k <= v.len() && utf8_bytes(v.take(k)) == b
}

/// The character index of the byte offset `b` of `v` (meaningful where
/// `at_boundary(v, b)`).
pub open spec fn char_at_byte(v: Seq<char>, b: int) -> int {
    choose|k: int| 0 <= k <= v.len() && utf8_bytes(v.take(k)) == b
}

proof fn lemma_char_at_byte(v: Seq<char>, k: int)
    requires
        0 <= k <= v.len(),
    ensures
        at_boundary(v, utf8_bytes(v.take(k)) as int),
        char_at_byte(v, utf8_bytes(v.take(k)) as int) == k,
{
    let b = utf8_bytes(v.take(k)) as int;
    assert(0 <= k <= v.len() && utf8_bytes(v.take(k)) == b);
    let c = char_at_byte(v, b);
    if c < k {
        lemma_bytes_grow(v, c, k);
    } else if c > k {
        lemma_bytes_grow(v, k, c);
    }
}

/// The UTF-8 length of `v`.
fn utf8_len(v: &Vec<char>) -> (r: usize)
    requires
        utf8_bytes(v@) < usize::MAX,
    ensures
        r == utf8_bytes(v@),
{
    let mut total: usize = 0;
    let mut i: usize = 0;
    while i < v.len()
        invariant
            i <= v@.len(),
            total == utf8_bytes(v@.take(i as int)),
            utf8_bytes(v@) < usize::MAX,
        decreases v@.len() - i,
    {
        proof {
            lemma_bytes_grow(v@, i + 1, v@.len() as int);
            assert(v@.take(v@.len() as int) =~= v@);
            assert(v@.take(i + 1).drop_last() =~= v@.take(i as int));
        }
        total = total + utf8_width_exec(v[i]);
        i += 1;
    }
    assert(v@.take(v@.len() as int) =~= v@);
    total
}

/// The UTF-8 length of `v` when it is below the largest `usize`.
fn utf8_len_checked(v: &Vec<char>) -> (r: Option<usize>)
    ensures
        match r {
            Some(n) => n == utf8_bytes(v@) && utf8_bytes(v@) < usize::MAX,
            None => utf8_bytes(v@) >= usize::MAX,
        },
{
    let mut total: usize = 0;
    let mut i: usize = 0;
    while i < v.len()
        invariant
            i <= v@.len(),
            total == utf8_bytes(v@.take(i as int)),
            total < usize::MAX,
        decreases v@.len() - i,
    {
        proof {
            assert(v@.take(i + 1).drop_last() =~= v@.take(i as int));
        }
        let w = utf8_width_exec(v[i]);
        if total >= usize::MAX - w {
            proof {
                lemma_bytes_grow(v@, i + 1, v@.len() as int);
                assert(v@.take(v@.len() as int) =~= v@);
            }
            return None;
        }
        total = total + w;
        i += 1;
    }
    assert(v@.take(v@.len() as int) =~= v@);
    Some(total)
}

/// The character index of byte offset `b` of `v`, if a character starts
/// there (or the text ends there).
fn byte_to_char(v: &Vec<char>, b: usize) -> (r: Option<usize>)
    requires
        utf8_bytes(v@) < usize::MAX,
    ensures
        match r {
            Some(k) => at_boundary(v@, b as int) && k == char_at_byte(v@, b as int) && k <= v@.len(),
            None => !at_boundary(v@, b as int),
        },
{
    let mut total: usize = 0;
    let mut i: usize = 0;
    while i < v.len() && total < b
        invariant
            i <= v@.len(),
            total == utf8_bytes(v@.take(i as int)),
            utf8_bytes(v@) < usize::MAX,
            forall|k: int| 0 <= k < i ==> utf8_bytes(v@.take(k)) < b,
        decreases v@.len() - i,
    {
        proof {
            lemma_bytes_grow(v@, i + 1, v@.len() as int);
            assert(v@.take(v@.len() as int) =~= v@);
            assert(v@.take(i + 1).drop_last() =~= v@.take(i as int));
        }
        total = total + utf8_width_exec(v[i]);
        i += 1;
    }
    if total == b {
        proof { lemma_char_at_byte(v@, i as int); }
        Some(i)
    } else {
        proof {
            assert forall|k: int| 0 <= k <= v@.len() implies utf8_bytes(v@.take(k)) != b by {
                if k >= i {
                    lemma_bytes_grow(v@, i as int, k);
                    if k == i {
                    } else {
                        assert(total >= b || i == v@.len());
                    }
                }
            }
        }
        None
    }
}

/// The focused field's text length in UTF-8 bytes, the text cursor's
/// place after the focus moves.
pub open spec fn focused_len(s: FormEditState) -> nat {
    utf8_bytes(s.fields@[s.focused as int].value@)
}

/// The texts of a form's fields are shorter, in UTF-8 bytes, than the
/// largest `usize`.
pub open spec fn texts_fit(s: FormEditState) -> bool {
    forall|i: int| 0 <= i < s.fields@.len() ==> utf8_bytes((#[trigger] s.fields@[i]).value@) < usize::MAX
}

/// `b` is `a` with the focus moved (see `moved_focus`) and the cursor at
/// the end of the newly focused field's text.
pub open spec fn focus_moved(a: FormEdit, b: FormEdit, forward: bool) -> bool {
    &&& b.state.fields == a.state.fields
    &&& b.state.focused == moved_focus(a.state, forward)
    &&& b.cursor_pos == focused_len(b.state)
    &&& b.scroll == a.scroll
    &&& b.drill == a.drill
}

fn move_focus(e: &mut FormEdit, forward: bool)
    requires
        old(e).state.focused < old(e).state.fields@.len(),
        texts_fit(old(e).state),
    ensures
        focus_moved(*old(e), *final(e), forward),
{
    let t = focus_target(&e.state, forward);
    e.state.focused = t;
    e.cursor_pos = utf8_len(&e.state.fields[t].value);
}

/// `r` is a fresh field made from the template field `t`: the same id,
/// kind, visibility, text and options, a template of as many fields, and
/// no items.
pub open spec fn fresh_field(r: FormField, t: FormField) -> bool {
    &&& r.id@ == t.id@
    &&& r.kind == t.kind
    &&& r.visible == t.visible
    &&& r.value@ == t.value@
    &&& r.options@.len() == t.options@.len()
    &&& forall|k: int| 0 <= k < t.options@.len() ==> (#[trigger] r.options@[k])@ == t.options@[k]@
    &&& r.items@.len() == 0
    &&& r.template@.len() == t.template@.len()
    &&& r.selected_item == 0
}

/// `s` is a fresh form made from `template`: one fresh field per template
/// field, focus on the first.
pub open spec fn fresh_form(s: FormEditState, template: Seq<FormField>) -> bool {
    &&& s.focused == 0
    &&& s.fields@.len() == template.len()
    &&& forall|k: int| 0 <= k < template.len() ==> fresh_field(#[trigger] s.fields@[k], template[k])
}

fn copy_chars(v: &Vec<char>) -> (r: Vec<char>)
    ensures
        r@ == v@,
{
    let mut out: Vec<char> = Vec::new();
    let mut i: usize = 0;
    while i < v.len()
        invariant
            i <= v@.len(),
            out@ == v@.take(i as int),
        decreases v@.len() - i,
    {
        out.push(v[i]);
        i += 1;
        assert(out@ =~= v@.take(i as int));
    }
    assert(v@.take(v@.len() as int) =~= v@);
    out
}

fn copy_char_lists(v: &Vec<Vec<char>>) -> (r: Vec<Vec<char>>)
    ensures
        r@.len() == v@.len(),
        forall|k: int| 0 <= k < v@.len() ==> (#[trigger] r@[k])@ == v@[k]@,
{
    let mut out: Vec<Vec<char>> = Vec::new();
    let mut i: usize = 0;
    while i < v.len()
        invariant
            i <= v@.len(),
            out@.len() == i,
            forall|k: int| 0 <= k < i ==> (#[trigger] out@[k])@ == v@[k]@,
        decreases v@.len() - i,
    {
        out.push(copy_chars(&v[i]));
        i += 1;
    }
    out
}

/// Fresh fields made from a template (see `fresh_field`).
fn fresh_fields(t: &Vec<FormField>) -> (r: Vec<FormField>)
    ensures
        r@.len() == t@.len(),
        forall|k: int| 0 <= k < t@.len() ==> fresh_field(#[trigger] r@[k], t@[k]),
    decreases t@,
{
    let mut out: Vec<FormField> = Vec::new();
    let mut i: usize = 0;
    while i < t.len()
        invariant
            i <= t@.len(),
            out@.len() == i,
            forall|k: int| 0 <= k < i ==> fresh_field(#[trigger] out@[k], t@[k]),
        decreases t@.len() - i,
    {
        let x = &t[i];
        proof {
            assert(decreases_to!(t@ => t@[i as int]));
            assert(decreases_to!(t@[i as int] => t@[i as int].template));
            assert(decreases_to!(t@[i as int].template => t@[i as int].template@));
        }
        let nested = fresh_fields(&x.template);
        out.push(FormField {
            id: x.id.clone(),
            kind: x.kind,
            visible: x.visible,
            value: copy_chars(&x.value),
            options: copy_char_lists(&x.options),
            items: Vec::new(),
            template: nested,
            selected_item: 0,
        });
        i += 1;
    }
    out
}

/// A fresh form made from a template.
fn fresh_form_of(t: &Vec<FormField>) -> (r: FormEditState)
    ensures
        fresh_form(r, t@),
{
    FormEditState { fields: fresh_fields(t), focused: 0 }
}

fn chars_equal(a: &Vec<char>, b: &Vec<char>) -> (r: bool)
    ensures
        r == (a@ == b@),
{
    if a.len() != b.len() {
        return false;
    }
    let mut i: usize = 0;
    while i < a.len()
        invariant
            a@.len() == b@.len(),
            i <= a@.len(),
            forall|k: int| 0 <= k < i ==> a@[k] == b@[k],
        decreases a@.len() - i,
    {
        if a[i] != b[i] {
            return false;
        }
        i += 1;
    }
    assert(a@ =~= b@);
    true
}

/// The first of the first `k` options equal to `v`, if any.
pub open spec fn first_option(opts: Seq<Vec<char>>, v: Seq<char>, k: int) -> Option<int>
    decreases k,
{
    if k <= 0 {
        None
    } else {
        match first_option(opts, v, k - 1) {
            Some(i) => Some(i),
            None => if opts[k - 1]@ == v { Some(k - 1) } else { None },
        }
    }
}

/// The option a choice moves to: the one after (or before) the chosen
/// one, wrapping around; the first (or last) when the chosen text is no
/// option; none when there are no options.
pub open spec fn cycle_target(opts: Seq<Vec<char>>, v: Seq<char>, forward: bool) -> Option<int> {
    let n = opts.len() as int;
    if n == 0 {
        None
    } else {
        match first_option(opts, v, n) {
            Some(k) => Some(if forward { if k + 1 < n { k + 1 } else { 0 } } else { if k > 0 { k - 1 } else { n - 1 } }),
            None => Some(if forward { 0 } else { n - 1 }),
        }
    }
}

fn cycle_index(opts: &Vec<Vec<char>>, v: &Vec<char>, forward: bool) -> (r: Option<usize>)
    ensures
        match cycle_target(opts@, v@, forward) {
            Some(k) => r is Some && r->0 as int == k && k < opts@.len(),
            None => r is None,
        },
{
    let n = opts.len();
    if n == 0 {
        return None;
    }
    let mut i: usize = 0;
    while i < n
        invariant
            n == opts@.len(),
            i <= n,
            first_option(opts@, v@, i as int) is None,
        decreases n - i,
    {
        if chars_equal(&opts[i], v) {
            assert(first_option(opts@, v@, i + 1) == Some(i as int));
            proof { lemma_first_option_stays(opts@, v@, i as int + 1, n as int); }
            let t = if forward { if i + 1 < n { i + 1 } else { 0 } } else { if i > 0 { i - 1 } else { n - 1 } };
            return Some(t);
        }
        i += 1;
    }
    Some(if forward { 0 } else { n - 1 })
}

proof fn lemma_first_option_stays(opts: Seq<Vec<char>>, v: Seq<char>, k: int, m: int)
    requires
        0 < k <= m,
        first_option(opts, v, k) is Some,
    ensures
        first_option(opts, v, m) == first_option(opts, v, k),
    decreases m - k,
{
    if m > k {
        lemma_first_option_stays(opts, v, k, m - 1);
    }
}

/// `y` is `x` but for its items and highlighted item.
pub open spec fn same_but_items(x: FormField, y: FormField) -> bool {
    &&& y.id == x.id
    &&& y.kind == x.kind
    &&& y.visible == x.visible
    &&& y.value == x.value
    &&& y.options == x.options
    &&& y.template == x.template
}

/// `y` is `x` with the items `items` and the highlighted item `sel`.
pub open spec fn items_set(x: FormField, y: FormField, items: Seq<FormEditState>, sel: usize) -> bool {
    &&& same_but_items(x, y)
    &&& y.items@ == items
    &&& y.selected_item == sel
}

/// `y` is `x` with the text `v`.
pub open spec fn value_set(x: FormField, y: FormField, v: Seq<char>) -> bool {
    &&& y.id == x.id
    &&& y.kind == x.kind
    &&& y.visible == x.visible
    &&& y.value@ == v
    &&& y.options == x.options
    &&& y.items == x.items
    &&& y.template == x.template
    &&& y.selected_item == x.selected_item
}

/// `b` has the focus and the fields of `a`, but for field `i`.
pub open spec fn same_but_field(a: FormEditState, b: FormEditState, i: int) -> bool {
    &&& b.focused == a.focused
    &&& b.fields@.len() == a.fields@.len()
    &&& forall|j: int| 0 <= j < a.fields@.len() && j != i ==> #[trigger] b.fields@[j] == a.fields@[j]
}

/// `b` is `a` with the focused field changed to `y`, cursor, scroll and
/// drill stack unchanged.
pub open spec fn focused_field_became(a: FormEdit, b: FormEdit, rel: spec_fn(FormField, FormField) -> bool) -> bool {
    let i = a.state.focused as int;
    &&& same_but_field(a.state, b.state, i)
    &&& rel(a.state.fields@[i], b.state.fields@[i])
    &&& b.scroll == a.scroll
    &&& b.drill == a.drill
}

/// `b` is `a` with only the text cursor moved to `c`.
pub open spec fn cursor_moved(a: FormEdit, b: FormEdit, c: int) -> bool {
    &&& b.state == a.state
    &&& b.cursor_pos == c
    &&& b.scroll == a.scroll
    &&& b.drill == a.drill
}

/// The action of Control+P: a picker for the focused link field, chosen
/// by its id, or a reason why none opens.
pub open spec fn picker_action(s: FormEditState, pages_available: bool, images_root_exists: bool) -> FormEditAction {
    if s.focused < s.fields@.len() && s.fields@[s.focused as int].kind == FieldKind::Url {
        let id = s.fields@[s.focused as int].id@;
        if contains_seq(id, seq!['i', 'm', 'a', 'g', 'e']) {
            if images_root_exists { FormEditAction::OpenImagePicker } else { FormEditAction::NoImagesFolder }
        } else if contains_seq(id, seq!['l', 'i', 'n', 'k']) {
            if pages_available { FormEditAction::OpenPagePicker } else { FormEditAction::NoPages }
        } else {
            FormEditAction::Continue
        }
    } else {
        FormEditAction::Continue
    }
}

/// Control+S in an item: the item goes back into its list (in its old
/// place, or at the end when that place is gone) and the parent form is
/// shown again with its cursor and scroll offset.
pub open spec fn saved_to_parent(a: FormEdit, b: FormEdit) -> bool {
    let fr = a.drill@.last();
    let i = fr.field as int;
    let x = fr.parent.fields@[i];
    let items = if fr.item_idx < x.items@.len() { x.items@.update(fr.item_idx as int, a.state) } else { x.items@.push(a.state) };
    &&& b.drill@ == a.drill@.drop_last()
    &&& b.cursor_pos == fr.cursor_pos
    &&& b.scroll == fr.scroll
    &&& same_but_field(fr.parent, b.state, i)
    &&& items_set(x, b.state.fields@[i], items, x.selected_item)
}

/// Escape in an item: its edits are dropped and the parent form is shown
/// again as it was left.
pub open spec fn cancelled_to_parent(a: FormEdit, b: FormEdit) -> bool {
    let fr = a.drill@.last();
    &&& b.drill@ == a.drill@.drop_last()
    &&& b.state == fr.parent
    &&& b.cursor_pos == fr.cursor_pos
    &&& b.scroll == fr.scroll
}

/// The keys a list field takes for itself.
pub open spec fn list_key(k: Key) -> bool {
    ||| k == Key::Char('A')
    ||| k == Key::Char('X')
    ||| k == Key::Up
    ||| k == Key::Char('k')
    ||| k == Key::Down
    ||| k == Key::Char('j')
    ||| k == Key::Enter
}

/// Where a new item goes: after the highlighted one, or first in an
/// empty list.
pub open spec fn insert_place(n: nat, sel: usize) -> int {
    if n == 0 { 0 } else if sel < n { sel + 1 } else { n as int }
}

/// `y` is `x` with a fresh item (made from `x`'s template) inserted at
/// `at` and highlighted.
pub open spec fn item_added(x: FormField, y: FormField, at: int) -> bool {
    let n = x.items@.len() as int;
    &&& same_but_items(x, y)
    &&& y.selected_item == at
    &&& y.items@.len() == n + 1
    &&& forall|j: int| 0 <= j < at ==> #[trigger] y.items@[j] == x.items@[j]
    &&& forall|j: int| at < j <= n ==> #[trigger] y.items@[j] == x.items@[j - 1]
    &&& fresh_form(y.items@[at], x.template@)
}

/// The text cursor's place in a form just shown: the end of its focused
/// field's text.
pub open spec fn entry_cursor(s: FormEditState) -> int {
    if s.focused < s.fields@.len() { utf8_bytes(s.fields@[s.focused as int].value@) as int } else { 0 }
}

/// The focused text of a form about to be shown is shorter, in UTF-8
/// bytes, than the largest `usize`.
pub open spec fn entry_fits(s: FormEditState) -> bool {
    s.focused < s.fields@.len() ==> utf8_bytes(s.fields@[s.focused as int].value@) < usize::MAX
}

/// Enter on a list field with a highlighted item: the item is shown for
/// editing; the parent, holding a fresh item in its place, goes onto the
/// drill stack with the cursor and scroll offset to return to.
pub open spec fn drilled_in(a: FormEdit, b: FormEdit) -> bool {
    let i = a.state.focused as int;
    let x = a.state.fields@[i];
    let sel = x.selected_item as int;
    let fr = b.drill@.last();
    let y = fr.parent.fields@[i];
    &&& b.state == x.items@[sel]
    &&& b.cursor_pos == entry_cursor(b.state)
    &&& b.scroll == 0
    &&& b.drill@.len() == a.drill@.len() + 1
    &&& b.drill@.drop_last() == a.drill@
    &&& fr.cursor_pos == a.cursor_pos
    &&& fr.scroll == a.scroll
    &&& fr.field == i
    &&& fr.item_idx == sel
    &&& same_but_field(a.state, fr.parent, i)
    &&& same_but_items(x, y)
    &&& y.selected_item == x.selected_item
    &&& y.items@.len() == x.items@.len()
    &&& forall|j: int| 0 <= j < x.items@.len() && j != sel ==> #[trigger] y.items@[j] == x.items@[j]
    &&& fresh_form(y.items@[sel], x.template@)
}

/// The highlighted item after removing item `sel`, leaving `m` items: the
/// same place, or the last item when `sel` was last.
pub open spec fn after_removal(sel: usize, m: nat) -> usize {
    if m == 0 { 0 } else if sel < m { sel } else { (m - 1) as usize }
}

/// A key on a focused list field (see `list_key`): add, remove or
/// highlight items, drill into one, or move the focus past the list.
pub open spec fn list_next(a: FormEdit, k: Key, min_items: usize, b: FormEdit, r: FormEditAction) -> bool {
    let i = a.state.focused as int;
    let x = a.state.fields@[i];
    let n = x.items@.len();
    let sel = x.selected_item;
    if k == Key::Char('A') {
        &&& r == FormEditAction::ItemAdded
        &&& b.cursor_pos == a.cursor_pos
        &&& focused_field_became(a, b, |x: FormField, y: FormField| item_added(x, y, insert_place(n, sel)))
    } else if k == Key::Char('X') {
        if n > min_items {
            if sel < n {
                &&& r == FormEditAction::ItemRemoved
                &&& b.cursor_pos == a.cursor_pos
                &&& focused_field_became(a, b, |x: FormField, y: FormField|
                    items_set(x, y, x.items@.remove(sel as int), after_removal(sel, (n - 1) as nat)))
            } else {
                r == FormEditAction::Continue && b == a
            }
        } else {
            r == FormEditAction::MustKeep(min_items) && b == a
        }
    } else if k == Key::Up || k == Key::Char('k') {
        &&& r == FormEditAction::Continue
        &&& if n == 0 || sel == 0 {
            focus_moved(a, b, false)
        } else {
            &&& b.cursor_pos == a.cursor_pos
            &&& focused_field_became(a, b, |x: FormField, y: FormField| items_set(x, y, x.items@, (sel - 1) as usize))
        }
    } else if k == Key::Down || k == Key::Char('j') {
        &&& r == FormEditAction::Continue
        &&& if sel + 1 < n {
            &&& b.cursor_pos == a.cursor_pos
            &&& focused_field_became(a, b, |x: FormField, y: FormField| items_set(x, y, x.items@, (sel + 1) as usize))
        } else {
            focus_moved(a, b, true)
        }
    } else {
        if sel < n {
            r == FormEditAction::DrilledIn && drilled_in(a, b)
        } else {
            r == FormEditAction::Continue && b == a
        }
    }
}

/// The cursor after moving `delta` lines in the text `v` from `c`.
pub open spec fn vertical_cursor(v: Seq<char>, c: int, delta: int) -> int {
    let lines = split_lines(v);
    row_col_offset(lines, clamp_row(cursor_row_of(v, c) as int, delta, lines.len() as int), cursor_col_of(v, c) as int)
}

/// A cursor move of `delta` lines in the focused multi-line field (the
/// field's text is shorter than the largest `usize`).
pub open spec fn moved_lines(a: FormEdit, b: FormEdit, delta: int) -> bool {
    let v = a.state.fields@[a.state.focused as int].value@;
    if v.len() < usize::MAX {
        cursor_moved(a, b, vertical_cursor(v, a.cursor_pos as int, delta))
    } else {
        b == a
    }
}

/// The text cursor, a UTF-8 byte offset, clamped to the focused text.
pub open spec fn clamped_cursor(a: FormEdit) -> int {
    let n = utf8_bytes(a.state.fields@[a.state.focused as int].value@);
    if a.cursor_pos < n { a.cursor_pos as int } else { n as int }
}

/// Typing `c` into the focused field at the cursor (clamped to the text):
/// the character goes in where the cursor's byte offset falls, and the
/// cursor moves one byte on.
pub open spec fn typed(a: FormEdit, b: FormEdit, c: char) -> bool {
    let v = a.state.fields@[a.state.focused as int].value@;
    let p = clamped_cursor(a);
    &&& focused_field_became(a, b, |x: FormField, y: FormField| value_set(x, y, v.insert(char_at_byte(v, p), c)))
    &&& b.cursor_pos == p + 1
}

/// A choice moved to the next (or previous) option.
pub open spec fn cycled(a: FormEdit, b: FormEdit, forward: bool) -> bool {
    let x = a.state.fields@[a.state.focused as int];
    match cycle_target(x.options@, x.value@, forward) {
        Some(t) => b.cursor_pos == a.cursor_pos
            && focused_field_became(a, b, |x: FormField, y: FormField| value_set(x, y, x.options@[t]@)),
        None => b == a,
    }
}

/// Any other key on the focused field.
pub open spec fn field_key_next(a: FormEdit, key: KeyPress, b: FormEdit) -> bool {
    let x = a.state.fields@[a.state.focused as int];
    let len = utf8_bytes(x.value@);
    let c = a.cursor_pos;
    let p = clamped_cursor(a);
    match key.key {
        Key::Tab => focus_moved(a, b, true),
        Key::BackTab => focus_moved(a, b, false),
        Key::Left => if x.kind == FieldKind::Enum { cycled(a, b, false) } else { cursor_moved(a, b, if c > 0 { c - 1 } else { 0 }) },
        Key::Right => if x.kind == FieldKind::Enum { cycled(a, b, true) } else { cursor_moved(a, b, if c < len { c + 1 } else { c as int }) },
        Key::Up => if x.kind == FieldKind::Textarea { moved_lines(a, b, -1) } else { focus_moved(a, b, false) },
        Key::Down => if x.kind == FieldKind::Textarea { moved_lines(a, b, 1) } else { focus_moved(a, b, true) },
        Key::PageUp => if x.kind == FieldKind::Textarea { moved_lines(a, b, -10) } else { b == a },
        Key::PageDown => if x.kind == FieldKind::Textarea { moved_lines(a, b, 10) } else { b == a },
        Key::Char(ch) => if !key.ctrl && accepts_text(x.kind) { typed(a, b, ch) } else { b == a },
        Key::Backspace => if accepts_text(x.kind) && p > 0 {
            &&& focused_field_became(a, b, |x: FormField, y: FormField|
                value_set(x, y, x.value@.remove(char_at_byte(x.value@, p) - 1)))
            &&& b.cursor_pos == p - 1
        } else {
            b == a
        },
        Key::Enter => if x.kind == FieldKind::Textarea { typed(a, b, '\n') } else { focus_moved(a, b, true) },
        _ => b == a,
    }
}

/// A key the form editor can take without slicing a text inside a
/// character: the editor is usable, the shown texts (and the text of an
/// item about to be opened) are shorter in UTF-8 bytes than the largest
/// `usize`, and where a key edits text at the cursor's byte offset, that
/// offset (and for Backspace the byte before it) starts a character.
pub open spec fn form_key_ok(a: FormEdit, key: KeyPress) -> bool {
    let s = a.state;
    &&& form_edit_ok(a)
    &&& texts_fit(s)
    &&& (s.focused < s.fields@.len() && !ctrl_char(key, 'p') && !ctrl_char(key, 's') && key.key != Key::Esc) ==> {
        let x = s.fields@[s.focused as int];
        let v = x.value@;
        let p = clamped_cursor(a);
        match x.kind {
            FieldKind::SubForm { .. } =>
                (key.key == Key::Enter && x.selected_item < x.items@.len()) ==> entry_fits(x.items@[x.selected_item as int]),
            _ => match key.key {
                Key::Char(_) => (!key.ctrl && accepts_text(x.kind)) ==> at_boundary(v, p),
                Key::Enter => x.kind == FieldKind::Textarea ==> at_boundary(v, p),
                Key::Backspace => (accepts_text(x.kind) && p > 0) ==> at_boundary(v, p - 1) && at_boundary(v, p),
                _ => true,
            },
        }
    }
}

/// Control and the character `c`.
pub open spec fn ctrl_char(key: KeyPress, c: char) -> bool {
    key.key == Key::Char(c) && key.ctrl
}

/// What a key does to the form editor `a`, giving `b` and the action `r`.
pub open spec fn form_edit_next(
    a: FormEdit,
    key: KeyPress,
    pages_available: bool,
    images_root_exists: bool,
    b: FormEdit,
    r: FormEditAction,
) -> bool {
    let s = a.state;
    if ctrl_char(key, 'p') {
        b == a && r == picker_action(s, pages_available, images_root_exists)
    } else if ctrl_char(key, 's') {
        if a.drill@.len() > 0 {
            r == FormEditAction::SaveItemToParent && saved_to_parent(a, b)
        } else {
            r == FormEditAction::CommitTopLevel && b == a
        }
    } else if key.key == Key::Esc {
        if a.drill@.len() > 0 {
            r == FormEditAction::CancelItem && cancelled_to_parent(a, b)
        } else {
            r == FormEditAction::Close && b == a
        }
    } else if s.focused >= s.fields@.len() {
        r == FormEditAction::Close && b == a
    } else {
        match s.fields@[s.focused as int].kind {
            FieldKind::SubForm { min_items } if list_key(key.key) => list_next(a, key.key, min_items, b, r),
            _ => r == FormEditAction::Continue && field_key_next(a, key, b),
        }
    }
}

proof fn lemma_replace_at(a: Seq<FormField>, i: int, y: FormField)
    requires
        0 <= i < a.len(),
    ensures
        a.remove(i).insert(i, y) == a.update(i, y),
{
    assert(a.remove(i).insert(i, y) =~= a.update(i, y));
}

/// Puts `y` in the place of field `i`.
fn replace_field(s: &mut FormEditState, i: usize, y: FormField) -> (old_field: FormField)
    requires
        i < old(s).fields@.len(),
    ensures
        old_field == old(s).fields@[i as int],
        final(s).focused == old(s).focused,
        final(s).fields@ == old(s).fields@.update(i as int, y),
{
    let x = s.fields.remove(i);
    s.fields.insert(i, y);
    proof { lemma_replace_at(old(s).fields@, i as int, y); }
    x
}

fn accepts_text_kind(k: FieldKind) -> (r: bool)
    ensures
        r == accepts_text(k),
{
    match k {
        FieldKind::Text | FieldKind::Url | FieldKind::Textarea => true,
        _ => false,
    }
}

fn picker_for(s: &FormEditState, pages_available: bool, images_root_exists: bool) -> (r: FormEditAction)
    ensures
        r == picker_action(*s, pages_available, images_root_exists),
{
    if s.focused < s.fields.len() && s.fields[s.focused].kind == FieldKind::Url {
        let id = s.fields[s.focused].id.as_str();
        proof {
            reveal_strlit("image");
            reveal_strlit("link");
            assert("image"@ =~= seq!['i', 'm', 'a', 'g', 'e']);
            assert("link"@ =~= seq!['l', 'i', 'n', 'k']);
        }
        if contains_str(id, "image") {
            if images_root_exists { FormEditAction::OpenImagePicker } else { FormEditAction::NoImagesFolder }
        } else if contains_str(id, "link") {
            if pages_available { FormEditAction::OpenPagePicker } else { FormEditAction::NoPages }
        } else {
            FormEditAction::Continue
        }
    } else {
        FormEditAction::Continue
    }
}

fn take_state(e: &mut FormEdit) -> (r: FormEditState)
    ensures
        r == old(e).state,
        final(e).cursor_pos == old(e).cursor_pos,
        final(e).scroll == old(e).scroll,
        final(e).drill == old(e).drill,
{
    let mut r = FormEditState { fields: Vec::new(), focused: 0 };
    std::mem::swap(&mut r, &mut e.state);
    r
}

fn return_to_parent(e: &mut FormEdit, save: bool)
    requires
        form_edit_ok(*old(e)),
        old(e).drill@.len() > 0,
    ensures
        form_edit_ok(*final(e)),
        save ==> saved_to_parent(*old(e), *final(e)),
        !save ==> cancelled_to_parent(*old(e), *final(e)),
{
    let ghost last = old(e).drill@.last();
    let fr = e.drill.pop().unwrap();
    assert(fr == last);
    let DrillFrame { parent, cursor_pos, scroll, field, item_idx } = fr;
    let st = take_state(e);
    let mut parent = parent;
    if save {
        let placeholder = FormField {
            id: String::new(),
            kind: FieldKind::Text,
            visible: false,
            value: Vec::new(),
            options: Vec::new(),
            items: Vec::new(),
            template: Vec::new(),
            selected_item: 0,
        };
        let mut x = replace_field(&mut parent, field, placeholder);
        let ghost x0 = x;
        if item_idx < x.items.len() {
            x.items.set(item_idx, st);
        } else {
            x.items.push(st);
        }
        let ghost y = x;
        replace_field(&mut parent, field, x);
        proof {
            assert(parent.fields@ == last.parent.fields@.update(field as int, y));
            assert(items_set(x0, y, if item_idx < x0.items@.len() { x0.items@.update(item_idx as int, old(e).state) } else { x0.items@.push(old(e).state) }, x0.selected_item));
        }
    }
    e.state = parent;
    e.cursor_pos = cursor_pos;
    e.scroll = scroll;
}

fn blank_field() -> (r: FormField) {
    FormField {
        id: String::new(),
        kind: FieldKind::Text,
        visible: false,
        value: Vec::new(),
        options: Vec::new(),
        items: Vec::new(),
        template: Vec::new(),
        selected_item: 0,
    }
}

fn list_step(e: &mut FormEdit, k: Key, min_items: usize) -> (r: FormEditAction)
    requires
        form_edit_ok(*old(e)),
        texts_fit(old(e).state),
        ({
            let x = old(e).state.fields@[old(e).state.focused as int];
            (k == Key::Enter && x.selected_item < x.items@.len()) ==> entry_fits(x.items@[x.selected_item as int])
        }),
        old(e).state.focused < old(e).state.fields@.len(),
        old(e).state.fields@[old(e).state.focused as int].kind == (FieldKind::SubForm { min_items }),
        list_key(k),
    ensures
        form_edit_ok(*final(e)),
        list_next(*old(e), k, min_items, *final(e), r),
{
    let i = e.state.focused;
    let n = e.state.fields[i].items.len();
    let sel = e.state.fields[i].selected_item;
    if k == Key::Char('A') {
        let mut x = replace_field(&mut e.state, i, blank_field());
        let ghost x0 = x;
        let at = if n == 0 { 0 } else if sel < n { sel + 1 } else { n };
        let item = fresh_form_of(&x.template);
        x.items.insert(at, item);
        x.selected_item = at;
        let ghost y = x;
        replace_field(&mut e.state, i, x);
        proof {
            assert(item_added(x0, y, insert_place(n as nat, sel)));
        }
        FormEditAction::ItemAdded
    } else if k == Key::Char('X') {
        if n > min_items {
            if sel < n {
                let mut x = replace_field(&mut e.state, i, blank_field());
                let ghost x0 = x;
                x.items.remove(sel);
                let m = n - 1;
                x.selected_item = if m == 0 { 0 } else if sel < m { sel } else { m - 1 };
                let ghost y = x;
                replace_field(&mut e.state, i, x);
                proof {
                    assert(items_set(x0, y, x0.items@.remove(sel as int), after_removal(sel, (n - 1) as nat)));
                }
                FormEditAction::ItemRemoved
            } else {
                FormEditAction::Continue
            }
        } else {
            FormEditAction::MustKeep(min_items)
        }
    } else if k == Key::Up || k == Key::Char('k') {
        if n == 0 || sel == 0 {
            move_focus(e, false);
        } else {
            let mut x = replace_field(&mut e.state, i, blank_field());
            let ghost x0 = x;
            x.selected_item = sel - 1;
            let ghost y = x;
            replace_field(&mut e.state, i, x);
            proof { assert(items_set(x0, y, x0.items@, (sel - 1) as usize)); }
        }
        FormEditAction::Continue
    } else if k == Key::Down || k == Key::Char('j') {
        if n > 0 && sel < n - 1 {
            let mut x = replace_field(&mut e.state, i, blank_field());
            let ghost x0 = x;
            x.selected_item = sel + 1;
            let ghost y = x;
            replace_field(&mut e.state, i, x);
            proof { assert(items_set(x0, y, x0.items@, (sel + 1) as usize)); }
        } else {
            move_focus(e, true);
        }
        FormEditAction::Continue
    } else {
        if sel < n {
            let ghost a = *old(e);
            let mut x = replace_field(&mut e.state, i, blank_field());
            let ghost x0 = x;
            let fresh = fresh_form_of(&x.template);
            let item = x.items.remove(sel);
            x.items.insert(sel, fresh);
            let ghost y = x;
            replace_field(&mut e.state, i, x);
            proof {
                assert(y.items@ =~= x0.items@.update(sel as int, y.items@[sel as int]));
            }
            let mut parent = item;
            std::mem::swap(&mut parent, &mut e.state);
            let c = if e.state.focused < e.state.fields.len() {
                utf8_len(&e.state.fields[e.state.focused].value)
            } else {
                0
            };
            let frame = DrillFrame { parent, cursor_pos: e.cursor_pos, scroll: e.scroll, field: i, item_idx: sel };
            e.drill.push(frame);
            e.cursor_pos = c;
            e.scroll = 0;
            proof {
                assert(e.drill@.drop_last() =~= a.drill@);
                assert(e.drill@.last() == frame);
            }
            FormEditAction::DrilledIn
        } else {
            FormEditAction::Continue
        }
    }
}

/// Puts `v` as the focused field's text.
fn set_focused_value(e: &mut FormEdit, v: Vec<char>)
    requires
        old(e).state.focused < old(e).state.fields@.len(),
    ensures
        focused_field_became(*old(e), *final(e), |x: FormField, y: FormField| value_set(x, y, v@)),
        final(e).cursor_pos == old(e).cursor_pos,
{
    let i = e.state.focused;
    let mut x = replace_field(&mut e.state, i, blank_field());
    x.value = v;
    replace_field(&mut e.state, i, x);
}

/// Types `c` at the cursor of the focused field.
fn type_char(e: &mut FormEdit, c: char)
    requires
        old(e).state.focused < old(e).state.fields@.len(),
        texts_fit(old(e).state),
        at_boundary(old(e).state.fields@[old(e).state.focused as int].value@, clamped_cursor(*old(e))),
    ensures
        typed(*old(e), *final(e), c),
{
    let i = e.state.focused;
    let len = utf8_len(&e.state.fields[i].value);
    let p = if e.cursor_pos < len { e.cursor_pos } else { len };
    let k = byte_to_char(&e.state.fields[i].value, p).unwrap();
    let mut v = copy_chars(&e.state.fields[i].value);
    v.insert(k, c);
    set_focused_value(e, v);
    e.cursor_pos = p + 1;
}

/// Moves the cursor `delta` lines in the focused field's text.
fn move_lines(e: &mut FormEdit, delta: isize)
    requires
        old(e).state.focused < old(e).state.fields@.len(),
    ensures
        moved_lines(*old(e), *final(e), delta as int),
{
    let i = e.state.focused;
    let len = e.state.fields[i].value.len();
    if len < usize::MAX {
        let text = string_of(e.state.fields[i].value.as_slice());
        e.cursor_pos = textarea_move_cursor_vertical(text.as_str(), e.cursor_pos, delta);
    }
}

/// Moves the focused choice to the next (or previous) option.
fn cycle_choice(e: &mut FormEdit, forward: bool)
    requires
        old(e).state.focused < old(e).state.fields@.len(),
    ensures
        cycled(*old(e), *final(e), forward),
{
    let i = e.state.focused;
    match cycle_index(&e.state.fields[i].options, &e.state.fields[i].value, forward) {
        Some(t) => {
            let ghost x = old(e).state.fields@[i as int];
            let v = copy_chars(&e.state.fields[i].options[t]);
            set_focused_value(e, v);
            assert(value_set(x, e.state.fields@[i as int], x.options@[t as int]@));
        },
        None => {},
    }
}

fn field_step(e: &mut FormEdit, key: KeyPress)
    requires
        old(e).state.focused < old(e).state.fields@.len(),
        !(old(e).state.fields@[old(e).state.focused as int].kind is SubForm) || !list_key(key.key),
        form_key_ok(*old(e), key),
        !ctrl_char(key, 'p'),
        !ctrl_char(key, 's'),
        key.key != Key::Esc,
    ensures
        field_key_next(*old(e), key, *final(e)),
{
    let i = e.state.focused;
    let kind = e.state.fields[i].kind;
    let len = utf8_len(&e.state.fields[i].value);
    let c = e.cursor_pos;
    let p = if c < len { c } else { len };
    match key.key {
        Key::Tab => move_focus(e, true),
        Key::BackTab => move_focus(e, false),
        Key::Left => {
            if kind == FieldKind::Enum {
                cycle_choice(e, false);
            } else if c > 0 {
                e.cursor_pos = c - 1;
            }
        },
        Key::Right => {
            if kind == FieldKind::Enum {
                cycle_choice(e, true);
            } else if c < len {
                e.cursor_pos = c + 1;
            }
        },
        Key::Up => {
            if kind == FieldKind::Textarea {
                move_lines(e, -1);
            } else {
                move_focus(e, false);
            }
        },
        Key::Down => {
            if kind == FieldKind::Textarea {
                move_lines(e, 1);
            } else {
                move_focus(e, true);
            }
        },
        Key::PageUp => {
            if kind == FieldKind::Textarea {
                move_lines(e, -10);
            }
        },
        Key::PageDown => {
            if kind == FieldKind::Textarea {
                move_lines(e, 10);
            }
        },
        Key::Char(ch) => {
            if !key.ctrl && accepts_text_kind(kind) {
                type_char(e, ch);
            }
        },
        Key::Backspace => {
            if accepts_text_kind(kind) && p > 0 {
                let k = byte_to_char(&e.state.fields[i].value, p).unwrap();
                proof {
                    let v0 = old(e).state.fields@[i as int].value@;
                    if k == 0 {
                        assert(v0.take(0) =~= Seq::<char>::empty());
                    }
                }
                let mut v = copy_chars(&e.state.fields[i].value);
                v.remove(k - 1);
                set_focused_value(e, v);
                e.cursor_pos = p - 1;
            }
        },
        Key::Enter => {
            if kind == FieldKind::Textarea {
                type_char(e, '\n');
            } else {
                move_focus(e, true);
            }
        },
        _ => {},
    }
}

/// One key in the form editor: Control+P asks for a picker for the focused
/// link field, Control+S returns an item to its list (or commits the
/// form), Escape drops an item's edits (or closes), list fields add,
/// remove, highlight and open items, and other keys move the focus or the
/// cursor, cycle choices and edit text (see `form_edit_next`).
pub fn form_edit_step(form: &mut FormEdit, key: KeyPress, pages_available: bool, images_root_exists: bool) -> (r: FormEditAction)
    requires
        form_key_ok(*old(form), key),
    ensures
        form_edit_next(*old(form), key, pages_available, images_root_exists, *final(form), r),
        form_edit_ok(*final(form)),
{
    if key.key == Key::Char('p') && key.ctrl {
        return picker_for(&form.state, pages_available, images_root_exists);
    }
    if key.key == Key::Char('s') && key.ctrl {
        if form.drill.len() > 0 {
            return_to_parent(form, true);
            return FormEditAction::SaveItemToParent;
        }
        return FormEditAction::CommitTopLevel;
    }
    if key.key == Key::Esc {
        if form.drill.len() > 0 {
            return_to_parent(form, false);
            return FormEditAction::CancelItem;
        }
        return FormEditAction::Close;
    }
    let i = form.state.focused;
    if i >= form.state.fields.len() {
        return FormEditAction::Close;
    }
    let k = key.key;
    let is_list_key = k == Key::Char('A') || k == Key::Char('X') || k == Key::Up || k == Key::Char('k')
        || k == Key::Down || k == Key::Char('j') || k == Key::Enter;
    match form.state.fields[i].kind {
        FieldKind::SubForm { min_items } => {
            if is_list_key {
                return list_step(form, k, min_items);
            }
        },
        _ => {},
    }
    field_step(form, key);
    FormEditAction::Continue
}

/// Opening a list item and saving it back without editing it leaves the
/// form as it was: the same fields, the list holding the same items, the
/// same focus, cursor, scroll offset and drill stack.
pub proof fn law_open_then_save_restores(a: FormEdit, b: FormEdit, c: FormEdit)
    requires
        a.state.focused < a.state.fields@.len(),
        a.state.fields@[a.state.focused as int].selected_item < a.state.fields@[a.state.focused as int].items@.len(),
        drilled_in(a, b),
        saved_to_parent(b, c),
    ensures
        ({
            let i = a.state.focused as int;
            &&& same_but_field(a.state, c.state, i)
            &&& same_but_items(a.state.fields@[i], c.state.fields@[i])
            &&& c.state.fields@[i].items@ == a.state.fields@[i].items@
            &&& c.state.fields@[i].selected_item == a.state.fields@[i].selected_item
            &&& c.cursor_pos == a.cursor_pos
            &&& c.scroll == a.scroll
            &&& c.drill@ == a.drill@
        }),
{
    let i = a.state.focused as int;
    let x = a.state.fields@[i];
    let sel = x.selected_item as int;
    let fr = b.drill@.last();
    let y = fr.parent.fields@[i];
    assert(y.items@.update(sel, b.state) =~= x.items@);
}

/// Typing a one-byte character into a text field and then pressing
/// Backspace gives the text back, with the cursor where the character went.
pub proof fn law_type_then_backspace_restores(a: FormEdit, b: FormEdit, c: FormEdit, ch: char, bs: KeyPress)
    requires
        a.state.focused < a.state.fields@.len(),
        accepts_text(a.state.fields@[a.state.focused as int].kind),
        at_boundary(a.state.fields@[a.state.focused as int].value@, clamped_cursor(a)),
        utf8_width(ch) == 1,
        typed(a, b, ch),
        bs.key == Key::Backspace,
        field_key_next(b, bs, c),
    ensures
        ({
            let i = a.state.focused as int;
            &&& same_but_field(a.state, c.state, i)
            &&& c.state.fields@[i].value@ == a.state.fields@[i].value@
            &&& c.cursor_pos == clamped_cursor(a)
            &&& c.scroll == a.scroll
            &&& c.drill == a.drill
        }),
{
    let i = a.state.focused as int;
    let v = a.state.fields@[i].value@;
    let p = clamped_cursor(a);
    let k = char_at_byte(v, p);
    let w = v.insert(k, ch);
    assert(b.state.fields@[i].value@ == w);
    assert(w.take(k + 1).drop_last() =~= v.take(k));
    assert(w.take(k + 1).last() == ch);
    lemma_bytes_grow(w, k + 1, w.len() as int);
    assert(w.take(w.len() as int) =~= w);
    assert(clamped_cursor(b) == p + 1);
    lemma_char_at_byte(w, k + 1);
    assert(w.remove(k) =~= v);
}

fn drill_ok(e: &FormEdit) -> (r: bool)
    ensures
        r == form_edit_ok(*e),
{
    let mut k: usize = 0;
    while k < e.drill.len()
        invariant
            k <= e.drill@.len(),
            forall|j: int| 0 <= j < k ==> (#[trigger] e.drill@[j]).field < e.drill@[j].parent.fields@.len(),
        decreases e.drill@.len() - k,
    {
        if e.drill[k].field >= e.drill[k].parent.fields.len() {
            return false;
        }
        k += 1;
    }
    true
}

fn fits(s: &FormEditState) -> (r: bool)
    ensures
        r == texts_fit(*s),
{
    let mut k: usize = 0;
    while k < s.fields.len()
        invariant
            k <= s.fields@.len(),
            forall|j: int| 0 <= j < k ==> utf8_bytes((#[trigger] s.fields@[j]).value@) < usize::MAX,
        decreases s.fields@.len() - k,
    {
        if utf8_len_checked(&s.fields[k].value).is_none() {
            return false;
        }
        k += 1;
    }
    true
}

/// Whether `form_edit_step` can take `key` (see `form_key_ok`): a key that
/// would edit text inside a character is refused.
pub fn form_key_admitted(form: &FormEdit, key: KeyPress) -> (r: bool)
    ensures
        r == form_key_ok(*form, key),
{
    if !drill_ok(form) || !fits(&form.state) {
        return false;
    }
    let s = &form.state;
    let i = s.focused;
    if i >= s.fields.len() || (key.key == Key::Char('p') && key.ctrl) || (key.key == Key::Char('s') && key.ctrl)
        || key.key == Key::Esc {
        return true;
    }
    let x = &s.fields[i];
    let len = utf8_len(&x.value);
    let p = if form.cursor_pos < len { form.cursor_pos } else { len };
    match x.kind {
        FieldKind::SubForm { .. } => {
            if key.key == Key::Enter && x.selected_item < x.items.len() {
                let item = &x.items[x.selected_item];
                if item.focused < item.fields.len() {
                    utf8_len_checked(&item.fields[item.focused].value).is_some()
                } else {
                    true
                }
            } else {
                true
            }
        },
        _ => match key.key {
            Key::Char(_) => {
                if !key.ctrl && accepts_text_kind(x.kind) {
                    byte_to_char(&x.value, p).is_some()
                } else {
                    true
                }
            },
            Key::Enter => {
                if x.kind == FieldKind::Textarea {
                    byte_to_char(&x.value, p).is_some()
                } else {
                    true
                }
            },
            Key::Backspace => {
                if accepts_text_kind(x.kind) && p > 0 {
                    byte_to_char(&x.value, p - 1).is_some() && byte_to_char(&x.value, p).is_some()
                } else {
                    true
                }
            },
            _ => true,
        },
    }
}

} // verus!
