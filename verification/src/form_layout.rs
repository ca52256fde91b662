//! Vertical layout of the form editor: every visible field is a label row,
//! a bordered input box and a blank separator row.
use vstd::prelude::*;
use crate::layout::{contains, Rect};
use crate::textarea::{textarea_display_rows, textarea_max_rows_for_window, visual_line_count, TEXTAREA_MAX_DISPLAY_ROWS};

verus! {

/// What a form field shows inside its input box, as far as its height goes.
pub enum FieldBody {
    /// A multi-line text field holding `value`, at least `rows` rows tall.
    Textarea { value: String, rows: u16 },
    /// A list of nested items: a header row plus one row per item.
    SubForm { items: usize },
    /// A single-row field (text, URL, choice).
    Line,
}

/// One field of the form: whether it is shown, and its body.
pub struct FieldLayout {
    pub visible: bool,
    pub body: FieldBody,
}

/// The fields of a form in order, and the index of the focused one.
pub struct FormLayout {
    pub fields: Vec<FieldLayout>,
    pub focused_field: usize,
}

/// `a + b` capped at `u16::MAX`.
pub open spec fn sat_add16(a: int, b: int) -> int {
    if a + b > u16::MAX { u16::MAX as int } else { a + b }
}

/// Rows inside a field's box.
pub open spec fn content_rows(body: FieldBody) -> int {
    match body {
        FieldBody::Textarea { value, rows } => {
            let c = visual_line_count(value@, None);
            let content: int = if c > u16::MAX { u16::MAX as int } else { c as int };
            let base: int = if rows < 1 { 1 } else { rows as int };
            let grown: int = if base > content { base } else { content };
            if grown < TEXTAREA_MAX_DISPLAY_ROWS { grown } else { TEXTAREA_MAX_DISPLAY_ROWS as int }
        },
        FieldBody::SubForm { items } => ((1 + if items < 1 { 1 } else { items as int }) % 0x10000) as int,
        FieldBody::Line => 1,
    }
}

/// Height of a field's bordered box.
pub open spec fn box_height(body: FieldBody) -> int {
    sat_add16(content_rows(body), 2)
}

/// Rows a field takes: label, box, separator.
pub open spec fn entry_height(body: FieldBody) -> int {
    sat_add16(sat_add16(1, box_height(body)), 1)
}

/// Top row of field `k` when the visible fields before it are stacked.
pub open spec fn field_top(fields: Seq<FieldLayout>, k: int) -> int
    decreases k,
{
    if k <= 0 {
        0
    } else if fields[k - 1].visible {
        sat_add16(field_top(fields, k - 1), entry_height(fields[k - 1].body))
    } else {
        field_top(fields, k - 1)
    }
}

/// Every textarea value fits the character count limits.
pub open spec fn form_layout_ok(form: FormLayout) -> bool {
    forall|i: int| 0 <= i < form.fields@.len() ==> match #[trigger] form.fields@[i].body {
        FieldBody::Textarea { value, .. } => value@.len() < usize::MAX,
        FieldBody::SubForm { items } => items < usize::MAX,
        FieldBody::Line => true,
    }
}

/// The (top, bottom) rows of the focused field's label and box.
pub open spec fn focused_rows(form: FormLayout) -> (int, int) {
    let k = form.focused_field as int;
    if k < form.fields@.len() && form.fields@[k].visible {
        let top = field_top(form.fields@, k);
        (top, sat_add16(sat_add16(top, 1), box_height(form.fields@[k].body)))
    } else {
        (0, 0)
    }
}

fn field_content_rows(body: &FieldBody) -> (r: u16)
    requires
        match *body {
            FieldBody::Textarea { value, .. } => value@.len() < usize::MAX,
            FieldBody::SubForm { items } => items < usize::MAX,
            FieldBody::Line => true,
        },
    ensures
        r == content_rows(*body),
{
    match body {
        FieldBody::Textarea { value, rows } => {
            let base = if *rows < 1 { 1 } else { *rows };
            textarea_display_rows(value.as_str(), base, None, TEXTAREA_MAX_DISPLAY_ROWS)
        },
        FieldBody::SubForm { items } => {
            let n = if *items < 1 { 1 } else { *items };
            ((1 + n) % 0x10000) as u16
        },
        FieldBody::Line => 1,
    }
}

/// The (top, bottom) virtual rows of the focused field (label through box)
/// in the stacked form layout; (0, 0) when the focused field is hidden or
/// out of range. Additions saturate at `u16::MAX`.
pub fn focused_field_virtual_rows(state: &FormLayout) -> (r: (u16, u16))
    requires
        form_layout_ok(*state),
    ensures
        (r.0 as int, r.1 as int) == focused_rows(*state),
{
    let mut y: u16 = 0;
    let mut idx: usize = 0;
    while idx < state.fields.len()
        invariant
            form_layout_ok(*state),
            idx <= state.fields@.len(),
            y == field_top(state.fields@, idx as int),
            idx <= state.focused_field || state.focused_field >= state.fields@.len() || !state.fields@[state.focused_field as int].visible,
        decreases state.fields@.len() - idx,
    {
        let field = &state.fields[idx];
        if !field.visible {
            idx += 1;
            continue;
        }
        assert(match state.fields@[idx as int].body {
            FieldBody::Textarea { value, .. } => value@.len() < usize::MAX,
            FieldBody::SubForm { items } => items < usize::MAX,
            FieldBody::Line => true,
        });
        let content = field_content_rows(&field.body);
        let box_h = content.saturating_add(2);
        let entry = 1u16.saturating_add(box_h).saturating_add(1);
        if idx == state.focused_field {
            return (y, y.saturating_add(1).saturating_add(box_h));
        }
        y = y.saturating_add(entry);
        idx += 1;
    }
    (0, 0)
}

/// Rows of the form editor's content window assumed when following focus.
pub const ESTIMATED_VISIBLE: u16 = 16;

/// Scroll offset that keeps the focused field in an `ESTIMATED_VISIBLE`-row
/// window: scroll up to its top when above the window, down so its bottom
/// is the window's last row when below, unchanged otherwise.
pub fn auto_scroll_for_focus(state: &FormLayout, current_scroll: u16) -> (r: u16)
    requires
        form_layout_ok(*state),
    ensures
        ({
            let (top, bottom) = focused_rows(*state);
            r == if top < current_scroll {
                top
            } else if bottom > sat_add16(current_scroll as int, ESTIMATED_VISIBLE as int) {
                if bottom >= ESTIMATED_VISIBLE { bottom - ESTIMATED_VISIBLE } else { 0 }
            } else {
                current_scroll as int
            }
        }),
{
    let (top, bottom) = focused_field_virtual_rows(state);
    if top < current_scroll {
        top
    } else if bottom > current_scroll.saturating_add(ESTIMATED_VISIBLE) {
        bottom.saturating_sub(ESTIMATED_VISIBLE)
    } else {
        current_scroll
    }
}

/// Rows inside a field's box as the dialog draws it: a multi-line field's
/// text wrapped at `wrap` columns, grown to its row count and capped at
/// `max_rows`; a list a header row plus a row per item; one row otherwise.
pub open spec fn drawn_content_rows(body: FieldBody, wrap: u16, max_rows: u16) -> int {
    match body {
        FieldBody::Textarea { value, rows } => {
            let c = visual_line_count(value@, Some(wrap));
            let content: int = if c > u16::MAX { u16::MAX as int } else { c as int };
            let base: int = if rows < 1 { 1 } else { rows as int };
            let grown: int = if base > content { base } else { content };
            let cap: int = if max_rows < 1 { 1 } else { max_rows as int };
            if grown < cap { grown } else { cap }
        },
        FieldBody::SubForm { items } => ((1 + if items < 1 { 1 } else { items as int }) % 0x10000) as int,
        FieldBody::Line => 1,
    }
}

/// The slots of the first `n` fields, stacked from row 0: for each shown
/// field its index, label row, box row and box height, then the row after
/// its blank separator.
pub open spec fn drawn_slots(fields: Seq<FieldLayout>, wrap: u16, max_rows: u16, n: int) -> (Seq<(usize, u16, u16, u16)>, int)
    decreases n,
{
    if n <= 0 {
        (Seq::empty(), 0)
    } else {
        let (prev, y) = drawn_slots(fields, wrap, max_rows, n - 1);
        let f = fields[n - 1];
        if !f.visible {
            (prev, y)
        } else {
            let h = sat_add16(drawn_content_rows(f.body, wrap, max_rows), 2);
            (prev.push(((n - 1) as usize, y as u16, sat_add16(y, 1) as u16, h as u16)), sat_add16(y, 1 + h + 1))
        }
    }
}

/// The most rows a multi-line field takes in a content window `h` rows
/// tall: three fewer than the window, at least one, at most
/// `TEXTAREA_MAX_DISPLAY_ROWS`.
pub open spec fn window_rows_cap(h: u16) -> u16 {
    (if h <= 4 { 1 } else if h - 3 > TEXTAREA_MAX_DISPLAY_ROWS { TEXTAREA_MAX_DISPLAY_ROWS as int } else { h - 3 }) as u16
}

/// Every shown field's box leaves room, within `u16`, for its label and
/// separator rows, and every multi-line text fits the character count.
pub open spec fn slots_fit(form: FormLayout, wrap: u16, max_rows: u16) -> bool {
    forall|i: int| 0 <= i < form.fields@.len() ==> {
        &&& match (#[trigger] form.fields@[i]).body {
            FieldBody::Textarea { value, .. } => value@.len() < usize::MAX,
            FieldBody::SubForm { items } => items < usize::MAX,
            FieldBody::Line => true,
        }
        &&& form.fields@[i].visible ==> sat_add16(drawn_content_rows(form.fields@[i].body, wrap, max_rows), 2) + 2 <= u16::MAX
    }
}

/// The slots of the form editor's fields in a content window
/// `content_width` by `content_height` (multi-line texts wrap two columns
/// inside the window), and the total height of the stacked fields.
pub fn form_slots(form: &FormLayout, content_width: u16, content_height: u16) -> (r: (Vec<(usize, u16, u16, u16)>, u16))
    requires
        slots_fit(*form, (if content_width >= 2 { content_width - 2 } else { 0 }) as u16,
            window_rows_cap(content_height)),
    ensures
        ({
            let wrap = (if content_width >= 2 { content_width - 2 } else { 0 }) as u16;
            let (slots, total) = drawn_slots(form.fields@, wrap, window_rows_cap(content_height), form.fields@.len() as int);
            r.0@ == slots && r.1 as int == total
        }),
{
    let wrap = content_width.saturating_sub(2);
    let max_rows = textarea_max_rows_for_window(content_height);
    let mut slots: Vec<(usize, u16, u16, u16)> = Vec::new();
    let mut y: u16 = 0;
    let mut idx: usize = 0;
    while idx < form.fields.len()
        invariant
            wrap == (if content_width >= 2 { content_width - 2 } else { 0 }) as u16,
            max_rows == window_rows_cap(content_height),
            slots_fit(*form, wrap, max_rows),
            idx <= form.fields@.len(),
            (slots@, y as int) == drawn_slots(form.fields@, wrap, max_rows, idx as int),
        decreases form.fields@.len() - idx,
    {
        let field = &form.fields[idx];
        if field.visible {
            let content: u16 = match &field.body {
                FieldBody::Textarea { value, rows } => {
                    let base = if *rows < 1 { 1 } else { *rows };
                    textarea_display_rows(value.as_str(), base, Some(wrap), max_rows)
                },
                FieldBody::SubForm { items } => {
                    let n = if *items < 1 { 1 } else { *items };
                    ((1 + n) % 0x10000) as u16
                },
                FieldBody::Line => 1,
            };
            let h = content.saturating_add(2);
            slots.push((idx, y, y.saturating_add(1), h));
            y = y.saturating_add(1 + h + 1);
        }
        idx += 1;
    }
    (slots, y)
}

/// The scroll offset the dialog uses: `offset`, at most the rows the
/// stacked fields run past the window.
pub fn form_scroll(total: u16, content_height: u16, offset: u16) -> (r: u16)
    ensures
        r == (if offset < total - content_height { offset as int } else if total >= content_height { total - content_height } else { 0 }),
{
    let max_scroll = total.saturating_sub(content_height);
    if offset < max_scroll { offset } else { max_scroll }
}

/// Where a slot's input box is drawn, and can be clicked, in the content
/// window `content` scrolled by `scroll`: shown when its top row is in the
/// window and at least three of its rows are; `None` otherwise.
pub open spec fn slot_area(slot: (usize, u16, u16, u16), scroll: u16, content: Rect) -> Option<Rect> {
    let label = slot.1 - scroll;
    let top = slot.2 - scroll;
    let ch = content.height as int;
    if top + slot.3 <= 0 || label >= ch || !(0 <= top < ch) {
        None
    } else {
        let visible = if slot.3 < ch - top { slot.3 as int } else { ch - top };
        if visible < 3 {
            None
        } else {
            Some(Rect { x: content.x, y: (content.y + top) as u16, width: content.width, height: visible as u16 })
        }
    }
}

/// The clickable input boxes of the slots, in order, with their fields.
pub open spec fn slot_areas(slots: Seq<(usize, u16, u16, u16)>, scroll: u16, content: Rect) -> Seq<(usize, Rect)>
    decreases slots.len(),
{
    if slots.len() == 0 {
        Seq::empty()
    } else {
        let prev = slot_areas(slots.drop_last(), scroll, content);
        match slot_area(slots.last(), scroll, content) {
            Some(a) => prev.push((slots.last().0, a)),
            None => prev,
        }
    }
}

/// The input boxes drawn for `slots` (see `slot_area`).
pub fn field_areas(slots: &Vec<(usize, u16, u16, u16)>, scroll: u16, content: Rect) -> (r: Vec<(usize, Rect)>)
    requires
        content.y + content.height <= u16::MAX,
    ensures
        r@ == slot_areas(slots@, scroll, content),
{
    let mut out: Vec<(usize, Rect)> = Vec::new();
    let mut i: usize = 0;
    while i < slots.len()
        invariant
            content.y + content.height <= u16::MAX,
            i <= slots@.len(),
            out@ == slot_areas(slots@.take(i as int), scroll, content),
        decreases slots@.len() - i,
    {
        let s = slots[i];
        assert(slots@.take(i + 1).drop_last() =~= slots@.take(i as int));
        let label = s.1 as i32 - scroll as i32;
        let top = s.2 as i32 - scroll as i32;
        let ch = content.height as i32;
        if !(top + s.3 as i32 <= 0 || label >= ch || top < 0 || top >= ch) {
            let visible = if (s.3 as i32) < ch - top { s.3 as i32 } else { ch - top };
            if visible >= 3 {
                out.push((s.0, Rect { x: content.x, y: content.y + top as u16, width: content.width, height: visible as u16 }));
            }
        }
        i += 1;
    }
    assert(slots@.take(slots@.len() as int) =~= slots@);
    out
}

/// The field whose input box holds the cell `(col, row)`: the first box
/// that does.
pub open spec fn clicked_field(areas: Seq<(usize, Rect)>, col: u16, row: u16) -> Option<usize>
    decreases areas.len(),
{
    if areas.len() == 0 {
        None
    } else {
        let a = areas[0].1;
        if a.x <= col < a.x + a.width && a.y <= row < a.y + a.height {
            Some(areas[0].0)
        } else {
            clicked_field(areas.drop_first(), col, row)
        }
    }
}

/// Which field a click in the form editor focuses (see `clicked_field`).
pub fn field_at_click(areas: &Vec<(usize, Rect)>, col: u16, row: u16) -> (r: Option<usize>)
    requires
        forall|k: int| 0 <= k < areas@.len() ==> (#[trigger] areas@[k]).1.x + areas@[k].1.width <= u16::MAX
            && areas@[k].1.y + areas@[k].1.height <= u16::MAX,
    ensures
        r == clicked_field(areas@, col, row),
{
    let mut i: usize = 0;
    assert(areas@.skip(0) =~= areas@);
    while i < areas.len()
        invariant
            i <= areas@.len(),
            forall|k: int| 0 <= k < areas@.len() ==> (#[trigger] areas@[k]).1.x + areas@[k].1.width <= u16::MAX
                && areas@[k].1.y + areas@[k].1.height <= u16::MAX,
            clicked_field(areas@, col, row) == clicked_field(areas@.skip(i as int), col, row),
        decreases areas@.len() - i,
    {
        let (idx, a) = areas[i];
        assert(areas@.skip(i as int).drop_first() =~= areas@.skip(i + 1));
        if contains(a, col, row) {
            return Some(idx);
        }
        i += 1;
    }
    assert(areas@.skip(i as int).len() == 0);
    None
}

} // verus!
