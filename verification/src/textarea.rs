//! Multi-line text fields of the form editor: where the cursor sits, how a
//! cursor moves between lines, and which rows of a field are on screen.
use vstd::prelude::*;
use vstd::string::StrSliceExecFns;
use crate::text::{
    col_in, count_char, lemma_count_char_concat, lemma_join_prefix, lemma_join_split,
    lemma_col_in_concat, lemma_join_take_facts, lemma_line_offset_monotonic, lemma_count_char_le_len, join_lines, join_newlines, lemma_split_lines_no_newline, lemma_split_lines_nonempty, line_offset,
    push_char, split_lines, views, chars_of, input_lines_preserve,
};

verus! {

broadcast use vstd::string::group_string_axioms;

/// Upper bound on the rows a textarea field takes in the form editor.
pub const TEXTAREA_MAX_DISPLAY_ROWS: u16 = 35;

/// The characters of `v` before cursor position `pos` (clamped to the text).
pub open spec fn cursor_prefix(v: Seq<char>, pos: int) -> Seq<char> {
    if pos < v.len() { v.take(pos) } else { v }
}

/// Zero-based line of the cursor: the `'\n'`s before it.
pub open spec fn cursor_row_of(v: Seq<char>, pos: int) -> nat {
    count_char(cursor_prefix(v, pos), '\n')
}

/// Zero-based column of the cursor within its line.
pub open spec fn cursor_col_of(v: Seq<char>, pos: int) -> nat {
    col_in(cursor_prefix(v, pos))
}

/// The cursor position for row `r` and column `c` of `lines`: the row is
/// clamped to the last line and the column to that line's length.
pub open spec fn row_col_offset(lines: Seq<Seq<char>>, r: int, c: int) -> int {
    let row = if lines.len() == 0 { 0 } else if r < lines.len() - 1 { r } else { lines.len() - 1 };
    let line_len = if row < lines.len() { lines[row].len() as int } else { 0 };
    line_offset(lines, row) + if c < line_len { c } else { line_len }
}

/// `s` with the block cursor `'▋'` inserted before character `pos`
/// (appended when `pos` is at or past the end).
pub open spec fn cursor_line(s: Seq<char>, pos: int) -> Seq<char> {
    let p = if pos < s.len() { pos } else { s.len() as int };
    s.take(p) + seq!['▋'] + s.skip(p)
}

/// The row reached from `row` by moving `delta` rows, kept within `0..n`.
pub open spec fn clamp_row(row: int, delta: int, n: int) -> int {
    let t = row + delta;
    if t < 0 { 0 } else if t > n - 1 { n - 1 } else { t }
}

proof fn lemma_count_prefix_le(v: Seq<char>, k: int)
    requires
        0 <= k <= v.len(),
    ensures
        count_char(v.take(k), '\n') <= count_char(v, '\n'),
{
    assert(v =~= v.take(k) + v.skip(k));
    lemma_count_char_concat(v.take(k), v.skip(k), '\n');
}

proof fn lemma_offset_total(v: Seq<char>)
    ensures
        line_offset(split_lines(v), split_lines(v).len() as int) == v.len() + 1,
{
    let lines = split_lines(v);
    lemma_split_lines_nonempty(v);
    lemma_split_lines_no_newline(v);
    lemma_join_take_facts(lines, lines.len() as int);
    assert(lines.take(lines.len() as int) =~= lines);
    lemma_join_split(v);
}

/// Moving to a row and column of a text lands on that row, at the asked
/// column or at the end of a shorter line.
pub proof fn law_row_col_round_trip(v: Seq<char>, r: int, c: int)
    requires
        0 <= r < split_lines(v).len(),
        0 <= c,
    ensures
        row_col_offset(split_lines(v), r, c) <= v.len(),
        cursor_row_of(v, row_col_offset(split_lines(v), r, c)) == r,
        cursor_col_of(v, row_col_offset(split_lines(v), r, c)) == if c
            < split_lines(v)[r].len() {
            c
        } else {
            split_lines(v)[r].len() as int
        },
{
    let lines = split_lines(v);
    lemma_split_lines_no_newline(v);
    lemma_join_split(v);
    let cc = if c < lines[r].len() { c } else { lines[r].len() as int };
    lemma_join_prefix(lines, r, cc);
    let p = line_offset(lines, r) + cc;
    assert(row_col_offset(lines, r, c) == p);
    if p == v.len() {
        assert(v.take(p) =~= v);
    }
}

proof fn lemma_prefix_step(v: Seq<char>, a: int, b: int)
    requires
        0 <= a <= b <= v.len(),
    ensures
        count_char(v.take(a), '\n') <= count_char(v.take(b), '\n'),
        count_char(v.take(a), '\n') == count_char(v.take(b), '\n')
            ==> col_in(v.take(b)) == col_in(v.take(a)) + (b - a),
{
    let seg = v.subrange(a, b);
    assert(v.take(b) =~= v.take(a) + seg);
    lemma_count_char_concat(v.take(a), seg, '\n');
    if count_char(v.take(a), '\n') == count_char(v.take(b), '\n') {
        assert forall|i: int| 0 <= i < seg.len() implies seg[i] != '\n' by {
            if seg[i] == '\n' {
                assert(seg =~= seg.take(i) + seg.subrange(i, seg.len() as int));
                lemma_count_char_concat(seg.take(i), seg.subrange(i, seg.len() as int), '\n');
                let t = seg.subrange(i, seg.len() as int);
                assert(t =~= seq!['\n'] + t.skip(1));
                lemma_count_char_concat(seq!['\n'], t.skip(1), '\n');
                assert(seq!['\n'].drop_last() =~= Seq::<char>::empty());
            }
        }
        lemma_col_in_concat(v.take(a), seg);
    }
}

/// Going from a cursor position to its row and column and back again
/// gives the position, clamped to the text.
pub proof fn law_cursor_round_trip(v: Seq<char>, pos: int)
    requires
        0 <= pos,
    ensures
        row_col_offset(split_lines(v), cursor_row_of(v, pos) as int, cursor_col_of(v, pos) as int)
            == if pos < v.len() { pos } else { v.len() as int },
{
    let lines = split_lines(v);
    let n = lines.len() as int;
    let p = if pos < v.len() { pos } else { v.len() as int };
    assert(cursor_prefix(v, pos) =~= v.take(p));
    let r = cursor_row_of(v, pos) as int;
    let c = cursor_col_of(v, pos) as int;
    lemma_split_lines_nonempty(v);
    lemma_split_lines_no_newline(v);
    lemma_join_split(v);
    lemma_offset_total(v);
    // The last line ends the text.
    lemma_join_prefix(lines, n - 1, lines[n - 1].len() as int);
    assert(line_offset(lines, n) == line_offset(lines, n - 1) + lines[n - 1].len() + 1);
    assert(v.take(v.len() as int) =~= v);
    lemma_prefix_step(v, p, v.len() as int);
    assert(r < n);
    let s = line_offset(lines, r);
    let e = s + lines[r].len();
    lemma_line_offset_monotonic(lines, 0, r);
    assert(join_lines(lines) == v);
    lemma_join_prefix(lines, r, 0);
    lemma_join_prefix(lines, r, lines[r].len() as int);
    if p < s {
        lemma_prefix_step(v, p, s);
        assert(false);
    }
    if p > e {
        if r + 1 < n {
            lemma_join_prefix(lines, r + 1, 0);
            assert(line_offset(lines, r + 1) == e + 1);
            lemma_prefix_step(v, e + 1, p);
            assert(false);
        } else {
            assert(e == v.len());
            assert(false);
        }
    }
    lemma_prefix_step(v, s, p);
    assert(c == p - s);
}

/// Zero-based line of the text cursor at `cursor_pos` in `value`.
pub fn textarea_cursor_row(value: &str, cursor_pos: usize) -> (r: usize)
    ensures
        r == cursor_row_of(value@, cursor_pos as int),
        r < split_lines(value@).len(),
{
    let cs = chars_of(value);
    let k = if cursor_pos < cs.len() { cursor_pos } else { cs.len() };
    let mut n: usize = 0;
    let mut i: usize = 0;
    while i < k
        invariant
            k <= cs@.len(),
            cs@ == value@,
            i <= k,
            n == count_char(cs@.take(i as int), '\n'),
            n <= i,
        decreases k - i,
    {
        assert(cs@.take(i + 1).drop_last() =~= cs@.take(i as int));
        if cs[i] == '\n' {
            n += 1;
        }
        i += 1;
    }
    proof {
        if k == cs@.len() {
            assert(cs@.take(k as int) =~= cs@);
        }
        lemma_count_prefix_le(value@, k as int);
        lemma_split_lines_nonempty(value@);
    }
    n
}

/// Zero-based column of the text cursor at `cursor_pos` within its line.
pub fn textarea_cursor_col(value: &str, cursor_pos: usize) -> (r: usize)
    ensures
        r == cursor_col_of(value@, cursor_pos as int),
{
    let cs = chars_of(value);
    let k = if cursor_pos < cs.len() { cursor_pos } else { cs.len() };
    let mut col: usize = 0;
    let mut i: usize = 0;
    while i < k
        invariant
            k <= cs@.len(),
            cs@ == value@,
            i <= k,
            col == col_in(cs@.take(i as int)),
            col <= i,
        decreases k - i,
    {
        assert(cs@.take(i + 1).drop_last() =~= cs@.take(i as int));
        if cs[i] == '\n' {
            col = 0;
        } else {
            col += 1;
        }
        i += 1;
    }
    proof {
        if k == cs@.len() {
            assert(cs@.take(k as int) =~= cs@);
        }
    }
    col
}

/// Cursor position (in characters) of row `target_row`, column `target_col`
/// of `lines` joined with `'\n'`; the row is clamped to the last line and the
/// column to that line's length.
pub fn cursor_from_row_col(lines: &[String], target_row: usize, target_col: usize) -> (r: usize)
    requires
        line_offset(views(lines@), lines@.len() as int) <= usize::MAX,
    ensures
        r == row_col_offset(views(lines@), target_row as int, target_col as int),
{
    let ghost ls = views(lines@);
    let row = if lines.len() == 0 {
        0
    } else if target_row < lines.len() - 1 {
        target_row
    } else {
        lines.len() - 1
    };
    let mut cursor: usize = 0;
    let mut i: usize = 0;
    while i < row
        invariant
            ls == views(lines@),
            row <= lines@.len(),
            i <= row,
            cursor == line_offset(ls, i as int),
            line_offset(ls, lines@.len() as int) <= usize::MAX,
        decreases row - i,
    {
        proof {
            lemma_line_offset_monotonic(ls, i + 1, lines@.len() as int);
        }
        cursor = cursor + lines[i].as_str().unicode_len() + 1;
        i += 1;
    }
    let line_len = if row < lines.len() { lines[row].as_str().unicode_len() } else { 0 };
    proof {
        if row < lines@.len() {
            lemma_line_offset_monotonic(ls, row + 1, lines@.len() as int);
        }
    }
    cursor + if target_col < line_len { target_col } else { line_len }
}

/// Cursor position after moving `row_delta` lines up (negative) or down
/// (positive), keeping the column when the target line is long enough and
/// landing at its end otherwise; the row is clamped to the text.
pub fn textarea_move_cursor_vertical(value: &str, cursor_pos: usize, row_delta: isize) -> (r: usize)
    requires
        value@.len() < usize::MAX,
    ensures
        ({
            let lines = split_lines(value@);
            let target = clamp_row(cursor_row_of(value@, cursor_pos as int) as int, row_delta as int, lines.len() as int);
            let col = cursor_col_of(value@, cursor_pos as int) as int;
            &&& r == row_col_offset(lines, target, col)
            &&& cursor_row_of(value@, r as int) == target
            &&& cursor_col_of(value@, r as int) == if col < lines[target].len() { col } else { lines[target].len() as int }
        }),
{
    let lines = input_lines_preserve(value);
    let row = textarea_cursor_row(value, cursor_pos);
    let current_row = if row < lines.len() - 1 { row } else { lines.len() - 1 };
    let current_col = textarea_cursor_col(value, cursor_pos);
    let moved = if row_delta >= 0 {
        current_row.saturating_add(row_delta as usize)
    } else {
        let back = (-(row_delta + 1)) as usize;
        current_row.saturating_sub(back).saturating_sub(1)
    };
    let target_row = if moved < lines.len() - 1 { moved } else { lines.len() - 1 };
    proof {
        lemma_offset_total(value@);
        law_row_col_round_trip(value@, target_row as int, current_col as int);
    }
    cursor_from_row_col(lines.as_slice(), target_row, current_col)
}

/// `value` with a block cursor `'▋'` shown at `cursor_pos` (clamped to the end).
pub fn render_cursor_line(value: &str, cursor_pos: usize) -> (r: String)
    ensures
        r@ == cursor_line(value@, cursor_pos as int),
{
    let chars = chars_of(value);
    let pos = if cursor_pos < chars.len() { cursor_pos } else { chars.len() };
    let mut out = String::new();
    let mut i: usize = 0;
    while i < chars.len()
        invariant
            chars@ == value@,
            pos <= chars@.len(),
            i <= chars@.len(),
            out@ == if i <= pos { chars@.take(i as int) } else { chars@.take(pos as int) + seq!['▋'] + chars@.subrange(pos as int, i as int) },
        decreases chars@.len() - i,
    {
        if i == pos {
            push_char(&mut out, '▋');
        }
        push_char(&mut out, chars[i]);
        proof {
            if i + 1 <= pos {
                assert(out@ =~= chars@.take(i + 1));
            } else {
                assert(out@ =~= chars@.take(pos as int) + seq!['▋'] + chars@.subrange(pos as int, i + 1));
            }
        }
        i += 1;
    }
    if pos >= chars.len() {
        push_char(&mut out, '▋');
    }
    assert(out@ =~= cursor_line(value@, cursor_pos as int));
    out
}


/// First shown row of a `visible`-row window (`visible >= 1`) that keeps
/// `cursor_row` on screen when the field is focused; 0 otherwise.
pub open spec fn window_start(cursor_row: int, focused: bool, visible: int) -> int {
    if focused && cursor_row >= visible - 1 { cursor_row - (visible - 1) } else { 0 }
}

/// The `max(visible_rows, 1)` rows a textarea shows: lines from the window
/// start on, the cursor's line drawn with the block cursor when focused, and
/// empty rows below the text's last line.
pub open spec fn window_rows(v: Seq<char>, pos: int, focused: bool, visible_rows: int) -> Seq<Seq<char>> {
    let lines = split_lines(v);
    let vis = if visible_rows < 1 { 1 } else { visible_rows };
    let cr = cursor_row_of(v, pos) as int;
    let start = window_start(cr, focused, vis);
    Seq::new(vis as nat, |i: int|
        if start + i < lines.len() {
            if focused && start + i == cr {
                cursor_line(lines[start + i], cursor_col_of(v, pos) as int)
            } else {
                lines[start + i]
            }
        } else {
            Seq::<char>::empty()
        })
}

proof fn lemma_window_row(v: Seq<char>, pos: int, focused: bool, visible_rows: int, j: int)
    requires
        visible_rows >= 1,
        0 <= j < visible_rows,
    ensures
        ({
            let lines = split_lines(v);
            let cr = cursor_row_of(v, pos) as int;
            let start = window_start(cr, focused, visible_rows);
            window_rows(v, pos, focused, visible_rows)[j] == if start + j < lines.len() {
                if focused && start + j == cr {
                    cursor_line(lines[start + j], cursor_col_of(v, pos) as int)
                } else {
                    lines[start + j]
                }
            } else {
                Seq::<char>::empty()
            }
        }),
        window_rows(v, pos, focused, visible_rows).len() == visible_rows,
{
}

/// The textarea display for a window of `visible_rows` rows: the shown rows
/// joined with `'\n'`, the index of the first shown line, and the number of
/// lines of the text.
pub fn render_textarea_display_window(
    value: &str,
    cursor_pos: usize,
    focused: bool,
    visible_rows: usize,
) -> (r: (String, usize, usize))
    requires
        value@.len() + visible_rows < usize::MAX,
    ensures
        r.0@ == join_lines(window_rows(value@, cursor_pos as int, focused, visible_rows as int)),
        r.1 == window_start(cursor_row_of(value@, cursor_pos as int) as int, focused, if visible_rows < 1 { 1 } else { visible_rows as int }),
        r.2 == split_lines(value@).len(),
{
    let visible_rows = if visible_rows < 1 { 1 } else { visible_rows };
    let lines = input_lines_preserve(value);
    let ghost ls = split_lines(value@);
    proof {
        lemma_split_lines_nonempty(value@);
        assert(count_char(value@, '\n') <= value@.len()) by {
            lemma_count_char_le_len(value@, '\n');
        }
    }
    let cursor_row = textarea_cursor_row(value, cursor_pos);
    let start = if focused && cursor_row >= visible_rows - 1 {
        cursor_row - (visible_rows - 1)
    } else {
        0
    };
    let end = if start + visible_rows < lines.len() { start + visible_rows } else { lines.len() };
    let cursor_col = textarea_cursor_col(value, cursor_pos);
    let ghost rows = window_rows(value@, cursor_pos as int, focused, visible_rows as int);
    let mut display: Vec<String> = Vec::new();
    let mut idx = start;
    while idx < end
        invariant
            views(lines@) == ls,
            ls == split_lines(value@),
            start <= idx <= end,
            end <= lines@.len(),
            end <= start + visible_rows,
            cursor_row == cursor_row_of(value@, cursor_pos as int),
            cursor_col == cursor_col_of(value@, cursor_pos as int),
            rows == window_rows(value@, cursor_pos as int, focused, visible_rows as int),
            start == window_start(cursor_row as int, focused, visible_rows as int),
            visible_rows >= 1,
            display@.len() == idx - start,
            forall|j: int| 0 <= j < display@.len() ==> #[trigger] display@[j]@ == rows[j],
        decreases end - idx,
    {
        let ghost j = idx - start;
        assert(lines@[idx as int]@ == ls[idx as int]);
        if focused && idx == cursor_row {
            let shown = render_cursor_line(lines[idx].as_str(), cursor_col);
            display.push(shown);
        } else {
            display.push(lines[idx].clone());
        }
        proof {
            lemma_window_row(value@, cursor_pos as int, focused, visible_rows as int, j as int);
        }
        assert(display@[j]@ == rows[j]);
        idx += 1;
    }
    while display.len() < visible_rows
        invariant
            views(lines@) == ls,
            ls == split_lines(value@),
            end <= lines@.len(),
            end as int == if start + visible_rows < ls.len() { (start + visible_rows) as int } else { ls.len() as int },
            rows == window_rows(value@, cursor_pos as int, focused, visible_rows as int),
            start == window_start(cursor_row as int, focused, visible_rows as int),
            cursor_row == cursor_row_of(value@, cursor_pos as int),
            visible_rows >= 1,
            end - start <= display@.len() <= visible_rows,
            forall|j: int| 0 <= j < display@.len() ==> #[trigger] display@[j]@ == rows[j],
        decreases visible_rows - display@.len(),
    {
        let ghost j = display@.len() as int;
        assert(start + j >= ls.len());
        display.push(String::new());
        proof {
            lemma_window_row(value@, cursor_pos as int, focused, visible_rows as int, j);
        }
        assert(display@[j]@ == rows[j]);
    }
    assert(views(display@) =~= rows);
    let text = join_newlines(&display);
    (text, start, lines.len())
}

/// The textarea display for `visible_rows` rows (see
/// `render_textarea_display_window`), without the window bookkeeping.
pub fn render_textarea_display(value: &str, cursor_pos: usize, focused: bool, visible_rows: usize) -> (r: String)
    requires
        value@.len() + visible_rows < usize::MAX,
    ensures
        r@ == join_lines(window_rows(value@, cursor_pos as int, focused, visible_rows as int)),
{
    render_textarea_display_window(value, cursor_pos, focused, visible_rows).0
}


/// `ceil(a / w)` for `w >= 1`.
pub open spec fn div_ceil(a: nat, w: nat) -> nat {
    a / w + if a % w == 0 { 0nat } else { 1nat }
}

/// Screen rows that `lines` take when each is wrapped at `w >= 1`
/// characters; an empty line still takes one row.
pub open spec fn wrapped_rows(lines: Seq<Seq<char>>, w: nat) -> nat
    decreases lines.len(),
{
    if lines.len() == 0 {
        0
    } else {
        let last = div_ceil(lines.last().len(), w);
        wrapped_rows(lines.drop_last(), w) + if last < 1 { 1nat } else { last }
    }
}

/// Rows a textarea value takes: one per line when not wrapped, otherwise
/// the wrapped rows at width `max(w, 1)`; at least one.
pub open spec fn visual_line_count(v: Seq<char>, wrap_width: Option<u16>) -> nat {
    match wrap_width {
        None => split_lines(v).len(),
        Some(w) => {
            let n = wrapped_rows(split_lines(v), if w < 1 { 1 } else { w as nat });
            if n < 1 { 1 } else { n }
        },
    }
}

proof fn lemma_div_ceil_le(a: nat, w: nat)
    requires
        w >= 1,
    ensures
        div_ceil(a, w) <= a + 1,
        a >= 1 ==> div_ceil(a, w) <= a,
{
    assert(a / w <= a) by (nonlinear_arith)
        requires
            w >= 1,
    ;
    assert(a >= 1 && a % w != 0 ==> a / w < a) by (nonlinear_arith)
        requires
            w >= 1,
    ;
}

proof fn lemma_line_offset_drop_last(lines: Seq<Seq<char>>, k: int)
    requires
        0 <= k < lines.len(),
    ensures
        line_offset(lines.drop_last(), k) == line_offset(lines, k),
    decreases k,
{
    if k > 0 {
        lemma_line_offset_drop_last(lines, k - 1);
    }
}

proof fn lemma_wrapped_rows_bound(lines: Seq<Seq<char>>, w: nat)
    requires
        w >= 1,
    ensures
        wrapped_rows(lines, w) <= line_offset(lines, lines.len() as int),
    decreases lines.len(),
{
    if lines.len() > 0 {
        let dl = lines.drop_last();
        lemma_wrapped_rows_bound(dl, w);
        lemma_div_ceil_le(lines.last().len(), w);
        if lines.len() > 1 {
            lemma_line_offset_drop_last(lines, lines.len() - 1);
        }
        assert(line_offset(lines, lines.len() as int) == line_offset(lines, lines.len() - 1) + lines[lines.len() - 1].len() + 1);
    }
}

/// Rows the textarea value takes on screen: its line count when
/// `wrap_width` is `None`, else the sum over lines of the rows each needs when
/// wrapped at `max(wrap_width, 1)` characters; never less than one.
pub fn textarea_visual_line_count(value: &str, wrap_width: Option<u16>) -> (r: usize)
    requires
        value@.len() < usize::MAX,
    ensures
        r == visual_line_count(value@, wrap_width),
        r >= 1,
{
    let lines = input_lines_preserve(value);
    let ghost ls = split_lines(value@);
    match wrap_width {
        None => lines.len(),
        Some(w) => {
            let width: usize = if w < 1 { 1 } else { w as usize };
            proof {
                lemma_offset_total(value@);
                lemma_wrapped_rows_bound(ls, width as nat);
            }
            let mut total: usize = 0;
            let mut i: usize = 0;
            while i < lines.len()
                invariant
                    views(lines@) == ls,
                    ls == split_lines(value@),
                    width >= 1,
                    i <= lines@.len(),
                    total == wrapped_rows(ls.take(i as int), width as nat),
                    wrapped_rows(ls, width as nat) <= value@.len() + 1,
                    value@.len() < usize::MAX,
                decreases lines@.len() - i,
            {
                let chars = lines[i].as_str().unicode_len();
                assert(chars % width != 0 ==> chars / width < usize::MAX) by (nonlinear_arith)
                    requires
                        width >= 1,
                        chars <= usize::MAX,
                ;
                let rows = chars / width + if chars % width == 0 { 0 } else { 1 };
                let rows = if rows < 1 { 1 } else { rows };
                proof {
                    assert(ls.take(i + 1).drop_last() =~= ls.take(i as int));
                    lemma_wrapped_rows_prefix_le(ls, (i + 1) as int, width as nat);
                }
                total = total + rows;
                i += 1;
            }
            assert(ls.take(lines@.len() as int) =~= ls);
            if total < 1 { 1 } else { total }
        },
    }
}

proof fn lemma_wrapped_rows_prefix_le(lines: Seq<Seq<char>>, k: int, w: nat)
    requires
        0 <= k <= lines.len(),
    ensures
        wrapped_rows(lines.take(k), w) <= wrapped_rows(lines, w),
    decreases lines.len(),
{
    if k < lines.len() {
        lemma_wrapped_rows_prefix_le(lines.drop_last(), k, w);
        assert(lines.drop_last().take(k) =~= lines.take(k));
    } else {
        assert(lines.take(k) =~= lines);
    }
}

/// Rows a textarea field shows: at least `base_rows` and the value's visual
/// line count (capped to `u16::MAX`, and at least one), at most
/// `max(max_rows, 1)`.
pub fn textarea_display_rows(value: &str, base_rows: u16, wrap_width: Option<u16>, max_rows: u16) -> (r: u16)
    requires
        value@.len() < usize::MAX,
    ensures
        ({
            let c = visual_line_count(value@, wrap_width);
            let content: int = if c > u16::MAX { u16::MAX as int } else { c as int };
            let grown: int = if base_rows as int > content { base_rows as int } else { content };
            let cap: int = if max_rows < 1 { 1 } else { max_rows as int };
            r == if grown < cap { grown } else { cap }
        }),
{
    let count = textarea_visual_line_count(value, wrap_width);
    let content_rows: u16 = if count > u16::MAX as usize { u16::MAX } else { count as u16 };
    let content = if content_rows < 1 { 1 } else { content_rows };
    let grown = if base_rows > content { base_rows } else { content };
    let cap = if max_rows < 1 { 1 } else { max_rows };
    if grown < cap { grown } else { cap }
}

/// Largest row count a textarea may take in a content window of
/// `content_height` rows: three rows less, at least one, at most
/// `TEXTAREA_MAX_DISPLAY_ROWS`.
pub fn textarea_max_rows_for_window(content_height: u16) -> (r: u16)
    ensures
        r == if content_height <= 4 { 1 } else if content_height - 3 > TEXTAREA_MAX_DISPLAY_ROWS { TEXTAREA_MAX_DISPLAY_ROWS as int } else { content_height - 3 },
{
    let avail = content_height.saturating_sub(3);
    let at_least_one = if avail < 1 { 1 } else { avail };
    if at_least_one < TEXTAREA_MAX_DISPLAY_ROWS { at_least_one } else { TEXTAREA_MAX_DISPLAY_ROWS }
}

} // verus!
