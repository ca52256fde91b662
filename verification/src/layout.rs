//! Screen geometry: rectangles, hit tests, centred popups and scrollbar
//! thumbs.
use vstd::prelude::*;
use ratatui::layout::{Constraint, Direction, Layout};

verus! {

/// A rectangle of terminal cells.
#[derive(Clone, Copy, Debug, PartialEq, Eq, Structural)]
pub struct Rect {
    pub x: u16,
    pub y: u16,
    pub width: u16,
    pub height: u16,
}

/// The sum of a list of percentages.
pub open spec fn percent_sum(percents: Seq<u16>) -> int
    decreases percents.len(),
{
    if percents.len() == 0 { 0 } else { percent_sum(percents.drop_last()) + percents.last() }
}

/// The rectangles that a layout of percentage constraints (one per entry of
/// `percents`, stacked top to bottom when `vertical`, else left to right)
/// gives for `area` under the default layout (no margin, no spacing, items
/// aligned to the start), when the percentages add up to at most 100; the
/// space they leave stays unused after the last rectangle.
pub uninterp spec fn percentage_split(vertical: bool, percents: Seq<u16>, area: Rect) -> Seq<Rect>;

/// Splits `area` with ratatui's `Layout::split` under one
/// `Constraint::Percentage` per entry of `percents`: one rectangle per
/// constraint, the result named by `percentage_split`. Only percentages
/// that add up to at most 100 are admitted: those do not conflict, so the
/// layout is determined; conflicting ones would not be.
#[verifier::external_body]
fn split_percentages(vertical: bool, percents: &Vec<u16>, area: Rect) -> (r: Vec<Rect>)
    requires
        percent_sum(percents@) <= 100,
    ensures
        r@ == percentage_split(vertical, percents@, area),
        r@.len() == percents@.len(),
{
    let direction = if vertical { Direction::Vertical } else { Direction::Horizontal };
    let constraints: Vec<Constraint> = percents.iter().map(|p| Constraint::Percentage(*p)).collect();
    let outer = ratatui::layout::Rect { x: area.x, y: area.y, width: area.width, height: area.height };
    let parts = Layout::default().direction(direction).constraints(constraints).split(outer);
    parts.iter().map(|p| Rect { x: p.x, y: p.y, width: p.width, height: p.height }).collect()
}

/// Whether the cell `(x, y)` lies in `rect`.
pub fn contains(rect: Rect, x: u16, y: u16) -> (r: bool)
    requires
        rect.x + rect.width <= u16::MAX,
        rect.y + rect.height <= u16::MAX,
    ensures
        r == (rect.x <= x < rect.x + rect.width && rect.y <= y < rect.y + rect.height),
{
    x >= rect.x && x < rect.x + rect.width && y >= rect.y && y < rect.y + rect.height
}

/// The three percentages that centre a band of `percent` in the middle:
/// an equal margin (rounded down) on either side.
pub open spec fn centred_percents(percent: u16) -> Seq<u16> {
    let side = ((100 - percent) / 2) as u16;
    seq![side, percent, side]
}

fn centred_percent_list(percent: u16) -> (r: Vec<u16>)
    requires
        percent <= 100,
    ensures
        r@ == centred_percents(percent),
        percent_sum(r@) <= 100,
{
    let side = (100 - percent) / 2;
    let mut v: Vec<u16> = Vec::new();
    v.push(side);
    v.push(percent);
    v.push(side);
    assert(v@ =~= centred_percents(percent));
    proof {
        let c = centred_percents(percent);
        assert(c.drop_last().drop_last().drop_last() =~= Seq::<u16>::empty());
        assert(percent_sum(c.drop_last().drop_last().drop_last()) == 0);
        assert(percent_sum(c.drop_last().drop_last()) == side);
        assert(percent_sum(c.drop_last()) == side + percent);
        assert(percent_sum(c) <= 100);
    }
    v
}

/// The popup area: the middle `percent_y` rows of `area`, then the middle
/// `percent_x` columns of those, as the layout places them.
pub open spec fn centred(percent_x: u16, percent_y: u16, area: Rect) -> Rect {
    percentage_split(false, centred_percents(percent_x), percentage_split(true, centred_percents(percent_y), area)[1])[1]
}

/// A rectangle `percent_x` by `percent_y` of `area`, centred in it.
pub fn centered_rect(percent_x: u16, percent_y: u16, area: Rect) -> (r: Rect)
    requires
        percent_x <= 100,
        percent_y <= 100,
    ensures
        r == centred(percent_x, percent_y, area),
{
    let rows = split_percentages(true, &centred_percent_list(percent_y), area);
    let cols = split_percentages(false, &centred_percent_list(percent_x), rows[1]);
    cols[1]
}

/// The thumb of a one-column scrollbar `track` rows high beside a text of
/// `total` rows of which `visible` show from row `first`: its first row
/// and its height. A thumb is drawn only when the track has rows and the
/// text does not all fit.
pub open spec fn textarea_thumb(first: nat, visible: nat, total: nat, track: nat) -> Option<(nat, nat)> {
    if track == 0 || total <= visible {
        None
    } else {
        let v: nat = if visible > 1 { visible } else { 1 };
        let t: nat = if total > 1 { total } else { 1 };
        let raw = v * track / t;
        let height: nat = if raw < 1 { 1 } else if raw > track { track } else { raw };
        let max_scroll: nat = if total > v { (total - v) as nat } else { 0 };
        let travel: nat = (track - height) as nat;
        let top: nat = if max_scroll == 0 {
            0
        } else {
            (if first < max_scroll { first } else { max_scroll }) * travel / max_scroll
        };
        Some((top, height))
    }
}

/// The thumb (first row, height) of the scrollbar beside a multi-line text
/// field, or `None` when none is drawn.
pub fn textarea_scrollbar_thumb(first_visible_row: usize, visible_rows: usize, total_rows: usize, track_height: u16) -> (r: Option<(usize, usize)>)
    requires
        total_rows * track_height <= usize::MAX,
    ensures
        match r {
            None => textarea_thumb(first_visible_row as nat, visible_rows as nat, total_rows as nat, track_height as nat) is None,
            Some((top, h)) => textarea_thumb(first_visible_row as nat, visible_rows as nat, total_rows as nat, track_height as nat)
                == Some((top as nat, h as nat)),
        },
{
    if track_height == 0 || total_rows <= visible_rows {
        return None;
    }
    let track = track_height as usize;
    let v: usize = if visible_rows > 1 { visible_rows } else { 1 };
    let t: usize = if total_rows > 1 { total_rows } else { 1 };
    assert(v * track <= total_rows * track) by (nonlinear_arith)
        requires
            v <= total_rows,
    ;
    let raw = (v * track) / t;
    let height: usize = if raw < 1 { 1 } else if raw > track { track } else { raw };
    let max_scroll: usize = if total_rows > v { total_rows - v } else { 0 };
    let travel: usize = track - height;
    let top: usize = if max_scroll == 0 {
        0
    } else {
        let f = if first_visible_row < max_scroll { first_visible_row } else { max_scroll };
        assert(f * travel <= total_rows * track) by (nonlinear_arith)
            requires
                f <= total_rows,
                travel <= track,
        ;
        (f * travel) / max_scroll
    };
    Some((top, height))
}

/// The thumb invariant: it lies within the track.
pub proof fn law_textarea_thumb_within_track(first: nat, visible: nat, total: nat, track: nat)
    requires
        textarea_thumb(first, visible, total, track) is Some,
    ensures
        ({
            let (top, h) = textarea_thumb(first, visible, total, track)->0;
            &&& 1 <= h <= track
            &&& top + h <= track
        }),
{
    let v: nat = if visible > 1 { visible } else { 1 };
    let t: nat = if total > 1 { total } else { 1 };
    let raw = v * track / t;
    let height: nat = if raw < 1 { 1 } else if raw > track { track } else { raw };
    let max_scroll: nat = if total > v { (total - v) as nat } else { 0 };
    let travel: nat = (track - height) as nat;
    if max_scroll > 0 {
        let f: nat = if first < max_scroll { first } else { max_scroll };
        assert(f * travel / max_scroll <= travel) by (nonlinear_arith)
            requires
                max_scroll > 0,
                f <= max_scroll,
        ;
    }
}

} // verus!
