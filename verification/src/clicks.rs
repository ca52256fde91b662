//! Where a mouse click lands: a tree row, a page of the page list, the
//! header or footer entry, or a cell of the details text.
use vstd::prelude::*;
use crate::layout::{contains, Rect};

verus! {

/// The four clickable panels of the screen.
#[derive(Clone, Copy, Debug, PartialEq, Eq, Structural)]
pub struct Panels {
    pub tree: Rect,
    pub pages: Rect,
    pub regions: Rect,
    pub details: Rect,
}

/// What a click selects.
#[derive(Clone, Copy, Debug, PartialEq, Eq, Structural)]
pub enum ClickTarget {
    /// The tree row at this index.
    TreeRow(usize),
    /// The page at this index.
    Page(usize),
    HeaderRegion,
    FooterRegion,
    /// This cell of the details text: its line (scroll included) and column.
    Details { line: usize, column: usize },
    Nothing,
}

/// The cell `(x, y)` lies in `r`.
pub open spec fn in_rect(r: Rect, x: u16, y: u16) -> bool {
    r.x <= x < r.x + r.width && r.y <= y < r.y + r.height
}

/// `a + b` capped at `u16::MAX`.
pub open spec fn add_sat(a: u16, b: u16) -> u16 {
    if a + b > u16::MAX { u16::MAX } else { (a + b) as u16 }
}

/// `a - b` floored at 0.
pub open spec fn sub_sat(a: u16, b: u16) -> u16 {
    if a < b { 0 } else { (a - b) as u16 }
}

/// A panel fits on the screen.
pub open spec fn on_screen(r: Rect) -> bool {
    r.x + r.width <= u16::MAX && r.y + r.height <= u16::MAX
}

/// The target of a click at `(x, y)`: inside the tree's body (between its
/// borders) the row under it, counting from the first visible row
/// `tree_offset`; in the page list's body the page under it, counting from
/// `pages_offset`; in the regions list the header (first line) or footer
/// (second line); inside the details text (not on the borders nor the
/// scroll bar) the line, counting from `scroll`, and the column.
pub open spec fn click_target(p: Panels, x: u16, y: u16, tree_len: usize, tree_offset: usize, page_count: usize,
    pages_offset: usize, scroll: usize) -> ClickTarget {
    if in_rect(p.tree, x, y) {
        let top = add_sat(p.tree.y, 1);
        let bottom = add_sat(p.tree.y, sub_sat(p.tree.height, 1));
        if tree_len == 0 || y < top || y >= bottom {
            ClickTarget::Nothing
        } else {
            let idx = (y - top) + tree_offset;
            if idx < tree_len { ClickTarget::TreeRow(idx as usize) } else { ClickTarget::Nothing }
        }
    } else if in_rect(p.pages, x, y) {
        let top = add_sat(p.pages.y, 1);
        if y < top {
            ClickTarget::Nothing
        } else {
            let idx = (y - top) + pages_offset;
            if idx < page_count { ClickTarget::Page(idx as usize) } else { ClickTarget::Nothing }
        }
    } else if in_rect(p.regions, x, y) {
        let top = add_sat(p.regions.y, 1);
        if y < top {
            ClickTarget::Nothing
        } else if y - top == 0 {
            ClickTarget::HeaderRegion
        } else if y - top == 1 {
            ClickTarget::FooterRegion
        } else {
            ClickTarget::Nothing
        }
    } else if in_rect(p.details, x, y) {
        let top = add_sat(p.details.y, 1);
        let left = add_sat(p.details.x, 1);
        let bar = add_sat(p.details.x, sub_sat(p.details.width, 2));
        let bottom = add_sat(p.details.y, sub_sat(p.details.height, 1));
        if y < top || y >= bottom || x < left || x >= bar {
            ClickTarget::Nothing
        } else {
            ClickTarget::Details { line: ((y - top) + scroll) as usize, column: (x - left) as usize }
        }
    } else {
        ClickTarget::Nothing
    }
}

/// What a click at `(x, y)` selects (see `click_target`).
pub fn click_target_at(p: &Panels, x: u16, y: u16, tree_len: usize, tree_offset: usize, page_count: usize,
    pages_offset: usize, scroll: usize) -> (r: ClickTarget)
    requires
        on_screen(p.tree),
        on_screen(p.pages),
        on_screen(p.regions),
        on_screen(p.details),
        tree_offset <= usize::MAX - 0x10000,
        pages_offset <= usize::MAX - 0x10000,
        scroll <= usize::MAX - 0x10000,
    ensures
        r == click_target(*p, x, y, tree_len, tree_offset, page_count, pages_offset, scroll),
{
    if contains(p.tree, x, y) {
        let top = p.tree.y.saturating_add(1);
        let bottom = p.tree.y.saturating_add(p.tree.height.saturating_sub(1));
        if tree_len == 0 || y < top || y >= bottom {
            return ClickTarget::Nothing;
        }
        let idx = (y - top) as usize + tree_offset;
        return if idx < tree_len { ClickTarget::TreeRow(idx) } else { ClickTarget::Nothing };
    }
    if contains(p.pages, x, y) {
        let top = p.pages.y.saturating_add(1);
        if y < top {
            return ClickTarget::Nothing;
        }
        let idx = (y - top) as usize + pages_offset;
        return if idx < page_count { ClickTarget::Page(idx) } else { ClickTarget::Nothing };
    }
    if contains(p.regions, x, y) {
        let top = p.regions.y.saturating_add(1);
        if y < top {
            return ClickTarget::Nothing;
        }
        let rel = y - top;
        return if rel == 0 {
            ClickTarget::HeaderRegion
        } else if rel == 1 {
            ClickTarget::FooterRegion
        } else {
            ClickTarget::Nothing
        };
    }
    if contains(p.details, x, y) {
        let top = p.details.y.saturating_add(1);
        let left = p.details.x.saturating_add(1);
        let bar = p.details.x.saturating_add(p.details.width.saturating_sub(2));
        let bottom = p.details.y.saturating_add(p.details.height.saturating_sub(1));
        if y < top || y >= bottom || x < left || x >= bar {
            return ClickTarget::Nothing;
        }
        return ClickTarget::Details { line: (y - top) as usize + scroll, column: (x - left) as usize };
    }
    ClickTarget::Nothing
}

/// A double click in the page list's body also opens the page's head for
/// editing.
pub fn double_click_opens_page_head(pages: Rect, x: u16, y: u16) -> (r: bool)
    requires
        on_screen(pages),
    ensures
        r == (in_rect(pages, x, y) && y >= add_sat(pages.y, 1)),
{
    contains(pages, x, y) && y >= pages.y.saturating_add(1)
}

} // verus!
