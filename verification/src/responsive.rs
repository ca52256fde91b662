//! Responsive width classes (`dd-u-<num>-<den>`, `dd-u-<bp>-<num>-<den>`)
//! and the breakpoint that a panel of a given width falls in.
use vstd::prelude::*;
use crate::text::{
    chars_eq, chars_of, parse_usize, parsed_usize, split_chars, split_on, split_whitespace, words,
};

verus! {

/// Responsive breakpoints, smallest first.
#[derive(Clone, Copy, PartialEq, Eq, Debug, Structural)]
pub enum ResponsiveBp {
    Base,
    Sm,
    Md,
    Lg,
    Xl,
    Xxl,
}

/// Position of a breakpoint in the order Base, Sm, Md, Lg, Xl, Xxl.
pub open spec fn bp_index(bp: ResponsiveBp) -> nat {
    match bp {
        ResponsiveBp::Base => 0,
        ResponsiveBp::Sm => 1,
        ResponsiveBp::Md => 2,
        ResponsiveBp::Lg => 3,
        ResponsiveBp::Xl => 4,
        ResponsiveBp::Xxl => 5,
    }
}

impl ResponsiveBp {
    /// Position of the breakpoint in the order Base, Sm, Md, Lg, Xl, Xxl.
    pub fn index(self) -> (r: usize)
        ensures
            r == bp_index(self),
    {
        match self {
            ResponsiveBp::Base => 0,
            ResponsiveBp::Sm => 1,
            ResponsiveBp::Md => 2,
            ResponsiveBp::Lg => 3,
            ResponsiveBp::Xl => 4,
            ResponsiveBp::Xxl => 5,
        }
    }
}

/// The breakpoint whose range holds a panel `panel_chars` characters wide.
pub open spec fn panel_breakpoint(panel_chars: nat) -> ResponsiveBp {
    if panel_chars >= 180 {
        ResponsiveBp::Xxl
    } else if panel_chars >= 150 {
        ResponsiveBp::Xl
    } else if panel_chars >= 120 {
        ResponsiveBp::Lg
    } else if panel_chars >= 90 {
        ResponsiveBp::Md
    } else if panel_chars >= 60 {
        ResponsiveBp::Sm
    } else {
        ResponsiveBp::Base
    }
}

/// Breakpoint for a panel `panel_chars` characters wide: Xxl from 180,
/// Xl from 150, Lg from 120, Md from 90, Sm from 60, Base below.
pub fn breakpoint_for_panel_chars(panel_chars: usize) -> (r: ResponsiveBp)
    ensures
        r == panel_breakpoint(panel_chars as nat),
{
    if panel_chars >= 180 {
        ResponsiveBp::Xxl
    } else if panel_chars >= 150 {
        ResponsiveBp::Xl
    } else if panel_chars >= 120 {
        ResponsiveBp::Lg
    } else if panel_chars >= 90 {
        ResponsiveBp::Md
    } else if panel_chars >= 60 {
        ResponsiveBp::Sm
    } else {
        ResponsiveBp::Base
    }
}

/// The breakpoint named by a token segment (`sm`, `md`, `lg`, `xl`, `xxl`).
pub open spec fn bp_named(p: Seq<char>) -> Option<ResponsiveBp> {
    if p == seq!['s', 'm'] {
        Some(ResponsiveBp::Sm)
    } else if p == seq!['m', 'd'] {
        Some(ResponsiveBp::Md)
    } else if p == seq!['l', 'g'] {
        Some(ResponsiveBp::Lg)
    } else if p == seq!['x', 'l'] {
        Some(ResponsiveBp::Xl)
    } else if p == seq!['x', 'x', 'l'] {
        Some(ResponsiveBp::Xxl)
    } else {
        None
    }
}

/// `dd-u-`, the prefix of responsive width tokens.
pub open spec fn dd_u_prefix() -> Seq<char> {
    seq!['d', 'd', '-', 'u', '-']
}

/// Breakpoint and `num/den` ratio of a width token: `dd-u-<num>-<den>`
/// (Base) or `dd-u-<bp>-<num>-<den>`, with both numbers parsed as `usize`,
/// neither zero; the numerator is capped at the denominator.
pub open spec fn dd_u_token(t: Seq<char>) -> Option<(ResponsiveBp, (nat, nat))> {
    if t.len() < 5 || t.take(5) != dd_u_prefix() {
        None
    } else {
        let parts = split_on(t.skip(5), '-');
        let picked: Option<(ResponsiveBp, Seq<char>, Seq<char>)> = if parts.len() == 2 {
            Some((ResponsiveBp::Base, parts[0], parts[1]))
        } else if parts.len() == 3 {
            match bp_named(parts[0]) {
                Some(bp) => Some((bp, parts[1], parts[2])),
                None => None,
            }
        } else {
            None
        };
        match picked {
            None => None,
            Some((bp, num_raw, den_raw)) => match (parsed_usize(num_raw), parsed_usize(den_raw)) {
                (Some(num), Some(den)) => if den == 0 || num == 0 {
                    None
                } else {
                    Some((bp, (if num < den { num } else { den }, den)))
                },
                _ => None,
            },
        }
    }
}

fn bp_from_name(p: &Vec<char>) -> (r: Option<ResponsiveBp>)
    ensures
        r == bp_named(p@),
{
    let sm: [char; 2] = ['s', 'm'];
    let md: [char; 2] = ['m', 'd'];
    let lg: [char; 2] = ['l', 'g'];
    let xl: [char; 2] = ['x', 'l'];
    let xxl: [char; 3] = ['x', 'x', 'l'];
    assert(sm@ =~= seq!['s', 'm']);
    assert(md@ =~= seq!['m', 'd']);
    assert(lg@ =~= seq!['l', 'g']);
    assert(xl@ =~= seq!['x', 'l']);
    assert(xxl@ =~= seq!['x', 'x', 'l']);
    if chars_eq(p, &sm) {
        Some(ResponsiveBp::Sm)
    } else if chars_eq(p, &md) {
        Some(ResponsiveBp::Md)
    } else if chars_eq(p, &lg) {
        Some(ResponsiveBp::Lg)
    } else if chars_eq(p, &xl) {
        Some(ResponsiveBp::Xl)
    } else if chars_eq(p, &xxl) {
        Some(ResponsiveBp::Xxl)
    } else {
        None
    }
}

fn token_ratio(t: &Vec<char>) -> (r: Option<(ResponsiveBp, (usize, usize))>)
    ensures
        token_view(r) == dd_u_token(t@),
{
    let prefix: [char; 5] = ['d', 'd', '-', 'u', '-'];
    assert(prefix@ =~= dd_u_prefix());
    if t.len() < 5 {
        return None;
    }
    let mut head: Vec<char> = Vec::new();
    let mut rest: Vec<char> = Vec::new();
    let mut i: usize = 0;
    while i < t.len()
        invariant
            5 <= t@.len(),
            i <= t@.len(),
            head@ == t@.take(if i < 5 { i as int } else { 5 }),
            rest@ == if i <= 5 { Seq::<char>::empty() } else { t@.subrange(5, i as int) },
        decreases t@.len() - i,
    {
        if i < 5 {
            head.push(t[i]);
            assert(head@ =~= t@.take(i + 1));
        } else {
            rest.push(t[i]);
            assert(rest@ =~= t@.subrange(5, i + 1));
        }
        i += 1;
    }
    assert(rest@ =~= t@.skip(5));
    if !chars_eq(&head, &prefix) {
        return None;
    }
    let parts = split_chars(rest.as_slice(), '-');
    let ghost ps = parts@.map_values(|w: Vec<char>| w@);
    assert(ps.len() == parts@.len());
    let (bp, num_i, den_i) = if parts.len() == 2 {
        assert(ps[0] == parts@[0]@ && ps[1] == parts@[1]@);
        (ResponsiveBp::Base, 0usize, 1usize)
    } else if parts.len() == 3 {
        assert(ps[0] == parts@[0]@ && ps[1] == parts@[1]@ && ps[2] == parts@[2]@);
        match bp_from_name(&parts[0]) {
            Some(bp) => (bp, 1usize, 2usize),
            None => return None,
        }
    } else {
        return None;
    };
    assert(ps[num_i as int] == parts@[num_i as int]@ && ps[den_i as int] == parts@[den_i as int]@);
    let num = match parse_usize(parts[num_i].as_slice()) {
        Some(n) => n,
        None => return None,
    };
    let den = match parse_usize(parts[den_i].as_slice()) {
        Some(d) => d,
        None => return None,
    };
    if den == 0 || num == 0 {
        return None;
    }
    Some((bp, (if num < den { num } else { den }, den)))
}

/// Breakpoint and ratio of a responsive width token (see `dd_u_token`).
pub fn parse_dd_u_token_ratio(token: &str) -> (r: Option<(ResponsiveBp, (usize, usize))>)
    ensures
        token_view(r) == dd_u_token(token@),
{
    let t = chars_of(token);
    token_ratio(&t)
}

/// The ratio that the last token for breakpoint position `i` among `tokens` gives.
pub open spec fn ratio_at(tokens: Seq<Seq<char>>, i: nat) -> Option<(nat, nat)>
    decreases tokens.len(),
{
    if tokens.len() == 0 {
        None
    } else {
        match dd_u_token(tokens.last()) {
            Some((bp, ratio)) if bp_index(bp) == i => Some(ratio),
            _ => ratio_at(tokens.drop_last(), i),
        }
    }
}

/// The first set ratio at positions `i`, `i - 1`, ..., `0`.
pub open spec fn ratio_at_or_below(tokens: Seq<Seq<char>>, i: nat) -> Option<(nat, nat)>
    decreases i,
{
    match ratio_at(tokens, i) {
        Some(r) => Some(r),
        None => if i == 0 { None } else { ratio_at_or_below(tokens, (i - 1) as nat) },
    }
}

/// A token's breakpoint and ratio, as natural numbers.
pub open spec fn token_view(r: Option<(ResponsiveBp, (usize, usize))>) -> Option<(ResponsiveBp, (nat, nat))> {
    match r {
        Some((bp, (n, d))) => Some((bp, (n as nat, d as nat))),
        None => None,
    }
}

/// A ratio, as natural numbers.
pub open spec fn ratio_view(r: Option<(usize, usize)>) -> Option<(nat, nat)> {
    match r {
        Some((n, d)) => Some((n as nat, d as nat)),
        None => None,
    }
}

/// The first set ratio at positions `i`, `i + 1`, ..., `5`.
pub open spec fn ratio_at_or_above(tokens: Seq<Seq<char>>, i: int) -> Option<(nat, nat)>
    decreases 6 - i,
{
    if i > 5 {
        None
    } else {
        match ratio_at(tokens, i as nat) {
            Some(r) => Some(r),
            None => ratio_at_or_above(tokens, i + 1),
        }
    }
}

/// The ratio a width class resolves to for a panel: the panel's breakpoint
/// or the nearest smaller one that the class sets, else the nearest larger
/// one; the last token for a breakpoint wins.
pub open spec fn resolved_ratio(width_class: Seq<char>, panel_chars: nat) -> Option<(nat, nat)> {
    let tokens = words(width_class);
    let idx = bp_index(panel_breakpoint(panel_chars));
    match ratio_at_or_below(tokens, idx) {
        Some(r) => Some(r),
        None => ratio_at_or_above(tokens, (idx + 1) as int),
    }
}

/// Ratio `(num, den)` that `width_class` gives for a panel `panel_chars`
/// wide (see `resolved_ratio`).
pub fn resolve_dd_u_ratio_for_panel(width_class: &str, panel_chars: usize) -> (r: Option<(usize, usize)>)
    ensures
        ratio_view(r) == resolved_ratio(width_class@, panel_chars as nat),
{
    let current_bp = breakpoint_for_panel_chars(panel_chars);
    let tokens = split_whitespace(width_class);
    let ghost ts = tokens@.map_values(|w: Vec<char>| w@);
    let mut slots: Vec<Option<(usize, usize)>> = Vec::new();
    let mut k: usize = 0;
    while k < 6
        invariant
            k <= 6,
            slots@.len() == k,
            forall|j: int| 0 <= j < k ==> slots@[j] is None,
        decreases 6 - k,
    {
        slots.push(None);
        k += 1;
    }
    let mut i: usize = 0;
    while i < tokens.len()
        invariant
            ts == tokens@.map_values(|w: Vec<char>| w@),
            i <= tokens@.len(),
            slots@.len() == 6,
            forall|j: int| 0 <= j < 6 ==> ratio_view(#[trigger] slots@[j]) == ratio_at(ts.take(i as int), j as nat),
        decreases tokens@.len() - i,
    {
        let parsed = token_ratio(&tokens[i]);
        proof {
            assert(ts.take(i + 1).drop_last() =~= ts.take(i as int));
            assert(ts.take(i + 1).last() == tokens@[i as int]@);
        }
        match parsed {
            Some((bp, ratio)) => {
                let at = bp.index();
                slots.set(at, Some(ratio));
            },
            None => {},
        }
        i += 1;
    }
    assert(ts.take(tokens@.len() as int) =~= ts);
    let idx = current_bp.index();
    let mut down = idx + 1;
    while down > 0
        invariant
            down <= idx + 1,
            idx <= 5,
            ts == words(width_class@),
            idx == bp_index(panel_breakpoint(panel_chars as nat)),
            slots@.len() == 6,
            forall|j: int| 0 <= j < 6 ==> ratio_view(#[trigger] slots@[j]) == ratio_at(ts, j as nat),
            down >= 1 ==> ratio_at_or_below(ts, idx as nat) == ratio_at_or_below(ts, (down - 1) as nat),
            down == 0 ==> ratio_at_or_below(ts, idx as nat) is None,
        decreases down,
    {
        let at = down - 1;
        if let Some(ratio) = slots[at] {
            assert(slots@[at as int] == Some(ratio));
            return Some(ratio);
        }
        down -= 1;
    }
    let mut up = idx + 1;
    while up < 6
        invariant
            idx < up <= 6,
            slots@.len() == 6,
            ts == words(width_class@),
            idx == bp_index(panel_breakpoint(panel_chars as nat)),
            forall|j: int| 0 <= j < 6 ==> ratio_view(#[trigger] slots@[j]) == ratio_at(ts, j as nat),
            ratio_at_or_above(ts, (idx + 1) as int) == ratio_at_or_above(ts, up as int),
            ratio_at_or_below(ts, idx as nat) is None,
        decreases 6 - up,
    {
        if let Some(ratio) = slots[up] {
            assert(slots@[up as int] == Some(ratio));
            return Some(ratio);
        }
        up += 1;
    }
    None
}

/// Narrowest line width of a column's item box.
pub const MIN_ITEM_INNER: usize = 12;

/// Widest line width of a column's item box in a section whose lines are
/// `section_inner_width` wide: six less, at least 12, so that one
/// full-width box spans as much as two half-width boxes side by side.
pub open spec fn max_item_inner(section_inner_width: nat) -> nat {
    if section_inner_width >= 18 { (section_inner_width - 6) as nat } else { 12 }
}

/// The line width of a column's item box from the width its ratio asks
/// for (`target`, the box's share of the section less its borders, which
/// may be negative): a negative target gives the widest box; otherwise the
/// target is clamped between 12 and `max_item_inner`.
pub fn clamp_item_inner_width(target: isize, section_inner_width: usize) -> (r: usize)
    ensures
        r == if target < 0 {
            max_item_inner(section_inner_width as nat) as int
        } else if target < 12 {
            12
        } else if target > max_item_inner(section_inner_width as nat) {
            max_item_inner(section_inner_width as nat) as int
        } else {
            target as int
        },
{
    let max_inner: usize = if section_inner_width >= 18 { section_inner_width - 6 } else { MIN_ITEM_INNER };
    if target < 0 {
        return max_inner;
    }
    let t = target as usize;
    if t < MIN_ITEM_INNER {
        MIN_ITEM_INNER
    } else if t > max_inner {
        max_inner
    } else {
        t
    }
}

} // verus!
