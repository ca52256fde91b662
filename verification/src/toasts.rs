//! Transient notifications ("toasts"): a short queue of recent messages
//! that expire, drawn as a stack in the bottom-right corner.
use vstd::prelude::*;
use crate::layout::Rect;

verus! {

/// How a toast is styled.
#[derive(Clone, Copy, Debug, PartialEq, Eq, Structural)]
pub enum ToastLevel {
    Success,
    Info,
    Warning,
}

/// A notification and when it was shown, in milliseconds on the
/// application's clock.
pub struct Toast {
    pub level: ToastLevel,
    pub message: String,
    pub shown_at_ms: u64,
}

/// Most toasts kept at once.
pub const MAX_TOASTS: usize = 4;

/// How long a toast stays, in milliseconds.
pub const TOAST_LIFETIME_MS: u64 = 5000;

/// The queue after a push: the new toast last, the oldest dropped when
/// the queue would hold more than four.
pub open spec fn pushed<T>(q: Seq<T>, t: T) -> Seq<T> {
    if q.len() + 1 > 4 { q.push(t).skip(1) } else { q.push(t) }
}

/// Adds a toast; keeps at most four, dropping the oldest.
pub fn push_toast(toasts: &mut Vec<Toast>, toast: Toast)
    ensures
        final(toasts)@ == pushed(old(toasts)@, toast),
{
    toasts.push(toast);
    if toasts.len() > MAX_TOASTS {
        toasts.remove(0);
        assert(toasts@ =~= pushed(old(toasts)@, toast));
    }
}

/// A queue of at most four stays so after a push, and its last entry is
/// the toast pushed.
pub proof fn law_push_keeps_queue_short<T>(q: Seq<T>, t: T)
    requires
        q.len() <= 4,
    ensures
        pushed(q, t).len() <= 4,
        pushed(q, t).last() == t,
        pushed(q, t).len() >= 1,
{
}

/// How long ago a toast was shown, as the clock measures it (zero for a
/// time after `now_ms`).
pub open spec fn age(t: Toast, now_ms: u64) -> int {
    if now_ms >= t.shown_at_ms { now_ms - t.shown_at_ms } else { 0 }
}

/// The toasts shown less than five seconds before `now_ms`, in order.
pub open spec fn fresh(q: Seq<Toast>, now_ms: u64) -> Seq<Toast>
    decreases q.len(),
{
    if q.len() == 0 {
        Seq::empty()
    } else if age(q.last(), now_ms) < TOAST_LIFETIME_MS {
        fresh(q.drop_last(), now_ms).push(q.last())
    } else {
        fresh(q.drop_last(), now_ms)
    }
}

/// Drops the toasts shown five seconds or more before `now_ms`.
pub fn prune_toasts(toasts: &mut Vec<Toast>, now_ms: u64)
    ensures
        final(toasts)@ == fresh(old(toasts)@, now_ms),
{
    let mut kept: Vec<Toast> = Vec::new();
    let ghost all = toasts@;
    let n = toasts.len();
    let mut i: usize = 0;
    while i < n
        invariant
            i <= n,
            n == all.len(),
            toasts@ == all.skip(i as int),
            kept@ == fresh(all.take(i as int), now_ms),
        decreases n - i,
    {
        let t = toasts.remove(0);
        proof {
            assert(t == all[i as int]);
            assert(all.take(i + 1).drop_last() =~= all.take(i as int));
            assert(toasts@ =~= all.skip(i + 1));
        }
        let a = if now_ms >= t.shown_at_ms { now_ms - t.shown_at_ms } else { 0 };
        if a < TOAST_LIFETIME_MS {
            kept.push(t);
        }
        i += 1;
    }
    assert(all.take(n as int) =~= all);
    *toasts = kept;
}

/// The slots of the toasts, newest first: boxes three rows high stacked
/// upwards from `y`, one free row apart, while they fit in `area`.
pub open spec fn toast_slots_from(area: Rect, x: u16, width: u16, y: int, remaining: nat) -> Seq<Rect>
    decreases remaining,
{
    if remaining == 0 || y + 3 > area.y + area.height || y < 0 {
        Seq::empty()
    } else {
        seq![Rect { x, y: y as u16, width, height: 3 }] + if y < area.y + 4 {
            Seq::empty()
        } else {
            toast_slots_from(area, x, width, y - 4, (remaining - 1) as nat)
        }
    }
}

/// Width of the toast boxes in `area`: 60 columns, at most two less than
/// the area; none are drawn when that is under 10.
pub open spec fn toast_width(area: Rect) -> int {
    let room: int = if area.width >= 2 { area.width - 2 } else { 0 };
    if room < 60 { room } else { 60 }
}

/// Where `count` toasts are drawn in `area`, newest first: right-aligned
/// one column from the right edge, the newest on the bottom row.
pub open spec fn toast_slots(area: Rect, count: nat) -> Seq<Rect> {
    let w = toast_width(area);
    if w < 10 {
        Seq::empty()
    } else {
        let x = area.x + (area.width - (w + 1));
        let y = area.y + (if area.height >= 3 { area.height - 3 } else { 0 });
        toast_slots_from(area, x as u16, w as u16, y, count)
    }
}

/// The boxes of `count` toasts, newest first (see `toast_slots`).
pub fn toast_rects(area: Rect, count: usize) -> (r: Vec<Rect>)
    requires
        area.x + area.width <= u16::MAX,
        area.y + area.height <= u16::MAX,
    ensures
        r@ == toast_slots(area, count as nat),
{
    let room: u16 = if area.width >= 2 { area.width - 2 } else { 0 };
    let width: u16 = if room < 60 { room } else { 60 };
    let mut out: Vec<Rect> = Vec::new();
    if width < 10 {
        return out;
    }
    let x: u16 = area.x + (area.width - (width + 1));
    let bottom: u16 = area.y + area.height;
    let mut y: u16 = area.y + (if area.height >= 3 { area.height - 3 } else { 0 });
    let mut remaining: usize = count;
    let ghost target = toast_slots(area, count as nat);
    loop
        invariant
            bottom == area.y + area.height,
            area.y + area.height <= u16::MAX,
            target == toast_slots(area, count as nat),
            width == toast_width(area),
            10 <= width,
            x == area.x + (area.width - (width + 1)),
            target == out@ + toast_slots_from(area, x, width, y as int, remaining as nat),
        decreases remaining,
    {
        if remaining == 0 || y as u32 + 3 > bottom as u32 {
            assert(toast_slots_from(area, x, width, y as int, remaining as nat) =~= Seq::<Rect>::empty());
            assert(out@ =~= target);
            return out;
        }
        let slot = Rect { x, y, width, height: 3 };
        out.push(slot);
        if (y as u32) < area.y as u32 + 4 {
            assert(out@ =~= target);
            return out;
        }
        proof {
            let next = toast_slots_from(area, x, width, y - 4, (remaining - 1) as nat);
            assert(toast_slots_from(area, x, width, y as int, remaining as nat) == seq![slot] + next);
            assert(target =~= out@ + next);
        }
        y = y - 4;
        remaining = remaining - 1;
    }
}

/// The toast boxes lie inside the area, each three rows high, the newer
/// below the older with a free row between them.
pub proof fn law_toast_slots_inside(area: Rect, count: nat)
    requires
        area.x + area.width <= u16::MAX,
        area.y + area.height <= u16::MAX,
    ensures
        ({
            let s = toast_slots(area, count);
            &&& s.len() <= count
            &&& forall|i: int| 0 <= i < s.len() ==> {
                &&& area.x <= (#[trigger] s[i]).x
                &&& s[i].x + s[i].width < area.x + area.width
                &&& area.y <= s[i].y
                &&& s[i].y + s[i].height <= area.y + area.height
                &&& s[i].height == 3
            }
            &&& forall|i: int| 0 <= i < s.len() - 1 ==> #[trigger] s[i + 1].y + 4 == s[i].y
        }),
{
    let w = toast_width(area);
    if w >= 10 {
        let x = area.x + (area.width - (w + 1));
        let y = area.y + (if area.height >= 3 { area.height - 3 } else { 0 });
        lemma_slots_from_inside(area, x as u16, w as u16, y, count);
    }
}

proof fn lemma_slots_from_inside(area: Rect, x: u16, width: u16, y: int, remaining: nat)
    requires
        area.x <= x,
        x + width < area.x + area.width,
        area.y + area.height <= u16::MAX,
        y >= area.y,
    ensures
        ({
            let s = toast_slots_from(area, x, width, y, remaining);
            &&& s.len() <= remaining
            &&& forall|i: int| 0 <= i < s.len() ==> {
                &&& area.x <= (#[trigger] s[i]).x
                &&& s[i].x + s[i].width < area.x + area.width
                &&& area.y <= s[i].y
                &&& s[i].y + s[i].height <= area.y + area.height
                &&& s[i].height == 3
                &&& s[i].y == y - 4 * i
            }
            &&& forall|i: int| 0 <= i < s.len() - 1 ==> #[trigger] s[i + 1].y + 4 == s[i].y
        }),
    decreases remaining,
{
    let s = toast_slots_from(area, x, width, y, remaining);
    if remaining == 0 || y + 3 > area.y + area.height || y < 0 {
        assert(s.len() == 0);
    } else {
        let head = Rect { x, y: y as u16, width, height: 3 };
        assert(y as u16 == y);
        if y < area.y + 4 {
            assert(s =~= seq![head]);
        } else {
            lemma_slots_from_inside(area, x, width, y - 4, (remaining - 1) as nat);
            let t = toast_slots_from(area, x, width, y - 4, (remaining - 1) as nat);
            assert(s == seq![head] + t);
            assert forall|i: int| 0 <= i < s.len() implies {
                &&& area.x <= (#[trigger] s[i]).x
                &&& s[i].x + s[i].width < area.x + area.width
                &&& area.y <= s[i].y
                &&& s[i].y + s[i].height <= area.y + area.height
                &&& s[i].height == 3
                &&& s[i].y == y - 4 * i
            } by {
                if i > 0 {
                    assert(s[i] == t[i - 1]);
                } else {
                    assert(s[i] == head);
                }
            }
            assert forall|i: int| 0 <= i < s.len() - 1 implies #[trigger] s[i + 1].y + 4 == s[i].y by {
                assert(s[i + 1] == t[i]);
                if i > 0 {
                    assert(s[i] == t[i - 1]);
                } else {
                    assert(s[i] == head);
                }
            }
        }
    }
}

} // verus!
