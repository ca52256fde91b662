use dd_siteforge::layout::{centered_rect, contains, textarea_scrollbar_thumb, Rect};
use dd_siteforge::responsive::clamp_item_inner_width;
use dd_siteforge::toasts::{prune_toasts, push_toast, toast_rects, Toast, ToastLevel};

fn toast(msg: &str, at: u64) -> Toast {
    Toast { level: ToastLevel::Info, message: msg.to_string(), shown_at_ms: at }
}

#[test]
fn centered_rect_takes_the_middle_share() {
    let r = centered_rect(50, 50, Rect { x: 0, y: 0, width: 100, height: 100 });
    assert_eq!(r, Rect { x: 25, y: 25, width: 50, height: 50 });
    let r = centered_rect(100, 100, Rect { x: 3, y: 4, width: 20, height: 10 });
    assert_eq!(r, Rect { x: 3, y: 4, width: 20, height: 10 });
}

#[test]
fn contains_is_half_open() {
    let r = Rect { x: 2, y: 3, width: 4, height: 2 };
    assert!(contains(r, 2, 3));
    assert!(contains(r, 5, 4));
    assert!(!contains(r, 6, 4));
    assert!(!contains(r, 5, 5));
    assert!(!contains(r, 1, 3));
}

#[test]
fn scrollbar_thumb_is_proportional_and_inside_the_track() {
    assert_eq!(textarea_scrollbar_thumb(0, 10, 10, 5), None);
    assert_eq!(textarea_scrollbar_thumb(0, 5, 10, 0), None);
    assert_eq!(textarea_scrollbar_thumb(0, 5, 20, 10), Some((0, 2)));
    assert_eq!(textarea_scrollbar_thumb(15, 5, 20, 10), Some((8, 2)));
    assert_eq!(textarea_scrollbar_thumb(100, 5, 20, 10), Some((8, 2)));
    assert_eq!(textarea_scrollbar_thumb(0, 1, 1000, 4), Some((0, 1)));
}

#[test]
fn toast_queue_keeps_the_four_newest() {
    let mut q = Vec::new();
    for i in 0..6 {
        push_toast(&mut q, toast(&format!("t{}", i), i));
    }
    let msgs: Vec<&str> = q.iter().map(|t| t.message.as_str()).collect();
    assert_eq!(msgs, vec!["t2", "t3", "t4", "t5"]);
}

#[test]
fn old_toasts_expire_after_five_seconds() {
    let mut q = vec![toast("old", 1000), toast("new", 5000), toast("future", 9000)];
    prune_toasts(&mut q, 6000);
    let msgs: Vec<&str> = q.iter().map(|t| t.message.as_str()).collect();
    assert_eq!(msgs, vec!["new", "future"]);
}

#[test]
fn toasts_stack_upwards_from_the_bottom_right() {
    let area = Rect { x: 0, y: 0, width: 80, height: 10 };
    assert_eq!(
        toast_rects(area, 3),
        vec![Rect { x: 19, y: 7, width: 60, height: 3 }, Rect { x: 19, y: 3, width: 60, height: 3 }]
    );
    assert!(toast_rects(Rect { x: 0, y: 0, width: 11, height: 10 }, 2).is_empty());
    assert_eq!(toast_rects(Rect { x: 0, y: 0, width: 20, height: 2 }, 1), vec![]);
}

#[test]
fn item_width_clamps_between_twelve_and_six_less_than_the_section() {
    assert_eq!(clamp_item_inner_width(-5, 40), 34);
    assert_eq!(clamp_item_inner_width(3, 40), 12);
    assert_eq!(clamp_item_inner_width(20, 40), 20);
    assert_eq!(clamp_item_inner_width(100, 40), 34);
    assert_eq!(clamp_item_inner_width(100, 10), 12);
}
