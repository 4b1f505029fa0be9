use gilt_tui::geometry::{Offset, Region, Size};
use gilt_tui::scroll::ScrollState;

#[test]
fn new_scroll_state() {
    let state = ScrollState::new(Size::new(100, 200), Size::new(40, 30));
    assert_eq!(state.offset, Offset::new(0, 0));
    assert_eq!(state.content_size, Size::new(100, 200));
    assert_eq!(state.viewport_size, Size::new(40, 30));
}

#[test]
fn default_scroll_state() {
    let state = ScrollState::default();
    assert_eq!(state.offset, Offset::new(0, 0));
    assert_eq!(state.content_size, Size::new(0, 0));
    assert_eq!(state.viewport_size, Size::new(0, 0));
}

#[test]
fn max_scroll_normal() {
    let state = ScrollState::new(Size::new(100, 200), Size::new(40, 30));
    assert_eq!(state.max_scroll(), Offset::new(60, 170));
}

#[test]
fn max_scroll_content_smaller() {
    let state = ScrollState::new(Size::new(10, 10), Size::new(40, 30));
    assert_eq!(state.max_scroll(), Offset::new(0, 0));
}

#[test]
fn max_scroll_exact_fit() {
    let state = ScrollState::new(Size::new(40, 30), Size::new(40, 30));
    assert_eq!(state.max_scroll(), Offset::new(0, 0));
}

#[test]
fn scroll_to_within_bounds() {
    let mut state = ScrollState::new(Size::new(100, 200), Size::new(40, 30));
    state.scroll_to(20, 50);
    assert_eq!(state.offset, Offset::new(20, 50));
}

#[test]
fn scroll_to_clamps_max() {
    let mut state = ScrollState::new(Size::new(100, 200), Size::new(40, 30));
    state.scroll_to(999, 999);
    assert_eq!(state.offset, Offset::new(60, 170));
}

#[test]
fn scroll_to_clamps_negative() {
    let mut state = ScrollState::new(Size::new(100, 200), Size::new(40, 30));
    state.scroll_to(-10, -5);
    assert_eq!(state.offset, Offset::new(0, 0));
}

#[test]
fn scroll_by_positive() {
    let mut state = ScrollState::new(Size::new(100, 200), Size::new(40, 30));
    state.scroll_by(10, 20);
    assert_eq!(state.offset, Offset::new(10, 20));
}

#[test]
fn scroll_by_negative() {
    let mut state = ScrollState::new(Size::new(100, 200), Size::new(40, 30));
    state.scroll_to(30, 50);
    state.scroll_by(-10, -20);
    assert_eq!(state.offset, Offset::new(20, 30));
}

#[test]
fn scroll_by_clamps() {
    let mut state = ScrollState::new(Size::new(100, 200), Size::new(40, 30));
    state.scroll_by(-5, -5);
    assert_eq!(state.offset, Offset::new(0, 0));
}

#[test]
fn is_scrollable() {
    let state = ScrollState::new(Size::new(100, 200), Size::new(40, 30));
    assert!(state.is_scrollable_x());
    assert!(state.is_scrollable_y());
}

#[test]
fn not_scrollable_when_fits() {
    let state = ScrollState::new(Size::new(40, 30), Size::new(40, 30));
    assert!(!state.is_scrollable_x());
    assert!(!state.is_scrollable_y());
}

#[test]
fn not_scrollable_content_smaller() {
    let state = ScrollState::new(Size::new(10, 5), Size::new(40, 30));
    assert!(!state.is_scrollable_x());
    assert!(!state.is_scrollable_y());
}

#[test]
fn visible_region_at_zero() {
    let state = ScrollState::new(Size::new(100, 200), Size::new(40, 30));
    assert_eq!(state.visible_region(), Region::new(0, 0, 40, 30));
}

#[test]
fn visible_region_scrolled() {
    let mut state = ScrollState::new(Size::new(100, 200), Size::new(40, 30));
    state.scroll_to(10, 25);
    assert_eq!(state.visible_region(), Region::new(10, 25, 40, 30));
}

#[test]
fn set_content_size_reclamps() {
    let mut state = ScrollState::new(Size::new(100, 200), Size::new(40, 30));
    state.scroll_to(50, 150);
    // Shrink content so max scroll becomes (10, 20)
    state.set_content_size(Size::new(50, 50));
    assert_eq!(state.offset, Offset::new(10, 20));
}

#[test]
fn set_viewport_size_reclamps() {
    let mut state = ScrollState::new(Size::new(100, 200), Size::new(40, 30));
    state.scroll_to(50, 150);
    // Grow viewport so max scroll becomes (20, 100)
    state.set_viewport_size(Size::new(80, 100));
    assert_eq!(state.offset, Offset::new(20, 100));
}

