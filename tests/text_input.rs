use gilt_tui::geometry::Region;
use gilt_tui::styles::Styles;
use gilt_tui::text_input::Input;

fn region(w: i32, h: i32) -> Region {
    Region::new(0, 0, w, h)
}

fn styles() -> Styles {
    Styles::new()
}

#[test]
fn widget_type_is_input() {
    let i = Input::new();
    assert_eq!(i.widget_type(), "Input");
}

#[test]
fn input_default_css_has_expected_props() {
    let i = Input::new();
    assert!(i.default_css().contains("height: 1"));
    assert!(i.default_css().contains("width: 1fr"));
}

#[test]
fn can_focus_is_true() {
    let i = Input::new();
    assert!(i.can_focus());
}

#[test]
fn with_value_sets_cursor_to_end() {
    let i = Input::new().with_value("hello");
    assert_eq!(i.value(), "hello");
    assert_eq!(i.cursor_position(), 5);
}

#[test]
fn with_placeholder() {
    let i = Input::new().with_placeholder("Type here...");
    let strips = i.render(region(20, 1), &styles());
    let text: String = strips[0].cells.iter().take(12).map(|c| c.ch).collect();
    assert_eq!(text, "Type here...");
    // Placeholder is rendered dim
    assert!(strips[0].cells[0].style.dim);
}

#[test]
fn password_mode() {
    let i = Input::new().with_value("secret").password(true);
    let strips = i.render(region(20, 1), &styles());
    // Should render 6 dots (bullet chars)
    assert_eq!(strips[0].cells[0].ch, '\u{2022}');
    assert_eq!(strips[0].cells[5].ch, '\u{2022}');
}

#[test]
fn move_cursor_left() {
    let mut i = Input::new().with_value("abc");
    assert_eq!(i.cursor_position(), 3);
    i.move_cursor_left();
    assert_eq!(i.cursor_position(), 2);
    i.move_cursor_left();
    assert_eq!(i.cursor_position(), 1);
}

#[test]
fn move_cursor_left_at_start() {
    let mut i = Input::new().with_value("abc");
    i.move_cursor_home();
    i.move_cursor_left(); // should not underflow
    assert_eq!(i.cursor_position(), 0);
}

#[test]
fn move_cursor_right() {
    let mut i = Input::new().with_value("abc");
    i.move_cursor_home();
    i.move_cursor_right();
    assert_eq!(i.cursor_position(), 1);
}

#[test]
fn move_cursor_right_at_end() {
    let mut i = Input::new().with_value("abc");
    i.move_cursor_right(); // already at end
    assert_eq!(i.cursor_position(), 3);
}

#[test]
fn move_cursor_home_and_end() {
    let mut i = Input::new().with_value("hello");
    i.move_cursor_home();
    assert_eq!(i.cursor_position(), 0);
    i.move_cursor_end();
    assert_eq!(i.cursor_position(), 5);
}

#[test]
fn insert_char_at_end() {
    let mut i = Input::new().with_value("ab");
    i.insert_char('c');
    assert_eq!(i.value(), "abc");
    assert_eq!(i.cursor_position(), 3);
}

#[test]
fn insert_char_at_start() {
    let mut i = Input::new().with_value("bc");
    i.move_cursor_home();
    i.insert_char('a');
    assert_eq!(i.value(), "abc");
    assert_eq!(i.cursor_position(), 1);
}

#[test]
fn insert_char_in_middle() {
    let mut i = Input::new().with_value("ac");
    i.move_cursor_home();
    i.move_cursor_right();
    i.insert_char('b');
    assert_eq!(i.value(), "abc");
    assert_eq!(i.cursor_position(), 2);
}

#[test]
fn delete_char_backspace() {
    let mut i = Input::new().with_value("abc");
    i.delete_char();
    assert_eq!(i.value(), "ab");
    assert_eq!(i.cursor_position(), 2);
}

#[test]
fn delete_char_at_start_does_nothing() {
    let mut i = Input::new().with_value("abc");
    i.move_cursor_home();
    i.delete_char();
    assert_eq!(i.value(), "abc");
    assert_eq!(i.cursor_position(), 0);
}

#[test]
fn delete_forward() {
    let mut i = Input::new().with_value("abc");
    i.move_cursor_home();
    i.delete_forward();
    assert_eq!(i.value(), "bc");
    assert_eq!(i.cursor_position(), 0);
}

#[test]
fn delete_forward_at_end_does_nothing() {
    let mut i = Input::new().with_value("abc");
    i.delete_forward();
    assert_eq!(i.value(), "abc");
}

#[test]
fn set_value() {
    let mut i = Input::new().with_value("old");
    i.set_value("new");
    assert_eq!(i.value(), "new");
    assert_eq!(i.cursor_position(), 3);
}

#[test]
fn clear() {
    let mut i = Input::new().with_value("abc");
    i.clear();
    assert_eq!(i.value(), "");
    assert_eq!(i.cursor_position(), 0);
}

#[test]
fn unicode_insert_and_delete() {
    let mut i = Input::new();
    i.insert_char('a');
    i.insert_char('\u{00e9}'); // e-acute, 2 bytes
    i.insert_char('b');
    assert_eq!(i.value(), "a\u{00e9}b");
    i.delete_char(); // remove 'b'
    assert_eq!(i.value(), "a\u{00e9}");
    i.delete_char(); // remove e-acute
    assert_eq!(i.value(), "a");
}

#[test]
fn unicode_cursor_movement() {
    let mut i = Input::new().with_value("a\u{00e9}b"); // 4 bytes: a(1) + e-acute(2) + b(1)
    assert_eq!(i.cursor_position(), 4);
    i.move_cursor_left(); // before 'b' -> byte 3
    assert_eq!(i.cursor_position(), 3);
    i.move_cursor_left(); // before e-acute -> byte 1
    assert_eq!(i.cursor_position(), 1);
    i.move_cursor_left(); // before 'a' -> byte 0
    assert_eq!(i.cursor_position(), 0);
}

#[test]
fn render_value() {
    let i = Input::new().with_value("abc");
    let strips = i.render(region(10, 1), &styles());
    assert_eq!(strips.len(), 1);
    assert_eq!(strips[0].cells[0].ch, 'a');
    assert_eq!(strips[0].cells[1].ch, 'b');
    assert_eq!(strips[0].cells[2].ch, 'c');
    assert_eq!(strips[0].width(), 10);
}

#[test]
fn input_render_truncates_to_width() {
    let i = Input::new().with_value("Hello World!");
    let strips = i.render(region(5, 1), &styles());
    assert_eq!(strips[0].width(), 5);
    assert_eq!(strips[0].cells[4].ch, 'o');
}

#[test]
fn input_render_zero_region() {
    let i = Input::new().with_value("abc");
    assert!(i.render(region(0, 1), &styles()).is_empty());
    assert!(i.render(region(10, 0), &styles()).is_empty());
}

#[test]
fn render_empty_no_placeholder() {
    let i = Input::new();
    let strips = i.render(region(5, 1), &styles());
    assert_eq!(strips.len(), 1);
    // All spaces
    for cell in &strips[0].cells {
        assert_eq!(cell.ch, ' ');
    }
}

#[test]
fn input_default_creates_empty() {
    let i = Input::default();
    assert_eq!(i.value(), "");
    assert_eq!(i.cursor_position(), 0);
}

