use gilt_tui::compositor::Compositor;
use gilt_tui::geometry::Region;
use gilt_tui::snapshot::{compositor_to_string, strips_to_string};
use gilt_tui::strip::{CellStyle, Strip};

#[test]
fn strips_to_string_basic() {
    let mut strip = Strip::new(0, 0);
    strip.push_str("ABC", CellStyle::default());
    let output = strips_to_string(&[strip], 10, 1);
    assert!(output.starts_with("ABC"));
}

#[test]
fn strips_to_string_with_offset() {
    let mut strip = Strip::new(0, 5);
    strip.push_str("XY", CellStyle::default());
    let output = strips_to_string(&[strip], 10, 1);
    // 5 spaces + "XY"
    assert_eq!(&output[5..7], "XY");
}

#[test]
fn strips_to_string_multirow() {
    let mut s0 = Strip::new(0, 0);
    s0.push_str("Row0", CellStyle::default());
    let mut s1 = Strip::new(1, 0);
    s1.push_str("Row1", CellStyle::default());
    let output = strips_to_string(&[s0, s1], 10, 2);
    let lines: Vec<&str> = output.split('\n').collect();
    assert_eq!(lines.len(), 2);
    assert!(lines[0].starts_with("Row0"));
    assert!(lines[1].starts_with("Row1"));
}

#[test]
fn strips_to_string_empty() {
    let output = strips_to_string(&[], 10, 3);
    // 3 rows of blank, all trimmed to empty
    let lines: Vec<&str> = output.split('\n').collect();
    assert_eq!(lines.len(), 3);
    for line in &lines {
        assert!(line.is_empty());
    }
}

#[test]
fn strips_to_string_zero_dimensions() {
    let output = strips_to_string(&[], 0, 0);
    assert!(output.is_empty());
}

#[test]
fn strips_to_string_clips_out_of_bounds() {
    // Strip at y=5, but height is only 3 — should be ignored
    let mut strip = Strip::new(5, 0);
    strip.push_str("Ghost", CellStyle::default());
    let output = strips_to_string(&[strip], 10, 3);
    assert!(!output.contains("Ghost"));
}

#[test]
fn compositor_to_string_blank() {
    let compositor = Compositor::new(10, 3);
    let output = compositor_to_string(&compositor);
    // All blank rows, trimmed to empty
    let lines: Vec<&str> = output.split('\n').collect();
    assert_eq!(lines.len(), 3);
    for line in &lines {
        assert!(line.is_empty());
    }
}

#[test]
fn compositor_to_string_with_content() {
    let mut compositor = Compositor::new(10, 3);
    let mut strip = Strip::new(0, 0);
    strip.push_str("Hi", CellStyle::default());
    let region = Region::new(0, 0, 10, 3);
    compositor.place_strips(&[strip], &region);
    let output = compositor_to_string(&compositor);
    assert!(output.starts_with("Hi"));
}

#[test]
fn compositor_to_string_zero_size() {
    let compositor = Compositor::new(0, 0);
    let output = compositor_to_string(&compositor);
    assert!(output.is_empty());
}

