use gilt_tui::geometry::{Offset, Region, Size, Spacing};
use std::collections::HashSet;

#[test]
fn offset_new_and_default() {
    assert_eq!(Offset::new(3, -7), Offset { x: 3, y: -7 });
    assert_eq!(Offset::default(), Offset { x: 0, y: 0 });
}

#[test]
fn offset_manhattan_distance() {
    let a = Offset::new(1, 2);
    let b = Offset::new(4, -1);
    assert_eq!(a.manhattan_distance(b), 6); // |3| + |3|
    assert_eq!(a.manhattan_distance(a), 0);
}

#[test]
fn size_new_and_constants() {
    assert_eq!(Size::new(80, 24), Size { width: 80, height: 24 });
    assert_eq!(Size::new(0, 0), Size { width: 0, height: 0 });
    assert_eq!(Size::default(), Size::new(0, 0));
}

#[test]
fn size_area() {
    assert_eq!(Size::new(10, 5).area(), 50);
    assert_eq!(Size::new(0, 0).area(), 0);
}

#[test]
fn size_contains() {
    let s = Size::new(10, 5);
    assert!(s.contains(0, 0));
    assert!(s.contains(9, 4));
    assert!(!s.contains(10, 0));
    assert!(!s.contains(0, 5));
    assert!(!s.contains(-1, 0));
}

#[test]
fn size_to_region() {
    assert_eq!(
        Size::new(80, 24).to_region(),
        Region::new(0, 0, 80, 24),
    );
}

#[test]
fn region_new_and_empty() {
    let r = Region::new(1, 2, 3, 4);
    assert_eq!(r.x, 1);
    assert_eq!(r.y, 2);
    assert_eq!(r.width, 3);
    assert_eq!(r.height, 4);
    assert_eq!(Region::new(0, 0, 0, 0), Region::new(0, 0, 0, 0));
    assert_eq!(Region::default(), Region::new(0, 0, 0, 0));
}

#[test]
fn region_right_bottom() {
    let r = Region::new(5, 10, 20, 30);
    assert_eq!(r.right(), 25);
    assert_eq!(r.bottom(), 40);
}

#[test]
fn region_offset_size() {
    let r = Region::new(5, 10, 20, 30);
    assert_eq!(r.offset(), Offset::new(5, 10));
    assert_eq!(r.size(), Size::new(20, 30));
}

#[test]
fn region_contains_point() {
    let r = Region::new(5, 5, 10, 10);
    assert!(r.contains(5, 5));
    assert!(r.contains(14, 14));
    assert!(!r.contains(15, 5));
    assert!(!r.contains(5, 15));
    assert!(!r.contains(4, 5));
}

#[test]
fn region_contains_region() {
    let outer = Region::new(0, 0, 100, 100);
    let inner = Region::new(10, 10, 20, 20);
    assert!(outer.contains_region(inner));
    assert!(!inner.contains_region(outer));
    assert!(outer.contains_region(outer)); // self-containment
}

#[test]
fn region_overlaps() {
    let a = Region::new(0, 0, 10, 10);
    let b = Region::new(5, 5, 10, 10);
    assert!(a.overlaps(b));
    assert!(b.overlaps(a));

    // Adjacent but not overlapping.
    let c = Region::new(10, 0, 10, 10);
    assert!(!a.overlaps(c));
}

#[test]
fn region_overlaps_zero_size() {
    let a = Region::new(0, 0, 10, 10);
    let z = Region::new(0, 0, 0, 0);
    assert!(!a.overlaps(z));
}

#[test]
fn region_intersection_basic() {
    let a = Region::new(0, 0, 10, 10);
    let b = Region::new(5, 5, 10, 10);
    assert_eq!(a.intersection(b), Region::new(5, 5, 5, 5));
}

#[test]
fn region_intersection_no_overlap() {
    let a = Region::new(0, 0, 5, 5);
    let b = Region::new(10, 10, 5, 5);
    assert_eq!(a.intersection(b), Region::new(0, 0, 0, 0));
}

#[test]
fn region_intersection_adjacent() {
    let a = Region::new(0, 0, 10, 10);
    let b = Region::new(10, 0, 10, 10);
    assert_eq!(a.intersection(b), Region::new(0, 0, 0, 0));
}

#[test]
fn region_intersection_self() {
    let r = Region::new(3, 4, 20, 15);
    assert_eq!(r.intersection(r), r);
}

#[test]
fn region_intersection_contained() {
    let outer = Region::new(0, 0, 100, 100);
    let inner = Region::new(10, 10, 5, 5);
    assert_eq!(outer.intersection(inner), inner);
    assert_eq!(inner.intersection(outer), inner);
}

#[test]
fn region_union_basic() {
    let a = Region::new(0, 0, 5, 5);
    let b = Region::new(10, 10, 5, 5);
    assert_eq!(a.union(b), Region::new(0, 0, 15, 15));
}

#[test]
fn region_union_self() {
    let r = Region::new(3, 4, 10, 10);
    assert_eq!(r.union(r), r);
}

#[test]
fn region_translate() {
    let r = Region::new(5, 10, 20, 30);
    let moved = r.translate(Offset::new(-5, 3));
    assert_eq!(moved, Region::new(0, 13, 20, 30));
}

#[test]
fn region_translate_zero() {
    let r = Region::new(1, 2, 3, 4);
    assert_eq!(r.translate(Offset::new(0, 0)), r);
}

#[test]
fn region_grow() {
    let r = Region::new(10, 10, 20, 20);
    let s = Spacing::all(5);
    let grown = r.grow(s);
    assert_eq!(grown, Region::new(5, 5, 30, 30));
}

#[test]
fn region_shrink() {
    let r = Region::new(10, 10, 20, 20);
    let s = Spacing::all(5);
    let shrunk = r.shrink(s);
    assert_eq!(shrunk, Region::new(15, 15, 10, 10));
}

#[test]
fn region_grow_shrink_roundtrip() {
    let r = Region::new(10, 10, 40, 30);
    let s = Spacing::new(2, 3, 4, 5);
    assert_eq!(r.grow(s).shrink(s), r);
}

#[test]
fn region_shrink_clamps_to_zero() {
    let r = Region::new(5, 5, 4, 4);
    let s = Spacing::all(10);
    let shrunk = r.shrink(s);
    assert_eq!(shrunk.width, 0);
    assert_eq!(shrunk.height, 0);
}

#[test]
fn region_split_vertical() {
    let r = Region::new(0, 0, 80, 24);
    let (left, right) = r.split_vertical(30);
    assert_eq!(left, Region::new(0, 0, 30, 24));
    assert_eq!(right, Region::new(30, 0, 50, 24));
}

#[test]
fn region_split_vertical_at_zero() {
    let r = Region::new(5, 5, 20, 10);
    let (left, right) = r.split_vertical(0);
    assert_eq!(left.width, 0);
    assert_eq!(right, r);
}

#[test]
fn region_split_vertical_at_full_width() {
    let r = Region::new(5, 5, 20, 10);
    let (left, right) = r.split_vertical(20);
    assert_eq!(left, r);
    assert_eq!(right.width, 0);
}

#[test]
fn region_split_vertical_clamped() {
    let r = Region::new(0, 0, 10, 10);
    let (left, right) = r.split_vertical(100);
    assert_eq!(left, r);
    assert_eq!(right.width, 0);

    let (left2, right2) = r.split_vertical(-5);
    assert_eq!(left2.width, 0);
    assert_eq!(right2, r);
}

#[test]
fn region_split_horizontal() {
    let r = Region::new(0, 0, 80, 24);
    let (top, bottom) = r.split_horizontal(10);
    assert_eq!(top, Region::new(0, 0, 80, 10));
    assert_eq!(bottom, Region::new(0, 10, 80, 14));
}

#[test]
fn region_split_horizontal_clamped() {
    let r = Region::new(0, 0, 10, 10);
    let (top, bottom) = r.split_horizontal(50);
    assert_eq!(top, r);
    assert_eq!(bottom.height, 0);

    let (top2, bottom2) = r.split_horizontal(-5);
    assert_eq!(top2.height, 0);
    assert_eq!(bottom2, r);
}

#[test]
fn region_crop_size() {
    let r = Region::new(5, 5, 100, 50);
    let cropped = r.crop_size(Size::new(20, 10));
    assert_eq!(cropped, Region::new(5, 5, 20, 10));
}

#[test]
fn region_crop_size_no_change() {
    let r = Region::new(0, 0, 10, 10);
    let cropped = r.crop_size(Size::new(100, 100));
    assert_eq!(cropped, r);
}

#[test]
fn spacing_constructors() {
    assert_eq!(Spacing::new(1, 2, 3, 4), Spacing { top: 1, right: 2, bottom: 3, left: 4 });
    assert_eq!(Spacing::all(5), Spacing { top: 5, right: 5, bottom: 5, left: 5 });
    assert_eq!(Spacing::symmetric(3, 7), Spacing { top: 3, right: 7, bottom: 3, left: 7 });
    assert_eq!(Spacing::vertical(2, 4), Spacing { top: 2, right: 0, bottom: 4, left: 0 });
    assert_eq!(Spacing::horizontal(6, 8), Spacing { top: 0, right: 8, bottom: 0, left: 6 });
}

#[test]
fn spacing_zero_and_default() {
    assert_eq!(Spacing::new(0, 0, 0, 0), Spacing::new(0, 0, 0, 0));
    assert_eq!(Spacing::default(), Spacing::new(0, 0, 0, 0));
}

#[test]
fn spacing_width_height() {
    let s = Spacing::new(1, 2, 3, 4);
    assert_eq!(s.width(), 6);  // left(4) + right(2)
    assert_eq!(s.height(), 4); // top(1) + bottom(3)
}

#[test]
fn spacing_grow_maximum() {
    let a = Spacing::new(1, 20, 3, 40);
    let b = Spacing::new(10, 2, 30, 4);
    assert_eq!(a.grow_maximum(b), Spacing::new(10, 20, 30, 40));
}

#[test]
fn spacing_grow_maximum_self() {
    let s = Spacing::new(5, 6, 7, 8);
    assert_eq!(s.grow_maximum(s), s);
}

#[test]
fn types_are_copy() {
    let o = Offset::new(1, 2);
    let o2 = o; // Copy
    assert_eq!(o, o2);

    let s = Size::new(3, 4);
    let s2 = s;
    assert_eq!(s, s2);

    let r = Region::new(1, 2, 3, 4);
    let r2 = r;
    assert_eq!(r, r2);

    let sp = Spacing::all(5);
    let sp2 = sp;
    assert_eq!(sp, sp2);
}

#[test]
fn types_implement_hash() {
    let mut set = HashSet::new();
    set.insert(Offset::new(1, 2));
    set.insert(Offset::new(1, 2));
    assert_eq!(set.len(), 1);

    let mut set2 = HashSet::new();
    set2.insert(Region::new(0, 0, 10, 10));
    set2.insert(Region::new(0, 0, 10, 10));
    assert_eq!(set2.len(), 1);
}

#[test]
fn types_debug_format() {
    // Just ensure Debug doesn't panic.
    let _ = format!("{:?}", Offset::new(1, 2));
    let _ = format!("{:?}", Size::new(3, 4));
    let _ = format!("{:?}", Region::new(5, 6, 7, 8));
    let _ = format!("{:?}", Spacing::new(1, 2, 3, 4));
}


#[test]
fn offset_add_sub() {
    let a = Offset::new(1, 2);
    let b = Offset::new(3, 4);
    assert_eq!(a + b, Offset::new(4, 6));
    assert_eq!(b - a, Offset::new(2, 2));
}

#[test]
fn offset_neg() {
    assert_eq!(-Offset::new(5, -3), Offset::new(-5, 3));
}

#[test]
fn offset_mul_scalar() {
    assert_eq!(Offset::new(2, -3) * 4, Offset::new(8, -12));
    assert_eq!(Offset::new(1, 1) * 0, Offset::new(0, 0));
}

#[test]
fn size_add_sub() {
    let a = Size::new(10, 5);
    let b = Size::new(3, 2);
    assert_eq!(a + b, Size::new(13, 7));
    assert_eq!(a - b, Size::new(7, 3));
}

#[test]
fn spacing_add() {
    let a = Spacing::new(1, 2, 3, 4);
    let b = Spacing::new(10, 20, 30, 40);
    assert_eq!(a + b, Spacing::new(11, 22, 33, 44));
}

