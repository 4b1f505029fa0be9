use gilt_tui::scalar::{Scalar, ScalarBox, Unit};

#[test]
fn test_scalar_cells() {
    let s = Scalar::cells(10000);
    assert_eq!(s.value, 10000);
    assert_eq!(s.unit, Unit::Cells);
    assert!(!s.is_auto());
    assert_eq!(s.to_text(), "10");
}

#[test]
fn test_scalar_cells_float() {
    let s = Scalar::cells(2500);
    assert_eq!(s.to_text(), "2.5");
}

#[test]
fn test_scalar_fr() {
    let s = Scalar::fr(1000);
    assert_eq!(s.value, 1000);
    assert_eq!(s.unit, Unit::Fr);
    assert_eq!(s.to_text(), "1fr");
}

#[test]
fn test_scalar_fr_float() {
    let s = Scalar::fr(1500);
    assert_eq!(s.to_text(), "1.5fr");
}

#[test]
fn test_scalar_percent() {
    let s = Scalar::percent(50000);
    assert_eq!(s.value, 50000);
    assert_eq!(s.unit, Unit::Percent);
    assert_eq!(s.to_text(), "50%");
}

#[test]
fn test_scalar_vw() {
    let s = Scalar::vw(100000);
    assert_eq!(s.value, 100000);
    assert_eq!(s.unit, Unit::Vw);
    assert_eq!(s.to_text(), "100vw");
}

#[test]
fn test_scalar_vh() {
    let s = Scalar::vh(80000);
    assert_eq!(s.value, 80000);
    assert_eq!(s.unit, Unit::Vh);
    assert_eq!(s.to_text(), "80vh");
}

#[test]
fn test_scalar_auto() {
    let s = Scalar::auto();
    assert_eq!(s.value, 0);
    assert_eq!(s.unit, Unit::Auto);
    assert!(s.is_auto());
    assert_eq!(s.to_text(), "auto");
}

#[test]
fn test_scalar_box_all() {
    let b = ScalarBox::all(Scalar::cells(5000));
    assert_eq!(b.top, Scalar::cells(5000));
    assert_eq!(b.right, Scalar::cells(5000));
    assert_eq!(b.bottom, Scalar::cells(5000));
    assert_eq!(b.left, Scalar::cells(5000));
}

#[test]
fn test_scalar_box_symmetric() {
    let b = ScalarBox::symmetric(Scalar::cells(1000), Scalar::cells(2000));
    assert_eq!(b.top, Scalar::cells(1000));
    assert_eq!(b.right, Scalar::cells(2000));
    assert_eq!(b.bottom, Scalar::cells(1000));
    assert_eq!(b.left, Scalar::cells(2000));
}

#[test]
fn test_scalar_box_new() {
    let b = ScalarBox::new(
        Scalar::cells(1000),
        Scalar::percent(50000),
        Scalar::fr(2000),
        Scalar::auto(),
    );
    assert_eq!(b.top, Scalar::cells(1000));
    assert_eq!(b.right, Scalar::percent(50000));
    assert_eq!(b.bottom, Scalar::fr(2000));
    assert!(b.left.is_auto());
}

#[test]
fn test_scalar_negative() {
    let s = Scalar::cells(-3000);
    assert_eq!(s.to_text(), "-3");
}

#[test]
fn test_scalar_zero() {
    let s = Scalar::cells(0);
    assert_eq!(s.to_text(), "0");
}

