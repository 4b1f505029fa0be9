//! The resolved style record: one optional field per supported property.
use vstd::prelude::*;
use crate::scalar::{Scalar, ScalarBox};

verus! {

#[derive(Clone, Copy, Debug, PartialEq, Eq, Structural)]
pub enum TextAlign {
    Left,
    Center,
    Right,
}

#[derive(Clone, Copy, Debug, PartialEq, Eq, Structural)]
pub enum Display {
    Block,
    /// `display: none`
    Off,
}

#[derive(Clone, Copy, Debug, PartialEq, Eq, Structural)]
pub enum Visibility {
    Visible,
    Hidden,
}

#[derive(Clone, Copy, Debug, PartialEq, Eq, Structural)]
pub enum Overflow {
    Hidden,
    Scroll,
    Auto,
}

#[derive(Clone, Copy, Debug, PartialEq, Eq, Structural)]
pub enum LayoutDirection {
    Vertical,
    Horizontal,
    Grid,
}

#[derive(Clone, Copy, Debug, PartialEq, Eq, Structural)]
pub enum Dock {
    Top,
    Right,
    Bottom,
    Left,
}

#[derive(Clone, Copy, Debug, PartialEq, Eq, Structural)]
pub enum BorderKind {
    /// `border: none`
    Off,
    Thin,
    Heavy,
    Double,
    Round,
    Ascii,
}

/// A border kind with an optional color name or `#hex` color.
#[derive(Clone, Debug, PartialEq)]
pub struct Border {
    pub kind: BorderKind,
    pub color: Option<String>,
}

impl Border {
    /// A field-by-field copy.
    pub fn dup(&self) -> (r: Border)
        ensures
            r == *self,
    {
        Border { kind: self.kind, color: dup_text(&self.color) }
    }
}

/// A copy of an optional string.
pub fn dup_text(t: &Option<String>) -> (r: Option<String>)
    ensures
        r == *t,
{
    match t {
        Some(s) => Some(s.clone()),
        None => None,
    }
}

/// Text attributes; each is unset, or explicitly on or off.
#[derive(Clone, Copy, Debug, Default, PartialEq, Eq, Structural)]
pub struct TextStyleFlags {
    pub bold: Option<bool>,
    pub dim: Option<bool>,
    pub italic: Option<bool>,
    pub underline: Option<bool>,
    pub strikethrough: Option<bool>,
    pub reverse: Option<bool>,
}

impl TextStyleFlags {
    pub open spec fn spec_unset() -> TextStyleFlags {
        TextStyleFlags {
            bold: None,
            dim: None,
            italic: None,
            underline: None,
            strikethrough: None,
            reverse: None,
        }
    }

    /// All six attributes unset.
    pub fn unset() -> (r: TextStyleFlags)
        ensures
            r == TextStyleFlags::spec_unset(),
    {
        TextStyleFlags {
            bold: None,
            dim: None,
            italic: None,
            underline: None,
            strikethrough: None,
            reverse: None,
        }
    }
}

/// One optional value per property; `None` means unset.
#[derive(Clone, Debug, PartialEq)]
pub struct Styles {
    pub display: Option<Display>,
    pub visibility: Option<Visibility>,
    pub layout: Option<LayoutDirection>,
    pub dock: Option<Dock>,
    pub overflow_x: Option<Overflow>,
    pub overflow_y: Option<Overflow>,
    pub width: Option<Scalar>,
    pub height: Option<Scalar>,
    pub min_width: Option<Scalar>,
    pub min_height: Option<Scalar>,
    pub max_width: Option<Scalar>,
    pub max_height: Option<Scalar>,
    pub margin: Option<ScalarBox>,
    pub padding: Option<ScalarBox>,
    pub color: Option<String>,
    pub background: Option<String>,
    pub text_align: Option<TextAlign>,
    pub text_style: Option<TextStyleFlags>,
    pub border: Option<Border>,
}

/// `b` where it is set, else `a`.
pub open spec fn pick<T>(a: Option<T>, b: Option<T>) -> Option<T> {
    if b is Some {
        b
    } else {
        a
    }
}

fn pick_copy<T: Copy>(a: Option<T>, b: Option<T>) -> (r: Option<T>)
    ensures
        r == pick(a, b),
{
    match b {
        Some(_) => b,
        None => a,
    }
}

fn pick_text(a: &Option<String>, b: &Option<String>) -> (r: Option<String>)
    ensures
        r == pick(*a, *b),
{
    match b {
        Some(_) => dup_text(b),
        None => dup_text(a),
    }
}

fn pick_border(a: &Option<Border>, b: &Option<Border>) -> (r: Option<Border>)
    ensures
        r == pick(*a, *b),
{
    match b {
        Some(x) => Some(x.dup()),
        None => match a {
            Some(x) => Some(x.dup()),
            None => None,
        },
    }
}

impl Styles {
    pub open spec fn empty() -> Styles {
        Styles {
            display: None,
            visibility: None,
            layout: None,
            dock: None,
            overflow_x: None,
            overflow_y: None,
            width: None,
            height: None,
            min_width: None,
            min_height: None,
            max_width: None,
            max_height: None,
            margin: None,
            padding: None,
            color: None,
            background: None,
            text_align: None,
            text_style: None,
            border: None,
        }
    }

    /// The record with every field unset.
    pub fn new() -> (r: Styles)
        ensures
            r == Styles::empty(),
    {
        Styles {
            display: None,
            visibility: None,
            layout: None,
            dock: None,
            overflow_x: None,
            overflow_y: None,
            width: None,
            height: None,
            min_width: None,
            min_height: None,
            max_width: None,
            max_height: None,
            margin: None,
            padding: None,
            color: None,
            background: None,
            text_align: None,
            text_style: None,
            border: None,
        }
    }

    /// Field-wise merge where `b`'s set fields win.
    pub open spec fn spec_merge(a: Styles, b: Styles) -> Styles {
        Styles {
            display: pick(a.display, b.display),
            visibility: pick(a.visibility, b.visibility),
            layout: pick(a.layout, b.layout),
            dock: pick(a.dock, b.dock),
            overflow_x: pick(a.overflow_x, b.overflow_x),
            overflow_y: pick(a.overflow_y, b.overflow_y),
            width: pick(a.width, b.width),
            height: pick(a.height, b.height),
            min_width: pick(a.min_width, b.min_width),
            min_height: pick(a.min_height, b.min_height),
            max_width: pick(a.max_width, b.max_width),
            max_height: pick(a.max_height, b.max_height),
            margin: pick(a.margin, b.margin),
            padding: pick(a.padding, b.padding),
            color: pick(a.color, b.color),
            background: pick(a.background, b.background),
            text_align: pick(a.text_align, b.text_align),
            text_style: pick(a.text_style, b.text_style),
            border: pick(a.border, b.border),
        }
    }

    /// A new record holding, for each field, `other`'s value where `other`
    /// sets it and `self`'s otherwise.
    pub fn merge(&self, other: &Styles) -> (r: Styles)
        ensures
            r == Styles::spec_merge(*self, *other),
    {
        Styles {
            display: pick_copy(self.display, other.display),
            visibility: pick_copy(self.visibility, other.visibility),
            layout: pick_copy(self.layout, other.layout),
            dock: pick_copy(self.dock, other.dock),
            overflow_x: pick_copy(self.overflow_x, other.overflow_x),
            overflow_y: pick_copy(self.overflow_y, other.overflow_y),
            width: pick_copy(self.width, other.width),
            height: pick_copy(self.height, other.height),
            min_width: pick_copy(self.min_width, other.min_width),
            min_height: pick_copy(self.min_height, other.min_height),
            max_width: pick_copy(self.max_width, other.max_width),
            max_height: pick_copy(self.max_height, other.max_height),
            margin: pick_copy(self.margin, other.margin),
            padding: pick_copy(self.padding, other.padding),
            color: pick_text(&self.color, &other.color),
            background: pick_text(&self.background, &other.background),
            text_align: pick_copy(self.text_align, other.text_align),
            text_style: pick_copy(self.text_style, other.text_style),
            border: pick_border(&self.border, &other.border),
        }
    }

    /// Whether no field is set.
    pub fn is_empty(&self) -> (r: bool)
        ensures
            r == (*self == Styles::empty()),
    {
        self.display.is_none() && self.visibility.is_none() && self.layout.is_none()
            && self.dock.is_none() && self.overflow_x.is_none() && self.overflow_y.is_none()
            && self.width.is_none() && self.height.is_none() && self.min_width.is_none()
            && self.min_height.is_none() && self.max_width.is_none() && self.max_height.is_none()
            && self.margin.is_none() && self.padding.is_none() && self.color.is_none()
            && self.background.is_none() && self.text_align.is_none() && self.text_style.is_none()
            && self.border.is_none()
    }
}

/// `merge` is right-biased: every field that `b` sets comes from `b`, and
/// every field that `b` leaves unset comes from `a`.
pub proof fn merge_right_biased(a: Styles, b: Styles)
    ensures
        ({
            let m = Styles::spec_merge(a, b);
            &&& m.display == if b.display is Some { b.display } else { a.display }
            &&& m.visibility == if b.visibility is Some { b.visibility } else { a.visibility }
            &&& m.layout == if b.layout is Some { b.layout } else { a.layout }
            &&& m.dock == if b.dock is Some { b.dock } else { a.dock }
            &&& m.overflow_x == if b.overflow_x is Some { b.overflow_x } else { a.overflow_x }
            &&& m.overflow_y == if b.overflow_y is Some { b.overflow_y } else { a.overflow_y }
            &&& m.width == if b.width is Some { b.width } else { a.width }
            &&& m.height == if b.height is Some { b.height } else { a.height }
            &&& m.min_width == if b.min_width is Some { b.min_width } else { a.min_width }
            &&& m.min_height == if b.min_height is Some { b.min_height } else { a.min_height }
            &&& m.max_width == if b.max_width is Some { b.max_width } else { a.max_width }
            &&& m.max_height == if b.max_height is Some { b.max_height } else { a.max_height }
            &&& m.margin == if b.margin is Some { b.margin } else { a.margin }
            &&& m.padding == if b.padding is Some { b.padding } else { a.padding }
            &&& m.color == if b.color is Some { b.color } else { a.color }
            &&& m.background == if b.background is Some { b.background } else { a.background }
            &&& m.text_align == if b.text_align is Some { b.text_align } else { a.text_align }
            &&& m.text_style == if b.text_style is Some { b.text_style } else { a.text_style }
            &&& m.border == if b.border is Some { b.border } else { a.border }
        }),
{
}

/// Two records that both set some field, to different values: merging them
/// in the two orders gives different results, so `merge` is not commutative.
/// (Records that differ only where one of them is unset merge alike in both
/// orders.)
pub proof fn merge_not_commutative(a: Styles, b: Styles)
    requires
        (a.display is Some && b.display is Some && a.display != b.display) ||
        (a.visibility is Some && b.visibility is Some && a.visibility != b.visibility) ||
        (a.layout is Some && b.layout is Some && a.layout != b.layout) ||
        (a.dock is Some && b.dock is Some && a.dock != b.dock) ||
        (a.overflow_x is Some && b.overflow_x is Some && a.overflow_x != b.overflow_x) ||
        (a.overflow_y is Some && b.overflow_y is Some && a.overflow_y != b.overflow_y) ||
        (a.width is Some && b.width is Some && a.width != b.width) ||
        (a.height is Some && b.height is Some && a.height != b.height) ||
        (a.min_width is Some && b.min_width is Some && a.min_width != b.min_width) ||
        (a.min_height is Some && b.min_height is Some && a.min_height != b.min_height) ||
        (a.max_width is Some && b.max_width is Some && a.max_width != b.max_width) ||
        (a.max_height is Some && b.max_height is Some && a.max_height != b.max_height) ||
        (a.margin is Some && b.margin is Some && a.margin != b.margin) ||
        (a.padding is Some && b.padding is Some && a.padding != b.padding) ||
        (a.color is Some && b.color is Some && a.color != b.color) ||
        (a.background is Some && b.background is Some && a.background != b.background) ||
        (a.text_align is Some && b.text_align is Some && a.text_align != b.text_align) ||
        (a.text_style is Some && b.text_style is Some && a.text_style != b.text_style) ||
        (a.border is Some && b.border is Some && a.border != b.border),
    ensures
        Styles::spec_merge(a, b) != Styles::spec_merge(b, a),
{
    let ab = Styles::spec_merge(a, b);
    let ba = Styles::spec_merge(b, a);
    if a.display is Some && b.display is Some && a.display != b.display {
        assert(ab.display != ba.display);
    } else if a.visibility is Some && b.visibility is Some && a.visibility != b.visibility {
        assert(ab.visibility != ba.visibility);
    } else if a.layout is Some && b.layout is Some && a.layout != b.layout {
        assert(ab.layout != ba.layout);
    } else if a.dock is Some && b.dock is Some && a.dock != b.dock {
        assert(ab.dock != ba.dock);
    } else if a.overflow_x is Some && b.overflow_x is Some && a.overflow_x != b.overflow_x {
        assert(ab.overflow_x != ba.overflow_x);
    } else if a.overflow_y is Some && b.overflow_y is Some && a.overflow_y != b.overflow_y {
        assert(ab.overflow_y != ba.overflow_y);
    } else if a.width is Some && b.width is Some && a.width != b.width {
        assert(ab.width != ba.width);
    } else if a.height is Some && b.height is Some && a.height != b.height {
        assert(ab.height != ba.height);
    } else if a.min_width is Some && b.min_width is Some && a.min_width != b.min_width {
        assert(ab.min_width != ba.min_width);
    } else if a.min_height is Some && b.min_height is Some && a.min_height != b.min_height {
        assert(ab.min_height != ba.min_height);
    } else if a.max_width is Some && b.max_width is Some && a.max_width != b.max_width {
        assert(ab.max_width != ba.max_width);
    } else if a.max_height is Some && b.max_height is Some && a.max_height != b.max_height {
        assert(ab.max_height != ba.max_height);
    } else if a.margin is Some && b.margin is Some && a.margin != b.margin {
        assert(ab.margin != ba.margin);
    } else if a.padding is Some && b.padding is Some && a.padding != b.padding {
        assert(ab.padding != ba.padding);
    } else if a.color is Some && b.color is Some && a.color != b.color {
        assert(ab.color != ba.color);
    } else if a.background is Some && b.background is Some && a.background != b.background {
        assert(ab.background != ba.background);
    } else if a.text_align is Some && b.text_align is Some && a.text_align != b.text_align {
        assert(ab.text_align != ba.text_align);
    } else if a.text_style is Some && b.text_style is Some && a.text_style != b.text_style {
        assert(ab.text_style != ba.text_style);
    } else if a.border is Some && b.border is Some && a.border != b.border {
        assert(ab.border != ba.border);
    }
}

} // verus!

verus! {

/// A border as plain values.
pub struct BorderView {
    pub kind: BorderKind,
    pub color: Option<Seq<char>>,
}

/// A style record with its texts as character sequences.
pub struct StylesView {
    pub display: Option<Display>,
    pub visibility: Option<Visibility>,
    pub layout: Option<LayoutDirection>,
    pub dock: Option<Dock>,
    pub overflow_x: Option<Overflow>,
    pub overflow_y: Option<Overflow>,
    pub width: Option<Scalar>,
    pub height: Option<Scalar>,
    pub min_width: Option<Scalar>,
    pub min_height: Option<Scalar>,
    pub max_width: Option<Scalar>,
    pub max_height: Option<Scalar>,
    pub margin: Option<ScalarBox>,
    pub padding: Option<ScalarBox>,
    pub color: Option<Seq<char>>,
    pub background: Option<Seq<char>>,
    pub text_align: Option<TextAlign>,
    pub text_style: Option<TextStyleFlags>,
    pub border: Option<BorderView>,
}

pub open spec fn text_view(t: Option<String>) -> Option<Seq<char>> {
    match t {
        Some(s) => Some(s@),
        None => None,
    }
}

pub open spec fn border_view(b: Option<Border>) -> Option<BorderView> {
    match b {
        Some(x) => Some(BorderView { kind: x.kind, color: text_view(x.color) }),
        None => None,
    }
}

impl View for Styles {
    type V = StylesView;

    open spec fn view(&self) -> StylesView {
        StylesView {
            display: self.display,
            visibility: self.visibility,
            layout: self.layout,
            dock: self.dock,
            overflow_x: self.overflow_x,
            overflow_y: self.overflow_y,
            width: self.width,
            height: self.height,
            min_width: self.min_width,
            min_height: self.min_height,
            max_width: self.max_width,
            max_height: self.max_height,
            margin: self.margin,
            padding: self.padding,
            color: text_view(self.color),
            background: text_view(self.background),
            text_align: self.text_align,
            text_style: self.text_style,
            border: border_view(self.border),
        }
    }
}

/// Field-wise merge of views where `b`'s set fields win.
pub open spec fn merge_view(a: StylesView, b: StylesView) -> StylesView {
    StylesView {
        display: pick(a.display, b.display),
        visibility: pick(a.visibility, b.visibility),
        layout: pick(a.layout, b.layout),
        dock: pick(a.dock, b.dock),
        overflow_x: pick(a.overflow_x, b.overflow_x),
        overflow_y: pick(a.overflow_y, b.overflow_y),
        width: pick(a.width, b.width),
        height: pick(a.height, b.height),
        min_width: pick(a.min_width, b.min_width),
        min_height: pick(a.min_height, b.min_height),
        max_width: pick(a.max_width, b.max_width),
        max_height: pick(a.max_height, b.max_height),
        margin: pick(a.margin, b.margin),
        padding: pick(a.padding, b.padding),
        color: pick(a.color, b.color),
        background: pick(a.background, b.background),
        text_align: pick(a.text_align, b.text_align),
        text_style: pick(a.text_style, b.text_style),
        border: pick(a.border, b.border),
    }
}

pub proof fn lemma_merge_view(a: Styles, b: Styles)
    ensures
        Styles::spec_merge(a, b)@ == merge_view(a@, b@),
{
}

impl Default for Styles {
    fn default() -> (r: Styles)
        ensures
            r == Styles::empty(),
    {
        Styles::new()
    }
}

} // verus!
