//! The property resolver: declaration values to typed [`Styles`] fields.
use vstd::prelude::*;
use crate::model::DeclarationValue;
use crate::parser::join;
use crate::scalar::{Scalar, ScalarBox, Unit};
use crate::styles::{
    Border, BorderKind, Display, Dock, LayoutDirection, Overflow, Styles, TextAlign,
    TextStyleFlags, Visibility,
};
use crate::text::{chars_of, string_from_chars, text_eq};

verus! {

/// Why a declaration could not be applied.
#[derive(Clone, Debug, PartialEq)]
pub enum PropertyError {
    /// The property name is not in the table.
    UnknownProperty(String),
    /// The values do not fit the property.
    InvalidValue { property: String, message: String },
}

/// The scalar a value stands for: a number is in cells, a dimension takes
/// its unit, and the identifier `auto` is the auto scalar.
pub open spec fn scalar_of(v: DeclarationValue) -> Option<Scalar> {
    match v {
        DeclarationValue::Number(n) => Some(Scalar { value: n, unit: Unit::Cells }),
        DeclarationValue::Dimension(n, u) => if u@ == "fr"@ {
            Some(Scalar { value: n, unit: Unit::Fr })
        } else if u@ == "%"@ {
            Some(Scalar { value: n, unit: Unit::Percent })
        } else if u@ == "vw"@ {
            Some(Scalar { value: n, unit: Unit::Vw })
        } else if u@ == "vh"@ {
            Some(Scalar { value: n, unit: Unit::Vh })
        } else {
            None
        },
        DeclarationValue::Ident(name) => if name@ == "auto"@ {
            Some(Scalar { value: 0, unit: Unit::Auto })
        } else {
            None
        },
        _ => None,
    }
}

fn invalid(property: &str, message: &str) -> (r: PropertyError)
    ensures
        r matches PropertyError::InvalidValue { property: p, .. } && p@ == property@,
{
    PropertyError::InvalidValue {
        property: string_from_chars(chars_of(property)),
        message: string_from_chars(chars_of(message)),
    }
}

/// Convert one value to a scalar.
pub fn parse_scalar(value: &DeclarationValue) -> (r: Result<Scalar, PropertyError>)
    ensures
        r is Ok <==> scalar_of(*value) is Some,
        r is Ok ==> r->Ok_0 == scalar_of(*value)->Some_0,
        r is Err ==> r->Err_0 is InvalidValue,
{
    match value {
        DeclarationValue::Number(n) => Ok(Scalar::cells(*n)),
        DeclarationValue::Dimension(n, unit) => {
            if text_eq(unit.as_str(), "fr") {
                Ok(Scalar::fr(*n))
            } else if text_eq(unit.as_str(), "%") {
                Ok(Scalar::percent(*n))
            } else if text_eq(unit.as_str(), "vw") {
                Ok(Scalar::vw(*n))
            } else if text_eq(unit.as_str(), "vh") {
                Ok(Scalar::vh(*n))
            } else {
                Err(invalid("scalar", "unknown unit"))
            }
        },
        DeclarationValue::Ident(name) => {
            if text_eq(name.as_str(), "auto") {
                Ok(Scalar::auto())
            } else {
                Err(invalid("scalar", "expected number, dimension, or 'auto'"))
            }
        },
        _ => Err(invalid("scalar", "expected number, dimension, or 'auto'")),
    }
}

/// The box that 1 to 4 values expand to: one value for all sides; two for
/// (vertical, horizontal); three for (top, horizontal, bottom); four for
/// (top, right, bottom, left).
pub open spec fn box_of(vals: Seq<DeclarationValue>) -> Option<ScalarBox> {
    if vals.len() == 1 {
        match scalar_of(vals[0]) {
            Some(v) => Some(ScalarBox { top: v, right: v, bottom: v, left: v }),
            None => None,
        }
    } else if vals.len() == 2 {
        match (scalar_of(vals[0]), scalar_of(vals[1])) {
            (Some(v), Some(h)) => Some(ScalarBox { top: v, right: h, bottom: v, left: h }),
            _ => None,
        }
    } else if vals.len() == 3 {
        match (scalar_of(vals[0]), scalar_of(vals[1]), scalar_of(vals[2])) {
            (Some(t), Some(h), Some(b)) => Some(ScalarBox { top: t, right: h, bottom: b, left: h }),
            _ => None,
        }
    } else if vals.len() == 4 {
        match (scalar_of(vals[0]), scalar_of(vals[1]), scalar_of(vals[2]), scalar_of(vals[3])) {
            (Some(t), Some(r), Some(b), Some(l)) => Some(
                ScalarBox { top: t, right: r, bottom: b, left: l },
            ),
            _ => None,
        }
    } else {
        None
    }
}

/// Expand 1 to 4 values into a box; any other count is an error.
pub fn parse_scalar_box(values: &[DeclarationValue]) -> (r: Result<ScalarBox, PropertyError>)
    ensures
        r is Ok <==> box_of(values@) is Some,
        r is Ok ==> r->Ok_0 == box_of(values@)->Some_0,
        r is Err ==> r->Err_0 is InvalidValue,
{
    let n = values.len();
    if n == 1 {
        let v = parse_scalar(&values[0])?;
        Ok(ScalarBox::all(v))
    } else if n == 2 {
        let v = parse_scalar(&values[0])?;
        let h = parse_scalar(&values[1])?;
        Ok(ScalarBox::symmetric(v, h))
    } else if n == 3 {
        let t = parse_scalar(&values[0])?;
        let h = parse_scalar(&values[1])?;
        let b = parse_scalar(&values[2])?;
        Ok(ScalarBox::new(t, h, b, h))
    } else if n == 4 {
        let t = parse_scalar(&values[0])?;
        let r = parse_scalar(&values[1])?;
        let b = parse_scalar(&values[2])?;
        let l = parse_scalar(&values[3])?;
        Ok(ScalarBox::new(t, r, b, l))
    } else {
        Err(invalid("margin/padding", "expected 1-4 values"))
    }
}

/// The identifier when `vals` is exactly one identifier.
pub open spec fn single_ident(vals: Seq<DeclarationValue>) -> Option<Seq<char>> {
    if vals.len() == 1 && vals[0] is Ident {
        Some(vals[0]->Ident_0@)
    } else {
        None
    }
}

fn require_single_ident<'a>(values: &'a [DeclarationValue], property: &str) -> (r: Result<
    &'a String,
    PropertyError,
>)
    ensures
        r is Ok <==> single_ident(values@) is Some,
        r is Ok ==> r->Ok_0@ == single_ident(values@)->Some_0,
        r is Err ==> (r->Err_0 matches PropertyError::InvalidValue { property: p, .. } && p@
            == property@),
{
    if values.len() != 1 {
        return Err(invalid(property, "expected 1 value"));
    }
    match &values[0] {
        DeclarationValue::Ident(name) => Ok(name),
        _ => Err(invalid(property, "expected identifier")),
    }
}

/// A color: a name as written, or `#` and the hex digits.
pub open spec fn color_text(v: DeclarationValue) -> Option<Seq<char>> {
    match v {
        DeclarationValue::Ident(name) => Some(name@),
        DeclarationValue::Color(hex) => Some(seq!['#'] + hex@),
        _ => None,
    }
}

pub open spec fn single_color(vals: Seq<DeclarationValue>) -> Option<Seq<char>> {
    if vals.len() == 1 {
        color_text(vals[0])
    } else {
        None
    }
}

fn color_value(v: &DeclarationValue) -> (r: Option<String>)
    ensures
        r is Some <==> color_text(*v) is Some,
        r is Some ==> r->Some_0@ == color_text(*v)->Some_0,
{
    match v {
        DeclarationValue::Ident(name) => Some(name.clone()),
        DeclarationValue::Color(hex) => {
            proof {
                reveal_strlit("#");
            }
            let s = join("#", hex.as_str());
            Some(s)
        },
        _ => None,
    }
}

fn require_color_value(values: &[DeclarationValue], property: &str) -> (r: Result<
    String,
    PropertyError,
>)
    ensures
        r is Ok <==> single_color(values@) is Some,
        r is Ok ==> r->Ok_0@ == single_color(values@)->Some_0,
        r is Err ==> (r->Err_0 matches PropertyError::InvalidValue { property: p, .. } && p@
            == property@),
{
    if values.len() != 1 {
        return Err(invalid(property, "expected 1 color value"));
    }
    match color_value(&values[0]) {
        Some(c) => Ok(c),
        None => Err(invalid(property, "expected color name or hex color")),
    }
}

pub open spec fn display_kw(n: Seq<char>) -> Option<Display> {
    if n == "block"@ {
        Some(Display::Block)
    } else if n == "none"@ {
        Some(Display::Off)
    } else {
        None
    }
}

pub open spec fn visibility_kw(n: Seq<char>) -> Option<Visibility> {
    if n == "visible"@ {
        Some(Visibility::Visible)
    } else if n == "hidden"@ {
        Some(Visibility::Hidden)
    } else {
        None
    }
}

pub open spec fn layout_kw(n: Seq<char>) -> Option<LayoutDirection> {
    if n == "vertical"@ {
        Some(LayoutDirection::Vertical)
    } else if n == "horizontal"@ {
        Some(LayoutDirection::Horizontal)
    } else if n == "grid"@ {
        Some(LayoutDirection::Grid)
    } else {
        None
    }
}

pub open spec fn dock_kw(n: Seq<char>) -> Option<Dock> {
    if n == "top"@ {
        Some(Dock::Top)
    } else if n == "right"@ {
        Some(Dock::Right)
    } else if n == "bottom"@ {
        Some(Dock::Bottom)
    } else if n == "left"@ {
        Some(Dock::Left)
    } else {
        None
    }
}

pub open spec fn overflow_kw(n: Seq<char>) -> Option<Overflow> {
    if n == "hidden"@ {
        Some(Overflow::Hidden)
    } else if n == "scroll"@ {
        Some(Overflow::Scroll)
    } else if n == "auto"@ {
        Some(Overflow::Auto)
    } else {
        None
    }
}

pub open spec fn align_kw(n: Seq<char>) -> Option<TextAlign> {
    if n == "left"@ {
        Some(TextAlign::Left)
    } else if n == "center"@ {
        Some(TextAlign::Center)
    } else if n == "right"@ {
        Some(TextAlign::Right)
    } else {
        None
    }
}

pub open spec fn border_kw(n: Seq<char>) -> Option<BorderKind> {
    if n == "none"@ {
        Some(BorderKind::Off)
    } else if n == "thin"@ {
        Some(BorderKind::Thin)
    } else if n == "heavy"@ {
        Some(BorderKind::Heavy)
    } else if n == "double"@ {
        Some(BorderKind::Double)
    } else if n == "round"@ {
        Some(BorderKind::Round)
    } else if n == "ascii"@ {
        Some(BorderKind::Ascii)
    } else {
        None
    }
}

/// Parse an overflow keyword.
pub fn parse_overflow(name: &str, property: &str) -> (r: Result<Overflow, PropertyError>)
    ensures
        r is Ok <==> overflow_kw(name@) is Some,
        r is Ok ==> r->Ok_0 == overflow_kw(name@)->Some_0,
        r is Err ==> (r->Err_0 matches PropertyError::InvalidValue { property: p, .. } && p@
            == property@),
{
    if text_eq(name, "hidden") {
        Ok(Overflow::Hidden)
    } else if text_eq(name, "scroll") {
        Ok(Overflow::Scroll)
    } else if text_eq(name, "auto") {
        Ok(Overflow::Auto)
    } else {
        Err(invalid(property, "expected hidden|scroll|auto"))
    }
}

fn display_of(name: &str) -> (r: Option<Display>)
    ensures
        r == display_kw(name@),
{
    if text_eq(name, "block") {
        Some(Display::Block)
    } else if text_eq(name, "none") {
        Some(Display::Off)
    } else {
        None
    }
}

fn visibility_of(name: &str) -> (r: Option<Visibility>)
    ensures
        r == visibility_kw(name@),
{
    if text_eq(name, "visible") {
        Some(Visibility::Visible)
    } else if text_eq(name, "hidden") {
        Some(Visibility::Hidden)
    } else {
        None
    }
}

fn layout_of(name: &str) -> (r: Option<LayoutDirection>)
    ensures
        r == layout_kw(name@),
{
    if text_eq(name, "vertical") {
        Some(LayoutDirection::Vertical)
    } else if text_eq(name, "horizontal") {
        Some(LayoutDirection::Horizontal)
    } else if text_eq(name, "grid") {
        Some(LayoutDirection::Grid)
    } else {
        None
    }
}

fn dock_of(name: &str) -> (r: Option<Dock>)
    ensures
        r == dock_kw(name@),
{
    if text_eq(name, "top") {
        Some(Dock::Top)
    } else if text_eq(name, "right") {
        Some(Dock::Right)
    } else if text_eq(name, "bottom") {
        Some(Dock::Bottom)
    } else if text_eq(name, "left") {
        Some(Dock::Left)
    } else {
        None
    }
}

fn align_of(name: &str) -> (r: Option<TextAlign>)
    ensures
        r == align_kw(name@),
{
    if text_eq(name, "left") {
        Some(TextAlign::Left)
    } else if text_eq(name, "center") {
        Some(TextAlign::Center)
    } else if text_eq(name, "right") {
        Some(TextAlign::Right)
    } else {
        None
    }
}

fn border_kind_of(name: &str) -> (r: Option<BorderKind>)
    ensures
        r == border_kw(name@),
{
    if text_eq(name, "none") {
        Some(BorderKind::Off)
    } else if text_eq(name, "thin") {
        Some(BorderKind::Thin)
    } else if text_eq(name, "heavy") {
        Some(BorderKind::Heavy)
    } else if text_eq(name, "double") {
        Some(BorderKind::Double)
    } else if text_eq(name, "round") {
        Some(BorderKind::Round)
    } else if text_eq(name, "ascii") {
        Some(BorderKind::Ascii)
    } else {
        None
    }
}

/// Whether `vals` make a border: a kind keyword, then optionally a color,
/// and nothing more.
pub open spec fn border_ok(vals: Seq<DeclarationValue>) -> bool {
    &&& 1 <= vals.len() <= 2
    &&& vals[0] is Ident
    &&& border_kw(vals[0]->Ident_0@) is Some
    &&& vals.len() > 1 ==> color_text(vals[1]) is Some
}

/// The border that `vals` describe.
pub open spec fn border_is(vals: Seq<DeclarationValue>, b: Border) -> bool {
    &&& border_ok(vals)
    &&& b.kind == border_kw(vals[0]->Ident_0@)->Some_0
    &&& if vals.len() > 1 {
        b.color is Some && b.color->Some_0@ == color_text(vals[1])->Some_0
    } else {
        b.color is None
    }
}

fn parse_border(values: &[DeclarationValue]) -> (r: Result<Border, PropertyError>)
    ensures
        r is Ok <==> border_ok(values@),
        r is Ok ==> border_is(values@, r->Ok_0),
        r is Err ==> (r->Err_0 matches PropertyError::InvalidValue { property: p, .. } && p@
            == "border"@),
{
    if values.len() == 0 || values.len() > 2 {
        return Err(invalid("border", "expected a border kind and at most one color"));
    }
    let kind_name = match &values[0] {
        DeclarationValue::Ident(name) => name,
        _ => {
            return Err(invalid("border", "expected border kind identifier"));
        },
    };
    let kind = match border_kind_of(kind_name.as_str()) {
        Some(k) => k,
        None => {
            return Err(invalid("border", "unknown border kind"));
        },
    };
    let color = if values.len() > 1 {
        match color_value(&values[1]) {
            Some(c) => Some(c),
            None => {
                return Err(invalid("border", "expected color for border"));
            },
        }
    } else {
        None
    };
    Ok(Border { kind, color })
}

/// The flags after applying one text-style keyword; `none` turns all six
/// off explicitly.
pub open spec fn style_step(f: TextStyleFlags, n: Seq<char>) -> Option<TextStyleFlags> {
    if n == "bold"@ {
        Some(TextStyleFlags { bold: Some(true), ..f })
    } else if n == "dim"@ {
        Some(TextStyleFlags { dim: Some(true), ..f })
    } else if n == "italic"@ {
        Some(TextStyleFlags { italic: Some(true), ..f })
    } else if n == "underline"@ {
        Some(TextStyleFlags { underline: Some(true), ..f })
    } else if n == "strikethrough"@ {
        Some(TextStyleFlags { strikethrough: Some(true), ..f })
    } else if n == "reverse"@ {
        Some(TextStyleFlags { reverse: Some(true), ..f })
    } else if n == "none"@ {
        Some(
            TextStyleFlags {
                bold: Some(false),
                dim: Some(false),
                italic: Some(false),
                underline: Some(false),
                strikethrough: Some(false),
                reverse: Some(false),
            },
        )
    } else {
        None
    }
}

/// The flags after the first `n` keywords, left to right, from all unset.
pub open spec fn text_style_upto(vals: Seq<DeclarationValue>, n: nat) -> Option<TextStyleFlags>
    decreases n,
{
    if n == 0 {
        Some(TextStyleFlags::spec_unset())
    } else {
        match text_style_upto(vals, (n - 1) as nat) {
            Some(f) => if n <= vals.len() && vals[n - 1] is Ident {
                style_step(f, vals[n - 1]->Ident_0@)
            } else {
                None
            },
            None => None,
        }
    }
}

/// The flags of a `text-style` value list: one keyword or more.
pub open spec fn text_style_of(vals: Seq<DeclarationValue>) -> Option<TextStyleFlags> {
    if vals.len() == 0 {
        None
    } else {
        text_style_upto(vals, vals.len())
    }
}

fn parse_text_style(values: &[DeclarationValue]) -> (r: Result<TextStyleFlags, PropertyError>)
    ensures
        r is Ok <==> text_style_of(values@) is Some,
        r is Ok ==> r->Ok_0 == text_style_of(values@)->Some_0,
        r is Err ==> (r->Err_0 matches PropertyError::InvalidValue { property: p, .. } && p@
            == "text-style"@),
{
    if values.len() == 0 {
        return Err(invalid("text-style", "expected at least 1 text style"));
    }
    let mut flags = TextStyleFlags::unset();
    let mut i: usize = 0;
    while i < values.len()
        invariant
            i <= values@.len(),
            text_style_upto(values@, i as nat) == Some(flags),
        decreases values@.len() - i,
    {
        let name = match &values[i] {
            DeclarationValue::Ident(name) => name,
            _ => {
                proof {
                    lemma_text_style_stuck(values@, (i + 1) as nat);
                }
                return Err(invalid("text-style", "expected text style identifier"));
            },
        };
        let n = name.as_str();
        if text_eq(n, "bold") {
            flags.bold = Some(true);
        } else if text_eq(n, "dim") {
            flags.dim = Some(true);
        } else if text_eq(n, "italic") {
            flags.italic = Some(true);
        } else if text_eq(n, "underline") {
            flags.underline = Some(true);
        } else if text_eq(n, "strikethrough") {
            flags.strikethrough = Some(true);
        } else if text_eq(n, "reverse") {
            flags.reverse = Some(true);
        } else if text_eq(n, "none") {
            flags.bold = Some(false);
            flags.dim = Some(false);
            flags.italic = Some(false);
            flags.underline = Some(false);
            flags.strikethrough = Some(false);
            flags.reverse = Some(false);
        } else {
            proof {
                lemma_text_style_stuck(values@, (i + 1) as nat);
            }
            return Err(invalid("text-style", "unknown text style"));
        }
        i = i + 1;
    }
    Ok(flags)
}

/// Once a keyword fails, every longer prefix fails too.
proof fn lemma_text_style_stuck(vals: Seq<DeclarationValue>, n: nat)
    requires
        n <= vals.len(),
        text_style_upto(vals, n) is None,
    ensures
        text_style_of(vals) is None,
    decreases vals.len() - n,
{
    if n < vals.len() {
        lemma_text_style_stuck(vals, n + 1);
    }
}

/// The properties the resolver knows.
pub open spec fn known_property(p: Seq<char>) -> bool {
    p == "display"@ || p == "visibility"@ || p == "layout"@ || p == "dock"@ || p == "overflow"@
        || p == "overflow-x"@ || p == "overflow-y"@ || p == "width"@ || p == "height"@ || p
        == "min-width"@ || p == "min-height"@ || p == "max-width"@ || p == "max-height"@ || p
        == "margin"@ || p == "padding"@ || p == "color"@ || p == "background"@ || p
        == "text-align"@ || p == "text-style"@ || p == "border"@
}

pub open spec fn kw<T>(vals: Seq<DeclarationValue>, f: spec_fn(Seq<char>) -> Option<T>) -> Option<
    T,
> {
    match single_ident(vals) {
        Some(n) => f(n),
        None => None,
    }
}

pub open spec fn single_scalar(vals: Seq<DeclarationValue>) -> Option<Scalar> {
    if vals.len() == 1 {
        scalar_of(vals[0])
    } else {
        None
    }
}

/// Applying property `p` with values `vals` to `old` succeeds and gives `new`.
pub open spec fn applied(old: Styles, p: Seq<char>, vals: Seq<DeclarationValue>, new: Styles) -> bool {
    if p == "display"@ {
        kw(vals, |n| display_kw(n)) is Some && new == Styles {
            display: kw(vals, |n| display_kw(n)),
            ..old
        }
    } else if p == "visibility"@ {
        kw(vals, |n| visibility_kw(n)) is Some && new == Styles {
            visibility: kw(vals, |n| visibility_kw(n)),
            ..old
        }
    } else if p == "layout"@ {
        kw(vals, |n| layout_kw(n)) is Some && new == Styles {
            layout: kw(vals, |n| layout_kw(n)),
            ..old
        }
    } else if p == "dock"@ {
        kw(vals, |n| dock_kw(n)) is Some && new == Styles { dock: kw(vals, |n| dock_kw(n)), ..old }
    } else if p == "overflow"@ {
        kw(vals, |n| overflow_kw(n)) is Some && new == Styles {
            overflow_x: kw(vals, |n| overflow_kw(n)),
            overflow_y: kw(vals, |n| overflow_kw(n)),
            ..old
        }
    } else if p == "overflow-x"@ {
        kw(vals, |n| overflow_kw(n)) is Some && new == Styles {
            overflow_x: kw(vals, |n| overflow_kw(n)),
            ..old
        }
    } else if p == "overflow-y"@ {
        kw(vals, |n| overflow_kw(n)) is Some && new == Styles {
            overflow_y: kw(vals, |n| overflow_kw(n)),
            ..old
        }
    } else if p == "width"@ {
        single_scalar(vals) is Some && new == Styles { width: single_scalar(vals), ..old }
    } else if p == "height"@ {
        single_scalar(vals) is Some && new == Styles { height: single_scalar(vals), ..old }
    } else if p == "min-width"@ {
        single_scalar(vals) is Some && new == Styles { min_width: single_scalar(vals), ..old }
    } else if p == "min-height"@ {
        single_scalar(vals) is Some && new == Styles { min_height: single_scalar(vals), ..old }
    } else if p == "max-width"@ {
        single_scalar(vals) is Some && new == Styles { max_width: single_scalar(vals), ..old }
    } else if p == "max-height"@ {
        single_scalar(vals) is Some && new == Styles { max_height: single_scalar(vals), ..old }
    } else if p == "margin"@ {
        box_of(vals) is Some && new == Styles { margin: box_of(vals), ..old }
    } else if p == "padding"@ {
        box_of(vals) is Some && new == Styles { padding: box_of(vals), ..old }
    } else if p == "color"@ {
        single_color(vals) is Some && new.color is Some && new.color->Some_0@ == single_color(
            vals,
        )->Some_0 && new == Styles { color: new.color, ..old }
    } else if p == "background"@ {
        single_color(vals) is Some && new.background is Some && new.background->Some_0@
            == single_color(vals)->Some_0 && new == Styles { background: new.background, ..old }
    } else if p == "text-align"@ {
        kw(vals, |n| align_kw(n)) is Some && new == Styles {
            text_align: kw(vals, |n| align_kw(n)),
            ..old
        }
    } else if p == "text-style"@ {
        text_style_of(vals) is Some && new == Styles { text_style: text_style_of(vals), ..old }
    } else if p == "border"@ {
        new.border is Some && border_is(vals, new.border->Some_0) && new == Styles {
            border: new.border,
            ..old
        }
    } else {
        false
    }
}

/// Whether applying property `p` with values `vals` succeeds.
pub open spec fn applies(p: Seq<char>, vals: Seq<DeclarationValue>) -> bool {
    if p == "display"@ {
        kw(vals, |n| display_kw(n)) is Some
    } else if p == "visibility"@ {
        kw(vals, |n| visibility_kw(n)) is Some
    } else if p == "layout"@ {
        kw(vals, |n| layout_kw(n)) is Some
    } else if p == "dock"@ {
        kw(vals, |n| dock_kw(n)) is Some
    } else if p == "overflow"@ || p == "overflow-x"@ || p == "overflow-y"@ {
        kw(vals, |n| overflow_kw(n)) is Some
    } else if p == "width"@ || p == "height"@ || p == "min-width"@ || p == "min-height"@ || p
        == "max-width"@ || p == "max-height"@ {
        single_scalar(vals) is Some
    } else if p == "margin"@ || p == "padding"@ {
        box_of(vals) is Some
    } else if p == "color"@ || p == "background"@ {
        single_color(vals) is Some
    } else if p == "text-align"@ {
        kw(vals, |n| align_kw(n)) is Some
    } else if p == "text-style"@ {
        text_style_of(vals) is Some
    } else if p == "border"@ {
        border_ok(vals)
    } else {
        false
    }
}

fn sized(values: &[DeclarationValue], property: &str) -> (r: Result<Scalar, PropertyError>)
    ensures
        r is Ok <==> single_scalar(values@) is Some,
        r is Ok ==> r->Ok_0 == single_scalar(values@)->Some_0,
        r is Err ==> (r->Err_0 matches PropertyError::InvalidValue { property: p, .. } && p@
            == property@),
{
    if values.len() != 1 {
        return Err(invalid(property, "expected 1 value"));
    }
    match parse_scalar(&values[0]) {
        Ok(s) => Ok(s),
        Err(_) => Err(invalid(property, "expected number, dimension, or 'auto'")),
    }
}

/// Apply one declaration to `styles`. On success exactly the fields that
/// the property names are set; on failure `styles` is left as it was.
pub fn apply_declaration(styles: &mut Styles, property: &str, values: &[DeclarationValue]) -> (r:
    Result<(), PropertyError>)
    ensures
        r is Ok <==> applies(property@, values@),
        r is Ok ==> applied(*old(styles), property@, values@, *final(styles)),
        r is Err ==> *final(styles) == *old(styles),
        !known_property(property@) ==> (r matches Err(PropertyError::UnknownProperty(n)) && n@
            == property@),
        known_property(property@) && !applies(property@, values@) ==> (r matches Err(
            PropertyError::InvalidValue { property: p, .. },
        ) && p@ == property@),
{
    if text_eq(property, "display") {
        let name = require_single_ident(values, property)?;
        match display_of(name.as_str()) {
            Some(v) => {
                styles.display = Some(v);
                Ok(())
            },
            None => Err(invalid(property, "expected block|none")),
        }
    } else if text_eq(property, "visibility") {
        let name = require_single_ident(values, property)?;
        match visibility_of(name.as_str()) {
            Some(v) => {
                    styles.visibility = Some(v);
                Ok(())
            },
            None => Err(invalid(property, "expected visible|hidden")),
        }
    } else if text_eq(property, "layout") {
        let name = require_single_ident(values, property)?;
        match layout_of(name.as_str()) {
            Some(v) => {
                    styles.layout = Some(v);
                Ok(())
            },
            None => Err(invalid(property, "expected vertical|horizontal|grid")),
        }
    } else if text_eq(property, "dock") {
        let name = require_single_ident(values, property)?;
        match dock_of(name.as_str()) {
            Some(v) => {
                    styles.dock = Some(v);
                Ok(())
            },
            None => Err(invalid(property, "expected top|right|bottom|left")),
        }
    } else if text_eq(property, "overflow") {
        let name = require_single_ident(values, property)?;
        let v = parse_overflow(name.as_str(), property)?;
        styles.overflow_x = Some(v);
        styles.overflow_y = Some(v);
        Ok(())
    } else if text_eq(property, "overflow-x") {
        let name = require_single_ident(values, property)?;
        let v = parse_overflow(name.as_str(), property)?;
        styles.overflow_x = Some(v);
        Ok(())
    } else if text_eq(property, "overflow-y") {
        let name = require_single_ident(values, property)?;
        let v = parse_overflow(name.as_str(), property)?;
        styles.overflow_y = Some(v);
        Ok(())
    } else if text_eq(property, "width") {
        let v = sized(values, property)?;
        styles.width = Some(v);
        Ok(())
    } else if text_eq(property, "height") {
        let v = sized(values, property)?;
        styles.height = Some(v);
        Ok(())
    } else if text_eq(property, "min-width") {
        let v = sized(values, property)?;
        styles.min_width = Some(v);
        Ok(())
    } else if text_eq(property, "min-height") {
        let v = sized(values, property)?;
        styles.min_height = Some(v);
        Ok(())
    } else if text_eq(property, "max-width") {
        let v = sized(values, property)?;
        styles.max_width = Some(v);
        Ok(())
    } else if text_eq(property, "max-height") {
        let v = sized(values, property)?;
        styles.max_height = Some(v);
        Ok(())
    } else if text_eq(property, "margin") || text_eq(property, "padding") {
        let b = match parse_scalar_box(values) {
            Ok(b) => b,
            Err(_) => {
                return Err(invalid(property, "expected 1-4 scalar values"));
            },
        };
        if text_eq(property, "margin") {
            styles.margin = Some(b);
        } else {
            styles.padding = Some(b);
        }
        Ok(())
    } else if text_eq(property, "color") {
        let c = require_color_value(values, property)?;
        styles.color = Some(c);
        Ok(())
    } else if text_eq(property, "background") {
        let c = require_color_value(values, property)?;
        styles.background = Some(c);
        Ok(())
    } else if text_eq(property, "text-align") {
        let name = require_single_ident(values, property)?;
        match align_of(name.as_str()) {
            Some(v) => {
                    styles.text_align = Some(v);
                Ok(())
            },
            None => Err(invalid(property, "expected left|center|right")),
        }
    } else if text_eq(property, "text-style") {
        match parse_text_style(values) {
            Ok(f) => {
                styles.text_style = Some(f);
                Ok(())
            },
            Err(_) => Err(invalid(property, "expected text style keywords")),
        }
    } else if text_eq(property, "border") {
        match parse_border(values) {
            Ok(b) => {
                styles.border = Some(b);
                Ok(())
            },
            Err(_) => Err(invalid(property, "expected a border kind and an optional color")),
        }
    } else {
        Err(PropertyError::UnknownProperty(string_from_chars(chars_of(property))))
    }
}

} // verus!

verus! {

use crate::styles::{BorderView, StylesView};

/// The record after applying property `p` with values `vals` to `v`; `v`
/// itself when the declaration does not apply.
pub open spec fn apply_view(v: StylesView, p: Seq<char>, vals: Seq<DeclarationValue>) -> StylesView {
    if !applies(p, vals) {
        v
    } else if p == "display"@ {
        StylesView { display: kw(vals, |n| display_kw(n)), ..v }
    } else if p == "visibility"@ {
        StylesView { visibility: kw(vals, |n| visibility_kw(n)), ..v }
    } else if p == "layout"@ {
        StylesView { layout: kw(vals, |n| layout_kw(n)), ..v }
    } else if p == "dock"@ {
        StylesView { dock: kw(vals, |n| dock_kw(n)), ..v }
    } else if p == "overflow"@ {
        StylesView {
            overflow_x: kw(vals, |n| overflow_kw(n)),
            overflow_y: kw(vals, |n| overflow_kw(n)),
            ..v
        }
    } else if p == "overflow-x"@ {
        StylesView { overflow_x: kw(vals, |n| overflow_kw(n)), ..v }
    } else if p == "overflow-y"@ {
        StylesView { overflow_y: kw(vals, |n| overflow_kw(n)), ..v }
    } else if p == "width"@ {
        StylesView { width: single_scalar(vals), ..v }
    } else if p == "height"@ {
        StylesView { height: single_scalar(vals), ..v }
    } else if p == "min-width"@ {
        StylesView { min_width: single_scalar(vals), ..v }
    } else if p == "min-height"@ {
        StylesView { min_height: single_scalar(vals), ..v }
    } else if p == "max-width"@ {
        StylesView { max_width: single_scalar(vals), ..v }
    } else if p == "max-height"@ {
        StylesView { max_height: single_scalar(vals), ..v }
    } else if p == "margin"@ {
        StylesView { margin: box_of(vals), ..v }
    } else if p == "padding"@ {
        StylesView { padding: box_of(vals), ..v }
    } else if p == "color"@ {
        StylesView { color: single_color(vals), ..v }
    } else if p == "background"@ {
        StylesView { background: single_color(vals), ..v }
    } else if p == "text-align"@ {
        StylesView { text_align: kw(vals, |n| align_kw(n)), ..v }
    } else if p == "text-style"@ {
        StylesView { text_style: text_style_of(vals), ..v }
    } else {
        StylesView {
            border: Some(
                BorderView {
                    kind: border_kw(vals[0]->Ident_0@)->Some_0,
                    color: if vals.len() > 1 {
                        color_text(vals[1])
                    } else {
                        None
                    },
                },
            ),
            ..v
        }
    }
}

/// What `apply_declaration` does, seen on views.
pub proof fn lemma_applied_view(old: Styles, p: Seq<char>, vals: Seq<DeclarationValue>, new: Styles)
    requires
        applied(old, p, vals, new),
    ensures
        new@ == apply_view(old@, p, vals),
{
}

} // verus!
