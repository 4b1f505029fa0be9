//! Color names and `#hex` colors, as a terminal draws them.
use vstd::prelude::*;
use crate::snapshot::{is_white, trim_end, unicode_white};
use crate::text::{chars_of, hex_digit, is_hex_digit};

verus! {

/// A terminal color: one of the named ones, or red, green and blue.
#[derive(Clone, Copy, Debug, PartialEq, Eq, Hash, Structural)]
pub enum TermColor {
    Black,
    Red,
    Green,
    Yellow,
    Blue,
    Magenta,
    Cyan,
    White,
    DarkRed,
    DarkGreen,
    DarkYellow,
    DarkBlue,
    DarkMagenta,
    DarkCyan,
    DarkGrey,
    Grey,
    Rgb { r: u8, g: u8, b: u8 },
}

/// `s` without its leading white space.
pub open spec fn trim_start(s: Seq<char>) -> Seq<char>
    decreases s.len(),
{
    if s.len() > 0 && unicode_white(s[0]) {
        trim_start(s.drop_first())
    } else {
        s
    }
}

/// Whether `a` equals the lower-case text `b`, ignoring ASCII case in `a`.
pub open spec fn eq_ignore_case(a: Seq<char>, b: Seq<char>) -> bool {
    a.len() == b.len() && forall|i: int| 0 <= i < a.len() ==> same_letter(#[trigger] a[i], b[i])
}

/// `c` is `d`, or its ASCII upper-case form.
pub open spec fn same_letter(c: char, d: char) -> bool {
    c == d || ('A' <= c <= 'Z' && (c as u32) + 32 == d as u32)
}

/// The color a name stands for, ignoring ASCII case.
pub open spec fn named_color(s: Seq<char>) -> Option<TermColor> {
    if eq_ignore_case(s, "black"@) {
        Some(TermColor::Black)
    } else if eq_ignore_case(s, "red"@) {
        Some(TermColor::Red)
    } else if eq_ignore_case(s, "green"@) {
        Some(TermColor::Green)
    } else if eq_ignore_case(s, "yellow"@) {
        Some(TermColor::Yellow)
    } else if eq_ignore_case(s, "blue"@) {
        Some(TermColor::Blue)
    } else if eq_ignore_case(s, "magenta"@) {
        Some(TermColor::Magenta)
    } else if eq_ignore_case(s, "cyan"@) {
        Some(TermColor::Cyan)
    } else if eq_ignore_case(s, "white"@) {
        Some(TermColor::White)
    } else if eq_ignore_case(s, "dark_red"@) || eq_ignore_case(s, "darkred"@) {
        Some(TermColor::DarkRed)
    } else if eq_ignore_case(s, "dark_green"@) || eq_ignore_case(s, "darkgreen"@) {
        Some(TermColor::DarkGreen)
    } else if eq_ignore_case(s, "dark_yellow"@) || eq_ignore_case(s, "darkyellow"@) {
        Some(TermColor::DarkYellow)
    } else if eq_ignore_case(s, "dark_blue"@) || eq_ignore_case(s, "darkblue"@) {
        Some(TermColor::DarkBlue)
    } else if eq_ignore_case(s, "dark_magenta"@) || eq_ignore_case(s, "darkmagenta"@) {
        Some(TermColor::DarkMagenta)
    } else if eq_ignore_case(s, "dark_cyan"@) || eq_ignore_case(s, "darkcyan"@) {
        Some(TermColor::DarkCyan)
    } else if eq_ignore_case(s, "dark_grey"@) || eq_ignore_case(s, "dark_gray"@) || eq_ignore_case(
        s,
        "darkgrey"@,
    ) || eq_ignore_case(s, "darkgray"@) {
        Some(TermColor::DarkGrey)
    } else if eq_ignore_case(s, "grey"@) || eq_ignore_case(s, "gray"@) {
        Some(TermColor::Grey)
    } else {
        None
    }
}

pub open spec fn hex_value(c: char) -> int {
    if '0' <= c <= '9' {
        (c as int) - ('0' as int)
    } else if 'a' <= c <= 'f' {
        (c as int) - ('a' as int) + 10
    } else {
        (c as int) - ('A' as int) + 10
    }
}

/// The byte that hex text `h` (one or two digits, or `+` and one digit)
/// reads as, if any.
pub open spec fn hex_byte(h: Seq<char>) -> Option<int> {
    if h.len() == 1 && is_hex_digit(h[0]) {
        Some(hex_value(h[0]))
    } else if h.len() == 2 && is_hex_digit(h[0]) && is_hex_digit(h[1]) {
        Some(16 * hex_value(h[0]) + hex_value(h[1]))
    } else if h.len() == 2 && h[0] == '+' && is_hex_digit(h[1]) {
        Some(hex_value(h[1]))
    } else {
        None
    }
}

/// The color of hex digits: `rrggbb`, or `rgb` with each digit doubled.
pub open spec fn hex_color(h: Seq<char>) -> Option<TermColor> {
    if h.len() == 6 {
        match (hex_byte(h.subrange(0, 2)), hex_byte(h.subrange(2, 4)), hex_byte(h.subrange(4, 6))) {
            (Some(r), Some(g), Some(b)) => Some(TermColor::Rgb { r: r as u8, g: g as u8, b: b as u8 }),
            _ => None,
        }
    } else if h.len() == 3 {
        match (hex_byte(h.subrange(0, 1)), hex_byte(h.subrange(1, 2)), hex_byte(h.subrange(2, 3))) {
            (Some(r), Some(g), Some(b)) => Some(
                TermColor::Rgb { r: (17 * r) as u8, g: (17 * g) as u8, b: (17 * b) as u8 },
            ),
            _ => None,
        }
    } else {
        None
    }
}

/// The color that a style's color text names: `#` and hex digits, or a
/// color name in any ASCII case, surrounding white space ignored.
pub open spec fn color_of_text(s: Seq<char>) -> Option<TermColor> {
    let t = trim_end(trim_start(s));
    if t.len() > 0 && t[0] == '#' {
        hex_color(t.drop_first())
    } else {
        named_color(t)
    }
}

fn hex_val(c: char) -> (r: u8)
    requires
        is_hex_digit(c),
    ensures
        r == hex_value(c),
{
    if '0' <= c && c <= '9' {
        (c as u32 - '0' as u32) as u8
    } else if 'a' <= c && c <= 'f' {
        (c as u32 - 'a' as u32 + 10) as u8
    } else {
        (c as u32 - 'A' as u32 + 10) as u8
    }
}

/// Read `t[from..to]` as a byte in hex.
fn byte_at(t: &Vec<char>, from: usize, to: usize) -> (r: Option<u8>)
    requires
        from < to <= t@.len(),
        to - from <= 2,
    ensures
        r is Some <==> hex_byte(t@.subrange(from as int, to as int)) is Some,
        r is Some ==> r->Some_0 == hex_byte(t@.subrange(from as int, to as int))->Some_0,
{
    let ghost h = t@.subrange(from as int, to as int);
    assert(h[0] == t@[from as int]);
    if to - from == 1 {
        if hex_digit(t[from]) {
            Some(hex_val(t[from]))
        } else {
            None
        }
    } else {
        assert(h[1] == t@[from + 1]);
        let a = t[from];
        let b = t[from + 1];
        if hex_digit(a) && hex_digit(b) {
            let hi = hex_val(a);
            let lo = hex_val(b);
            Some(16 * hi + lo)
        } else if a == '+' && hex_digit(b) {
            Some(hex_val(b))
        } else {
            None
        }
    }
}

fn parse_hex(t: &Vec<char>, start: usize) -> (r: Option<TermColor>)
    requires
        start <= t@.len(),
    ensures
        r == hex_color(t@.subrange(start as int, t@.len() as int)),
{
    let n = t.len() - start;
    let ghost h = t@.subrange(start as int, t@.len() as int);
    if n == 6 {
        proof {
            assert(h.subrange(0, 2) =~= t@.subrange(start as int, start + 2));
            assert(h.subrange(2, 4) =~= t@.subrange(start + 2, start + 4));
            assert(h.subrange(4, 6) =~= t@.subrange(start + 4, start + 6));
        }
        let r = byte_at(t, start, start + 2);
        let g = byte_at(t, start + 2, start + 4);
        let b = byte_at(t, start + 4, start + 6);
        match (r, g, b) {
            (Some(r), Some(g), Some(b)) => Some(TermColor::Rgb { r, g, b }),
            _ => None,
        }
    } else if n == 3 {
        proof {
            assert(h.subrange(0, 1) =~= t@.subrange(start as int, start + 1));
            assert(h.subrange(1, 2) =~= t@.subrange(start + 1, start + 2));
            assert(h.subrange(2, 3) =~= t@.subrange(start + 2, start + 3));
        }
        let r = byte_at(t, start, start + 1);
        let g = byte_at(t, start + 1, start + 2);
        let b = byte_at(t, start + 2, start + 3);
        match (r, g, b) {
            (Some(r), Some(g), Some(b)) => Some(TermColor::Rgb { r: 17 * r, g: 17 * g, b: 17 * b }),
            _ => None,
        }
    } else {
        None
    }
}

/// Whether `t[from..to]` equals `name` ignoring ASCII case in `t`.
fn matches_name(t: &Vec<char>, from: usize, to: usize, name: &str) -> (r: bool)
    requires
        from <= to <= t@.len(),
    ensures
        r == eq_ignore_case(t@.subrange(from as int, to as int), name@),
{
    let n = chars_of(name);
    if to - from != n.len() {
        return false;
    }
    let mut i: usize = 0;
    while i < n.len()
        invariant
            n@ == name@,
            from <= to <= t@.len(),
            to - from == n@.len(),
            i <= n@.len(),
            forall|j: int| 0 <= j < i ==> same_letter(#[trigger] t@.subrange(from as int, to as int)[j], n@[j]),
        decreases n@.len() - i,
    {
        let c = t[from + i];
        let d = n[i];
        assert(t@.subrange(from as int, to as int)[i as int] == c);
        let ok = c == d || ('A' <= c && c <= 'Z' && (c as u32) + 32 == d as u32);
        if !ok {
            return false;
        }
        i = i + 1;
    }
    true
}

/// The terminal color for a style's color text, if it names one.
pub fn parse_color(s: &str) -> (r: Option<TermColor>)
    ensures
        r == color_of_text(s@),
{
    let t = chars_of(s);
    let mut a: usize = 0;
    proof {
        assert(t@.subrange(0, t@.len() as int) =~= t@);
    }
    while a < t.len() && is_white(t[a])
        invariant
            a <= t@.len(),
            trim_start(t@) == trim_start(t@.subrange(a as int, t@.len() as int)),
        decreases t@.len() - a,
    {
        proof {
            assert(t@.subrange(a as int, t@.len() as int).drop_first() =~= t@.subrange(a + 1, t@.len() as int));
        }
        a = a + 1;
    }
    let mut e: usize = t.len();
    proof {
        assert(t@.subrange(0, t@.len() as int) =~= t@);
        assert(trim_start(t@.subrange(a as int, t@.len() as int)) == t@.subrange(a as int, t@.len() as int));
    }
    while e > a && is_white(t[e - 1])
        invariant
            a <= e <= t@.len(),
            trim_end(t@.subrange(a as int, t@.len() as int)) == trim_end(t@.subrange(a as int, e as int)),
        decreases e,
    {
        proof {
            assert(t@.subrange(a as int, e as int).drop_last() =~= t@.subrange(a as int, e - 1));
        }
        e = e - 1;
    }
    proof {
        assert(trim_end(t@.subrange(a as int, e as int)) == t@.subrange(a as int, e as int));
    }
    let ghost tt = t@.subrange(a as int, e as int);
    if e > a && t[a] == '#' {
        let mut hex: Vec<char> = Vec::new();
        let mut i = a + 1;
        while i < e
            invariant
                a < e <= t@.len(),
                a + 1 <= i <= e,
                hex@ == t@.subrange(a + 1, i as int),
            decreases e - i,
        {
            hex.push(t[i]);
            proof {
                assert(hex@ =~= t@.subrange(a + 1, i + 1));
            }
            i = i + 1;
        }
        proof {
            assert(tt.drop_first() =~= hex@.subrange(0, hex@.len() as int));
        }
        return parse_hex(&hex, 0);
    }
    if matches_name(&t, a, e, "black") {
        Some(TermColor::Black)
    } else if matches_name(&t, a, e, "red") {
        Some(TermColor::Red)
    } else if matches_name(&t, a, e, "green") {
        Some(TermColor::Green)
    } else if matches_name(&t, a, e, "yellow") {
        Some(TermColor::Yellow)
    } else if matches_name(&t, a, e, "blue") {
        Some(TermColor::Blue)
    } else if matches_name(&t, a, e, "magenta") {
        Some(TermColor::Magenta)
    } else if matches_name(&t, a, e, "cyan") {
        Some(TermColor::Cyan)
    } else if matches_name(&t, a, e, "white") {
        Some(TermColor::White)
    } else if matches_name(&t, a, e, "dark_red") || matches_name(&t, a, e, "darkred") {
        Some(TermColor::DarkRed)
    } else if matches_name(&t, a, e, "dark_green") || matches_name(&t, a, e, "darkgreen") {
        Some(TermColor::DarkGreen)
    } else if matches_name(&t, a, e, "dark_yellow") || matches_name(&t, a, e, "darkyellow") {
        Some(TermColor::DarkYellow)
    } else if matches_name(&t, a, e, "dark_blue") || matches_name(&t, a, e, "darkblue") {
        Some(TermColor::DarkBlue)
    } else if matches_name(&t, a, e, "dark_magenta") || matches_name(&t, a, e, "darkmagenta") {
        Some(TermColor::DarkMagenta)
    } else if matches_name(&t, a, e, "dark_cyan") || matches_name(&t, a, e, "darkcyan") {
        Some(TermColor::DarkCyan)
    } else if matches_name(&t, a, e, "dark_grey") || matches_name(&t, a, e, "dark_gray")
        || matches_name(&t, a, e, "darkgrey") || matches_name(&t, a, e, "darkgray") {
        Some(TermColor::DarkGrey)
    } else if matches_name(&t, a, e, "grey") || matches_name(&t, a, e, "gray") {
        Some(TermColor::Grey)
    } else {
        None
    }
}

} // verus!
