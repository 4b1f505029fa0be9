//! A single-line text field: its text, cursor and display rules.
use vstd::prelude::*;
use crate::geometry::Region;
use crate::strip::{CellStyle, Strip, StyledCell};
use crate::styles::Styles;
use crate::text::{chars_of, string_from_chars};

verus! {

/// The text is held as characters; the cursor is a character position in
/// `[0, len]`.
pub struct Input {
    pub chars: Vec<char>,
    pub placeholder: String,
    pub cursor: usize,
    pub password: bool,
}

/// Bytes `c` takes in UTF-8.
pub open spec fn utf8_width(c: char) -> nat {
    if (c as u32) < 0x80 {
        1
    } else if (c as u32) < 0x800 {
        2
    } else if (c as u32) < 0x10000 {
        3
    } else {
        4
    }
}

/// Bytes the first `n` characters take in UTF-8.
pub open spec fn utf8_prefix(s: Seq<char>, n: int) -> nat
    decreases n,
{
    if n <= 0 || n > s.len() {
        0
    } else {
        utf8_prefix(s, n - 1) + utf8_width(s[n - 1])
    }
}

fn width_of(c: char) -> (r: usize)
    ensures
        r == utf8_width(c),
{
    let v = c as u32;
    if v < 0x80 {
        1
    } else if v < 0x800 {
        2
    } else if v < 0x10000 {
        3
    } else {
        4
    }
}

fn copy_chars(v: &Vec<char>) -> (r: Vec<char>)
    ensures
        r@ == v@,
{
    let mut out: Vec<char> = Vec::new();
    let mut i: usize = 0;
    while i < v.len()
        invariant
            i <= v@.len(),
            out@ == v@.subrange(0, i as int),
        decreases v@.len() - i,
    {
        out.push(v[i]);
        proof {
            assert(out@ =~= v@.subrange(0, i + 1));
        }
        i = i + 1;
    }
    proof {
        assert(out@ =~= v@);
    }
    out
}

/// The bullet shown in place of each character of a password.
pub const BULLET: char = '\u{2022}';

impl Input {
    pub open spec fn wf(&self) -> bool {
        self.cursor <= self.chars@.len()
    }

    pub fn new() -> (r: Input)
        ensures
            r.wf(),
            r.chars@.len() == 0,
            r.placeholder@.len() == 0,
            r.cursor == 0,
            !r.password,
    {
        Input { chars: Vec::new(), placeholder: string_from_chars(Vec::new()), cursor: 0, password: false }
    }

    pub fn with_placeholder(self, placeholder: &str) -> (r: Input)
        ensures
            r.placeholder@ == placeholder@,
            r.chars == self.chars,
            r.cursor == self.cursor,
            r.password == self.password,
    {
        Input {
            chars: self.chars,
            placeholder: string_from_chars(chars_of(placeholder)),
            cursor: self.cursor,
            password: self.password,
        }
    }

    /// Set the text; the cursor goes to its end.
    pub fn with_value(self, value: &str) -> (r: Input)
        ensures
            r.wf(),
            r.chars@ == value@,
            r.cursor == value@.len(),
            r.placeholder == self.placeholder,
            r.password == self.password,
    {
        let mut s = self;
        s.set_value(value);
        s
    }

    pub fn password(self, password: bool) -> (r: Input)
        ensures
            r.password == password,
            r.chars == self.chars,
            r.cursor == self.cursor,
            r.placeholder == self.placeholder,
    {
        Input { chars: self.chars, placeholder: self.placeholder, cursor: self.cursor, password }
    }

    /// The text.
    pub fn value(&self) -> (r: String)
        ensures
            r@ == self.chars@,
    {
        string_from_chars(copy_chars(&self.chars))
    }

    /// Replace the text; the cursor goes to its end.
    pub fn set_value(&mut self, value: &str)
        ensures
            final(self).wf(),
            final(self).chars@ == value@,
            final(self).cursor == value@.len(),
            final(self).placeholder == old(self).placeholder,
            final(self).password == old(self).password,
    {
        self.chars = chars_of(value);
        self.cursor = self.chars.len();
    }

    /// Empty the text.
    pub fn clear(&mut self)
        ensures
            final(self).wf(),
            final(self).chars@.len() == 0,
            final(self).cursor == 0,
            final(self).placeholder == old(self).placeholder,
            final(self).password == old(self).password,
    {
        self.chars.clear();
        self.cursor = 0;
    }

    /// Insert `ch` at the cursor and move past it.
    pub fn insert_char(&mut self, ch: char)
        requires
            old(self).wf(),
        ensures
            final(self).wf(),
            final(self).chars@ == old(self).chars@.insert(old(self).cursor as int, ch),
            final(self).cursor == old(self).cursor + 1,
            final(self).placeholder == old(self).placeholder,
    {
        self.chars.insert(self.cursor, ch);
        let _n = self.chars.len();
        self.cursor = self.cursor + 1;
    }

    /// Delete the character before the cursor, if any.
    pub fn delete_char(&mut self)
        requires
            old(self).wf(),
        ensures
            final(self).wf(),
            final(self).placeholder == old(self).placeholder,
            old(self).cursor == 0 ==> final(self).chars == old(self).chars && final(self).cursor == 0,
            old(self).cursor > 0 ==> final(self).chars@ == old(self).chars@.remove(old(self).cursor - 1)
                && final(self).cursor == old(self).cursor - 1,
    {
        if self.cursor == 0 {
            return;
        }
        let p = self.prev_char_boundary();
        self.chars.remove(p);
        self.cursor = p;
    }

    /// Delete the character after the cursor, if any.
    pub fn delete_forward(&mut self)
        requires
            old(self).wf(),
        ensures
            final(self).wf(),
            final(self).cursor == old(self).cursor,
            final(self).placeholder == old(self).placeholder,
            old(self).cursor == old(self).chars@.len() ==> final(self).chars == old(self).chars,
            old(self).cursor < old(self).chars@.len() ==> final(self).chars@ == old(self).chars@.remove(
                old(self).cursor as int,
            ),
    {
        if self.cursor >= self.chars.len() {
            return;
        }
        self.chars.remove(self.cursor);
    }

    pub fn move_cursor_left(&mut self)
        requires
            old(self).wf(),
        ensures
            final(self).wf(),
            final(self).chars == old(self).chars,
            final(self).cursor == if old(self).cursor > 0 { old(self).cursor - 1 } else { 0 },
    {
        if self.cursor > 0 {
            self.cursor = self.prev_char_boundary();
        }
    }

    pub fn move_cursor_right(&mut self)
        requires
            old(self).wf(),
        ensures
            final(self).wf(),
            final(self).chars == old(self).chars,
            final(self).cursor == if old(self).cursor < old(self).chars@.len() {
                old(self).cursor + 1
            } else {
                old(self).cursor as int
            },
    {
        if self.cursor < self.chars.len() {
            self.cursor = self.next_char_boundary();
        }
    }

    pub fn move_cursor_home(&mut self)
        ensures
            final(self).chars == old(self).chars,
            final(self).cursor == 0,
    {
        self.cursor = 0;
    }

    pub fn move_cursor_end(&mut self)
        ensures
            final(self).wf(),
            final(self).chars == old(self).chars,
            final(self).cursor == old(self).chars@.len(),
    {
        self.cursor = self.chars.len();
    }

    /// The cursor as a byte offset into the UTF-8 text (saturating at
    /// `usize::MAX`).
    pub fn cursor_position(&self) -> (r: usize)
        requires
            self.wf(),
        ensures
            r == if utf8_prefix(self.chars@, self.cursor as int) > usize::MAX {
                usize::MAX as nat
            } else {
                utf8_prefix(self.chars@, self.cursor as int)
            },
    {
        let mut total: usize = 0;
        let mut i: usize = 0;
        let mut saturated = false;
        while i < self.cursor
            invariant
                self.wf(),
                i <= self.cursor,
                !saturated ==> total == utf8_prefix(self.chars@, i as int),
                saturated ==> total == usize::MAX && utf8_prefix(self.chars@, i as int) > usize::MAX,
            decreases self.cursor - i,
        {
            let w = width_of(self.chars[i]);
            if saturated || total > usize::MAX - w {
                total = usize::MAX;
                saturated = true;
            } else {
                total = total + w;
            }
            i = i + 1;
        }
        total
    }

    /// Character position before the cursor.
    fn prev_char_boundary(&self) -> (r: usize)
        requires
            self.wf(),
        ensures
            r == if self.cursor > 0 { self.cursor - 1 } else { 0 },
    {
        if self.cursor > 0 { self.cursor - 1 } else { 0 }
    }

    /// Character position after the cursor.
    fn next_char_boundary(&self) -> (r: usize)
        requires
            self.wf(),
            self.cursor < self.chars@.len(),
        ensures
            r == self.cursor + 1,
    {
        let _n = self.chars.len();
        self.cursor + 1
    }

    /// What the field shows: the placeholder when empty, a bullet per
    /// character in password mode, else the text.
    pub fn display_text(&self) -> (r: String)
        ensures
            self.chars@.len() == 0 ==> r@ == self.placeholder@,
            self.chars@.len() > 0 && self.password ==> r@ == Seq::new(
                self.chars@.len(),
                |i: int| BULLET,
            ),
            self.chars@.len() > 0 && !self.password ==> r@ == self.chars@,
    {
        if self.chars.len() == 0 {
            self.placeholder.clone()
        } else if self.password {
            let mut out: Vec<char> = Vec::new();
            let mut i: usize = 0;
            while i < self.chars.len()
                invariant
                    i <= self.chars@.len(),
                    out@ == Seq::new(i as nat, |k: int| BULLET),
                decreases self.chars@.len() - i,
            {
                out.push(BULLET);
                proof {
                    assert(out@ =~= Seq::new((i + 1) as nat, |k: int| BULLET));
                }
                i = i + 1;
            }
            string_from_chars(out)
        } else {
            self.value()
        }
    }
}

/// The cells of a text field `width` wide: the first `text` characters
/// that fit in `text_style`, then spaces in `fill_style`.
pub open spec fn field_cells(text: Seq<char>, width: nat, text_style: CellStyle, fill_style: CellStyle) -> Seq<StyledCell> {
    Seq::new(width, |i: int| field_cell(text, text_style, fill_style, i))
}

pub open spec fn field_cell(text: Seq<char>, text_style: CellStyle, fill_style: CellStyle, i: int) -> StyledCell {
    if i < text.len() {
        StyledCell { ch: text[i], style: text_style }
    } else {
        StyledCell { ch: ' ', style: fill_style }
    }
}

impl Input {
    /// The type name stylesheets select this widget by.
    pub fn widget_type(&self) -> (r: &'static str) {
        "Input"
    }

    /// The widget's built-in stylesheet.
    pub fn default_css(&self) -> (r: &'static str) {
        "Input { height: 1; width: 1fr; }"
    }

    /// A text field always takes focus.
    pub fn can_focus(&self) -> (r: bool)
        ensures
            r,
    {
        true
    }

    /// One row: what the field shows, cut to the width and padded with
    /// spaces. A shown placeholder is dimmed; the padding is not.
    pub fn render(&self, region: Region, styles: &Styles) -> (r: Vec<Strip>)
        ensures
            region.width <= 0 || region.height <= 0 ==> r@.len() == 0,
            region.width > 0 && region.height > 0 ==> {
                let base = CellStyle::of_styles(*styles);
                let shown = if self.chars@.len() == 0 {
                    self.placeholder@
                } else if self.password {
                    Seq::new(self.chars@.len(), |i: int| BULLET)
                } else {
                    self.chars@
                };
                let dimmed = self.chars@.len() == 0 && self.placeholder@.len() > 0;
                let text_style = if dimmed { CellStyle { dim: true, ..base } } else { base };
                &&& r@.len() == 1
                &&& r@[0].y == region.y && r@[0].x_offset == region.x
                &&& r@[0].cells@ == field_cells(shown, region.width as nat, text_style, base)
            },
    {
        if region.width <= 0 || region.height <= 0 {
            return Vec::new();
        }
        let base = CellStyle::from_styles(styles);
        let width = region.width as usize;
        let shown = chars_of(self.display_text().as_str());
        let dimmed = self.chars.len() == 0 && !self.placeholder.as_str().is_empty();
        let mut text_style = base.dup();
        if dimmed {
            text_style.dim = true;
        }
        let ghost full = field_cells(shown@, width as nat, text_style, base);
        let mut cells: Vec<StyledCell> = Vec::new();
        let mut i: usize = 0;
        while i < width
            invariant
                i <= width,
                full == field_cells(shown@, width as nat, text_style, base),
                full.len() == width,
                cells@ == full.subrange(0, i as int),
            decreases width - i,
        {
            let c = if i < shown.len() {
                StyledCell { ch: shown[i], style: text_style.dup() }
            } else {
                StyledCell { ch: ' ', style: base.dup() }
            };
            assert(full[i as int] == c);
            cells.push(c);
            proof {
                assert(cells@ =~= full.subrange(0, i + 1));
            }
            i = i + 1;
        }
        proof {
            assert(full.subrange(0, width as int) =~= full);
        }
        let mut out: Vec<Strip> = Vec::new();
        out.push(Strip { y: region.y, x_offset: region.x, cells });
        out
    }
}

impl Default for Input {
    fn default() -> (r: Input)
        ensures
            r.wf(),
            r.chars@.len() == 0,
            r.cursor == 0,
            !r.password,
    {
        Input::new()
    }
}

} // verus!
