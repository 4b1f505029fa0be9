//! Rows of styled character cells, the unit a widget renders into.
use vstd::prelude::*;
use crate::styles::{dup_text, text_view, Styles, TextStyleFlags};
use crate::text::chars_of;

verus! {

/// The look of one cell: colors and text attributes.
#[derive(Clone, Debug, Default, PartialEq, Eq)]
pub struct CellStyle {
    pub fg: Option<String>,
    pub bg: Option<String>,
    pub bold: bool,
    pub dim: bool,
    pub italic: bool,
    pub underline: bool,
    pub strikethrough: bool,
    pub reverse: bool,
}

/// Two styles are the same when their colors read the same and their flags agree.
pub open spec fn same_style(a: CellStyle, b: CellStyle) -> bool {
    &&& text_view(a.fg) == text_view(b.fg)
    &&& text_view(a.bg) == text_view(b.bg)
    &&& a.bold == b.bold
    &&& a.dim == b.dim
    &&& a.italic == b.italic
    &&& a.underline == b.underline
    &&& a.strikethrough == b.strikethrough
    &&& a.reverse == b.reverse
}

pub open spec fn flag_on(f: Option<bool>) -> bool {
    match f {
        Some(b) => b,
        None => false,
    }
}

fn on(f: Option<bool>) -> (r: bool)
    ensures
        r == flag_on(f),
{
    match f {
        Some(b) => b,
        None => false,
    }
}

fn same_text(a: &Option<String>, b: &Option<String>) -> (r: bool)
    ensures
        r == (text_view(*a) == text_view(*b)),
{
    match (a, b) {
        (Some(x), Some(y)) => *x == *y,
        (None, None) => true,
        _ => false,
    }
}

impl CellStyle {
    pub open spec fn plain() -> CellStyle {
        CellStyle {
            fg: None,
            bg: None,
            bold: false,
            dim: false,
            italic: false,
            underline: false,
            strikethrough: false,
            reverse: false,
        }
    }

    /// No colors and no attributes.
    pub fn new() -> (r: CellStyle)
        ensures
            r == CellStyle::plain(),
    {
        CellStyle {
            fg: None,
            bg: None,
            bold: false,
            dim: false,
            italic: false,
            underline: false,
            strikethrough: false,
            reverse: false,
        }
    }

    /// The cell look of a resolved style: its colors, and each attribute on
    /// only when set to on.
    pub open spec fn of_styles(styles: Styles) -> CellStyle {
        let f = match styles.text_style {
            Some(f) => f,
            None => TextStyleFlags::spec_unset(),
        };
        CellStyle {
            fg: styles.color,
            bg: styles.background,
            bold: flag_on(f.bold),
            dim: flag_on(f.dim),
            italic: flag_on(f.italic),
            underline: flag_on(f.underline),
            strikethrough: flag_on(f.strikethrough),
            reverse: flag_on(f.reverse),
        }
    }

    /// The cell look a resolved style asks for; an unset attribute is off.
    pub fn from_styles(styles: &Styles) -> (r: CellStyle)
        ensures
            r == CellStyle::of_styles(*styles),
    {
        let flags = match styles.text_style {
            Some(f) => f,
            None => TextStyleFlags::unset(),
        };
        CellStyle {
            fg: dup_text(&styles.color),
            bg: dup_text(&styles.background),
            bold: on(flags.bold),
            dim: on(flags.dim),
            italic: on(flags.italic),
            underline: on(flags.underline),
            strikethrough: on(flags.strikethrough),
            reverse: on(flags.reverse),
        }
    }

    /// A field-by-field copy.
    pub fn dup(&self) -> (r: CellStyle)
        ensures
            r == *self,
    {
        CellStyle {
            fg: dup_text(&self.fg),
            bg: dup_text(&self.bg),
            bold: self.bold,
            dim: self.dim,
            italic: self.italic,
            underline: self.underline,
            strikethrough: self.strikethrough,
            reverse: self.reverse,
        }
    }

    /// Whether the two styles look the same.
    pub fn same_as(&self, other: &CellStyle) -> (r: bool)
        ensures
            r == same_style(*self, *other),
    {
        same_text(&self.fg, &other.fg) && same_text(&self.bg, &other.bg) && self.bold == other.bold
            && self.dim == other.dim && self.italic == other.italic && self.underline
            == other.underline && self.strikethrough == other.strikethrough && self.reverse
            == other.reverse
    }
}

/// A character with its style.
#[derive(Clone, Debug, PartialEq, Eq)]
pub struct StyledCell {
    pub ch: char,
    pub style: CellStyle,
}

pub open spec fn same_cell(a: StyledCell, b: StyledCell) -> bool {
    a.ch == b.ch && same_style(a.style, b.style)
}

impl StyledCell {
    pub fn new(ch: char, style: CellStyle) -> (r: StyledCell)
        ensures
            r == (StyledCell { ch, style }),
    {
        StyledCell { ch, style }
    }

    pub open spec fn spec_blank() -> StyledCell {
        StyledCell { ch: ' ', style: CellStyle::plain() }
    }

    /// A space with no style.
    pub fn blank() -> (r: StyledCell)
        ensures
            r == StyledCell::spec_blank(),
    {
        StyledCell { ch: ' ', style: CellStyle::new() }
    }

    /// A space with the given style.
    pub fn blank_styled(style: CellStyle) -> (r: StyledCell)
        ensures
            r == (StyledCell { ch: ' ', style }),
    {
        StyledCell { ch: ' ', style }
    }

    /// A field-by-field copy.
    pub fn dup(&self) -> (r: StyledCell)
        ensures
            r == *self,
    {
        StyledCell { ch: self.ch, style: self.style.dup() }
    }

    /// Whether the two cells show the same character in the same style.
    pub fn same_as(&self, other: &StyledCell) -> (r: bool)
        ensures
            r == same_cell(*self, *other),
    {
        self.ch == other.ch && self.style.same_as(&other.style)
    }
}

/// Consecutive cells of row `y`, starting at column `x_offset`.
#[derive(Clone, Debug, PartialEq, Eq)]
pub struct Strip {
    pub y: i32,
    pub x_offset: i32,
    pub cells: Vec<StyledCell>,
}

impl Strip {
    pub fn new(y: i32, x_offset: i32) -> (r: Strip)
        ensures
            r.y == y,
            r.x_offset == x_offset,
            r.cells@.len() == 0,
    {
        Strip { y, x_offset, cells: Vec::new() }
    }

    /// Append one cell.
    pub fn push(&mut self, ch: char, style: CellStyle)
        ensures
            final(self).y == old(self).y,
            final(self).x_offset == old(self).x_offset,
            final(self).cells@ == old(self).cells@.push(StyledCell { ch, style }),
    {
        self.cells.push(StyledCell::new(ch, style));
    }

    /// Append one cell per character of `text`, all in `style`.
    pub fn push_str(&mut self, text: &str, style: CellStyle)
        ensures
            final(self).y == old(self).y,
            final(self).x_offset == old(self).x_offset,
            final(self).cells@.len() == old(self).cells@.len() + text@.len(),
            final(self).cells@.subrange(0, old(self).cells@.len() as int) == old(self).cells@,
            forall|i: int|
                0 <= i < text@.len() ==> #[trigger] final(self).cells@[old(self).cells@.len() + i]
                    == (StyledCell { ch: text@[i], style }),
    {
        let chars = chars_of(text);
        let ghost start = self.cells@;
        let mut i: usize = 0;
        while i < chars.len()
            invariant
                chars@ == text@,
                i <= chars@.len(),
                self.y == old(self).y,
                self.x_offset == old(self).x_offset,
                self.cells@.len() == start.len() + i,
                self.cells@.subrange(0, start.len() as int) == start,
                start == old(self).cells@,
                forall|j: int|
                    0 <= j < i ==> #[trigger] self.cells@[start.len() + j] == (StyledCell {
                        ch: text@[j],
                        style,
                    }),
            decreases chars@.len() - i,
        {
            let ghost before = self.cells@;
            self.cells.push(StyledCell::new(chars[i], style.dup()));
            proof {
                assert(self.cells@.subrange(0, start.len() as int) =~= before.subrange(
                    0,
                    start.len() as int,
                ));
                assert forall|j: int| 0 <= j < i + 1 implies #[trigger] self.cells@[start.len() + j]
                    == (StyledCell { ch: text@[j], style }) by {
                    if j < i {
                        assert(self.cells@[start.len() + j] == before[start.len() + j]);
                    }
                }
            }
            i = i + 1;
        }
    }

    /// Number of cells.
    pub fn width(&self) -> (r: i32)
        requires
            self.cells@.len() <= i32::MAX,
        ensures
            r == self.cells@.len(),
    {
        self.cells.len() as i32
    }

    /// The cells whose columns lie in `[x_start, x_end)`, with the offset of
    /// the first kept cell (`x_start` when none is kept).
    pub fn crop(&self, x_start: i32, x_end: i32) -> (r: Strip)
        ensures
            r.y == self.y,
            ({
                let lo = crate::geometry::clamp_int(x_start - self.x_offset, 0, self.cells@.len() as int);
                let hi = crate::geometry::clamp_int(x_end - self.x_offset, 0, self.cells@.len() as int);
                if lo < hi {
                    r.cells@ == self.cells@.subrange(lo, hi) && r.x_offset == self.x_offset + lo
                } else {
                    r.cells@.len() == 0 && r.x_offset == x_start
                }
            }),
    {
        let n = self.cells.len();
        let lo64: i64 = x_start as i64 - self.x_offset as i64;
        let hi64: i64 = x_end as i64 - self.x_offset as i64;
        let lo: usize = if lo64 < 0 { 0 } else if lo64 as u64 > n as u64 { n } else { lo64 as usize };
        let hi: usize = if hi64 < 0 { 0 } else if hi64 as u64 > n as u64 { n } else { hi64 as usize };
        if lo >= hi {
            return Strip::new(self.y, x_start);
        }
        let mut cells: Vec<StyledCell> = Vec::new();
        let mut i = lo;
        while i < hi
            invariant
                lo <= i <= hi <= n == self.cells@.len(),
                cells@ == self.cells@.subrange(lo as int, i as int),
            decreases hi - i,
        {
            cells.push(self.cells[i].dup());
            proof {
                assert(cells@ =~= self.cells@.subrange(lo as int, i + 1));
            }
            i = i + 1;
        }
        Strip { y: self.y, x_offset: (self.x_offset as i64 + lo as i64) as i32, cells }
    }

    /// Make the strip exactly `width` cells: pad with spaces in `style`, or cut.
    pub fn fill(&mut self, width: i32, style: CellStyle)
        requires
            width >= 0,
        ensures
            final(self).y == old(self).y,
            final(self).x_offset == old(self).x_offset,
            final(self).cells@.len() == width,
            old(self).cells@.len() >= width ==> final(self).cells@ == old(self).cells@.subrange(
                0,
                width as int,
            ),
            old(self).cells@.len() < width ==> final(self).cells@.subrange(
                0,
                old(self).cells@.len() as int,
            ) == old(self).cells@ && forall|i: int|
                old(self).cells@.len() <= i < width ==> #[trigger] final(self).cells@[i] == (StyledCell {
                    ch: ' ',
                    style,
                }),
    {
        let w = width as usize;
        if self.cells.len() > w {
            self.cells.truncate(w);
        } else {
            let ghost start = self.cells@;
            while self.cells.len() < w
                invariant
                    start == old(self).cells@,
                    self.y == old(self).y,
                    self.x_offset == old(self).x_offset,
                    start.len() <= self.cells@.len() <= w,
                    self.cells@.subrange(0, start.len() as int) == start,
                    forall|i: int|
                        start.len() <= i < self.cells@.len() ==> #[trigger] self.cells@[i] == (StyledCell {
                            ch: ' ',
                            style,
                        }),
                decreases w - self.cells@.len(),
            {
                let ghost before = self.cells@;
                self.cells.push(StyledCell::blank_styled(style.dup()));
                proof {
                    assert(self.cells@.subrange(0, start.len() as int) =~= before.subrange(
                        0,
                        start.len() as int,
                    ));
                    assert forall|i: int| start.len() <= i < self.cells@.len() implies #[trigger] self.cells@[i]
                        == (StyledCell { ch: ' ', style }) by {
                        if i < before.len() {
                            assert(self.cells@[i] == before[i]);
                        }
                    }
                }
            }
        }
    }

    /// The column just past the last cell.
    pub fn right(&self) -> (r: i32)
        requires
            self.cells@.len() <= i32::MAX,
            i32::MIN <= self.x_offset + self.cells@.len() <= i32::MAX,
        ensures
            r == self.x_offset + self.cells@.len(),
    {
        self.x_offset + self.cells.len() as i32
    }
}

impl Default for StyledCell {
    /// A blank cell.
    fn default() -> (r: StyledCell)
        ensures
            r == StyledCell::spec_blank(),
    {
        StyledCell::blank()
    }
}


/// `width` cells showing `text` cut to `width`, then spaces, all in `style`.
pub open spec fn line_cells(text: Seq<char>, width: nat, style: CellStyle) -> Seq<StyledCell> {
    Seq::new(width, |i: int| line_cell(text, style, i))
}

/// Cell `i` of [`line_cells`].
pub open spec fn line_cell(text: Seq<char>, style: CellStyle, i: int) -> StyledCell {
    StyledCell { ch: if i < text.len() { text[i] } else { ' ' }, style: style }
}

/// A strip at column `x`, row `y` holding [`line_cells`].
pub fn line_strip(y: i32, x: i32, text: &Vec<char>, width: usize, style: &CellStyle) -> (r: Strip)
    ensures
        r.y == y,
        r.x_offset == x,
        r.cells@ == line_cells(text@, width as nat, *style),
{
    let mut cells: Vec<StyledCell> = Vec::new();
    let mut i: usize = 0;
    while i < width
        invariant
            i <= width,
            cells@ == line_cells(text@, width as nat, *style).subrange(0, i as int),
        decreases width - i,
    {
        let ch = if i < text.len() { text[i] } else { ' ' };
        let st = style.dup();
        let ghost full = line_cells(text@, width as nat, *style);
        assert(full.len() == width);
        assert(full[i as int] == StyledCell { ch, style: st });
        cells.push(StyledCell { ch, style: st });
        proof {
            assert(cells@ =~= line_cells(text@, width as nat, *style).subrange(0, i + 1));
        }
        i = i + 1;
    }
    proof {
        let full = line_cells(text@, width as nat, *style);
        assert(full.subrange(0, width as int) =~= full);
    }
    Strip { y, x_offset: x, cells }
}

} // verus!
