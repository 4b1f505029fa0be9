//! State of the built-in widgets: button, footer, header, static text.
use vstd::prelude::*;
use crate::geometry::Region;
use crate::strip::{line_cells, line_strip, CellStyle, Strip};
use crate::styles::{Styles, TextAlign};
use crate::text::{chars_of, string_from_chars};

verus! {

fn owned(s: &str) -> (r: String)
    ensures
        r@ == s@,
{
    string_from_chars(chars_of(s))
}

/// The row that shows a button's label in a region `height` rows tall.
pub open spec fn label_row(height: int) -> int {
    if height >= 3 { 1 } else { 0 }
}

/// The text alignment a resolved style asks for; centered when unset.
pub open spec fn align_of(styles: Styles) -> TextAlign {
    match styles.text_align {
        Some(a) => a,
        None => TextAlign::Center,
    }
}

/// The label cut to `width`, preceded by the spaces its alignment asks for.
pub open spec fn button_line(label: Seq<char>, width: nat, align: TextAlign) -> Seq<char> {
    let t = if label.len() > width { label.subrange(0, width as int) } else { label };
    let pad: nat = match align {
        TextAlign::Left => 0,
        TextAlign::Center => ((width - t.len()) / 2) as nat,
        TextAlign::Right => (width - t.len()) as nat,
    };
    Seq::new(pad, |i: int| ' ') + t
}

fn button_text(label: &Vec<char>, width: usize, align: TextAlign) -> (r: Vec<char>)
    ensures
        r@ == button_line(label@, width as nat, align),
{
    let n = if label.len() > width { width } else { label.len() };
    let pad = match align {
        TextAlign::Left => 0,
        TextAlign::Center => (width - n) / 2,
        TextAlign::Right => width - n,
    };
    let mut out: Vec<char> = Vec::new();
    let mut i: usize = 0;
    while i < pad
        invariant
            i <= pad,
            out@ == Seq::new(i as nat, |k: int| ' '),
        decreases pad - i,
    {
        out.push(' ');
        proof {
            assert(out@ =~= Seq::new((i + 1) as nat, |k: int| ' '));
        }
        i = i + 1;
    }
    let ghost head = out@;
    let mut j: usize = 0;
    while j < n
        invariant
            n <= label@.len(),
            j <= n,
            out@ == head + label@.subrange(0, j as int),
        decreases n - j,
    {
        out.push(label[j]);
        proof {
            assert(out@ =~= head + label@.subrange(0, j + 1));
        }
        j = j + 1;
    }
    proof {
        let t = if label@.len() > width { label@.subrange(0, width as int) } else { label@ };
        assert(label@.subrange(0, n as int) =~= t);
    }
    out
}

/// A pressable label.
pub struct Button {
    pub label: String,
    pub disabled: bool,
}

impl Button {
    pub fn new(label: &str) -> (r: Button)
        ensures
            r.label@ == label@,
            !r.disabled,
    {
        Button { label: owned(label), disabled: false }
    }

    pub fn disabled(self, disabled: bool) -> (r: Button)
        ensures
            r.label == self.label,
            r.disabled == disabled,
    {
        Button { label: self.label, disabled }
    }

    pub fn label(&self) -> (r: &str)
        ensures
            r@ == self.label@,
    {
        self.label.as_str()
    }

    pub fn is_disabled(&self) -> (r: bool)
        ensures
            r == self.disabled,
    {
        self.disabled
    }

    /// The type name stylesheets select this widget by.
    pub fn widget_type(&self) -> (r: &'static str) {
        "Button"
    }

    /// One strip per row of the region. The label row (the second when the
    /// region has three rows or more, else the first) shows the label cut to
    /// the width and placed by the text alignment (centered by default); the
    /// other rows are blank.
    pub fn render(&self, region: Region, styles: &Styles) -> (r: Vec<Strip>)
        requires
            region.edges_fit(),
        ensures
            region.width <= 0 || region.height <= 0 ==> r@.len() == 0,
            region.width > 0 && region.height > 0 ==> r@.len() == region.height && forall|row: int|
                0 <= row < region.height ==> (#[trigger] r@[row]).y == region.y + row
                    && r@[row].x_offset == region.x && r@[row].cells@ == line_cells(
                    if row == label_row(region.height as int) {
                        button_line(self.label@, region.width as nat, align_of(*styles))
                    } else {
                        Seq::empty()
                    },
                    region.width as nat,
                    CellStyle::of_styles(*styles),
                ),
    {
        if region.width <= 0 || region.height <= 0 {
            return Vec::new();
        }
        let style = CellStyle::from_styles(styles);
        let width = region.width as usize;
        let align = match styles.text_align {
            Some(a) => a,
            None => TextAlign::Center,
        };
        let label_chars = chars_of(self.label.as_str());
        let line = button_text(&label_chars, width, align);
        let blank: Vec<char> = Vec::new();
        let lr: i32 = if region.height >= 3 { 1 } else { 0 };
        let mut out: Vec<Strip> = Vec::new();
        let mut row: i32 = 0;
        while row < region.height
            invariant
                region.edges_fit(),
                region.width > 0,
                width == region.width,
                0 <= row <= region.height,
                lr == label_row(region.height as int),
                line@ == button_line(self.label@, width as nat, align_of(*styles)),
                blank@.len() == 0,
                style == CellStyle::of_styles(*styles),
                out@.len() == row,
                forall|k: int|
                    0 <= k < row ==> (#[trigger] out@[k]).y == region.y + k && out@[k].x_offset
                        == region.x && out@[k].cells@ == line_cells(
                        if k == label_row(region.height as int) {
                            button_line(self.label@, region.width as nat, align_of(*styles))
                        } else {
                            Seq::empty()
                        },
                        region.width as nat,
                        CellStyle::of_styles(*styles),
                    ),
            decreases region.height - row,
        {
            let text = if row == lr { &line } else { &blank };
            let strip = line_strip(region.y + row, region.x, text, width, &style);
            proof {
                if row != lr {
                    assert(blank@ =~= Seq::<char>::empty());
                }
            }
            out.push(strip);
            row = row + 1;
        }
        out
    }

    /// The widget's built-in stylesheet.
    pub fn default_css(&self) -> (r: &'static str) {
        "Button { height: 3; min-width: 10; text-align: center; }"
    }

    /// A button takes focus unless disabled.
    pub fn can_focus(&self) -> (r: bool)
        ensures
            r == !self.disabled,
    {
        !self.disabled
    }
}

/// One line of text docked at the bottom.
pub struct Footer {
    pub content: String,
}

impl Footer {
    pub fn new(content: &str) -> (r: Footer)
        ensures
            r.content@ == content@,
    {
        Footer { content: owned(content) }
    }

    pub fn content(&self) -> (r: &str)
        ensures
            r@ == self.content@,
    {
        self.content.as_str()
    }

    pub fn widget_type(&self) -> (r: &'static str) {
        "Footer"
    }

    /// One row: the content cut to the region's width, padded with spaces.
    pub fn render(&self, region: Region, styles: &Styles) -> (r: Vec<Strip>)
        ensures
            region.width <= 0 || region.height <= 0 ==> r@.len() == 0,
            region.width > 0 && region.height > 0 ==> r@.len() == 1 && r@[0].y == region.y
                && r@[0].x_offset == region.x && r@[0].cells@ == line_cells(
                self.content@,
                region.width as nat,
                CellStyle::of_styles(*styles),
            ),
    {
        if region.width <= 0 || region.height <= 0 {
            return Vec::new();
        }
        let style = CellStyle::from_styles(styles);
        let text = chars_of(self.content.as_str());
        let strip = line_strip(region.y, region.x, &text, region.width as usize, &style);
        let mut out: Vec<Strip> = Vec::new();
        out.push(strip);
        out
    }

    pub fn default_css(&self) -> (r: &'static str) {
        "Footer { height: 1; dock: bottom; width: 1fr; }"
    }

    pub fn can_focus(&self) -> (r: bool)
        ensures
            !r,
    {
        false
    }
}

/// A title, and optionally a subtitle, docked at the top.
pub struct Header {
    pub title: String,
    pub subtitle: Option<String>,
}

impl Header {
    pub fn new(title: &str) -> (r: Header)
        ensures
            r.title@ == title@,
            r.subtitle is None,
    {
        Header { title: owned(title), subtitle: None }
    }

    pub fn with_subtitle(self, subtitle: &str) -> (r: Header)
        ensures
            r.title == self.title,
            r.subtitle is Some && r.subtitle->Some_0@ == subtitle@,
    {
        Header { title: self.title, subtitle: Some(owned(subtitle)) }
    }

    pub fn title(&self) -> (r: &str)
        ensures
            r@ == self.title@,
    {
        self.title.as_str()
    }

    pub fn subtitle(&self) -> (r: Option<&str>)
        ensures
            r is Some == self.subtitle is Some,
            r is Some ==> r->Some_0@ == self.subtitle->Some_0@,
    {
        match &self.subtitle {
            Some(s) => Some(s.as_str()),
            None => None,
        }
    }

    pub fn widget_type(&self) -> (r: &'static str) {
        "Header"
    }

    /// The title centered on the first row; the subtitle centered on the
    /// second, when there is one and the region has two rows.
    pub fn render(&self, region: Region, styles: &Styles) -> (r: Vec<Strip>)
        requires
            region.edges_fit(),
        ensures
            region.width <= 0 || region.height <= 0 ==> r@.len() == 0,
            region.width > 0 && region.height > 0 ==> {
                let cs = CellStyle::of_styles(*styles);
                let w = region.width as nat;
                &&& r@.len() == if self.subtitle is Some && region.height >= 2 { 2int } else { 1int }
                &&& r@[0].y == region.y && r@[0].x_offset == region.x
                &&& r@[0].cells@ == line_cells(centered(self.title@, w), w, cs)
                &&& r@.len() == 2 ==> r@[1].y == region.y + 1 && r@[1].x_offset == region.x
                    && r@[1].cells@ == line_cells(centered(self.subtitle->Some_0@, w), w, cs)
            },
    {
        if region.width <= 0 || region.height <= 0 {
            return Vec::new();
        }
        let style = CellStyle::from_styles(styles);
        let width = region.width as usize;
        let mut out: Vec<Strip> = Vec::new();
        let title = chars_of(center_text(self.title.as_str(), width).as_str());
        out.push(line_strip(region.y, region.x, &title, width, &style));
        match &self.subtitle {
            Some(sub) => {
                if region.height >= 2 {
                    let text = chars_of(center_text(sub.as_str(), width).as_str());
                    out.push(line_strip(region.y + 1, region.x, &text, width, &style));
                }
            },
            None => {},
        }
        out
    }

    pub fn default_css(&self) -> (r: &'static str) {
        "Header { height: 1; dock: top; width: 1fr; }"
    }

    pub fn can_focus(&self) -> (r: bool)
        ensures
            !r,
    {
        false
    }
}

/// `text` cut to `width` characters, then padded with spaces on both sides
/// to `width`, the odd space going right.
pub open spec fn centered(text: Seq<char>, width: nat) -> Seq<char> {
    let t = if text.len() > width { text.subrange(0, width as int) } else { text };
    let pad = (width - t.len()) as nat;
    let left = pad / 2;
    Seq::new(left, |i: int| ' ') + t + Seq::new((pad - left) as nat, |i: int| ' ')
}

/// Center `text` in `width` columns.
pub fn center_text(text: &str, width: usize) -> (r: String)
    ensures
        r@ == centered(text@, width as nat),
{
    let cs = chars_of(text);
    let n = if cs.len() > width { width } else { cs.len() };
    let pad = width - n;
    let left = pad / 2;
    let mut out: Vec<char> = Vec::new();
    let mut i: usize = 0;
    while i < left
        invariant
            i <= left,
            out@ == Seq::new(i as nat, |k: int| ' '),
        decreases left - i,
    {
        out.push(' ');
        proof {
            assert(out@ =~= Seq::new((i + 1) as nat, |k: int| ' '));
        }
        i = i + 1;
    }
    let ghost head = out@;
    let mut j: usize = 0;
    while j < n
        invariant
            n <= cs@.len(),
            j <= n,
            out@ == head + cs@.subrange(0, j as int),
        decreases n - j,
    {
        out.push(cs[j]);
        proof {
            assert(out@ =~= head + cs@.subrange(0, j + 1));
        }
        j = j + 1;
    }
    let ghost mid = out@;
    let mut k: usize = 0;
    while k < pad - left
        invariant
            k <= pad - left,
            out@ == mid + Seq::new(k as nat, |q: int| ' '),
        decreases pad - left - k,
    {
        out.push(' ');
        proof {
            assert(out@ =~= mid + Seq::new((k + 1) as nat, |q: int| ' '));
        }
        k = k + 1;
    }
    proof {
        let t = if text@.len() > width { text@.subrange(0, width as int) } else { text@ };
        assert(cs@.subrange(0, n as int) =~= t);
    }
    string_from_chars(out)
}

/// `s` cut at each `\n`: one more piece than there are newlines.
pub open spec fn split_lines(s: Seq<char>) -> Seq<Seq<char>>
    decreases s.len(),
{
    if s.len() == 0 {
        seq![Seq::empty()]
    } else {
        let p = split_lines(s.drop_last());
        if s.last() == '\n' {
            p.push(Seq::empty())
        } else {
            p.update(p.len() - 1, p.last().push(s.last()))
        }
    }
}

proof fn lemma_split_lines_nonempty(s: Seq<char>)
    ensures
        split_lines(s).len() >= 1,
    decreases s.len(),
{
    if s.len() > 0 {
        lemma_split_lines_nonempty(s.drop_last());
    }
}

/// The lines of `text`.
fn lines_of(text: &Vec<char>) -> (r: Vec<Vec<char>>)
    ensures
        r@.len() == split_lines(text@).len(),
        forall|i: int| 0 <= i < r@.len() ==> (#[trigger] r@[i])@ == split_lines(text@)[i],
{
    let mut lines: Vec<Vec<char>> = Vec::new();
    let mut cur: Vec<char> = Vec::new();
    let mut i: usize = 0;
    while i < text.len()
        invariant
            i <= text@.len(),
            ({
                let p = split_lines(text@.subrange(0, i as int));
                &&& p.len() == lines@.len() + 1
                &&& forall|k: int| 0 <= k < lines@.len() ==> (#[trigger] lines@[k])@ == p[k]
                &&& cur@ == p.last()
            }),
        decreases text@.len() - i,
    {
        proof {
            assert(text@.subrange(0, i + 1).drop_last() =~= text@.subrange(0, i as int));
            lemma_split_lines_nonempty(text@.subrange(0, i as int));
        }
        let c = text[i];
        if c == '\n' {
            let mut done: Vec<char> = Vec::new();
            std::mem::swap(&mut done, &mut cur);
            lines.push(done);
        } else {
            cur.push(c);
        }
        i = i + 1;
    }
    proof {
        assert(text@.subrange(0, text@.len() as int) =~= text@);
    }
    lines.push(cur);
    lines
}

/// Plain text, possibly several lines.
pub struct Static {
    pub content: String,
}

impl Static {
    pub fn new(content: &str) -> (r: Static)
        ensures
            r.content@ == content@,
    {
        Static { content: owned(content) }
    }

    pub fn content(&self) -> (r: &str)
        ensures
            r@ == self.content@,
    {
        self.content.as_str()
    }

    pub fn widget_type(&self) -> (r: &'static str) {
        "Static"
    }

    /// One strip per line of the content, as many as the region has rows,
    /// each cut to the width and padded with spaces.
    pub fn render(&self, region: Region, styles: &Styles) -> (r: Vec<Strip>)
        requires
            region.edges_fit(),
        ensures
            region.width <= 0 || region.height <= 0 ==> r@.len() == 0,
            region.width > 0 && region.height > 0 ==> {
                let ls = split_lines(self.content@);
                &&& r@.len() == if ls.len() < region.height { ls.len() as int } else { region.height as int }
                &&& forall|i: int|
                    0 <= i < r@.len() ==> (#[trigger] r@[i]).y == region.y + i && r@[i].x_offset
                        == region.x && r@[i].cells@ == line_cells(
                        ls[i],
                        region.width as nat,
                        CellStyle::of_styles(*styles),
                    )
            },
    {
        if region.width <= 0 || region.height <= 0 {
            return Vec::new();
        }
        let style = CellStyle::from_styles(styles);
        let width = region.width as usize;
        let lines = lines_of(&chars_of(self.content.as_str()));
        let mut out: Vec<Strip> = Vec::new();
        let mut i: usize = 0;
        while i < lines.len() && (i as i32) < region.height
            invariant
                region.edges_fit(),
                region.height > 0,
                width == region.width,
                i <= lines@.len(),
                i <= region.height,
                lines@.len() == split_lines(self.content@).len(),
                forall|k: int| 0 <= k < lines@.len() ==> (#[trigger] lines@[k])@ == split_lines(self.content@)[k],
                style == CellStyle::of_styles(*styles),
                out@.len() == i,
                forall|k: int|
                    0 <= k < i ==> (#[trigger] out@[k]).y == region.y + k && out@[k].x_offset
                        == region.x && out@[k].cells@ == line_cells(
                        split_lines(self.content@)[k],
                        region.width as nat,
                        CellStyle::of_styles(*styles),
                    ),
            decreases lines@.len() - i,
        {
            let strip = line_strip(region.y + i as i32, region.x, &lines[i], width, &style);
            out.push(strip);
            i = i + 1;
        }
        out
    }

    pub fn default_css(&self) -> (r: &'static str) {
        ""
    }

    pub fn can_focus(&self) -> (r: bool)
        ensures
            !r,
    {
        false
    }
}

} // verus!
