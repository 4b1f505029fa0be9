//! Plain-text pictures of rendered output, one line per row with trailing
//! whitespace removed.
use vstd::prelude::*;
use crate::compositor::{cell_at, painted, Compositor};
use crate::geometry::Region;
use crate::strip::{Strip, StyledCell};
use crate::text::string_from_chars;

verus! {

/// Whether `c` has Unicode's White_Space property: U+0009 to U+000D, U+0020,
/// U+0085, U+00A0, U+1680, U+2000 to U+200A, U+2028, U+2029, U+202F, U+205F
/// and U+3000.
pub open spec fn unicode_white(c: char) -> bool {
    let v = c as u32;
    (0x9 <= v <= 0xD) || v == 0x20 || v == 0x85 || v == 0xA0 || v == 0x1680 || (0x2000 <= v
        <= 0x200A) || v == 0x2028 || v == 0x2029 || v == 0x202F || v == 0x205F || v == 0x3000
}

/// Whether `c` is Unicode white space (what `char::is_whitespace` answers).
pub fn is_white(c: char) -> (r: bool)
    ensures
        r == unicode_white(c),
{
    let v = c as u32;
    (0x9 <= v && v <= 0xD) || v == 0x20 || v == 0x85 || v == 0xA0 || v == 0x1680 || (0x2000 <= v
        && v <= 0x200A) || v == 0x2028 || v == 0x2029 || v == 0x202F || v == 0x205F || v == 0x3000
}

/// `s` without its trailing white space.
pub open spec fn trim_end(s: Seq<char>) -> Seq<char>
    decreases s.len(),
{
    if s.len() > 0 && unicode_white(s.last()) {
        trim_end(s.drop_last())
    } else {
        s
    }
}

/// The lines joined with `\n` between them.
pub open spec fn join_lines(lines: Seq<Seq<char>>) -> Seq<char>
    decreases lines.len(),
{
    if lines.len() == 0 {
        Seq::empty()
    } else if lines.len() == 1 {
        lines[0]
    } else {
        join_lines(lines.drop_last()) + seq!['\n'] + lines.last()
    }
}

fn trimmed_row(row: &Vec<char>) -> (r: Vec<char>)
    ensures
        r@ == trim_end(row@),
{
    let mut n = row.len();
    proof {
        assert(row@.subrange(0, n as int) =~= row@);
    }
    while n > 0 && is_white(row[n - 1])
        invariant
            n <= row@.len(),
            trim_end(row@) == trim_end(row@.subrange(0, n as int)),
        decreases n,
    {
        proof {
            assert(row@.subrange(0, n as int).drop_last() =~= row@.subrange(0, n - 1));
        }
        n = n - 1;
    }
    proof {
        assert(trim_end(row@.subrange(0, n as int)) == row@.subrange(0, n as int));
    }
    let mut out: Vec<char> = Vec::new();
    let mut i: usize = 0;
    while i < n
        invariant
            n <= row@.len(),
            i <= n,
            out@ == row@.subrange(0, i as int),
        decreases n - i,
    {
        out.push(row[i]);
        proof {
            assert(out@ =~= row@.subrange(0, i + 1));
        }
        i = i + 1;
    }
    out
}

/// The characters of row `y` of the compositor.
pub open spec fn row_chars(c: Compositor, y: int) -> Seq<char> {
    Seq::new(c.width as nat, |x: int| cell_at(c.screen@, x, y).ch)
}

/// The lines of the compositor's picture.
pub open spec fn picture_lines(c: Compositor) -> Seq<Seq<char>> {
    Seq::new(c.height as nat, |y: int| trim_end(row_chars(c, y)))
}

/// The screen as text: each row's characters without trailing white space,
/// rows joined by `\n`; empty when the screen has no cells.
pub fn compositor_to_string(compositor: &Compositor) -> (r: String)
    requires
        compositor.wf(),
    ensures
        compositor.width == 0 || compositor.height == 0 ==> r@.len() == 0,
        compositor.width > 0 && compositor.height > 0 ==> r@ == join_lines(picture_lines(*compositor)),
{
    let w = compositor.width;
    let h = compositor.height;
    if w == 0 || h == 0 {
        return string_from_chars(Vec::new());
    }
    let mut out: Vec<char> = Vec::new();
    let mut y: u16 = 0;
    while y < h
        invariant
            w == compositor.width,
            h == compositor.height,
            compositor.wf(),
            y <= h,
            out@ == join_lines(picture_lines(*compositor).subrange(0, y as int)),
        decreases h - y,
    {
        let mut row: Vec<char> = Vec::new();
        let mut x: u16 = 0;
        while x < w
            invariant
                w == compositor.width,
                h == compositor.height,
                compositor.wf(),
                y < h,
                x <= w,
                row@ == row_chars(*compositor, y as int).subrange(0, x as int),
            decreases w - x,
        {
            let ch = match compositor.get_cell(x, y) {
                Some(cell) => cell.ch,
                None => ' ',
            };
            row.push(ch);
            proof {
                assert(row@ =~= row_chars(*compositor, y as int).subrange(0, x + 1));
            }
            x = x + 1;
        }
        proof {
            assert(row@ =~= row_chars(*compositor, y as int));
        }
        let line = trimmed_row(&row);
        let ghost prev = picture_lines(*compositor).subrange(0, y as int);
        let ghost next = picture_lines(*compositor).subrange(0, y + 1);
        proof {
            assert(next.drop_last() =~= prev);
        }
        if y > 0 {
            out.push('\n');
        }
        let mut i: usize = 0;
        let ghost base = out@;
        while i < line.len()
            invariant
                i <= line@.len(),
                out@ == base + line@.subrange(0, i as int),
            decreases line@.len() - i,
        {
            out.push(line[i]);
            proof {
                assert(out@ =~= base + line@.subrange(0, i + 1));
            }
            i = i + 1;
        }
        proof {
            assert(line@.subrange(0, line@.len() as int) =~= line@);
            if y == 0 {
                assert(out@ =~= join_lines(next));
            } else {
                assert(out@ =~= join_lines(next));
            }
        }
        y = y + 1;
    }
    proof {
        assert(picture_lines(*compositor).subrange(0, h as int) =~= picture_lines(*compositor));
    }
    string_from_chars(out)
}

/// The picture of `strips` drawn on a `width` x `height` blank area; cells
/// outside the area are dropped and later strips win.
pub fn strips_to_string(strips: &[Strip], width: i32, height: i32) -> (r: String)
    requires
        width <= 0xffff,
        height <= 0xffff,
    ensures
        width <= 0 || height <= 0 ==> r@.len() == 0,
        width > 0 && height > 0 ==> r@ == join_lines(
            Seq::new(
                height as nat,
                |y: int|
                    trim_end(
                        Seq::new(
                            width as nat,
                            |x: int|
                                painted(
                                    strips@,
                                    strips@.len() as int,
                                    Region { x: 0, y: 0, width, height },
                                    StyledCell::spec_blank(),
                                    x,
                                    y,
                                ).ch,
                        ),
                    ),
            ),
        ),
{
    if width <= 0 || height <= 0 {
        return string_from_chars(Vec::new());
    }
    let mut c = Compositor::new(width as u16, height as u16);
    let area = Region::new(0, 0, width, height);
    c.place_strips(strips, &area);
    proof {
        let full = Region { x: 0, y: 0, width, height };
        assert(c.clip_of(full) == full);
        assert(picture_lines(c) =~= Seq::new(
            height as nat,
            |y: int|
                trim_end(
                    Seq::new(
                        width as nat,
                        |x: int|
                            painted(strips@, strips@.len() as int, full, StyledCell::spec_blank(), x, y).ch,
                    ),
                ),
        )) by {
            assert forall|y: int| 0 <= y < height implies row_chars(c, y) =~= Seq::new(
                width as nat,
                |x: int| painted(strips@, strips@.len() as int, full, StyledCell::spec_blank(), x, y).ch,
            ) by {
                assert forall|x: int| 0 <= x < width implies #[trigger] row_chars(c, y)[x] == painted(
                    strips@,
                    strips@.len() as int,
                    full,
                    StyledCell::spec_blank(),
                    x,
                    y,
                ).ch by {
                    assert(cell_at(c.screen@, x, y) == painted(strips@, strips@.len() as int, full, StyledCell::spec_blank(), x, y));
                }
            }
        }
    }
    compositor_to_string(&c)
}

} // verus!
