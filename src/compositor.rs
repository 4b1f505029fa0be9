//! The screen buffer: strips are placed into a grid of cells, and two
//! buffers are compared to find the cells that changed.
use vstd::prelude::*;
use crate::geometry::Region;
use crate::strip::{same_cell, CellStyle, Strip, StyledCell};

verus! {

/// One cell to redraw at column `x`, row `y`.
#[derive(Clone, Debug, PartialEq, Eq)]
pub struct CellUpdate {
    pub x: u16,
    pub y: u16,
    pub cell: StyledCell,
}

/// A `width` x `height` grid of cells with a list of dirty regions.
#[derive(Clone, Debug)]
pub struct Compositor {
    pub screen: Vec<Vec<StyledCell>>,
    pub width: u16,
    pub height: u16,
    pub dirty_regions: Vec<Region>,
}

/// A grid of `h` rows of `w` cells.
pub open spec fn grid_shape(g: Seq<Vec<StyledCell>>, w: int, h: int) -> bool {
    g.len() == h && forall|y: int| 0 <= y < h ==> (#[trigger] g[y])@.len() == w
}

pub open spec fn cell_at(g: Seq<Vec<StyledCell>>, x: int, y: int) -> StyledCell {
    g[y]@[x]
}

/// A grid of `h` rows of `w` blank cells.
pub fn blank_grid(width: u16, height: u16) -> (r: Vec<Vec<StyledCell>>)
    ensures
        grid_shape(r@, width as int, height as int),
        forall|y: int, x: int|
            0 <= y < height && 0 <= x < width ==> #[trigger] cell_at(r@, x, y)
                == StyledCell::spec_blank(),
{
    let mut g: Vec<Vec<StyledCell>> = Vec::new();
    let mut y: usize = 0;
    while y < height as usize
        invariant
            y <= height,
            grid_shape(g@, width as int, y as int),
            forall|j: int, x: int|
                0 <= j < y && 0 <= x < width ==> #[trigger] cell_at(g@, x, j)
                    == StyledCell::spec_blank(),
        decreases height - y,
    {
        let mut row: Vec<StyledCell> = Vec::new();
        let mut x: usize = 0;
        while x < width as usize
            invariant
                x <= width,
                row@.len() == x,
                forall|i: int| 0 <= i < x ==> #[trigger] row@[i] == StyledCell::spec_blank(),
            decreases width - x,
        {
            row.push(StyledCell::blank());
            x = x + 1;
        }
        let ghost before = g@;
        let ghost rv = row@;
        g.push(row);
        proof {
            assert forall|j: int, x: int|
                0 <= j < y + 1 && 0 <= x < width implies #[trigger] cell_at(g@, x, j)
                == StyledCell::spec_blank() by {
                if j < y {
                    assert(g@[j] == before[j]);
                    assert(cell_at(before, x, j) == StyledCell::spec_blank());
                } else {
                    assert(g@[j]@ == rv);
                    assert(rv[x] == StyledCell::spec_blank());
                }
            }
        }
        y = y + 1;
    }
    g
}

impl Compositor {
    pub open spec fn wf(&self) -> bool {
        grid_shape(self.screen@, self.width as int, self.height as int)
    }

    pub open spec fn full_region(&self) -> Region {
        Region { x: 0, y: 0, width: self.width as i32, height: self.height as i32 }
    }

    /// A blank screen of the given size with nothing dirty.
    pub fn new(width: u16, height: u16) -> (r: Compositor)
        ensures
            r.wf(),
            r.width == width,
            r.height == height,
            r.dirty_regions@.len() == 0,
            forall|y: int, x: int|
                0 <= y < height && 0 <= x < width ==> #[trigger] cell_at(r.screen@, x, y)
                    == StyledCell::spec_blank(),
    {
        Compositor { screen: Self::blank_screen(width, height), width, height, dirty_regions: Vec::new() }
    }

    /// A blank grid; see [`blank_grid`].
    pub fn blank_screen(width: u16, height: u16) -> (r: Vec<Vec<StyledCell>>)
        ensures
            grid_shape(r@, width as int, height as int),
            forall|y: int, x: int|
                0 <= y < height && 0 <= x < width ==> #[trigger] cell_at(r@, x, y)
                    == StyledCell::spec_blank(),
    {
        blank_grid(width, height)
    }

    /// A blank screen of the new size, entirely dirty.
    pub fn resize(&mut self, width: u16, height: u16)
        ensures
            final(self).wf(),
            final(self).width == width,
            final(self).height == height,
            final(self).dirty_regions@ == seq![final(self).full_region()],
            forall|y: int, x: int|
                0 <= y < height && 0 <= x < width ==> #[trigger] cell_at(final(self).screen@, x, y)
                    == StyledCell::spec_blank(),
    {
        self.width = width;
        self.height = height;
        self.screen = Self::blank_screen(width, height);
        self.mark_all_dirty();
    }

    pub fn mark_dirty(&mut self, region: Region)
        ensures
            final(self).dirty_regions@ == old(self).dirty_regions@.push(region),
            final(self).screen == old(self).screen,
            final(self).width == old(self).width,
            final(self).height == old(self).height,
    {
        self.dirty_regions.push(region);
    }

    /// Replace the dirty list by the whole screen.
    pub fn mark_all_dirty(&mut self)
        ensures
            final(self).dirty_regions@ == seq![old(self).full_region()],
            final(self).screen == old(self).screen,
            final(self).width == old(self).width,
            final(self).height == old(self).height,
    {
        self.dirty_regions.clear();
        let full = Region::new(0, 0, self.width as i32, self.height as i32);
        self.dirty_regions.push(full);
        proof {
            assert(self.dirty_regions@ =~= seq![old(self).full_region()]);
        }
    }

    pub fn is_dirty(&self) -> (r: bool)
        ensures
            r == (self.dirty_regions@.len() > 0),
    {
        self.dirty_regions.len() > 0
    }

    pub fn dirty_regions(&self) -> (r: &[Region])
        ensures
            r@ == self.dirty_regions@,
    {
        self.dirty_regions.as_slice()
    }

    pub fn clear_dirty(&mut self)
        ensures
            final(self).dirty_regions@.len() == 0,
            final(self).screen == old(self).screen,
            final(self).width == old(self).width,
            final(self).height == old(self).height,
    {
        self.dirty_regions.clear();
    }

    /// The cell at column `x`, row `y`, if on screen.
    pub fn get_cell(&self, x: u16, y: u16) -> (r: Option<&StyledCell>)
        requires
            self.wf(),
        ensures
            (x < self.width && y < self.height) ==> r == Some(&cell_at(self.screen@, x as int, y as int)),
            !(x < self.width && y < self.height) ==> r is None,
    {
        if (y as usize) < self.screen.len() && (x as usize) < self.screen[y as usize].len() {
            Some(&self.screen[y as usize][x as usize])
        } else {
            None
        }
    }

    /// Set every cell to a space in `style`.
    pub fn fill(&mut self, style: CellStyle)
        requires
            old(self).wf(),
        ensures
            final(self).wf(),
            final(self).width == old(self).width,
            final(self).height == old(self).height,
            final(self).dirty_regions == old(self).dirty_regions,
            forall|y: int, x: int|
                0 <= y < final(self).height && 0 <= x < final(self).width ==> #[trigger] cell_at(
                    final(self).screen@,
                    x,
                    y,
                ) == StyledCell::blank_styled_spec(style),
    {
        let mut g: Vec<Vec<StyledCell>> = Vec::new();
        let mut y: usize = 0;
        let h = self.height as usize;
        let w = self.width as usize;
        while y < h
            invariant
                h == self.height,
                w == self.width,
                y <= h,
                grid_shape(g@, w as int, y as int),
                forall|j: int, x: int|
                    0 <= j < y && 0 <= x < w ==> #[trigger] cell_at(g@, x, j)
                        == StyledCell::blank_styled_spec(style),
            decreases h - y,
        {
            let mut row: Vec<StyledCell> = Vec::new();
            let mut x: usize = 0;
            while x < w
                invariant
                    x <= w,
                    row@.len() == x,
                    forall|i: int| 0 <= i < x ==> #[trigger] row@[i] == StyledCell::blank_styled_spec(style),
                decreases w - x,
            {
                row.push(StyledCell::blank_styled(style.dup()));
                x = x + 1;
            }
            let ghost before = g@;
            let ghost rv = row@;
            g.push(row);
            proof {
                assert forall|j: int, x: int|
                    0 <= j < y + 1 && 0 <= x < w implies #[trigger] cell_at(g@, x, j)
                    == StyledCell::blank_styled_spec(style) by {
                    if j < y {
                        assert(g@[j] == before[j]);
                        assert(cell_at(before, x, j) == StyledCell::blank_styled_spec(style));
                    } else {
                        assert(g@[j]@ == rv);
                        assert(rv[x] == StyledCell::blank_styled_spec(style));
                    }
                }
            }
            y = y + 1;
        }
        self.screen = g;
    }
}

/// The cell that strip `s` puts at column `x`, row `y`, if any.
pub open spec fn strip_cell(s: Strip, x: int, y: int) -> Option<StyledCell> {
    if s.y == y && s.x_offset <= x < s.x_offset + s.cells@.len() {
        Some(s.cells@[x - s.x_offset])
    } else {
        None
    }
}

/// The cell at `(x, y)` after placing the first `n` strips over `base`,
/// keeping only what falls inside `clip`; later strips win.
pub open spec fn painted(strips: Seq<Strip>, n: int, clip: Region, base: StyledCell, x: int, y: int) -> StyledCell
    decreases n,
{
    if n <= 0 || n > strips.len() {
        base
    } else {
        match strip_cell(strips[n - 1], x, y) {
            Some(c) => if clip.spec_contains(x, y) {
                c
            } else {
                painted(strips, n - 1, clip, base, x, y)
            },
            None => painted(strips, n - 1, clip, base, x, y),
        }
    }
}

impl Compositor {
    /// The part of `region` that lies on screen.
    pub open spec fn clip_of(&self, region: Region) -> Region {
        let x1 = crate::geometry::max_int(region.x as int, 0);
        let y1 = crate::geometry::max_int(region.y as int, 0);
        let x2 = crate::geometry::min_int(region.spec_right(), self.width as int);
        let y2 = crate::geometry::min_int(region.spec_bottom(), self.height as int);
        if x2 - x1 <= 0 || y2 - y1 <= 0 {
            Region { x: 0, y: 0, width: 0, height: 0 }
        } else {
            Region { x: x1 as i32, y: y1 as i32, width: (x2 - x1) as i32, height: (y2 - y1) as i32 }
        }
    }

    /// Copy the strips' cells onto the screen, in order, keeping only those
    /// inside `region` and on screen.
    pub fn place_strips(&mut self, strips: &[Strip], region: &Region)
        requires
            old(self).wf(),
            region.edges_fit(),
        ensures
            final(self).wf(),
            final(self).width == old(self).width,
            final(self).height == old(self).height,
            final(self).dirty_regions == old(self).dirty_regions,
            forall|y: int, x: int|
                0 <= y < old(self).height && 0 <= x < old(self).width ==> #[trigger] cell_at(
                    final(self).screen@,
                    x,
                    y,
                ) == painted(strips@, strips@.len() as int, old(self).clip_of(*region), cell_at(old(self).screen@, x, y), x, y),
    {
        let screen_region = Region::new(0, 0, self.width as i32, self.height as i32);
        let clip = region.intersection(screen_region);
        let ghost g0 = self.screen@;
        assert(clip == old(self).clip_of(*region));
        let mut i: usize = 0;
        while i < strips.len()
            invariant
                old(self).wf(),
                self.wf(),
                self.width == old(self).width,
                self.height == old(self).height,
                self.dirty_regions == old(self).dirty_regions,
                g0 == old(self).screen@,
                clip == old(self).clip_of(*region),
                i <= strips@.len(),
                forall|y: int, x: int|
                    0 <= y < self.height && 0 <= x < self.width ==> #[trigger] cell_at(self.screen@, x, y)
                        == painted(strips@, i as int, clip, cell_at(g0, x, y), x, y),
            decreases strips@.len() - i,
        {
            let strip = &strips[i];
            let sy = strip.y;
            if sy >= clip.y && (sy as i64) < clip.y as i64 + clip.height as i64 {
                let row = sy as usize;
                let mut j: usize = 0;
                while j < strip.cells.len() && (j as u64) < 0x1_0000_0000u64
                    invariant
                        self.wf(),
                        self.width == old(self).width,
                        self.height == old(self).height,
                        self.dirty_regions == old(self).dirty_regions,
                        clip == old(self).clip_of(*region),
                        i < strips@.len(),
                        *strip == strips@[i as int],
                        sy == strip.y,
                        clip.y <= sy < clip.y + clip.height,
                        0 <= sy < self.height,
                        row == sy,
                        j <= strip.cells@.len(),
                        forall|y: int, x: int|
                            0 <= y < self.height && 0 <= x < self.width ==> #[trigger] cell_at(self.screen@, x, y)
                                == if y == sy && strip.x_offset <= x < strip.x_offset + j && clip.spec_contains(x, y) {
                                strip.cells@[x - strip.x_offset]
                            } else {
                                painted(strips@, i as int, clip, cell_at(g0, x, y), x, y)
                            },
                    decreases strip.cells@.len() - j,
                {
                    let x: i64 = strip.x_offset as i64 + j as i64;
                    let ghost before = self.screen@;
                    if x >= clip.x as i64 && x < clip.x as i64 + clip.width as i64 {
                        let col = x as usize;
                        let c = strip.cells[j].dup();
                        self.screen[row].set(col, c);
                        proof {
                            assert forall|y: int, xx: int|
                                0 <= y < self.height && 0 <= xx < self.width implies #[trigger] cell_at(self.screen@, xx, y)
                                    == if y == sy && strip.x_offset <= xx < strip.x_offset + j + 1 && clip.spec_contains(xx, y) {
                                    strip.cells@[xx - strip.x_offset]
                                } else {
                                    painted(strips@, i as int, clip, cell_at(g0, xx, y), xx, y)
                                } by {
                                if y == row && xx == col {
                                    assert(cell_at(self.screen@, xx, y) == c);
                                    assert(c == strip.cells@[j as int]);
                                    assert(clip.spec_contains(xx, y));
                                } else if y == row {
                                    assert(self.screen@[y]@ == before[y]@.update(col as int, c));
                                    assert(cell_at(self.screen@, xx, y) == cell_at(before, xx, y));
                                } else {
                                    assert(cell_at(self.screen@, xx, y) == cell_at(before, xx, y));
                                }
                            }
                        }
                    } else {
                        proof {
                            assert forall|y: int, xx: int|
                                0 <= y < self.height && 0 <= xx < self.width implies #[trigger] cell_at(self.screen@, xx, y)
                                    == if y == sy && strip.x_offset <= xx < strip.x_offset + j + 1 && clip.spec_contains(xx, y) {
                                    strip.cells@[xx - strip.x_offset]
                                } else {
                                    painted(strips@, i as int, clip, cell_at(g0, xx, y), xx, y)
                                } by {
                                assert(cell_at(self.screen@, xx, y) == cell_at(before, xx, y));
                            }
                        }
                    }
                    j = j + 1;
                }
                proof {
                    assert forall|y: int, x: int|
                        0 <= y < self.height && 0 <= x < self.width implies #[trigger] cell_at(self.screen@, x, y)
                            == painted(strips@, i + 1, clip, cell_at(g0, x, y), x, y) by {
                        assert(cell_at(self.screen@, x, y) == cell_at(self.screen@, x, y));
                    }
                }
            } else {
                proof {
                    assert forall|y: int, x: int|
                        0 <= y < self.height && 0 <= x < self.width implies #[trigger] cell_at(self.screen@, x, y)
                            == painted(strips@, i + 1, clip, cell_at(g0, x, y), x, y) by {
                        assert(cell_at(self.screen@, x, y) == cell_at(self.screen@, x, y));
                    }
                }
            }
            i = i + 1;
        }
    }
}

/// Whether the cell at `(x, y)` of `cur` must be redrawn over `prev`: it
/// differs from `prev`'s, or `prev` has no cell there.
pub open spec fn needs_redraw(cur: Compositor, prev: Compositor, x: int, y: int) -> bool {
    &&& 0 <= y < cur.height
    &&& 0 <= x < cur.width
    &&& (y >= prev.height || x >= prev.width || !same_cell(
        cell_at(cur.screen@, x, y),
        cell_at(prev.screen@, x, y),
    ))
}

impl Compositor {
    /// The cells to redraw to turn `previous` into `self`: in the common
    /// area those that differ, then every cell outside `previous`.
    pub fn diff(&self, previous: &Compositor) -> (r: Vec<CellUpdate>)
        requires
            self.wf(),
            previous.wf(),
        ensures
            forall|k: int|
                0 <= k < r@.len() ==> needs_redraw(*self, *previous, (#[trigger] r@[k]).x as int, r@[k].y as int)
                    && r@[k].cell == cell_at(self.screen@, r@[k].x as int, r@[k].y as int),
            forall|y: int, x: int|
                #![trigger needs_redraw(*self, *previous, x, y)]
                needs_redraw(*self, *previous, x, y) ==> exists|k: int|
                    0 <= k < r@.len() && r@[k].x == x && r@[k].y == y,
    {
        let mut updates: Vec<CellUpdate> = Vec::new();
        let h: u16 = if self.height < previous.height { self.height } else { previous.height };
        let w: u16 = if self.width < previous.width { self.width } else { previous.width };
        let mut y: u16 = 0;
        while y < h
            invariant
                h <= self.height && h <= previous.height,
                w <= self.width && w <= previous.width,
                h == self.height || h == previous.height,
                w == self.width || w == previous.width,
                y <= h,
                self.wf(),
                previous.wf(),
                forall|k: int|
                    0 <= k < updates@.len() ==> needs_redraw(*self, *previous, (#[trigger] updates@[k]).x as int, updates@[k].y as int)
                        && updates@[k].cell == cell_at(self.screen@, updates@[k].x as int, updates@[k].y as int),
                forall|yy: int, x: int|
                    #![trigger needs_redraw(*self, *previous, x, yy)]
                    0 <= yy < y && x < w && needs_redraw(*self, *previous, x, yy) ==> exists|k: int|
                        0 <= k < updates@.len() && updates@[k].x == x && updates@[k].y == yy,
            decreases h - y,
        {
            let mut x: u16 = 0;
            while x < w
                invariant
                    h <= self.height && h <= previous.height,
                    w <= self.width && w <= previous.width,
                    y < h,
                    x <= w,
                    self.wf(),
                    previous.wf(),
                    forall|k: int|
                        0 <= k < updates@.len() ==> needs_redraw(*self, *previous, (#[trigger] updates@[k]).x as int, updates@[k].y as int)
                            && updates@[k].cell == cell_at(self.screen@, updates@[k].x as int, updates@[k].y as int),
                    forall|yy: int, xx: int|
                        #![trigger needs_redraw(*self, *previous, xx, yy)]
                        ((0 <= yy < y && xx < w) || (yy == y && 0 <= xx < x)) && needs_redraw(*self, *previous, xx, yy) ==> exists|k: int|
                            0 <= k < updates@.len() && updates@[k].x == xx && updates@[k].y == yy,
                decreases w - x,
            {
                let a = &self.screen[y as usize][x as usize];
                let b = &previous.screen[y as usize][x as usize];
                if !a.same_as(b) {
                    let ghost before = updates@;
                    updates.push(CellUpdate { x, y, cell: a.dup() });
                    proof {
                        assert forall|k: int| 0 <= k < updates@.len() implies needs_redraw(*self, *previous, (#[trigger] updates@[k]).x as int, updates@[k].y as int)
                            && updates@[k].cell == cell_at(self.screen@, updates@[k].x as int, updates@[k].y as int) by {
                            if k < before.len() {
                                assert(updates@[k] == before[k]);
                            }
                        }
                        assert forall|yy: int, xx: int|
                            #![trigger needs_redraw(*self, *previous, xx, yy)]
                            ((0 <= yy < y && xx < w) || (yy == y && 0 <= xx < x + 1)) && needs_redraw(*self, *previous, xx, yy) implies exists|k: int|
                                0 <= k < updates@.len() && updates@[k].x == xx && updates@[k].y == yy by {
                            if yy == y && xx == x {
                                assert(updates@[before.len() as int].x == xx);
                            } else {
                                let k = choose|k: int| 0 <= k < before.len() && before[k].x == xx && before[k].y == yy;
                                assert(updates@[k] == before[k]);
                            }
                        }
                    }
                }
                x = x + 1;
            }
            y = y + 1;
        }
        if self.height > previous.height || self.width > previous.width {
            let mut y: u16 = 0;
            while y < self.height
                invariant
                    h <= self.height && h <= previous.height,
                    w <= self.width && w <= previous.width,
                    h == self.height || h == previous.height,
                    w == self.width || w == previous.width,
                    y <= self.height,
                    self.wf(),
                    previous.wf(),
                    forall|k: int|
                        0 <= k < updates@.len() ==> needs_redraw(*self, *previous, (#[trigger] updates@[k]).x as int, updates@[k].y as int)
                            && updates@[k].cell == cell_at(self.screen@, updates@[k].x as int, updates@[k].y as int),
                    forall|yy: int, x: int|
                        #![trigger needs_redraw(*self, *previous, x, yy)]
                        ((0 <= yy < h && 0 <= x < w) || (0 <= yy < y)) && needs_redraw(*self, *previous, x, yy) ==> exists|k: int|
                            0 <= k < updates@.len() && updates@[k].x == x && updates@[k].y == yy,
                decreases self.height - y,
            {
                let mut x: u16 = 0;
                while x < self.width
                    invariant
                        h <= self.height && h <= previous.height,
                        w <= self.width && w <= previous.width,
                        h == self.height || h == previous.height,
                        w == self.width || w == previous.width,
                        y < self.height,
                        x <= self.width,
                        self.wf(),
                        previous.wf(),
                        forall|k: int|
                            0 <= k < updates@.len() ==> needs_redraw(*self, *previous, (#[trigger] updates@[k]).x as int, updates@[k].y as int)
                                && updates@[k].cell == cell_at(self.screen@, updates@[k].x as int, updates@[k].y as int),
                        forall|yy: int, xx: int|
                            #![trigger needs_redraw(*self, *previous, xx, yy)]
                            ((0 <= yy < h && 0 <= xx < w) || (0 <= yy < y) || (yy == y && 0 <= xx < x)) && needs_redraw(*self, *previous, xx, yy) ==> exists|k: int|
                                0 <= k < updates@.len() && updates@[k].x == xx && updates@[k].y == yy,
                    decreases self.width - x,
                {
                    if y >= previous.height || x >= previous.width {
                        let ghost before = updates@;
                        let c = self.screen[y as usize][x as usize].dup();
                        updates.push(CellUpdate { x, y, cell: c });
                        proof {
                            assert forall|k: int| 0 <= k < updates@.len() implies needs_redraw(*self, *previous, (#[trigger] updates@[k]).x as int, updates@[k].y as int)
                                && updates@[k].cell == cell_at(self.screen@, updates@[k].x as int, updates@[k].y as int) by {
                                if k < before.len() {
                                    assert(updates@[k] == before[k]);
                                }
                            }
                            assert forall|yy: int, xx: int|
                                #![trigger needs_redraw(*self, *previous, xx, yy)]
                                ((0 <= yy < h && 0 <= xx < w) || (0 <= yy < y) || (yy == y && 0 <= xx < x + 1)) && needs_redraw(*self, *previous, xx, yy) implies exists|k: int|
                                    0 <= k < updates@.len() && updates@[k].x == xx && updates@[k].y == yy by {
                                if yy == y && xx == x {
                                    assert(updates@[before.len() as int].x == xx);
                                } else {
                                    let k = choose|k: int| 0 <= k < before.len() && before[k].x == xx && before[k].y == yy;
                                    assert(updates@[k] == before[k]);
                                }
                            }
                        }
                    }
                    x = x + 1;
                }
                y = y + 1;
            }
        }
        updates
    }
}

impl StyledCell {
    pub open spec fn blank_styled_spec(style: CellStyle) -> StyledCell {
        StyledCell { ch: ' ', style }
    }
}

} // verus!
