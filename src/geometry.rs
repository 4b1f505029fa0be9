//! Integer geometry on the terminal grid: offsets, sizes, regions, spacing.
use vstd::prelude::*;

verus! {

/// A point or displacement on the cell grid.
#[derive(Clone, Copy, Debug, Default, PartialEq, Eq, Hash, Structural)]
pub struct Offset {
    pub x: i32,
    pub y: i32,
}

pub open spec fn abs_int(v: int) -> int {
    if v < 0 { -v } else { v }
}

pub open spec fn min_int(a: int, b: int) -> int {
    if a < b { a } else { b }
}

pub open spec fn max_int(a: int, b: int) -> int {
    if a > b { a } else { b }
}

/// `v` clamped into `[lo, hi]`, where `lo <= hi`.
pub open spec fn clamp_int(v: int, lo: int, hi: int) -> int {
    if v < lo { lo } else if v > hi { hi } else { v }
}

impl Offset {
    pub fn new(x: i32, y: i32) -> (r: Offset)
        ensures
            r.x == x,
            r.y == y,
    {
        Offset { x, y }
    }

    pub open spec fn spec_manhattan(self, other: Offset) -> int {
        abs_int(self.x - other.x) + abs_int(self.y - other.y)
    }

    /// Sum of the absolute coordinate differences.
    pub fn manhattan_distance(self, other: Offset) -> (r: i32)
        requires
            self.spec_manhattan(other) <= i32::MAX,
        ensures
            r == self.spec_manhattan(other),
    {
        let dx: i64 = self.x as i64 - other.x as i64;
        let dy: i64 = self.y as i64 - other.y as i64;
        let ax: i64 = if dx < 0 { -dx } else { dx };
        let ay: i64 = if dy < 0 { -dy } else { dy };
        (ax + ay) as i32
    }
}

/// A width and a height in cells.
#[derive(Clone, Copy, Debug, Default, PartialEq, Eq, Hash, Structural)]
pub struct Size {
    pub width: i32,
    pub height: i32,
}

impl Size {
    pub fn new(width: i32, height: i32) -> (r: Size)
        ensures
            r.width == width,
            r.height == height,
    {
        Size { width, height }
    }

    pub fn area(self) -> (r: i32)
        requires
            i32::MIN <= self.width * self.height <= i32::MAX,
        ensures
            r == self.width * self.height,
    {
        self.width * self.height
    }

    /// Whether `(x, y)` lies in `[0, width) x [0, height)`.
    pub fn contains(self, x: i32, y: i32) -> (r: bool)
        ensures
            r == (0 <= x < self.width && 0 <= y < self.height),
    {
        x >= 0 && x < self.width && y >= 0 && y < self.height
    }

    pub fn to_region(self) -> (r: Region)
        ensures
            r == (Region { x: 0, y: 0, width: self.width, height: self.height }),
    {
        Region { x: 0, y: 0, width: self.width, height: self.height }
    }
}

/// A rectangle: top-left corner plus size.
#[derive(Clone, Copy, Debug, Default, PartialEq, Eq, Hash, Structural)]
pub struct Region {
    pub x: i32,
    pub y: i32,
    pub width: i32,
    pub height: i32,
}

/// Four edge widths, as used for margins and padding.
#[derive(Clone, Copy, Debug, Default, PartialEq, Eq, Hash, Structural)]
pub struct Spacing {
    pub top: i32,
    pub right: i32,
    pub bottom: i32,
    pub left: i32,
}

impl Region {
    pub open spec fn spec_right(self) -> int {
        self.x + self.width
    }

    pub open spec fn spec_bottom(self) -> int {
        self.y + self.height
    }

    /// Whether this region's edges stay in `i32`.
    pub open spec fn edges_fit(self) -> bool {
        i32::MIN <= self.spec_right() <= i32::MAX && i32::MIN <= self.spec_bottom() <= i32::MAX
    }

    pub open spec fn spec_contains(self, x: int, y: int) -> bool {
        self.x <= x < self.spec_right() && self.y <= y < self.spec_bottom()
    }

    pub open spec fn spec_overlaps(self, other: Region) -> bool {
        self.x < other.spec_right() && other.x < self.spec_right() && self.y < other.spec_bottom()
            && other.y < self.spec_bottom()
    }

    pub fn new(x: i32, y: i32, width: i32, height: i32) -> (r: Region)
        ensures
            r == (Region { x, y, width, height }),
    {
        Region { x, y, width, height }
    }

    pub fn right(self) -> (r: i32)
        requires
            i32::MIN <= self.spec_right() <= i32::MAX,
        ensures
            r == self.spec_right(),
    {
        self.x + self.width
    }

    pub fn bottom(self) -> (r: i32)
        requires
            i32::MIN <= self.spec_bottom() <= i32::MAX,
        ensures
            r == self.spec_bottom(),
    {
        self.y + self.height
    }

    pub fn offset(self) -> (r: Offset)
        ensures
            r.x == self.x,
            r.y == self.y,
    {
        Offset { x: self.x, y: self.y }
    }

    pub fn size(self) -> (r: Size)
        ensures
            r.width == self.width,
            r.height == self.height,
    {
        Size { width: self.width, height: self.height }
    }

    /// Whether the cell `(x, y)` lies inside the region (right and bottom exclusive).
    pub fn contains(self, x: i32, y: i32) -> (r: bool)
        ensures
            r == self.spec_contains(x as int, y as int),
    {
        let right: i64 = self.x as i64 + self.width as i64;
        let bottom: i64 = self.y as i64 + self.height as i64;
        x >= self.x && (x as i64) < right && y >= self.y && (y as i64) < bottom
    }

    /// Whether `other` lies entirely inside this region.
    pub fn contains_region(self, other: Region) -> (r: bool)
        ensures
            r == (other.x >= self.x && other.y >= self.y && other.spec_right() <= self.spec_right()
                && other.spec_bottom() <= self.spec_bottom()),
    {
        other.x >= self.x && other.y >= self.y
            && (other.x as i64 + other.width as i64) <= (self.x as i64 + self.width as i64)
            && (other.y as i64 + other.height as i64) <= (self.y as i64 + self.height as i64)
    }

    /// Whether the two regions share at least one cell.
    pub fn overlaps(self, other: Region) -> (r: bool)
        ensures
            r == self.spec_overlaps(other),
    {
        (self.x as i64) < other.x as i64 + other.width as i64
            && (other.x as i64) < self.x as i64 + self.width as i64
            && (self.y as i64) < other.y as i64 + other.height as i64
            && (other.y as i64) < self.y as i64 + self.height as i64
    }

    /// The common part of two regions; the empty region at the origin when
    /// they share no cell.
    pub fn intersection(self, other: Region) -> (r: Region)
        requires
            self.edges_fit(),
            other.edges_fit(),
        ensures
            ({
                let x1 = max_int(self.x as int, other.x as int);
                let y1 = max_int(self.y as int, other.y as int);
                let x2 = min_int(self.spec_right(), other.spec_right());
                let y2 = min_int(self.spec_bottom(), other.spec_bottom());
                if x2 - x1 <= 0 || y2 - y1 <= 0 {
                    r == Region { x: 0, y: 0, width: 0, height: 0 }
                } else {
                    r.x == x1 && r.y == y1 && r.width == x2 - x1 && r.height == y2 - y1
                }
            }),
    {
        let x1 = if self.x > other.x { self.x } else { other.x };
        let y1 = if self.y > other.y { self.y } else { other.y };
        let sr = self.x + self.width;
        let or = other.x + other.width;
        let x2 = if sr < or { sr } else { or };
        let sb = self.y + self.height;
        let ob = other.y + other.height;
        let y2 = if sb < ob { sb } else { ob };
        let w: i64 = x2 as i64 - x1 as i64;
        let h: i64 = y2 as i64 - y1 as i64;
        if w <= 0 || h <= 0 {
            Region { x: 0, y: 0, width: 0, height: 0 }
        } else {
            Region { x: x1, y: y1, width: (x2 - x1) as i32, height: (y2 - y1) as i32 }
        }
    }

    /// The smallest region covering both.
    pub fn union(self, other: Region) -> (r: Region)
        requires
            self.edges_fit(),
            other.edges_fit(),
            i32::MIN <= max_int(self.spec_right(), other.spec_right()) - min_int(
                self.x as int,
                other.x as int,
            ) <= i32::MAX,
            i32::MIN <= max_int(self.spec_bottom(), other.spec_bottom()) - min_int(
                self.y as int,
                other.y as int,
            ) <= i32::MAX,
        ensures
            r.x == min_int(self.x as int, other.x as int),
            r.y == min_int(self.y as int, other.y as int),
            r.spec_right() == max_int(self.spec_right(), other.spec_right()),
            r.spec_bottom() == max_int(self.spec_bottom(), other.spec_bottom()),
    {
        let x1 = if self.x < other.x { self.x } else { other.x };
        let y1 = if self.y < other.y { self.y } else { other.y };
        let sr = self.x + self.width;
        let or = other.x + other.width;
        let x2 = if sr > or { sr } else { or };
        let sb = self.y + self.height;
        let ob = other.y + other.height;
        let y2 = if sb > ob { sb } else { ob };
        Region { x: x1, y: y1, width: x2 - x1, height: y2 - y1 }
    }

    /// The region moved by `offset`, same size.
    pub fn translate(self, offset: Offset) -> (r: Region)
        requires
            i32::MIN <= self.x + offset.x <= i32::MAX,
            i32::MIN <= self.y + offset.y <= i32::MAX,
        ensures
            r == (Region {
                x: (self.x + offset.x) as i32,
                y: (self.y + offset.y) as i32,
                width: self.width,
                height: self.height,
            }),
    {
        Region { x: self.x + offset.x, y: self.y + offset.y, width: self.width, height: self.height }
    }

    /// The region enlarged outward by `margin` on each side.
    pub fn grow(self, margin: Spacing) -> (r: Region)
        requires
            i32::MIN <= self.x - margin.left <= i32::MAX,
            i32::MIN <= self.y - margin.top <= i32::MAX,
            i32::MIN <= self.width + margin.left + margin.right <= i32::MAX,
            i32::MIN <= self.height + margin.top + margin.bottom <= i32::MAX,
            i32::MIN <= self.width + margin.left <= i32::MAX,
            i32::MIN <= self.height + margin.top <= i32::MAX,
        ensures
            r.x == self.x - margin.left,
            r.y == self.y - margin.top,
            r.width == self.width + margin.left + margin.right,
            r.height == self.height + margin.top + margin.bottom,
    {
        Region {
            x: self.x - margin.left,
            y: self.y - margin.top,
            width: self.width + margin.left + margin.right,
            height: self.height + margin.top + margin.bottom,
        }
    }

    /// The region reduced inward by `margin`; a negative size becomes zero.
    pub fn shrink(self, margin: Spacing) -> (r: Region)
        requires
            i32::MIN <= self.x + margin.left <= i32::MAX,
            i32::MIN <= self.y + margin.top <= i32::MAX,
            i32::MIN <= self.width - margin.left - margin.right <= i32::MAX,
            i32::MIN <= self.height - margin.top - margin.bottom <= i32::MAX,
        ensures
            r.x == self.x + margin.left,
            r.y == self.y + margin.top,
            r.width == max_int(self.width - margin.left - margin.right, 0),
            r.height == max_int(self.height - margin.top - margin.bottom, 0),
    {
        let w: i64 = self.width as i64 - margin.left as i64 - margin.right as i64;
        let h: i64 = self.height as i64 - margin.top as i64 - margin.bottom as i64;
        Region {
            x: self.x + margin.left,
            y: self.y + margin.top,
            width: if w > 0 { w as i32 } else { 0 },
            height: if h > 0 { h as i32 } else { 0 },
        }
    }

    /// Cut the region at column `offset` (clamped into `[0, width]`) into a
    /// left and a right part.
    pub fn split_vertical(self, offset: i32) -> (r: (Region, Region))
        requires
            self.width >= 0,
            i32::MIN <= self.spec_right() <= i32::MAX,
        ensures
            ({
                let c = clamp_int(offset as int, 0, self.width as int);
                r.0 == Region { x: self.x, y: self.y, width: c as i32, height: self.height }
                    && r.1 == Region {
                    x: (self.x + c) as i32,
                    y: self.y,
                    width: (self.width - c) as i32,
                    height: self.height,
                }
            }),
    {
        let clamped = if offset < 0 {
            0
        } else if offset > self.width {
            self.width
        } else {
            offset
        };
        let left = Region { x: self.x, y: self.y, width: clamped, height: self.height };
        let right = Region {
            x: self.x + clamped,
            y: self.y,
            width: self.width - clamped,
            height: self.height,
        };
        (left, right)
    }

    /// Cut the region at row `offset` (clamped into `[0, height]`) into a top
    /// and a bottom part.
    pub fn split_horizontal(self, offset: i32) -> (r: (Region, Region))
        requires
            self.height >= 0,
            i32::MIN <= self.spec_bottom() <= i32::MAX,
        ensures
            ({
                let c = clamp_int(offset as int, 0, self.height as int);
                r.0 == Region { x: self.x, y: self.y, width: self.width, height: c as i32 }
                    && r.1 == Region {
                    x: self.x,
                    y: (self.y + c) as i32,
                    width: self.width,
                    height: (self.height - c) as i32,
                }
            }),
    {
        let clamped = if offset < 0 {
            0
        } else if offset > self.height {
            self.height
        } else {
            offset
        };
        let top = Region { x: self.x, y: self.y, width: self.width, height: clamped };
        let bottom = Region {
            x: self.x,
            y: self.y + clamped,
            width: self.width,
            height: self.height - clamped,
        };
        (top, bottom)
    }

    /// The region with its size limited to `size` on each axis.
    pub fn crop_size(self, size: Size) -> (r: Region)
        ensures
            r.x == self.x,
            r.y == self.y,
            r.width == min_int(self.width as int, size.width as int),
            r.height == min_int(self.height as int, size.height as int),
    {
        Region {
            x: self.x,
            y: self.y,
            width: if self.width < size.width { self.width } else { size.width },
            height: if self.height < size.height { self.height } else { size.height },
        }
    }
}

impl Spacing {
    pub fn new(top: i32, right: i32, bottom: i32, left: i32) -> (r: Spacing)
        ensures
            r == (Spacing { top, right, bottom, left }),
    {
        Spacing { top, right, bottom, left }
    }

    pub fn all(value: i32) -> (r: Spacing)
        ensures
            r == (Spacing { top: value, right: value, bottom: value, left: value }),
    {
        Spacing { top: value, right: value, bottom: value, left: value }
    }

    pub fn symmetric(vertical: i32, horizontal: i32) -> (r: Spacing)
        ensures
            r == (Spacing { top: vertical, right: horizontal, bottom: vertical, left: horizontal }),
    {
        Spacing { top: vertical, right: horizontal, bottom: vertical, left: horizontal }
    }

    pub fn vertical(top: i32, bottom: i32) -> (r: Spacing)
        ensures
            r == (Spacing { top, right: 0, bottom, left: 0 }),
    {
        Spacing { top, right: 0, bottom, left: 0 }
    }

    pub fn horizontal(left: i32, right: i32) -> (r: Spacing)
        ensures
            r == (Spacing { top: 0, right, bottom: 0, left }),
    {
        Spacing { top: 0, right, bottom: 0, left }
    }

    /// Total horizontal spacing, left plus right.
    pub fn width(self) -> (r: i32)
        requires
            i32::MIN <= self.left + self.right <= i32::MAX,
        ensures
            r == self.left + self.right,
    {
        self.left + self.right
    }

    /// Total vertical spacing, top plus bottom.
    pub fn height(self) -> (r: i32)
        requires
            i32::MIN <= self.top + self.bottom <= i32::MAX,
        ensures
            r == self.top + self.bottom,
    {
        self.top + self.bottom
    }

    /// The side-wise maximum of two spacings.
    pub fn grow_maximum(self, other: Spacing) -> (r: Spacing)
        ensures
            r.top == max_int(self.top as int, other.top as int),
            r.right == max_int(self.right as int, other.right as int),
            r.bottom == max_int(self.bottom as int, other.bottom as int),
            r.left == max_int(self.left as int, other.left as int),
    {
        Spacing {
            top: if self.top > other.top { self.top } else { other.top },
            right: if self.right > other.right { self.right } else { other.right },
            bottom: if self.bottom > other.bottom { self.bottom } else { other.bottom },
            left: if self.left > other.left { self.left } else { other.left },
        }
    }
}

impl core::ops::Add<Offset> for Offset {
    type Output = Offset;

    fn add(self, rhs: Offset) -> (r: Offset) {
        Offset { x: self.x + rhs.x, y: self.y + rhs.y }
    }
}

impl vstd::std_specs::ops::AddSpecImpl<Offset> for Offset {
    open spec fn obeys_add_spec() -> bool {
        true
    }

    open spec fn add_req(self, rhs: Offset) -> bool {
        i32::MIN <= self.x + rhs.x <= i32::MAX && i32::MIN <= self.y + rhs.y <= i32::MAX
    }

    open spec fn add_spec(self, rhs: Offset) -> Offset {
        Offset { x: (self.x + rhs.x) as i32, y: (self.y + rhs.y) as i32 }
    }
}

impl core::ops::Sub<Offset> for Offset {
    type Output = Offset;

    fn sub(self, rhs: Offset) -> (r: Offset) {
        Offset { x: self.x - rhs.x, y: self.y - rhs.y }
    }
}

impl vstd::std_specs::ops::SubSpecImpl<Offset> for Offset {
    open spec fn obeys_sub_spec() -> bool {
        true
    }

    open spec fn sub_req(self, rhs: Offset) -> bool {
        i32::MIN <= self.x - rhs.x <= i32::MAX && i32::MIN <= self.y - rhs.y <= i32::MAX
    }

    open spec fn sub_spec(self, rhs: Offset) -> Offset {
        Offset { x: (self.x - rhs.x) as i32, y: (self.y - rhs.y) as i32 }
    }
}

impl core::ops::Mul<i32> for Offset {
    type Output = Offset;

    fn mul(self, rhs: i32) -> (r: Offset) {
        Offset { x: self.x * rhs, y: self.y * rhs }
    }
}

impl vstd::std_specs::ops::MulSpecImpl<i32> for Offset {
    open spec fn obeys_mul_spec() -> bool {
        true
    }

    open spec fn mul_req(self, rhs: i32) -> bool {
        i32::MIN <= self.x * rhs <= i32::MAX && i32::MIN <= self.y * rhs <= i32::MAX
    }

    open spec fn mul_spec(self, rhs: i32) -> Offset {
        Offset { x: (self.x * rhs) as i32, y: (self.y * rhs) as i32 }
    }
}

impl core::ops::Add<Size> for Size {
    type Output = Size;

    fn add(self, rhs: Size) -> (r: Size) {
        Size { width: self.width + rhs.width, height: self.height + rhs.height }
    }
}

impl vstd::std_specs::ops::AddSpecImpl<Size> for Size {
    open spec fn obeys_add_spec() -> bool {
        true
    }

    open spec fn add_req(self, rhs: Size) -> bool {
        i32::MIN <= self.width + rhs.width <= i32::MAX && i32::MIN <= self.height + rhs.height <= i32::MAX
    }

    open spec fn add_spec(self, rhs: Size) -> Size {
        Size { width: (self.width + rhs.width) as i32, height: (self.height + rhs.height) as i32 }
    }
}

impl core::ops::Sub<Size> for Size {
    type Output = Size;

    fn sub(self, rhs: Size) -> (r: Size) {
        Size { width: self.width - rhs.width, height: self.height - rhs.height }
    }
}

impl vstd::std_specs::ops::SubSpecImpl<Size> for Size {
    open spec fn obeys_sub_spec() -> bool {
        true
    }

    open spec fn sub_req(self, rhs: Size) -> bool {
        i32::MIN <= self.width - rhs.width <= i32::MAX && i32::MIN <= self.height - rhs.height <= i32::MAX
    }

    open spec fn sub_spec(self, rhs: Size) -> Size {
        Size { width: (self.width - rhs.width) as i32, height: (self.height - rhs.height) as i32 }
    }
}

impl core::ops::Add<Spacing> for Spacing {
    type Output = Spacing;

    fn add(self, rhs: Spacing) -> (r: Spacing) {
        Spacing { top: self.top + rhs.top, right: self.right + rhs.right, bottom: self.bottom + rhs.bottom, left: self.left + rhs.left }
    }
}

impl vstd::std_specs::ops::AddSpecImpl<Spacing> for Spacing {
    open spec fn obeys_add_spec() -> bool {
        true
    }

    open spec fn add_req(self, rhs: Spacing) -> bool {
        i32::MIN <= self.top + rhs.top <= i32::MAX && i32::MIN <= self.right + rhs.right <= i32::MAX && i32::MIN <= self.bottom + rhs.bottom <= i32::MAX && i32::MIN <= self.left + rhs.left <= i32::MAX
    }

    open spec fn add_spec(self, rhs: Spacing) -> Spacing {
        Spacing { top: (self.top + rhs.top) as i32, right: (self.right + rhs.right) as i32, bottom: (self.bottom + rhs.bottom) as i32, left: (self.left + rhs.left) as i32 }
    }
}

impl core::ops::Neg for Offset {
    type Output = Offset;

    fn neg(self) -> (r: Offset) {
        Offset { x: -self.x, y: -self.y }
    }
}

impl vstd::std_specs::ops::NegSpecImpl for Offset {
    open spec fn obeys_neg_spec() -> bool {
        true
    }

    open spec fn neg_req(self) -> bool {
        self.x != i32::MIN && self.y != i32::MIN
    }

    open spec fn neg_spec(self) -> Offset {
        Offset { x: (-self.x) as i32, y: (-self.y) as i32 }
    }
}

} // verus!
