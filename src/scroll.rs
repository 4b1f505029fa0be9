//! Scroll position of a viewport over larger content.
use vstd::prelude::*;
use crate::geometry::{clamp_int, max_int, Offset, Region, Size};

verus! {

/// A viewport's offset into its content; the offset stays within
/// `[0, max_scroll]` on each axis.
#[derive(Clone, Copy, Debug, PartialEq, Eq, Structural)]
pub struct ScrollState {
    pub offset: Offset,
    pub content_size: Size,
    pub viewport_size: Size,
}

impl ScrollState {
    pub open spec fn spec_max_x(&self) -> int {
        max_int(self.content_size.width - self.viewport_size.width, 0)
    }

    pub open spec fn spec_max_y(&self) -> int {
        max_int(self.content_size.height - self.viewport_size.height, 0)
    }

    /// The sizes' differences fit in `i32`.
    pub open spec fn sizes_fit(&self) -> bool {
        i32::MIN <= self.content_size.width - self.viewport_size.width <= i32::MAX
            && i32::MIN <= self.content_size.height - self.viewport_size.height <= i32::MAX
    }

    pub fn new(content_size: Size, viewport_size: Size) -> (r: ScrollState)
        ensures
            r == (ScrollState { offset: Offset { x: 0, y: 0 }, content_size, viewport_size }),
    {
        ScrollState { offset: Offset::new(0, 0), content_size, viewport_size }
    }

    /// How far the content can scroll: content minus viewport, at least 0.
    pub fn max_scroll(&self) -> (r: Offset)
        requires
            self.sizes_fit(),
        ensures
            r.x == self.spec_max_x(),
            r.y == self.spec_max_y(),
    {
        let dx = self.content_size.width - self.viewport_size.width;
        let dy = self.content_size.height - self.viewport_size.height;
        Offset::new(if dx > 0 { dx } else { 0 }, if dy > 0 { dy } else { 0 })
    }

    /// Scroll to `(x, y)`, clamped into the scrollable range.
    pub fn scroll_to(&mut self, x: i32, y: i32)
        requires
            old(self).sizes_fit(),
        ensures
            final(self).content_size == old(self).content_size,
            final(self).viewport_size == old(self).viewport_size,
            final(self).offset.x == clamp_int(x as int, 0, old(self).spec_max_x()),
            final(self).offset.y == clamp_int(y as int, 0, old(self).spec_max_y()),
    {
        let max = self.max_scroll();
        let cx = if x < 0 { 0 } else if x > max.x { max.x } else { x };
        let cy = if y < 0 { 0 } else if y > max.y { max.y } else { y };
        self.offset = Offset::new(cx, cy);
    }

    /// Scroll by `(dx, dy)`, clamped into the scrollable range.
    pub fn scroll_by(&mut self, dx: i32, dy: i32)
        requires
            old(self).sizes_fit(),
            i32::MIN <= old(self).offset.x + dx <= i32::MAX,
            i32::MIN <= old(self).offset.y + dy <= i32::MAX,
        ensures
            final(self).content_size == old(self).content_size,
            final(self).viewport_size == old(self).viewport_size,
            final(self).offset.x == clamp_int(old(self).offset.x + dx, 0, old(self).spec_max_x()),
            final(self).offset.y == clamp_int(old(self).offset.y + dy, 0, old(self).spec_max_y()),
    {
        let x = self.offset.x + dx;
        let y = self.offset.y + dy;
        self.scroll_to(x, y);
    }

    pub fn is_scrollable_x(&self) -> (r: bool)
        ensures
            r == (self.content_size.width > self.viewport_size.width),
    {
        self.content_size.width > self.viewport_size.width
    }

    pub fn is_scrollable_y(&self) -> (r: bool)
        ensures
            r == (self.content_size.height > self.viewport_size.height),
    {
        self.content_size.height > self.viewport_size.height
    }

    /// The part of the content in view.
    pub fn visible_region(&self) -> (r: Region)
        ensures
            r == (Region {
                x: self.offset.x,
                y: self.offset.y,
                width: self.viewport_size.width,
                height: self.viewport_size.height,
            }),
    {
        Region::new(self.offset.x, self.offset.y, self.viewport_size.width, self.viewport_size.height)
    }

    /// Change the content size and clamp the offset to the new range.
    pub fn set_content_size(&mut self, size: Size)
        requires
            i32::MIN <= size.width - old(self).viewport_size.width <= i32::MAX,
            i32::MIN <= size.height - old(self).viewport_size.height <= i32::MAX,
        ensures
            final(self).content_size == size,
            final(self).viewport_size == old(self).viewport_size,
            final(self).offset.x == clamp_int(old(self).offset.x as int, 0, final(self).spec_max_x()),
            final(self).offset.y == clamp_int(old(self).offset.y as int, 0, final(self).spec_max_y()),
    {
        self.content_size = size;
        let x = self.offset.x;
        let y = self.offset.y;
        self.scroll_to(x, y);
    }

    /// Change the viewport size and clamp the offset to the new range.
    pub fn set_viewport_size(&mut self, size: Size)
        requires
            i32::MIN <= old(self).content_size.width - size.width <= i32::MAX,
            i32::MIN <= old(self).content_size.height - size.height <= i32::MAX,
        ensures
            final(self).viewport_size == size,
            final(self).content_size == old(self).content_size,
            final(self).offset.x == clamp_int(old(self).offset.x as int, 0, final(self).spec_max_x()),
            final(self).offset.y == clamp_int(old(self).offset.y as int, 0, final(self).spec_max_y()),
    {
        self.viewport_size = size;
        let x = self.offset.x;
        let y = self.offset.y;
        self.scroll_to(x, y);
    }
}

impl Default for ScrollState {
    /// No content, no viewport, no offset.
    fn default() -> (r: ScrollState)
        ensures
            r == (ScrollState {
                offset: Offset { x: 0, y: 0 },
                content_size: Size { width: 0, height: 0 },
                viewport_size: Size { width: 0, height: 0 },
            }),
    {
        ScrollState::new(Size::new(0, 0), Size::new(0, 0))
    }
}

} // verus!
