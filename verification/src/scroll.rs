//! Scroll state for scrollable content areas: offsets into content that is
//! larger than the visible viewport.

use vstd::prelude::*;

verus! {

/// Scroll state for a scrollable area.
#[derive(Debug, Clone, Copy, PartialEq, Eq, Structural)]
pub struct ScrollState {
    /// Current vertical scroll offset (in rows)
    pub offset_y: usize,
    /// Current horizontal scroll offset (in columns)
    pub offset_x: usize,
    /// Total content height (in rows)
    pub content_height: usize,
    /// Total content width (in columns)
    pub content_width: usize,
    /// Viewport height (visible rows)
    pub viewport_height: usize,
    /// Viewport width (visible columns)
    pub viewport_width: usize,
}

/// `a - b`, or 0 when `b` exceeds `a`.
pub open spec fn sat_sub(a: int, b: int) -> int {
    if a > b {
        a - b
    } else {
        0
    }
}

/// The smaller of two integers.
pub open spec fn min_int(a: int, b: int) -> int {
    if a <= b {
        a
    } else {
        b
    }
}

/// The larger of two integers.
pub open spec fn max_int(a: int, b: int) -> int {
    if a >= b {
        a
    } else {
        b
    }
}

impl Default for ScrollState {
    /// Everything zero.
    fn default() -> (s: Self)
        ensures
            s == (ScrollState {
                offset_y: 0,
                offset_x: 0,
                content_height: 0,
                content_width: 0,
                viewport_height: 0,
                viewport_width: 0,
            }),
    {
        ScrollState::new()
    }
}

impl ScrollState {
    /// The largest vertical offset at which the viewport still shows content.
    pub open spec fn max_y(self) -> int {
        sat_sub(self.content_height as int, self.viewport_height as int)
    }

    /// The largest horizontal offset at which the viewport still shows content.
    pub open spec fn max_x(self) -> int {
        sat_sub(self.content_width as int, self.viewport_width as int)
    }

    /// Both offsets lie within their ranges.
    pub open spec fn offsets_in_range(self) -> bool {
        self.offset_y <= self.max_y() && self.offset_x <= self.max_x()
    }

    /// The state with both offsets pulled back into their ranges.
    pub open spec fn clamped(self) -> ScrollState {
        ScrollState {
            offset_y: min_int(self.offset_y as int, self.max_y()) as usize,
            offset_x: min_int(self.offset_x as int, self.max_x()) as usize,
            ..self
        }
    }

    /// The state after scrolling up by `lines`, stopping at the top.
    pub open spec fn scrolled_up(self, lines: int) -> ScrollState {
        ScrollState { offset_y: sat_sub(self.offset_y as int, lines) as usize, ..self }
    }

    /// The state after scrolling down by `lines` (saturating), clamped.
    pub open spec fn scrolled_down(self, lines: int) -> ScrollState {
        ScrollState {
            offset_y: min_int(self.offset_y + lines, usize::MAX as int) as usize,
            ..self
        }.clamped()
    }

    /// The state after scrolling left by `cols`, stopping at the left edge.
    pub open spec fn scrolled_left(self, cols: int) -> ScrollState {
        ScrollState { offset_x: sat_sub(self.offset_x as int, cols) as usize, ..self }
    }

    /// The state after scrolling right by `cols` (saturating), clamped.
    pub open spec fn scrolled_right(self, cols: int) -> ScrollState {
        ScrollState {
            offset_x: min_int(self.offset_x + cols, usize::MAX as int) as usize,
            ..self
        }.clamped()
    }

    /// The number of lines one page moves: the viewport height, at least one.
    pub open spec fn page(self) -> int {
        max_int(self.viewport_height as int, 1)
    }

    /// The state scrolled to the top.
    pub open spec fn at_top(self) -> ScrollState {
        ScrollState { offset_y: 0, ..self }
    }

    /// The state scrolled to the bottom.
    pub open spec fn at_bottom(self) -> ScrollState {
        ScrollState { offset_y: self.max_y() as usize, ..self }
    }

    /// Create a new scroll state: everything zero.
    pub fn new() -> (s: Self)
        ensures
            s == (ScrollState {
                offset_y: 0,
                offset_x: 0,
                content_height: 0,
                content_width: 0,
                viewport_height: 0,
                viewport_width: 0,
            }),
    {
        ScrollState {
            offset_y: 0,
            offset_x: 0,
            content_height: 0,
            content_width: 0,
            viewport_height: 0,
            viewport_width: 0,
        }
    }

    /// Create a scroll state with initial viewport size; all else zero.
    pub fn with_viewport(viewport_width: usize, viewport_height: usize) -> (s: Self)
        ensures
            s == (ScrollState {
                offset_y: 0,
                offset_x: 0,
                content_height: 0,
                content_width: 0,
                viewport_height,
                viewport_width,
            }),
    {
        ScrollState {
            offset_y: 0,
            offset_x: 0,
            content_height: 0,
            content_width: 0,
            viewport_height,
            viewport_width,
        }
    }

    /// Pull both offsets back into their ranges.
    pub fn clamp_offset(&mut self)
        ensures
            *final(self) == old(self).clamped(),
    {
        let my = self.max_offset_y();
        let mx = self.max_offset_x();
        if self.offset_y > my {
            self.offset_y = my;
        }
        if self.offset_x > mx {
            self.offset_x = mx;
        }
    }

    /// Set the content size, then clamp the offsets.
    pub fn set_content_size(&mut self, width: usize, height: usize)
        ensures
            *final(self) == (ScrollState {
                content_width: width,
                content_height: height,
                ..*old(self)
            }).clamped(),
    {
        self.content_width = width;
        self.content_height = height;
        self.clamp_offset();
    }

    /// Set the viewport size, then clamp the offsets.
    pub fn set_viewport_size(&mut self, width: usize, height: usize)
        ensures
            *final(self) == (ScrollState {
                viewport_width: width,
                viewport_height: height,
                ..*old(self)
            }).clamped(),
    {
        self.viewport_width = width;
        self.viewport_height = height;
        self.clamp_offset();
    }

    /// Scroll up by a number of lines, stopping at the top.
    pub fn scroll_up(&mut self, lines: usize)
        ensures
            *final(self) == old(self).scrolled_up(lines as int),
    {
        self.offset_y = self.offset_y.saturating_sub(lines);
    }

    /// Scroll down by a number of lines (saturating), then clamp the offsets.
    pub fn scroll_down(&mut self, lines: usize)
        ensures
            *final(self) == old(self).scrolled_down(lines as int),
    {
        self.offset_y = self.offset_y.saturating_add(lines);
        self.clamp_offset();
    }

    /// Scroll left by a number of columns, stopping at the left edge.
    pub fn scroll_left(&mut self, cols: usize)
        ensures
            *final(self) == old(self).scrolled_left(cols as int),
    {
        self.offset_x = self.offset_x.saturating_sub(cols);
    }

    /// Scroll right by a number of columns (saturating), then clamp the offsets.
    pub fn scroll_right(&mut self, cols: usize)
        ensures
            *final(self) == old(self).scrolled_right(cols as int),
    {
        self.offset_x = self.offset_x.saturating_add(cols);
        self.clamp_offset();
    }

    /// Scroll to a specific vertical position, then clamp the offsets.
    pub fn scroll_to_y(&mut self, offset: usize)
        ensures
            *final(self) == (ScrollState { offset_y: offset, ..*old(self) }).clamped(),
    {
        self.offset_y = offset;
        self.clamp_offset();
    }

    /// Scroll to a specific horizontal position, then clamp the offsets.
    pub fn scroll_to_x(&mut self, offset: usize)
        ensures
            *final(self) == (ScrollState { offset_x: offset, ..*old(self) }).clamped(),
    {
        self.offset_x = offset;
        self.clamp_offset();
    }

    /// Scroll to the top.
    pub fn scroll_to_top(&mut self)
        ensures
            *final(self) == old(self).at_top(),
    {
        self.offset_y = 0;
    }

    /// Scroll to the bottom: the vertical offset becomes the largest one.
    pub fn scroll_to_bottom(&mut self)
        ensures
            *final(self) == old(self).at_bottom(),
    {
        if self.content_height > self.viewport_height {
            self.offset_y = self.content_height - self.viewport_height;
        } else {
            self.offset_y = 0;
        }
    }

    /// Page up: scroll up by the viewport height (at least one line).
    pub fn page_up(&mut self)
        ensures
            *final(self) == old(self).scrolled_up(old(self).page()),
    {
        let page = if self.viewport_height > 1 {
            self.viewport_height
        } else {
            1
        };
        self.scroll_up(page);
    }

    /// Page down: scroll down by the viewport height (at least one line).
    pub fn page_down(&mut self)
        ensures
            *final(self) == old(self).scrolled_down(old(self).page()),
    {
        let page = if self.viewport_height > 1 {
            self.viewport_height
        } else {
            1
        };
        self.scroll_down(page);
    }

    /// Ensure the item at `index` is visible: scroll just far enough that it
    /// is the first row (when above) or the last row (when below).
    ///
    /// For an item at or below the offset, the offset plus the viewport
    /// height must fit in `usize` and the viewport must have a row.
    pub fn scroll_to_item(&mut self, index: usize)
        requires
            index >= old(self).offset_y ==> old(self).offset_y + old(self).viewport_height <= usize::MAX
                && old(self).viewport_height > 0,
        ensures
            *final(self) == (ScrollState {
                offset_y: if index < old(self).offset_y {
                    index
                } else if index >= old(self).offset_y + old(self).viewport_height {
                    sat_sub(index as int, old(self).viewport_height - 1) as usize
                } else {
                    old(self).offset_y
                },
                ..*old(self)
            }),
    {
        if index < self.offset_y {
            self.offset_y = index;
        } else if index >= self.offset_y + self.viewport_height {
            self.offset_y = index.saturating_sub(self.viewport_height - 1);
        }
    }

    /// The maximum vertical scroll offset.
    pub fn max_offset_y(&self) -> (r: usize)
        ensures
            r == self.max_y(),
    {
        self.content_height.saturating_sub(self.viewport_height)
    }

    /// The maximum horizontal scroll offset.
    pub fn max_offset_x(&self) -> (r: usize)
        ensures
            r == self.max_x(),
    {
        self.content_width.saturating_sub(self.viewport_width)
    }

    /// Whether there is more content above.
    pub fn can_scroll_up(&self) -> (r: bool)
        ensures
            r == (self.offset_y > 0),
    {
        self.offset_y > 0
    }

    /// Whether there is more content below.
    pub fn can_scroll_down(&self) -> (r: bool)
        ensures
            r == (self.offset_y < self.max_y()),
    {
        self.offset_y < self.max_offset_y()
    }

    /// Whether there is more content to the left.
    pub fn can_scroll_left(&self) -> (r: bool)
        ensures
            r == (self.offset_x > 0),
    {
        self.offset_x > 0
    }

    /// Whether there is more content to the right.
    pub fn can_scroll_right(&self) -> (r: bool)
        ensures
            r == (self.offset_x < self.max_x()),
    {
        self.offset_x < self.max_offset_x()
    }

    /// The visible range of items: `(start, end)` with `end` exclusive.
    ///
    /// The offset plus the viewport height must fit in `usize`.
    pub fn visible_range(&self) -> (r: (usize, usize))
        requires
            self.offset_y + self.viewport_height <= usize::MAX,
        ensures
            r.0 == self.offset_y,
            r.1 == min_int(self.offset_y + self.viewport_height, self.content_height as int),
    {
        let start = self.offset_y;
        let sum = self.offset_y + self.viewport_height;
        let end = if sum < self.content_height {
            sum
        } else {
            self.content_height
        };
        (start, end)
    }
}

/// Clamping puts both offsets in range, and leaves a state whose offsets
/// are already in range as it is.
pub proof fn law_clamped_in_range(s: ScrollState)
    ensures
        s.clamped().offsets_in_range(),
        s.offsets_in_range() ==> s.clamped() == s,
{
}

/// Scrolling in any direction, by lines, by pages or to either end, keeps
/// offsets that were in range in range.
pub proof fn law_scrolling_keeps_offsets_in_range(s: ScrollState, n: usize)
    requires
        s.offsets_in_range(),
    ensures
        s.scrolled_up(n as int).offsets_in_range(),
        s.scrolled_down(n as int).offsets_in_range(),
        s.scrolled_left(n as int).offsets_in_range(),
        s.scrolled_right(n as int).offsets_in_range(),
        s.scrolled_up(s.page()).offsets_in_range(),
        s.scrolled_down(s.page()).offsets_in_range(),
        s.at_top().offsets_in_range(),
        s.at_bottom().offsets_in_range(),
{
}

/// Scrolling down by `n` lines and back up by `n` returns to the same
/// state, when the way down does not run into the bottom.
pub proof fn law_scroll_down_then_up(s: ScrollState, n: usize)
    requires
        s.offsets_in_range(),
        s.offset_y + n <= s.max_y(),
    ensures
        s.scrolled_down(n as int).scrolled_up(n as int) == s,
{
}

/// At the top there is nothing more above; at the bottom nothing more below.
pub proof fn law_top_and_bottom(s: ScrollState)
    ensures
        !(s.at_top().offset_y > 0),
        !(s.at_bottom().offset_y < s.at_bottom().max_y()),
{
}

} // verus!
