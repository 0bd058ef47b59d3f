//! Frames in physical, desktop-absolute pixels for service windows that
//! are separate top-level windows: the active one covers the main
//! window's content area, the others sit just left of every monitor.
//! The sidebar's physical width (its logical width times the display
//! scale, rounded) is computed by the caller.

use vstd::prelude::*;

verus! {

/// A rectangle in physical pixels: a desktop-absolute origin (possibly
/// negative) and a size.
#[derive(Debug, Clone, Copy, PartialEq, Eq, Structural)]
pub struct PhysicalRect {
    pub x: i32,
    pub y: i32,
    pub width: u32,
    pub height: u32,
}

/// `v` brought into `i32`'s range.
pub open spec fn clamp_i32(v: int) -> int {
    if v < i32::MIN {
        i32::MIN as int
    } else if v > i32::MAX {
        i32::MAX as int
    } else {
        v
    }
}

/// `v` brought into `u32`'s range.
pub open spec fn clamp_u32(v: int) -> int {
    if v < 0 {
        0
    } else if v > u32::MAX {
        u32::MAX as int
    } else {
        v
    }
}

/// The smaller of `a` and `b`.
pub open spec fn min_int(a: int, b: int) -> int {
    if a <= b {
        a
    } else {
        b
    }
}

/// The larger of `a` and `b`.
pub open spec fn max_int(a: int, b: int) -> int {
    if a >= b {
        a
    } else {
        b
    }
}

/// The leftmost edge among `s` (which is not empty).
pub open spec fn min_left(s: Seq<PhysicalRect>) -> int
    decreases s.len(),
{
    if s.len() <= 1 {
        s[0].x as int
    } else {
        min_int(min_left(s.drop_last()), s.last().x as int)
    }
}

/// The topmost edge among `s`.
pub open spec fn min_top(s: Seq<PhysicalRect>) -> int
    decreases s.len(),
{
    if s.len() <= 1 {
        s[0].y as int
    } else {
        min_int(min_top(s.drop_last()), s.last().y as int)
    }
}

/// The rightmost edge among `s`.
pub open spec fn max_right(s: Seq<PhysicalRect>) -> int
    decreases s.len(),
{
    if s.len() <= 1 {
        s[0].x + s[0].width
    } else {
        max_int(max_right(s.drop_last()), s.last().x + s.last().width)
    }
}

/// The bottommost edge among `s`.
pub open spec fn max_bottom(s: Seq<PhysicalRect>) -> int
    decreases s.len(),
{
    if s.len() <= 1 {
        s[0].y + s[0].height
    } else {
        max_int(max_bottom(s.drop_last()), s.last().y + s.last().height)
    }
}

/// The smallest rectangle containing every rectangle of `s`, its size
/// clamped into `u32`.
pub open spec fn bounding_box(s: Seq<PhysicalRect>) -> PhysicalRect {
    PhysicalRect {
        x: clamp_i32(min_left(s)) as i32,
        y: clamp_i32(min_top(s)) as i32,
        width: clamp_u32(max_right(s) - min_left(s)) as u32,
        height: clamp_u32(max_bottom(s) - min_top(s)) as u32,
    }
}

/// The edges of a non-empty prefix grow one rectangle at a time.
proof fn lemma_edges_step(s: Seq<PhysicalRect>, i: int)
    requires
        1 <= i < s.len(),
    ensures
        min_left(s.take(i + 1)) == min_int(min_left(s.take(i)), s[i].x as int),
        min_top(s.take(i + 1)) == min_int(min_top(s.take(i)), s[i].y as int),
        max_right(s.take(i + 1)) == max_int(max_right(s.take(i)), s[i].x + s[i].width),
        max_bottom(s.take(i + 1)) == max_int(max_bottom(s.take(i)), s[i].y + s[i].height),
{
    assert(s.take(i + 1).drop_last() =~= s.take(i));
}

/// The edges of one rectangle, and of any rectangles, stay within the
/// values their coordinates can take.
proof fn lemma_edges_bounded(s: Seq<PhysicalRect>)
    requires
        s.len() >= 1,
    ensures
        i32::MIN <= min_left(s) <= i32::MAX,
        i32::MIN <= min_top(s) <= i32::MAX,
        i32::MIN <= max_right(s) <= i32::MAX + u32::MAX,
        i32::MIN <= max_bottom(s) <= i32::MAX + u32::MAX,
        min_left(s) <= max_right(s),
        min_top(s) <= max_bottom(s),
    decreases s.len(),
{
    if s.len() > 1 {
        lemma_edges_bounded(s.drop_last());
    }
}

/// Every rectangle of `s` lies within its bounding edges.
pub proof fn lemma_bounding_edges_contain(s: Seq<PhysicalRect>, i: int)
    requires
        0 <= i < s.len(),
    ensures
        min_left(s) <= s[i].x,
        min_top(s) <= s[i].y,
        s[i].x + s[i].width <= max_right(s),
        s[i].y + s[i].height <= max_bottom(s),
    decreases s.len(),
{
    if s.len() > 1 && i < s.len() - 1 {
        lemma_bounding_edges_contain(s.drop_last(), i);
    }
}

/// The bounding box of `monitors`, `None` when there are none.
pub fn monitors_bounding_box(monitors: &[PhysicalRect]) -> (r: Option<PhysicalRect>)
    ensures
        monitors@.len() == 0 ==> r is None,
        monitors@.len() > 0 ==> r == Some(bounding_box(monitors@)),
{
    if monitors.len() == 0 {
        return None;
    }
    let first = monitors[0];
    let mut min_x: i64 = first.x as i64;
    let mut min_y: i64 = first.y as i64;
    let mut max_x: i64 = first.x as i64 + first.width as i64;
    let mut max_y: i64 = first.y as i64 + first.height as i64;
    proof {
        assert(monitors@.take(1) =~= seq![first]);
    }
    let mut i: usize = 1;
    while i < monitors.len()
        invariant
            1 <= i <= monitors@.len(),
            min_x == min_left(monitors@.take(i as int)),
            min_y == min_top(monitors@.take(i as int)),
            max_x == max_right(monitors@.take(i as int)),
            max_y == max_bottom(monitors@.take(i as int)),
        decreases monitors@.len() - i,
    {
        let m = monitors[i];
        proof {
            lemma_edges_step(monitors@, i as int);
        }
        let x = m.x as i64;
        let y = m.y as i64;
        if x < min_x {
            min_x = x;
        }
        if y < min_y {
            min_y = y;
        }
        if x + m.width as i64 > max_x {
            max_x = x + m.width as i64;
        }
        if y + m.height as i64 > max_y {
            max_y = y + m.height as i64;
        }
        i = i + 1;
    }
    proof {
        assert(monitors@.take(monitors@.len() as int) =~= monitors@);
        lemma_edges_bounded(monitors@);
    }
    let w = max_x - min_x;
    let h = max_y - min_y;
    Some(PhysicalRect {
        x: min_x as i32,
        y: min_y as i32,
        width: if w > u32::MAX as i64 { u32::MAX } else { w as u32 },
        height: if h > u32::MAX as i64 { u32::MAX } else { h as u32 },
    })
}

/// The frame of `size` placed flush against, and entirely left of, the
/// left edge of `bbox`, at height `y` (the edge clamped into `i32`).
pub open spec fn offscreen_of(bbox: PhysicalRect, size: (u32, u32), y: i32) -> PhysicalRect {
    PhysicalRect { x: clamp_i32(bbox.x - size.0) as i32, y, width: size.0, height: size.1 }
}

/// See [`offscreen_of`].
pub fn offscreen_frame(bbox: PhysicalRect, size: (u32, u32), y: i32) -> (r: PhysicalRect)
    ensures
        r == offscreen_of(bbox, size, y),
{
    let x = bbox.x as i64 - size.0 as i64;
    let x = if x < i32::MIN as i64 { i32::MIN } else { x as i32 };
    PhysicalRect { x, y, width: size.0, height: size.1 }
}

/// The main window's content area (right of a sidebar `sidebar_px`
/// physical pixels wide) for a window at `position` of `size`: none when
/// the window has no area or is no wider than the sidebar.
pub open spec fn content_of(position: (i32, i32), size: (u32, u32), sidebar_px: u64) -> Option<PhysicalRect> {
    if size.0 == 0 || size.1 == 0 || size.0 <= sidebar_px {
        None
    } else {
        Some(
            PhysicalRect {
                x: clamp_i32(position.0 + sidebar_px) as i32,
                y: position.1,
                width: (size.0 - sidebar_px) as u32,
                height: size.1,
            },
        )
    }
}

/// See [`content_of`].
pub fn content_frame(position: (i32, i32), size: (u32, u32), sidebar_px: u64) -> (r: Option<PhysicalRect>)
    ensures
        r == content_of(position, size, sidebar_px),
{
    let (x, y) = position;
    let (width, height) = size;
    if width == 0 || height == 0 || width as u64 <= sidebar_px {
        return None;
    }
    let left = x as i64 + sidebar_px as i64;
    let left = if left > i32::MAX as i64 { i32::MAX } else { left as i32 };
    Some(PhysicalRect { x: left, y, width: (width as u64 - sidebar_px) as u32, height })
}

/// A service window's frame: the content area when `active`; otherwise a
/// frame of the same size flush left of every monitor (none without
/// monitors), at the content area's height.
pub open spec fn frame_of(
    position: (i32, i32),
    size: (u32, u32),
    sidebar_px: u64,
    monitors: Seq<PhysicalRect>,
    active: bool,
) -> Option<PhysicalRect> {
    match content_of(position, size, sidebar_px) {
        None => None,
        Some(c) => if active {
            Some(c)
        } else if monitors.len() == 0 {
            None
        } else {
            Some(offscreen_of(bounding_box(monitors), (c.width, c.height), c.y))
        },
    }
}

/// See [`frame_of`].
pub fn service_frame(
    position: (i32, i32),
    size: (u32, u32),
    sidebar_px: u64,
    monitors: &[PhysicalRect],
    active: bool,
) -> (r: Option<PhysicalRect>)
    ensures
        r == frame_of(position, size, sidebar_px, monitors@, active),
{
    let content = match content_frame(position, size, sidebar_px) {
        Some(c) => c,
        None => return None,
    };
    if active {
        return Some(content);
    }
    match monitors_bounding_box(monitors) {
        Some(bbox) => Some(offscreen_frame(bbox, (content.width, content.height), content.y)),
        None => None,
    }
}

/// An inactive service window never overlaps any monitor: its right edge
/// is at or left of every monitor's left edge (wherever the left edge of
/// all monitors minus the frame's width is still an `i32`).
pub proof fn lemma_offscreen_clears_every_monitor(
    position: (i32, i32),
    size: (u32, u32),
    sidebar_px: u64,
    monitors: Seq<PhysicalRect>,
    i: int,
)
    requires
        0 <= i < monitors.len(),
        content_of(position, size, sidebar_px) is Some,
        min_left(monitors) - content_of(position, size, sidebar_px).unwrap().width >= i32::MIN,
    ensures
        frame_of(position, size, sidebar_px, monitors, false) matches Some(f) && f.x + f.width <= monitors[i].x,
{
    lemma_edges_bounded(monitors);
    lemma_bounding_edges_contain(monitors, i);
}

} // verus!
