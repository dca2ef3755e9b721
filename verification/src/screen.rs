//! Where a window is shown next to the mouse pointer: the monitor that
//! holds the pointer, and the position that keeps the window on it.
use vstd::prelude::*;

verus! {

/// A monitor's area in physical pixels.
#[derive(Debug, Clone, Copy, PartialEq, Eq, Structural)]
pub struct MonitorArea {
    pub x: i32,
    pub y: i32,
    pub width: u32,
    pub height: u32,
}

/// `u32 as i32`: the same bits read as a signed number.
pub open spec fn as_signed(n: u32) -> int {
    if n <= i32::MAX {
        n as int
    } else {
        n - 0x1_0000_0000
    }
}

/// The pointer lies on the monitor.
pub open spec fn holds_point(m: MonitorArea, x: i32, y: i32) -> bool {
    x >= m.x && y >= m.y && x < m.x + as_signed(m.width) && y < m.y + as_signed(m.height)
}

/// Every edge sum below fits in an `i32`.
pub open spec fn edges_fit(m: MonitorArea) -> bool {
    i32::MIN <= m.x + as_signed(m.width) <= i32::MAX && i32::MIN <= m.y + as_signed(m.height) <= i32::MAX
}

fn signed(n: u32) -> (r: i32)
    ensures
        r == as_signed(n),
{
    if n <= 0x7fff_ffff {
        n as i32
    } else {
        let m: i64 = n as i64 - 0x1_0000_0000;
        m as i32
    }
}

/// The first monitor that holds the pointer.
pub fn monitor_at(monitors: &[MonitorArea], x: i32, y: i32) -> (r: Option<usize>)
    requires
        forall|i: int| 0 <= i < monitors@.len() ==> edges_fit(#[trigger] monitors@[i]),
    ensures
        match r {
            Some(i) => i < monitors@.len() && holds_point(monitors@[i as int], x, y) && forall|j: int|
                0 <= j < i ==> !holds_point(#[trigger] monitors@[j], x, y),
            None => forall|j: int| 0 <= j < monitors@.len() ==> !holds_point(#[trigger] monitors@[j], x, y),
        },
{
    let mut i: usize = 0;
    while i < monitors.len()
        invariant
            i <= monitors@.len(),
            forall|k: int| 0 <= k < monitors@.len() ==> edges_fit(#[trigger] monitors@[k]),
            forall|j: int| 0 <= j < i ==> !holds_point(#[trigger] monitors@[j], x, y),
        decreases monitors@.len() - i,
    {
        let m = monitors[i];
        assert(edges_fit(monitors@[i as int]));
        if x >= m.x && y >= m.y && x < m.x + signed(m.width) && y < m.y + signed(m.height) {
            return Some(i);
        }
        i = i + 1;
    }
    None
}

pub open spec fn max_i(a: int, b: int) -> int {
    if a >= b {
        a
    } else {
        b
    }
}

pub open spec fn min_i(a: int, b: int) -> int {
    if a <= b {
        a
    } else {
        b
    }
}

/// `v.max(lo).min(hi)`: at least `lo`, then at most `hi`.
pub open spec fn clamp_max_min(v: int, lo: int, hi: int) -> int {
    min_i(max_i(v, lo), hi)
}

/// Where a window of the given outer size is placed for the pointer at
/// (`x`, `y`) on monitor `m`: at the pointer, pushed back so that it starts
/// on the monitor and, after that, ends on it.
pub fn position_on_monitor(m: MonitorArea, x: i32, y: i32, window_width: u32, window_height: u32) -> (r: (i32, i32))
    requires
        edges_fit(m),
        i32::MIN <= m.x + as_signed(m.width) - as_signed(window_width) <= i32::MAX,
        i32::MIN <= m.y + as_signed(m.height) - as_signed(window_height) <= i32::MAX,
    ensures
        r.0 == clamp_max_min(x as int, m.x as int, m.x + as_signed(m.width) - as_signed(window_width)),
        r.1 == clamp_max_min(y as int, m.y as int, m.y + as_signed(m.height) - as_signed(window_height)),
{
    let right = m.x + signed(m.width) - signed(window_width);
    let bottom = m.y + signed(m.height) - signed(window_height);
    let nx0 = if x >= m.x { x } else { m.x };
    let nx = if nx0 <= right { nx0 } else { right };
    let ny0 = if y >= m.y { y } else { m.y };
    let ny = if ny0 <= bottom { ny0 } else { bottom };
    (nx, ny)
}

/// Space kept free at the bottom of the screen for the dock.
pub const BOTTOM_MARGIN: i32 = 80;

/// `v.min(hi).max(lo)`: at most `hi`, then at least `lo`.
pub open spec fn clamp_min_max(v: int, lo: int, hi: int) -> int {
    max_i(min_i(v, hi), lo)
}

/// Where a window is placed for the pointer at (`x`, `y`) on a screen of the
/// given logical size: at the pointer, pushed back so that it ends on the
/// screen, above the dock margin, and then so that it starts at or after the origin.
pub fn position_on_screen(x: i32, y: i32, screen_width: u32, screen_height: u32, window_width: u32, window_height: u32) -> (r: (i32, i32))
    requires
        i32::MIN <= as_signed(screen_width) - as_signed(window_width) <= i32::MAX,
        i32::MIN <= as_signed(screen_height) - as_signed(window_height) - 80 <= i32::MAX,
    ensures
        r.0 == clamp_min_max(x as int, 0, as_signed(screen_width) - as_signed(window_width)),
        r.1 == clamp_min_max(y as int, 0, as_signed(screen_height) - as_signed(window_height) - 80),
{
    let right64: i64 = signed(screen_width) as i64 - signed(window_width) as i64;
    let bottom64: i64 = signed(screen_height) as i64 - signed(window_height) as i64 - BOTTOM_MARGIN as i64;
    let right = right64 as i32;
    let bottom = bottom64 as i32;
    let nx0 = if x <= right { x } else { right };
    let nx = if nx0 >= 0 { nx0 } else { 0 };
    let ny0 = if y <= bottom { y } else { bottom };
    let ny = if ny0 >= 0 { ny0 } else { 0 };
    (nx, ny)
}

} // verus!
