//! The pure geometry of overlay placement: deciding which monitor holds
//! the cursor.  Window creation and positioning stay with the embedding
//! layer.

use vstd::prelude::*;

verus! {

/// A monitor's work area in physical pixels.
#[derive(Clone, Copy, PartialEq, Eq, Structural, Debug)]
pub struct MonitorRect {
    pub x: i32,
    pub y: i32,
    pub width: u32,
    pub height: u32,
}

/// Whether the point lies inside the rectangle.
pub open spec fn mouse_within(mx: int, my: int, r: MonitorRect) -> bool {
    &&& r.x <= mx
    &&& mx < r.x + r.width
    &&& r.y <= my
    &&& my < r.y + r.height
}

/// Whether the mouse position lies within the monitor's area.
pub fn is_mouse_within_monitor(mouse_pos: (i32, i32), monitor: &MonitorRect) -> (r: bool)
    ensures
        r == mouse_within(mouse_pos.0 as int, mouse_pos.1 as int, *monitor),
{
    let (mx, my) = mouse_pos;
    let mx = mx as i64;
    let my = my as i64;
    let x = monitor.x as i64;
    let y = monitor.y as i64;
    let w = monitor.width as i64;
    let h = monitor.height as i64;
    mx >= x && mx < x + w && my >= y && my < y + h
}

/// The first monitor holding the cursor, if any.
pub fn monitor_with_cursor_index(mouse_pos: (i32, i32), monitors: &Vec<MonitorRect>) -> (r: Option<
    usize,
>)
    ensures
        (match r {
            Some(i) => i < monitors@.len() && mouse_within(
                mouse_pos.0 as int,
                mouse_pos.1 as int,
                monitors@[i as int],
            ) && (forall|j: int|
                0 <= j < i ==> !mouse_within(
                    mouse_pos.0 as int,
                    mouse_pos.1 as int,
                    monitors@[j],
                )),
            None => forall|j: int|
                0 <= j < monitors@.len() ==> !mouse_within(
                    mouse_pos.0 as int,
                    mouse_pos.1 as int,
                    monitors@[j],
                ),
        }),
{
    let n = monitors.len();
    let mut i: usize = 0;
    while i < n
        invariant
            i <= n,
            n == monitors@.len(),
            forall|j: int|
                0 <= j < i ==> !mouse_within(mouse_pos.0 as int, mouse_pos.1 as int, monitors@[j]),
        decreases n - i,
    {
        if is_mouse_within_monitor(mouse_pos, &monitors[i]) {
            return Some(i);
        }
        i += 1;
    }
    None
}

} // verus!
