//! Picking the monitor under the mouse cursor for the recording overlay.
//! Window creation and scaled geometry stay outside; they hand this module
//! plain monitor rectangles in physical pixels.

use vstd::prelude::*;

verus! {

/// A monitor's position and size in physical pixels.
#[derive(Clone, Copy, Debug, PartialEq, Eq, Structural)]
pub struct MonitorRect {
    pub x: i32,
    pub y: i32,
    pub width: u32,
    pub height: u32,
}

/// Whether the point lies inside the monitor's rectangle.
pub open spec fn within_monitor(mx: int, my: int, m: MonitorRect) -> bool {
    &&& m.x <= mx < m.x + m.width
    &&& m.y <= my < m.y + m.height
}

/// Whether the mouse position lies on the given monitor.
pub fn is_mouse_within_monitor(mouse_x: i32, mouse_y: i32, monitor: &MonitorRect) -> (b: bool)
    ensures
        b == within_monitor(mouse_x as int, mouse_y as int, *monitor),
{
    let mx = mouse_x as i64;
    let my = mouse_y as i64;
    let x = monitor.x as i64;
    let y = monitor.y as i64;
    mx >= x && mx < x + monitor.width as i64 && my >= y && my < y + monitor.height as i64
}

/// The first monitor containing the mouse position, if any: the one the
/// recording overlay is placed on.
pub fn monitor_at(mouse_x: i32, mouse_y: i32, monitors: &Vec<MonitorRect>) -> (r: Option<usize>)
    ensures
        match r {
            Option::Some(i) => i < monitors@.len() && within_monitor(
                mouse_x as int,
                mouse_y as int,
                monitors@[i as int],
            ) && forall|j: int|
                0 <= j < i ==> !within_monitor(mouse_x as int, mouse_y as int, monitors@[j]),
            Option::None => forall|j: int|
                0 <= j < monitors@.len() ==> !within_monitor(
                    mouse_x as int,
                    mouse_y as int,
                    monitors@[j],
                ),
        },
{
    let n = monitors.len();
    let mut i: usize = 0;
    while i < n
        invariant
            n == monitors@.len(),
            i <= n,
            forall|j: int|
                0 <= j < i ==> !within_monitor(mouse_x as int, mouse_y as int, monitors@[j]),
        decreases n - i,
    {
        if is_mouse_within_monitor(mouse_x, mouse_y, &monitors[i]) {
            return Option::Some(i);
        }
        i = i + 1;
    }
    Option::None
}

} // verus!
