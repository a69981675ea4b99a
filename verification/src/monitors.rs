//! Labelling of the monitor directory.
//!
//! The platform's display enumeration is a best-effort outside call made by
//! the caller; it hands the raw geometry in. This module gives each monitor
//! its display name and guarantees the directory is never empty: when the
//! platform reports no display at all, a synthetic default monitor stands in.

use vstd::prelude::*;

use crate::text::spec_udec;
use crate::text::u64_to_string;

verus! {

/// The raw geometry of one display, as the platform reports it.
#[derive(Clone, Copy, Debug, PartialEq, Eq, Structural)]
pub struct DisplayBounds {
    /// Width in pixels.
    pub width: u32,
    /// Height in pixels.
    pub height: u32,
    /// Horizontal origin in the virtual display space.
    pub x: i32,
    /// Vertical origin in the virtual display space.
    pub y: i32,
    /// Whether the platform calls this the primary display.
    pub is_primary: bool,
}

/// One entry of the monitor directory: a display name and the geometry a
/// capture rectangle can be initialized from.
#[derive(Clone, Debug)]
pub struct MonitorInfo {
    pub name: String,
    pub width: u32,
    pub height: u32,
    pub x: i32,
    pub y: i32,
}

/// The display name of the monitor at `index` (counted from zero):
/// `Monitor N`, with ` (Primary)` appended for the primary display.
pub open spec fn spec_monitor_name(index: nat, is_primary: bool) -> Seq<char> {
    "Monitor "@ + spec_udec(index + 1) + (if is_primary {
        " (Primary)"@
    } else {
        Seq::<char>::empty()
    })
}

/// The display name of the monitor at `index`.
fn monitor_name(index: usize, is_primary: bool) -> (r: String)
    requires
        index < usize::MAX,
    ensures
        r@ == spec_monitor_name(index as nat, is_primary),
{
    let mut s = "Monitor ".to_owned();
    s.append(u64_to_string(index as u64 + 1).as_str());
    if is_primary {
        s.append(" (Primary)");
    }
    s
}

/// Labels the displays the platform reported as the monitor directory.
///
/// Every display keeps its geometry and is named `Monitor N`, the primary one
/// marked as such. The directory is guaranteed non-empty: with no reported
/// display it holds one synthetic default monitor covering a full screen.
pub fn get_monitors(displays: &Vec<DisplayBounds>) -> (r: Vec<MonitorInfo>)
    ensures
        r@.len() >= 1,
        displays@.len() == 0 ==> r@.len() == 1 && r@[0].name@ == "Default (Full Screen)"@
            && r@[0].width == 1920 && r@[0].height == 1080 && r@[0].x == 0 && r@[0].y == 0,
        displays@.len() > 0 ==> r@.len() == displays@.len() && forall|i: int|
            0 <= i < displays@.len() ==> (#[trigger] r@[i]).name@ == spec_monitor_name(
                i as nat,
                displays@[i].is_primary,
            ) && r@[i].width == displays@[i].width && r@[i].height == displays@[i].height && r@[i].x
                == displays@[i].x && r@[i].y == displays@[i].y,
{
    let mut monitors: Vec<MonitorInfo> = Vec::new();
    let mut i: usize = 0;
    while i < displays.len()
        invariant
            i <= displays@.len(),
            monitors@.len() == i,
            forall|j: int|
                0 <= j < i ==> (#[trigger] monitors@[j]).name@ == spec_monitor_name(
                    j as nat,
                    displays@[j].is_primary,
                ) && monitors@[j].width == displays@[j].width && monitors@[j].height
                    == displays@[j].height && monitors@[j].x == displays@[j].x && monitors@[j].y
                    == displays@[j].y,
        decreases displays@.len() - i,
    {
        let d = displays[i];
        monitors.push(
            MonitorInfo {
                name: monitor_name(i, d.is_primary),
                width: d.width,
                height: d.height,
                x: d.x,
                y: d.y,
            },
        );
        i = i + 1;
    }
    if monitors.len() == 0 {
        monitors.push(
            MonitorInfo {
                name: "Default (Full Screen)".to_owned(),
                width: 1920,
                height: 1080,
                x: 0,
                y: 0,
            },
        );
    }
    monitors
}

} // verus!
