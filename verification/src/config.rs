//! Panel geometry and timing options, fixed for the life of a display.

use vstd::prelude::*;

verus! {

/// Options recognized by the engine: the physical panel size in pixels,
/// the nanosecond budget per frame, and whether freshly built surfaces
/// wrap their content around the logical width.
pub struct Config {
    pub panel_width: u32,
    pub panel_height: u32,
    pub frame_interval_ns: u32,
    pub default_wrap: bool,
}

impl Config {
    /// A usable panel has at least one column and one row, and its pixel
    /// count fits in a memory allocation.
    pub open spec fn wf(self) -> bool {
        &&& 1 <= self.panel_width
        &&& 1 <= self.panel_height
        &&& self.panel_width * self.panel_height <= usize::MAX
    }
}

} // verus!
