//! Automation points of a lane.
use vstd::prelude::*;

verus! {

/// A value for the automated parameter at `automation_params_index` of the track,
/// `delay` in 1/256 of a line.
#[derive(Clone, Copy, Debug, PartialEq, Eq, Structural)]
pub struct Point {
    pub automation_params_index: usize,
    pub value: u8,
    pub delay: u8,
}

impl Default for Point {
    fn default() -> (r: Self)
        ensures
            r == (Point { automation_params_index: 0, value: 0, delay: 0 }),
    {
        Point { automation_params_index: 0, value: 0, delay: 0 }
    }
}

} // verus!
