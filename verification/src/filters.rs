//! The color decisions of the report filters `color_status` and `color_duration`.
use vstd::prelude::*;

use crate::pipeline::report_capabilities::Paint;

verus! {

/// Colors a value by its worth as an HTTP status code.
pub struct ColorStatusFilter;

/// Colors a value by its worth as a duration in milliseconds.
pub struct ColorDurationFilter;

/// A status code's color: green for 2xx, yellow for 3xx, red for everything else.
pub open spec fn status_filter_paint(code: i64) -> Paint {
    if 200 <= code <= 299 {
        Paint::Green
    } else if 300 <= code <= 399 {
        Paint::Yellow
    } else {
        Paint::Red
    }
}

/// A whole-millisecond duration's color: green up to 50, yellow from 51 to 200, red
/// for everything else (negative values too).
pub open spec fn duration_filter_paint(ms: i64) -> Paint {
    if 0 <= ms <= 50 {
        Paint::Green
    } else if 51 <= ms <= 200 {
        Paint::Yellow
    } else {
        Paint::Red
    }
}

impl ColorStatusFilter {
    /// The color of a status code (0 for a value that is not an integer).
    pub fn paint_for(&self, code: i64) -> (r: Paint)
        ensures
            r == status_filter_paint(code),
    {
        if 200 <= code && code <= 299 {
            Paint::Green
        } else if 300 <= code && code <= 399 {
            Paint::Yellow
        } else {
            Paint::Red
        }
    }
}

impl ColorDurationFilter {
    /// The color of a duration given in whole milliseconds.
    pub fn paint_for(&self, ms: i64) -> (r: Paint)
        ensures
            r == duration_filter_paint(ms),
    {
        if 0 <= ms && ms <= 50 {
            Paint::Green
        } else if 51 <= ms && ms <= 200 {
            Paint::Yellow
        } else {
            Paint::Red
        }
    }
}

} // verus!
