use vstd::prelude::*;

verus! {

/// A position on the trail, already scaled into whole rendering units.
/// `lat` is drawn along the x axis and `long` along the y axis.
#[derive(Clone, Copy, Debug, PartialEq, Eq, Structural)]
pub struct Point {
    pub lat: i32,
    pub long: i32,
}

impl Point {
    pub fn new(lat: i32, long: i32) -> (r: Point)
        ensures
            r.lat == lat,
            r.long == long,
    {
        Point { lat, long }
    }
}

} // verus!
