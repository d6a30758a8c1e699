//! Iterators over grid coordinates: the points of a rasterised line segment
//! and the points on the border of an axis-aligned rectangle.
use vstd::prelude::*;

pub mod bresenham;
pub mod coord;
pub mod perimeter;

pub use bresenham::BresenhamIter;
pub use coord::Coord;
pub use perimeter::PerimeterIter;

verus! {

} // verus!
