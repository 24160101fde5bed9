//! Shapes and their areas.

use vstd::prelude::*;

verus! {

/// A shape with an area.
pub trait Area {
    /// The type in which the area is measured.
    type Output;

    /// Whether the area can be expressed in `Output`. Unless a shape says
    /// otherwise, it can.
    open spec fn measurable(&self) -> bool {
        true
    }

    /// The area of the shape. A shape that leaves this open says nothing
    /// about its area.
    open spec fn area(&self) -> Self::Output {
        arbitrary()
    }

    /// Computes the area of the shape.
    fn get_area(&self) -> (area: Self::Output)
        requires
            self.measurable(),
        ensures
            area == self.area(),
    ;
}

/// A triangle, measured by the product of its length and its height.
#[derive(Clone, Copy, PartialEq, Eq, Debug, Structural)]
pub struct Triangle {
    pub length: u32,
    pub height: u32,
}

impl Area for Triangle {
    type Output = u32;

    open spec fn measurable(&self) -> bool {
        self.length * self.height <= u32::MAX
    }

    open spec fn area(&self) -> u32 {
        (self.length * self.height) as u32
    }

    fn get_area(&self) -> (area: u32) {
        proof {
            assert(0 <= self.length * self.height) by (nonlinear_arith);
        }
        self.length * self.height
    }
}

/// The area of any shape.
pub fn cal_area<T: Area>(shape: &T) -> (area: T::Output)
    requires
        shape.measurable(),
    ensures
        area == shape.area(),
{
    shape.get_area()
}

} // verus!
