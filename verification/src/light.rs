//! A point light: a position and an intensity color.

use vstd::prelude::*;

verus! {

use crate::color::Color;
use crate::tuple::Tuple;

#[derive(Clone, Copy, Debug)]
pub struct PointLight {
    pub position: Tuple,
    pub intensity: Color,
}

impl PointLight {
    pub fn new(position: Tuple, intensity: Color) -> (l: PointLight)
        ensures
            l == (PointLight { position, intensity }),
    {
        PointLight { position, intensity }
    }
}

} // verus!
