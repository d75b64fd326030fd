use crate::render::color::Rgb;
use crate::render::vector::Point3;
use vstd::prelude::*;

verus! {

/// A light without size that shines the same way in every direction.
#[derive(Clone, Copy, Debug)]
pub struct PointLight<T> {
    pub position: Point3<T>,
    pub color: Rgb<T>,
}

} // verus!
