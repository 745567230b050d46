//! What the gradient shader is given.

use vstd::prelude::*;
use crate::math::{Color, Point};

verus! {

/// A brush in the form the shader takes: a colour at each end of an axis.
/// Equal colours at both ends mean a flat colour.
#[derive(Clone, Copy, Debug, PartialEq, Eq, Structural)]
pub struct GradientMaterialUniform {
    pub start: Color,
    pub end: Color,
    pub start_pos: Point,
    pub end_pos: Point,
}

impl Default for GradientMaterialUniform {
    /// Opaque white at both ends of an axis without length.
    fn default() -> (u: Self)
        ensures
            u.start == Color::spec_white(),
            u.end == Color::spec_white(),
            u.start_pos == (Point { x: 0, y: 0 }),
            u.end_pos == (Point { x: 0, y: 0 }),
    {
        Self {
            start: Color::white(),
            end: Color::white(),
            start_pos: Point { x: 0, y: 0 },
            end_pos: Point { x: 0, y: 0 },
        }
    }
}

/// The material of a shape: the uniform its shader reads.
#[derive(Clone, Copy, Debug, PartialEq, Eq, Structural)]
pub struct GradientMaterial {
    pub uniform: GradientMaterialUniform,
}

impl Default for GradientMaterial {
    fn default() -> (m: Self)
        ensures
            m.uniform.start == Color::spec_white(),
            m.uniform.end == Color::spec_white(),
            m.uniform.start_pos == (Point { x: 0, y: 0 }),
            m.uniform.end_pos == (Point { x: 0, y: 0 }),
    {
        Self { uniform: GradientMaterialUniform::default() }
    }
}

} // verus!
