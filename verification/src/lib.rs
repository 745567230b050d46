//! Vector shapes shaded by solid colours and linear gradients: gradient
//! evaluation, shading of tessellated geometry, mesh assembly and the shader
//! uniform that summarises a brush.
//!
//! All arithmetic is in 16.16 fixed point, so that every result is exact and
//! every contract can say which one it is. Offsets and coordinates are `i32`
//! counts of `1 / 65536`; colour channels are `i64` counts of the same unit,
//! in linear RGB. Values closer than one such unit are the same value, which
//! is all the tolerance that comparisons need: an axis shorter than that has
//! no length, and offsets closer than that are equal. What is no number cannot
//! be written in fixed point at all; `single::NonNan` turns it away where
//! single-precision values enter.
//!
//! The tessellator works in single precision. Its positions are kept bit for
//! bit in the vertices, and read as fixed point only to be shaded. What is
//! handed to it is tested first: an outline is drawable where each of its
//! points is a number within the range of fixed point, the canvas, and the
//! options are tessellable where their measures are positive numbers within
//! that range. What the tessellator returns is a function of outline and
//! options where it computes with exact arithmetic alone, on straight edges
//! without round caps or joins; there a pass is settled by its arguments.

pub mod brush;
pub mod draw;
pub mod entity;
pub mod math;
pub mod plugin;
pub mod render;
pub mod single;
pub mod vertex;
