//! How a shape is drawn: filled or stroked, and with which brush.

use vstd::prelude::*;
use lyon_tessellation::{FillOptions, StrokeOptions};
use vstd::float::FloatBitsProperties;
use vstd::std_specs::convert::IntoSpec;
use crate::brush::Brush;
use crate::math::Color;
use crate::single::{is_measure_from, measure_from};

verus! {

/// `lyon_tessellation::FillRule`, with its variants.
#[verifier::external_type_specification]
pub struct ExFillRule(lyon_tessellation::FillRule);

/// `lyon_tessellation::Orientation`, with its variants.
#[verifier::external_type_specification]
pub struct ExOrientation(lyon_tessellation::Orientation);

/// `lyon_tessellation::LineCap`, with its variants.
#[verifier::external_type_specification]
pub struct ExLineCap(lyon_tessellation::LineCap);

/// `lyon_tessellation::LineJoin`, with its variants.
#[verifier::external_type_specification]
pub struct ExLineJoin(lyon_tessellation::LineJoin);

/// `lyon_tessellation::FillOptions`, with its public fields.
#[verifier::external_type_specification]
pub struct ExFillOptions(lyon_tessellation::FillOptions);

/// `lyon_tessellation::StrokeOptions`, with its public fields.
#[verifier::external_type_specification]
pub struct ExStrokeOptions(lyon_tessellation::StrokeOptions);

/// `Clone` of the tessellator's fill options, derived on a `Copy` type: the
/// copy has the fields of what was copied.
pub assume_specification[ <lyon_tessellation::FillOptions as Clone>::clone ](
    options: &lyon_tessellation::FillOptions,
) -> (copy: lyon_tessellation::FillOptions)
    ensures
        copy == *options,
;

/// `Clone` of the tessellator's stroke options, derived on a `Copy` type: the
/// copy has the fields of what was copied.
pub assume_specification[ <lyon_tessellation::StrokeOptions as Clone>::clone ](
    options: &lyon_tessellation::StrokeOptions,
) -> (copy: lyon_tessellation::StrokeOptions)
    ensures
        copy == *options,
;

/// `to_bits` of std on the tolerance of fill options: its bits, as they
/// are.
#[verifier::external_body]
fn fill_tolerance_bits(options: &FillOptions) -> (bits: u32)
    ensures
        bits == options.tolerance.to_bits_spec(),
{
    options.tolerance.to_bits()
}

/// `to_bits` of std on the line width, the miter limit and the tolerance of
/// stroke options, in this order: their bits, as they are.
#[verifier::external_body]
fn stroke_measure_bits(options: &StrokeOptions) -> (bits: [u32; 3])
    ensures
        bits[0] == options.line_width.to_bits_spec(),
        bits[1] == options.miter_limit.to_bits_spec(),
        bits[2] == options.tolerance.to_bits_spec(),
{
    [options.line_width.to_bits(), options.miter_limit.to_bits(), options.tolerance.to_bits()]
}

/// `FillOptions::default()`, which returns the constant `FillOptions::DEFAULT`:
/// a tolerance of a tenth, the even-odd rule, a vertical sweep, and
/// intersections handled.
#[verifier::external_body]
fn default_fill_options() -> (options: FillOptions)
    ensures
        options.tolerance.to_bits_spec() == 0x3DCC_CCCD,
        options.fill_rule == lyon_tessellation::FillRule::EvenOdd,
        options.sweep_orientation == lyon_tessellation::Orientation::Vertical,
        options.handle_intersections,
{
    FillOptions::default()
}

/// `StrokeOptions::default()`, which returns the constant
/// `StrokeOptions::DEFAULT`: butt caps, miter joins, a line width of one for
/// the whole path, a miter limit of four and a tolerance of a tenth.
#[verifier::external_body]
fn default_stroke_options() -> (options: StrokeOptions)
    ensures
        options.line_width.to_bits_spec() == 0x3F80_0000,
        options.miter_limit.to_bits_spec() == 0x4080_0000,
        options.tolerance.to_bits_spec() == 0x3DCC_CCCD,
        options.start_cap == lyon_tessellation::LineCap::Butt,
        options.end_cap == lyon_tessellation::LineCap::Butt,
        options.line_join == lyon_tessellation::LineJoin::Miter,
        options.variable_line_width is None,
{
    StrokeOptions::default()
}

/// Fills a shape: the tessellator's fill options, handed on untouched, and
/// the brush that colours the vertices.
#[derive(Clone, Debug, PartialEq)]
pub struct Fill {
    pub options: FillOptions,
    pub brush: Brush,
}

impl Fill {
    /// Whether the fill can be handed to the tessellator. With the handling
    /// of intersections switched off the tessellator may panic on an outline
    /// that crosses itself, and an outline does not show whether it does.
    /// The tolerance is to be a positive number that fixed point holds: one
    /// that is no number, or none, leaves the flattening of curves without
    /// an end.
    pub open spec fn tessellable(&self) -> bool {
        &&& self.options.handle_intersections
        &&& measure_from(self.options.tolerance.to_bits_spec(), 111)
    }

    /// Tells whether the fill can be handed to the tessellator.
    pub fn is_tessellable(&self) -> (r: bool)
        ensures
            r == self.tessellable(),
    {
        self.options.handle_intersections && is_measure_from(
            fill_tolerance_bits(&self.options),
            111,
        )
    }

    /// A fill with the tessellator's default options, by anything that
    /// converts into a brush.
    #[must_use]
    pub fn brush<B: Into<Brush>>(brush: B) -> (fill: Self)
        ensures
            B::obeys_into_spec() ==> fill.brush == brush.into_spec(),
            fill.options.tolerance.to_bits_spec() == 0x3DCC_CCCD,
            fill.options.fill_rule == lyon_tessellation::FillRule::EvenOdd,
            fill.options.sweep_orientation == lyon_tessellation::Orientation::Vertical,
            fill.tessellable(),
    {
        Self { options: default_fill_options(), brush: brush.into() }
    }

    /// A fill by `brush` with the tessellator's default options.
    #[must_use]
    pub fn with_brush(brush: Brush) -> (fill: Self)
        ensures
            fill.brush == brush,
            fill.options.tolerance.to_bits_spec() == 0x3DCC_CCCD,
            fill.options.fill_rule == lyon_tessellation::FillRule::EvenOdd,
            fill.options.sweep_orientation == lyon_tessellation::Orientation::Vertical,
            fill.tessellable(),
    {
        Self { options: default_fill_options(), brush }
    }
}

/// Strokes a shape: the tessellator's stroke options, handed on untouched,
/// and the brush that colours the vertices.
#[derive(Clone, Debug, PartialEq)]
pub struct Stroke {
    pub options: StrokeOptions,
    pub brush: Brush,
}

impl Stroke {
    /// Whether the stroke can be handed to the tessellator. A line width
    /// read from a custom attribute makes the tessellator index the
    /// attributes of the outline, and an outline does not show how many it
    /// has. The line width and the tolerance are to be positive numbers that
    /// fixed point holds, and the miter limit such a number of at least one:
    /// the tessellator asserts that what it computes from them are numbers.
    pub open spec fn tessellable(&self) -> bool {
        &&& self.options.variable_line_width is None
        &&& measure_from(self.options.line_width.to_bits_spec(), 111)
        &&& measure_from(self.options.miter_limit.to_bits_spec(), 127)
        &&& measure_from(self.options.tolerance.to_bits_spec(), 111)
    }

    /// Tells whether the stroke can be handed to the tessellator.
    pub fn is_tessellable(&self) -> (r: bool)
        ensures
            r == self.tessellable(),
    {
        let bits: [u32; 3] = stroke_measure_bits(&self.options);
        self.options.variable_line_width.is_none() && is_measure_from(bits[0], 111)
            && is_measure_from(bits[1], 127) && is_measure_from(bits[2], 111)
    }

    /// A stroke with the given options, which carry the line width, by
    /// anything that converts into a brush.
    #[must_use]
    pub fn new<B: Into<Brush>>(brush: B, options: StrokeOptions) -> (stroke: Self)
        ensures
            B::obeys_into_spec() ==> stroke.brush == brush.into_spec(),
            stroke.options == options,
    {
        Self { options, brush: brush.into() }
    }

    /// A stroke by `brush` with the given options, which carry the line
    /// width.
    #[must_use]
    pub fn with_brush(brush: Brush, options: StrokeOptions) -> (stroke: Self)
        ensures
            stroke.brush == brush,
            stroke.options == options,
    {
        Self { options, brush }
    }

    /// A stroke of a flat colour with the tessellator's default options.
    #[must_use]
    pub fn color(color: Color) -> (stroke: Self)
        ensures
            stroke.brush == Brush::Color(color),
            stroke.options.line_width.to_bits_spec() == 0x3F80_0000,
            stroke.options.miter_limit.to_bits_spec() == 0x4080_0000,
            stroke.options.tolerance.to_bits_spec() == 0x3DCC_CCCD,
            stroke.options.start_cap == lyon_tessellation::LineCap::Butt,
            stroke.options.end_cap == lyon_tessellation::LineCap::Butt,
            stroke.options.line_join == lyon_tessellation::LineJoin::Miter,
            stroke.tessellable(),
    {
        Self { options: default_stroke_options(), brush: Brush::Color(color) }
    }
}

} // verus!
