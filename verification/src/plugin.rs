//! Meshing a shape: tessellating its outline for fill and stroke, shading
//! the vertices, and assembling the mesh and its material.

use vstd::prelude::*;
use vstd::float::FloatBitsProperties;
use lyon_tessellation::{BuffersBuilder, FillOptions, FillTessellator, FillVertex};
use lyon_tessellation::{StrokeOptions, StrokeTessellator, StrokeVertex, TessellationError};
use crate::brush::{Brush, Brusher};
use crate::draw::{Fill, Stroke};
use crate::entity::{drawable, is_drawable, straight};
use crate::math::Color;
use crate::render::GradientMaterial;
use crate::single::measure_from;
use crate::vertex::{shaded_vertex, RawGeometry, Vertex, VertexBuffers};

verus! {

/// `lyon_tessellation::FillTessellator`, opaque: it is only handed on.
#[verifier::external_type_specification]
#[verifier::external_body]
pub struct ExFillTessellator(lyon_tessellation::FillTessellator);

/// `lyon_tessellation::StrokeTessellator`, opaque: it is only handed on.
#[verifier::external_type_specification]
#[verifier::external_body]
pub struct ExStrokeTessellator(lyon_tessellation::StrokeTessellator);

/// `lyon_tessellation::TessellationError`, opaque: the library hands it on as
/// the cause of a failed pass.
#[verifier::external_type_specification]
#[verifier::external_body]
pub struct ExTessellationError(lyon_tessellation::TessellationError);

/// `Clone` of the tessellator's error, derived: the copy is the error that
/// was copied.
pub assume_specification[ <lyon_tessellation::TessellationError as Clone>::clone ](
    cause: &lyon_tessellation::TessellationError,
) -> (copy: lyon_tessellation::TessellationError)
    ensures
        copy == *cause,
;

/// `FillTessellator::new`: a fresh fill tessellator. Nothing is claimed of it.
#[verifier::external_body]
fn new_fill_tessellator() -> (tess: FillTessellator) {
    FillTessellator::new()
}

/// `StrokeTessellator::new`: a fresh stroke tessellator. Nothing is claimed
/// of it.
#[verifier::external_body]
fn new_stroke_tessellator() -> (tess: StrokeTessellator) {
    StrokeTessellator::new()
}

/// What the fill tessellator makes of an outline of straight edges under
/// the given options.
pub uninterp spec fn fill_tessellation(
    path: lyon_tessellation::path::Path,
    options: lyon_tessellation::FillOptions,
) -> Result<RawGeometry, lyon_tessellation::TessellationError>;

/// What the stroke tessellator makes of an outline of straight edges under
/// the given options, where they ask for no round cap or join.
pub uninterp spec fn stroke_tessellation(
    path: lyon_tessellation::path::Path,
    options: lyon_tessellation::StrokeOptions,
) -> Result<RawGeometry, lyon_tessellation::TessellationError>;

/// Whether the options ask for no round cap and no round join. Round ones are
/// made with functions whose precision differs from one machine to another.
pub open spec fn angular(options: StrokeOptions) -> bool {
    &&& options.start_cap != lyon_tessellation::LineCap::Round
    &&& options.end_cap != lyon_tessellation::LineCap::Round
    &&& options.line_join != lyon_tessellation::LineJoin::Round
}

/// `FillTessellator::tessellate_path` into buffers of its own, through a
/// `BuffersBuilder` that keeps the bits of each position.
///
/// Left out are options that switch off the handling of intersections, with
/// which the tessellator may panic on an outline that crosses itself; a
/// tolerance that is no positive number; and outlines with a point that is no
/// number or lies beyond the canvas, on which the tessellator fails its own
/// assertions.
///
/// The tessellator starts each call from a clean state and, on straight
/// edges, computes with the four operations and the square root alone, so
/// there the result is a function of outline and options. Nothing is claimed
/// of which geometry that is, and nothing at all of an outline with curves,
/// which are flattened with functions of unspecified precision: what the
/// tessellator emits is checked where it is used.
#[verifier::external_body]
fn fill_geometry(
    tess: &mut FillTessellator,
    path: &lyon_tessellation::path::Path,
    options: &FillOptions,
) -> (r: Result<RawGeometry, TessellationError>)
    requires
        options.handle_intersections,
        measure_from(options.tolerance.to_bits_spec(), 111),
        drawable(*path),
    ensures
        straight(*path) ==> r == fill_tessellation(*path, *options),
{
    let mut out: lyon_tessellation::VertexBuffers<[u32; 2], u32> =
        lyon_tessellation::VertexBuffers::new();
    let made = tess.tessellate_path(
        path,
        options,
        &mut BuffersBuilder::new(&mut out, |v: FillVertex| {
            [v.position().x.to_bits(), v.position().y.to_bits()]
        }),
    );
    made.map(|_| RawGeometry { positions: out.vertices, indices: out.indices })
}

/// `StrokeTessellator::tessellate_path` into buffers of its own, through a
/// `BuffersBuilder` that keeps the bits of each position.
///
/// Left out are options that read the line width from a custom attribute,
/// with which the tessellator indexes the attributes of the outline and
/// panics where it has too few; a line width, miter limit or tolerance that
/// is no positive number; and outlines with a point that is no number or
/// lies beyond the canvas, on which the tessellator fails its own assertions.
///
/// The tessellator clears its buffers in each call and, on straight edges
/// without round caps or joins, computes with the four operations and the
/// square root alone, so there the result is a function of outline and
/// options. Nothing is claimed of which geometry that is, and nothing at all
/// of curves and round caps or joins, which are made with functions of
/// unspecified precision.
#[verifier::external_body]
fn stroke_geometry(
    tess: &mut StrokeTessellator,
    path: &lyon_tessellation::path::Path,
    options: &StrokeOptions,
) -> (r: Result<RawGeometry, TessellationError>)
    requires
        options.variable_line_width is None,
        measure_from(options.line_width.to_bits_spec(), 111),
        measure_from(options.miter_limit.to_bits_spec(), 127),
        measure_from(options.tolerance.to_bits_spec(), 111),
        drawable(*path),
    ensures
        straight(*path) && angular(*options) ==> r == stroke_tessellation(*path, *options),
{
    let mut out: lyon_tessellation::VertexBuffers<[u32; 2], u32> =
        lyon_tessellation::VertexBuffers::new();
    let made = tess.tessellate_path(
        path,
        options,
        &mut BuffersBuilder::new(&mut out, |v: StrokeVertex| {
            [v.position().x.to_bits(), v.position().y.to_bits()]
        }),
    );
    made.map(|_| RawGeometry { positions: out.vertices, indices: out.indices })
}

/// How a tessellation pass ended.
#[derive(Clone, Debug, PartialEq)]
pub enum Outcome {
    /// The geometry was shaded and appended.
    Done,
    /// The tessellator gave up on the outline, for the reason it gave; the
    /// buffers are as before.
    EngineFailed(TessellationError),
    /// The tessellator's geometry was no triangle list, or too large to be
    /// indexed; the buffers are as before.
    Malformed,
}

/// Whether `after` is `before` followed by a triangle list of its own whose
/// vertices have the colour of `brush` at their position.
pub open spec fn extended_by(before: VertexBuffers, after: VertexBuffers, brush: Brush) -> bool {
    let v0 = before.vertices@.len() as int;
    let i0 = before.indices@.len() as int;
    &&& v0 <= after.vertices@.len()
    &&& i0 <= after.indices@.len()
    &&& after.vertices@.take(v0) == before.vertices@
    &&& after.indices@.take(i0) == before.indices@
    &&& (after.indices@.len() - i0) % 3 == 0
    &&& forall|k: int|
        v0 <= k < after.vertices@.len() ==> #[trigger] after.vertices@[k] == shaded_vertex(
            brush,
            after.vertices@[k].position,
        )
    &&& forall|k: int|
        i0 <= k < after.indices@.len() ==> v0 <= #[trigger] after.indices@[k]
            < after.vertices@.len()
}

/// Appending geometry that fits extends the buffers.
pub proof fn lemma_append_extends(
    before: VertexBuffers,
    after: VertexBuffers,
    geometry: RawGeometry,
    brush: Brush,
)
    requires
        geometry.fits(before.vertices@.len() as int),
        after.vertices@ == before.vertices@ + geometry.shaded(brush),
        after.indices@ == before.indices@ + geometry.shifted(before.vertices@.len() as int),
    ensures
        extended_by(before, after, brush),
        before.wf() ==> after.wf(),
{
    let v0 = before.vertices@.len() as int;
    let i0 = before.indices@.len() as int;
    assert(after.vertices@.take(v0) =~= before.vertices@);
    assert(after.indices@.take(i0) =~= before.indices@);
    assert forall|k: int| i0 <= k < after.indices@.len() implies v0 <= #[trigger] after.indices@[k]
        < after.vertices@.len() by {
        assert(after.indices@[k] == geometry.shifted(v0)[k - i0]);
        assert(geometry.indices@[k - i0] < geometry.positions@.len());
    }
    if before.wf() {
        assert forall|k: int| 0 <= k < after.indices@.len() implies (#[trigger] after.indices@[k])
            < after.vertices@.len() by {
            if k < i0 {
                assert(after.indices@[k] == before.indices@[k]);
            }
        }
    }
}

/// What a pass leaves behind. Whatever the tessellator returned, the
/// buffers are extended by geometry shaded with `brush` or stay as they are,
/// and end as a triangle list if they began as one. Where the result of the
/// tessellator is known by name, it settles the outcome and the buffers.
pub open spec fn pass_result(
    before: VertexBuffers,
    after: VertexBuffers,
    outcome: Outcome,
    brush: Brush,
    named: Option<Result<RawGeometry, TessellationError>>,
) -> bool {
    &&& outcome == Outcome::Done ==> extended_by(before, after, brush)
    &&& outcome != Outcome::Done ==> after.vertices@ == before.vertices@
    &&& outcome != Outcome::Done ==> after.indices@ == before.indices@
    &&& before.wf() ==> after.wf()
    &&& named matches Some(made) ==> {
        &&& outcome == outcome_of(made, before.vertices@.len() as int)
        &&& outcome == Outcome::Done ==> after.vertices@ == before.vertices@ + made->Ok_0.shaded(
            brush,
        )
        &&& outcome == Outcome::Done ==> after.indices@ == before.indices@ + made->Ok_0.shifted(
            before.vertices@.len() as int,
        )
    }
}

/// A pass whose result has a name is repeatable: run twice behind buffers
/// of equal content, with the same brush, it ends alike and leaves buffers
/// of equal content.
pub proof fn lemma_pass_repeats(
    before: VertexBuffers,
    first: VertexBuffers,
    first_outcome: Outcome,
    again_before: VertexBuffers,
    again: VertexBuffers,
    again_outcome: Outcome,
    brush: Brush,
    made: Result<RawGeometry, TessellationError>,
)
    requires
        before.vertices@ == again_before.vertices@,
        before.indices@ == again_before.indices@,
        pass_result(before, first, first_outcome, brush, Some(made)),
        pass_result(again_before, again, again_outcome, brush, Some(made)),
    ensures
        first_outcome == again_outcome,
        first.vertices@ == again.vertices@,
        first.indices@ == again.indices@,
{
}

/// The result of the fill tessellator where it has a name: on an outline of
/// straight edges.
pub open spec fn fill_named(path: lyon_tessellation::path::Path, options: FillOptions) -> Option<
    Result<RawGeometry, TessellationError>,
> {
    if straight(path) {
        Some(fill_tessellation(path, options))
    } else {
        None
    }
}

/// The result of the stroke tessellator where it has a name: on an outline
/// of straight edges, without round caps or joins.
pub open spec fn stroke_named(path: lyon_tessellation::path::Path, options: StrokeOptions) -> Option<
    Result<RawGeometry, TessellationError>,
> {
    if straight(path) && angular(options) {
        Some(stroke_tessellation(path, options))
    } else {
        None
    }
}

/// Tessellates the fill of `path` and appends it to `buffers`, each vertex
/// coloured by the brush of `mode`. On an outline of straight edges the
/// outcome and the buffers are those that the tessellation settles; on any
/// outline the buffers end as a triangle list if they began as one.
pub fn fill(
    tess: &mut FillTessellator,
    path: &lyon_tessellation::path::Path,
    mode: &Fill,
    buffers: &mut VertexBuffers,
) -> (outcome: Outcome)
    requires
        mode.tessellable(),
        mode.brush.ready(),
        drawable(*path),
    ensures
        pass_result(
            *old(buffers),
            *final(buffers),
            outcome,
            mode.brush,
            fill_named(*path, mode.options),
        ),
{
    let made = fill_geometry(tess, path, &mode.options);
    settle(buffers, made, &mode.brush)
}

/// Tessellates the fill like `fill`, after testing what `fill` requires.
/// Where the test fails nothing is tessellated and the buffers stay as they
/// are.
pub fn try_fill(
    tess: &mut FillTessellator,
    path: &lyon_tessellation::path::Path,
    mode: &Fill,
    buffers: &mut VertexBuffers,
) -> (outcome: Option<Outcome>)
    ensures
        outcome is Some <==> mode.tessellable() && mode.brush.ready() && drawable(*path),
        outcome is None ==> final(buffers).vertices@ == old(buffers).vertices@,
        outcome is None ==> final(buffers).indices@ == old(buffers).indices@,
        outcome matches Some(ended) ==> pass_result(
            *old(buffers),
            *final(buffers),
            ended,
            mode.brush,
            fill_named(*path, mode.options),
        ),
{
    if mode.is_tessellable() && mode.brush.is_ready() && is_drawable(path) {
        Some(fill(tess, path, mode, buffers))
    } else {
        None
    }
}

/// Tessellates the stroke of `path` and appends it to `buffers`, each vertex
/// coloured by the brush of `mode`. On an outline of straight edges without
/// round caps or joins the outcome and the buffers are those that the
/// tessellation settles; on any outline the buffers end as a triangle list if
/// they began as one.
pub fn stroke(
    tess: &mut StrokeTessellator,
    path: &lyon_tessellation::path::Path,
    mode: &Stroke,
    buffers: &mut VertexBuffers,
) -> (outcome: Outcome)
    requires
        mode.tessellable(),
        mode.brush.ready(),
        drawable(*path),
    ensures
        pass_result(
            *old(buffers),
            *final(buffers),
            outcome,
            mode.brush,
            stroke_named(*path, mode.options),
        ),
{
    let made = stroke_geometry(tess, path, &mode.options);
    settle(buffers, made, &mode.brush)
}

/// Tessellates the stroke like `stroke`, after testing what `stroke`
/// requires. Where the test fails nothing is tessellated and the buffers stay
/// as they are.
pub fn try_stroke(
    tess: &mut StrokeTessellator,
    path: &lyon_tessellation::path::Path,
    mode: &Stroke,
    buffers: &mut VertexBuffers,
) -> (outcome: Option<Outcome>)
    ensures
        outcome is Some <==> mode.tessellable() && mode.brush.ready() && drawable(*path),
        outcome is None ==> final(buffers).vertices@ == old(buffers).vertices@,
        outcome is None ==> final(buffers).indices@ == old(buffers).indices@,
        outcome matches Some(ended) ==> pass_result(
            *old(buffers),
            *final(buffers),
            ended,
            mode.brush,
            stroke_named(*path, mode.options),
        ),
{
    if mode.is_tessellable() && mode.brush.is_ready() && is_drawable(path) {
        Some(stroke(tess, path, mode, buffers))
    } else {
        None
    }
}

/// How a pass ends, given what the tessellator returned and the number of
/// vertices already in the buffers.
pub open spec fn outcome_of(made: Result<RawGeometry, TessellationError>, base: int) -> Outcome {
    match made {
        Err(cause) => Outcome::EngineFailed(cause),
        Ok(geometry) => if geometry.fits(base) {
            Outcome::Done
        } else {
            Outcome::Malformed
        },
    }
}

/// Settles a pass from what the tessellator returned. Where it gave up, the
/// buffers stay as they are; where it returned geometry, the geometry is
/// shaded and appended if it fits and left out whole if it does not.
pub fn settle(
    buffers: &mut VertexBuffers,
    made: Result<RawGeometry, TessellationError>,
    brush: &Brush,
) -> (outcome: Outcome)
    requires
        brush.ready(),
    ensures
        outcome == outcome_of(made, old(buffers).vertices@.len() as int),
        outcome == Outcome::Done ==> made is Ok && final(buffers).vertices@ == old(
            buffers,
        ).vertices@ + made->Ok_0.shaded(*brush),
        outcome == Outcome::Done ==> final(buffers).indices@ == old(buffers).indices@
            + made->Ok_0.shifted(old(buffers).vertices@.len() as int),
        outcome == Outcome::Done ==> extended_by(*old(buffers), *final(buffers), *brush),
        outcome != Outcome::Done ==> final(buffers).vertices@ == old(buffers).vertices@,
        outcome != Outcome::Done ==> final(buffers).indices@ == old(buffers).indices@,
        old(buffers).wf() ==> final(buffers).wf(),
{
    match made {
        Ok(geometry) => shade_onto(buffers, &geometry, brush),
        Err(cause) => Outcome::EngineFailed(cause),
    }
}

/// Shades the geometry of one pass and appends it to `buffers`: all of it
/// where it is a triangle list that fits behind what is there, none of it
/// otherwise.
pub fn shade_onto(buffers: &mut VertexBuffers, geometry: &RawGeometry, brush: &Brush) -> (outcome:
    Outcome)
    requires
        brush.ready(),
    ensures
        outcome == (if geometry.fits(old(buffers).vertices@.len() as int) {
            Outcome::Done
        } else {
            Outcome::Malformed
        }),
        outcome == Outcome::Done ==> final(buffers).vertices@ == old(buffers).vertices@
            + geometry.shaded(*brush),
        outcome == Outcome::Done ==> final(buffers).indices@ == old(buffers).indices@
            + geometry.shifted(old(buffers).vertices@.len() as int),
        outcome == Outcome::Done ==> extended_by(*old(buffers), *final(buffers), *brush),
        outcome != Outcome::Done ==> final(buffers).vertices@ == old(buffers).vertices@,
        outcome != Outcome::Done ==> final(buffers).indices@ == old(buffers).indices@,
        old(buffers).wf() ==> final(buffers).wf(),
{
    let ghost before = *buffers;
    if buffers.append_shaded(geometry, brush) {
        proof {
            lemma_append_extends(before, *buffers, *geometry, *brush);
        }
        Outcome::Done
    } else {
        Outcome::Malformed
    }
}

/// A mesh ready for the renderer: a triangle list with one position and one
/// colour to a vertex. Positions are in space, each coordinate the bits of a
/// single-precision number.
#[derive(Clone, Debug, PartialEq, Eq)]
pub struct Mesh {
    pub positions: Vec<[u32; 3]>,
    pub colors: Vec<Color>,
    pub indices: Vec<u32>,
}

impl Mesh {
    /// Whether the mesh is a triangle list over its own vertices.
    pub open spec fn wf(&self) -> bool {
        &&& self.positions@.len() == self.colors@.len()
        &&& self.indices@.len() % 3 == 0
        &&& forall|i: int| 0 <= i < self.indices@.len() ==> (#[trigger] self.indices@[i]) < self.positions@.len()
    }

    /// Whether the mesh holds just these vertices and indices: every vertex
    /// at its position in the plane `z = 0` with its colour, and the same
    /// indices.
    pub open spec fn holds(&self, vertices: Seq<Vertex>, indices: Seq<u32>) -> bool {
        &&& self.positions@.len() == vertices.len()
        &&& self.colors@.len() == vertices.len()
        &&& forall|i: int|
            0 <= i < vertices.len() ==> {
                &&& (#[trigger] self.positions@[i])[0] == vertices[i].position[0]
                &&& self.positions@[i][1] == vertices[i].position[1]
                &&& self.positions@[i][2] == 0
            }
        &&& forall|i: int| 0 <= i < vertices.len() ==> #[trigger] self.colors@[i] == vertices[i].color
        &&& self.indices@ == indices
    }

    /// Whether the mesh holds just what the buffers hold.
    pub open spec fn built_from(&self, buffers: VertexBuffers) -> bool {
        self.holds(buffers.vertices@, buffers.indices@)
    }
}

/// Assembles the mesh of a triangle list.
pub fn build_mesh(buffers: &VertexBuffers) -> (mesh: Mesh)
    ensures
        mesh.built_from(*buffers),
        buffers.wf() ==> mesh.wf(),
{
    let count: usize = buffers.vertices.len();
    let mut positions: Vec<[u32; 3]> = Vec::new();
    let mut colors: Vec<Color> = Vec::new();
    let mut i: usize = 0;
    while i < count
        invariant
            i <= count,
            count == buffers.vertices@.len(),
            positions@.len() == i,
            colors@.len() == i,
            forall|k: int|
                0 <= k < i ==> {
                    &&& (#[trigger] positions@[k])[0] == buffers.vertices@[k].position[0]
                    &&& positions@[k][1] == buffers.vertices@[k].position[1]
                    &&& positions@[k][2] == 0
                },
            forall|k: int| 0 <= k < i ==> #[trigger] colors@[k] == buffers.vertices@[k].color,
        decreases count - i,
    {
        let vertex: Vertex = buffers.vertices[i];
        positions.push([vertex.position[0], vertex.position[1], 0]);
        colors.push(vertex.color);
        i += 1;
    }
    let total: usize = buffers.indices.len();
    let mut indices: Vec<u32> = Vec::new();
    let mut j: usize = 0;
    while j < total
        invariant
            j <= total,
            total == buffers.indices@.len(),
            indices@ == buffers.indices@.take(j as int),
        decreases total - j,
    {
        indices.push(buffers.indices[j]);
        proof {
            let all = buffers.indices@;
            assert(all.take(j + 1) =~= all.take(j as int).push(all[j as int]));
        }
        j += 1;
    }
    proof {
        assert(buffers.indices@.take(total as int) =~= buffers.indices@);
    }
    Mesh { positions, colors, indices }
}

/// The material of a shape: that of its fill where it has one, else that
/// of its stroke; a shape with neither keeps the material it has.
pub open spec fn material_of(fill: Option<&Fill>, stroke: Option<&Stroke>) -> Option<GradientMaterial> {
    match (fill, stroke) {
        (Some(mode), _) => Some(GradientMaterial { uniform: mode.brush.uniform() }),
        (None, Some(mode)) => Some(GradientMaterial { uniform: mode.brush.uniform() }),
        (None, None) => None,
    }
}

/// Derives the material of a shape from the way it is drawn.
pub fn choose_material(fill: Option<&Fill>, stroke: Option<&Stroke>) -> (material: Option<
    GradientMaterial,
>)
    ensures
        material == material_of(fill, stroke),
{
    match fill {
        Some(mode) => Some(GradientMaterial { uniform: mode.brush.clone_as_uniform() }),
        None => match stroke {
            Some(mode) => Some(GradientMaterial { uniform: mode.brush.clone_as_uniform() }),
            None => None,
        },
    }
}

/// The brush that colours the filled part of a shape: that of its fill, or
/// opaque fuchsia where the shape has neither fill nor stroke, so that it
/// still shows.
pub open spec fn fill_brush_of(fill: Option<&Fill>, stroke: Option<&Stroke>) -> Option<Brush> {
    match (fill, stroke) {
        (Some(mode), _) => Some(mode.brush),
        (None, Some(_)) => None,
        (None, None) => Some(Brush::Color(Color::spec_fuchsia())),
    }
}

/// The brush that colours the stroked part of a shape.
pub open spec fn stroke_brush_of(stroke: Option<&Stroke>) -> Option<Brush> {
    match stroke {
        Some(mode) => Some(mode.brush),
        None => None,
    }
}

/// What a tessellation pass returned, with the brush that shades it.
pub struct Pass<'a> {
    pub made: Result<RawGeometry, TessellationError>,
    pub brush: &'a Brush,
}

/// What the pass returned, if it ran.
pub open spec fn made_by(pass: Option<Pass>) -> Option<Result<RawGeometry, TessellationError>> {
    match pass {
        Some(pass) => Some(pass.made),
        None => None,
    }
}

/// The brush of the pass, if it ran.
pub open spec fn brush_of(pass: Option<Pass>) -> Option<Brush> {
    match pass {
        Some(pass) => Some(*pass.brush),
        None => None,
    }
}

/// The vertices after a pass: those before it, followed by the geometry of
/// the pass, shaded, where the pass ran, returned geometry, and that fits.
pub open spec fn vertices_after(
    vertices: Seq<Vertex>,
    made: Option<Result<RawGeometry, TessellationError>>,
    brush: Option<Brush>,
) -> Seq<Vertex> {
    match made {
        Some(Ok(geometry)) => if geometry.fits(vertices.len() as int) {
            vertices + geometry.shaded(brush->0)
        } else {
            vertices
        },
        _ => vertices,
    }
}

/// The indices after a pass: those before it, followed by the indices of the
/// pass counted from the vertices before it, on the same condition.
pub open spec fn indices_after(
    vertices: Seq<Vertex>,
    indices: Seq<u32>,
    made: Option<Result<RawGeometry, TessellationError>>,
) -> Seq<u32> {
    match made {
        Some(Ok(geometry)) => if geometry.fits(vertices.len() as int) {
            indices + geometry.shifted(vertices.len() as int)
        } else {
            indices
        },
        _ => indices,
    }
}

/// How a pass ended, if it ran, behind `base` vertices.
pub open spec fn pass_outcome(
    base: int,
    made: Option<Result<RawGeometry, TessellationError>>,
) -> Option<Outcome> {
    match made {
        Some(made) => Some(outcome_of(made, base)),
        None => None,
    }
}

/// What meshing a shape gives: its mesh, its material if it is to change,
/// and how each tessellation pass ended, for those that ran.
#[derive(Clone, Debug, PartialEq)]
pub struct ShapeMesh {
    pub mesh: Mesh,
    pub material: Option<GradientMaterial>,
    pub fill: Option<Outcome>,
    pub stroke: Option<Outcome>,
}

impl ShapeMesh {
    /// Whether this is what the results of the two passes, their brushes
    /// and the material make: the mesh of the fill pass followed by the
    /// stroke pass, both starting from nothing, with the outcome of each.
    pub open spec fn made_from(
        &self,
        filled: Option<Result<RawGeometry, TessellationError>>,
        fill_brush: Option<Brush>,
        stroked: Option<Result<RawGeometry, TessellationError>>,
        stroke_brush: Option<Brush>,
        material: Option<GradientMaterial>,
    ) -> bool {
        let after_fill = vertices_after(Seq::empty(), filled, fill_brush);
        &&& self.mesh.holds(
            vertices_after(after_fill, stroked, stroke_brush),
            indices_after(after_fill, indices_after(Seq::empty(), Seq::empty(), filled), stroked),
        )
        &&& self.material == material
        &&& self.fill == pass_outcome(0, filled)
        &&& self.stroke == pass_outcome(after_fill.len() as int, stroked)
    }

    /// Whether this is what the two passes and the material make.
    pub open spec fn assembled_from(
        &self,
        filled: Option<Pass>,
        stroked: Option<Pass>,
        material: Option<GradientMaterial>,
    ) -> bool {
        self.made_from(
            made_by(filled),
            brush_of(filled),
            made_by(stroked),
            brush_of(stroked),
            material,
        )
    }

    /// Whether the first `split` vertices have the colour of `first` at their
    /// position and the others that of `second`.
    pub open spec fn shaded_in_two(&self, split: int, first: Option<Brush>, second: Option<Brush>) -> bool {
        &&& 0 <= split <= self.mesh.positions@.len()
        &&& first is None ==> split == 0
        &&& second is None ==> split == self.mesh.positions@.len()
        &&& forall|k: int|
            0 <= k < split ==> #[trigger] self.mesh.colors@[k] == first->0.paint(
                crate::vertex::shading_point(
                    [self.mesh.positions@[k][0], self.mesh.positions@[k][1]],
                ),
            )
        &&& forall|k: int|
            split <= k < self.mesh.positions@.len() ==> #[trigger] self.mesh.colors@[k]
                == second->0.paint(
                crate::vertex::shading_point(
                    [self.mesh.positions@[k][0], self.mesh.positions@[k][1]],
                ),
            )
    }
}

/// Assembles the mesh of a shape from what its passes returned. Each pass
/// that returned geometry which fits is shaded by its brush and appended,
/// the fill before the stroke, to buffers that start empty; any other pass
/// leaves nothing behind.
pub fn assemble_shape(
    filled: Option<Pass>,
    stroked: Option<Pass>,
    material: Option<GradientMaterial>,
) -> (shape: ShapeMesh)
    requires
        filled matches Some(pass) ==> pass.brush.ready(),
        stroked matches Some(pass) ==> pass.brush.ready(),
    ensures
        shape.assembled_from(filled, stroked, material),
        shape.mesh.wf(),
{
    let mut buffers = VertexBuffers::new();
    let fill_outcome: Option<Outcome> = match filled {
        Some(Pass { made, brush }) => Some(settle(&mut buffers, made, brush)),
        None => None,
    };
    assert(buffers.vertices@ == vertices_after(Seq::empty(), made_by(filled), brush_of(filled)));
    assert(buffers.indices@ == indices_after(Seq::empty(), Seq::empty(), made_by(filled)));
    let stroke_outcome: Option<Outcome> = match stroked {
        Some(Pass { made, brush }) => Some(settle(&mut buffers, made, brush)),
        None => None,
    };
    let mesh = build_mesh(&buffers);
    ShapeMesh { mesh, material, fill: fill_outcome, stroke: stroke_outcome }
}

/// In an assembled shape the vertices of the fill pass come first, each with
/// the colour of the fill brush at its position, and those of the stroke
/// pass follow, each with the colour of the stroke brush at its position.
pub proof fn lemma_assembled_is_shaded(
    shape: ShapeMesh,
    filled: Option<Pass>,
    stroked: Option<Pass>,
    material: Option<GradientMaterial>,
)
    requires
        shape.assembled_from(filled, stroked, material),
    ensures
        shape.shaded_in_two(
            vertices_after(Seq::empty(), made_by(filled), brush_of(filled)).len() as int,
            brush_of(filled),
            brush_of(stroked),
        ),
        shape.fill != Some(Outcome::Done) && shape.stroke != Some(Outcome::Done)
            ==> shape.mesh.positions@.len() == 0 && shape.mesh.indices@.len() == 0,
{
    let first = vertices_after(Seq::empty(), made_by(filled), brush_of(filled));
    let all = vertices_after(first, made_by(stroked), brush_of(stroked));
    assert forall|k: int| 0 <= k < all.len() implies [
        shape.mesh.positions@[k][0],
        shape.mesh.positions@[k][1],
    ] == all[k].position by {
        let a = [shape.mesh.positions@[k][0], shape.mesh.positions@[k][1]];
        assert(a@ =~= all[k].position@);
    }
    assert forall|k: int| 0 <= k < first.len() implies all[k] == first[k] && first[k]
        == shaded_vertex(*filled->0.brush, first[k].position) by {}
    assert forall|k: int| first.len() <= k < all.len() implies all[k] == shaded_vertex(
        *stroked->0.brush,
        all[k].position,
    ) by {}
}

/// Whether these are the tessellator's own fill options.
pub open spec fn default_fill(options: FillOptions) -> bool {
    &&& options.tolerance.to_bits_spec() == 0x3DCC_CCCD
    &&& options.fill_rule == lyon_tessellation::FillRule::EvenOdd
    &&& options.sweep_orientation == lyon_tessellation::Orientation::Vertical
    &&& options.handle_intersections
}

/// The options that the fill pass of a shape runs under, if it runs: those of
/// its fill, or `fallback` where the shape has neither fill nor stroke.
pub open spec fn fill_options_of(
    fill: Option<&Fill>,
    stroke: Option<&Stroke>,
    fallback: FillOptions,
) -> Option<FillOptions> {
    match (fill, stroke) {
        (Some(mode), _) => Some(mode.options),
        (None, Some(_)) => None,
        (None, None) => Some(fallback),
    }
}

/// Whether the results of all the passes of a shape have a name: its outline
/// is made of straight edges, and its stroke asks for no round cap or join.
pub open spec fn reproducible(
    path: lyon_tessellation::path::Path,
    stroke: Option<&Stroke>,
) -> bool {
    &&& straight(path)
    &&& stroke matches Some(mode) ==> angular(mode.options)
}

/// Whether `shape` is the mesh of the shape so drawn. Its material is that
/// of its fill, else of its stroke. Its vertices are those of the fill pass,
/// each with the colour of the fill brush at its own position, followed by
/// those of the stroke pass, each with the colour of the stroke brush. Where
/// the results of the passes have a name, the shape is just what they make.
pub open spec fn meshed(
    shape: ShapeMesh,
    path: lyon_tessellation::path::Path,
    fill: Option<&Fill>,
    stroke: Option<&Stroke>,
) -> bool {
    &&& shape.mesh.wf()
    &&& shape.material == material_of(fill, stroke)
    &&& shape.fill is Some <==> fill_brush_of(fill, stroke) is Some
    &&& shape.stroke is Some <==> stroke is Some
    &&& exists|split: int|
        #[trigger] shape.shaded_in_two(split, fill_brush_of(fill, stroke), stroke_brush_of(stroke))
    &&& shape.fill != Some(Outcome::Done) && shape.stroke != Some(Outcome::Done)
        ==> shape.mesh.positions@.len() == 0 && shape.mesh.indices@.len() == 0
    &&& reproducible(path, stroke) ==> exists|fallback: FillOptions| #[trigger]
        default_fill(fallback) && shape.made_from(
            match fill_options_of(fill, stroke, fallback) {
                Some(options) => Some(fill_tessellation(path, options)),
                None => None,
            },
            fill_brush_of(fill, stroke),
            match stroke {
                Some(mode) => Some(stroke_tessellation(path, mode.options)),
                None => None,
            },
            stroke_brush_of(stroke),
            material_of(fill, stroke),
        )
}

/// Meshes one shape: tessellates its fill, then its stroke, into one triangle
/// list and derives its material. A shape with neither fill nor stroke is
/// filled in opaque fuchsia under the tessellator's own options. A pass that
/// fails leaves no geometry behind.
pub fn mesh_shape(
    fill_tess: &mut FillTessellator,
    stroke_tess: &mut StrokeTessellator,
    path: &lyon_tessellation::path::Path,
    maybe_fill: Option<&Fill>,
    maybe_stroke: Option<&Stroke>,
) -> (shape: ShapeMesh)
    requires
        maybe_fill matches Some(mode) ==> mode.tessellable() && mode.brush.ready(),
        maybe_stroke matches Some(mode) ==> mode.tessellable() && mode.brush.ready(),
        drawable(*path),
    ensures
        meshed(shape, *path, maybe_fill, maybe_stroke),
{
    let fallback = Fill::brush(Color::fuchsia());
    let filled: Option<Pass> = match maybe_fill {
        Some(mode) => Some(
            Pass { made: fill_geometry(fill_tess, path, &mode.options), brush: &mode.brush },
        ),
        None => None,
    };
    let stroked: Option<Pass> = match maybe_stroke {
        Some(mode) => Some(
            Pass { made: stroke_geometry(stroke_tess, path, &mode.options), brush: &mode.brush },
        ),
        None => None,
    };
    let filled: Option<Pass> = if maybe_fill.is_none() && maybe_stroke.is_none() {
        Some(
            Pass { made: fill_geometry(fill_tess, path, &fallback.options), brush: &fallback.brush },
        )
    } else {
        filled
    };
    let material = choose_material(maybe_fill, maybe_stroke);
    let shape = assemble_shape(filled, stroked, material);
    proof {
        lemma_assembled_is_shaded(shape, filled, stroked, material);
        assert(shape.shaded_in_two(
            vertices_after(Seq::empty(), made_by(filled), brush_of(filled)).len() as int,
            fill_brush_of(maybe_fill, maybe_stroke),
            stroke_brush_of(maybe_stroke),
        ));
        if reproducible(*path, maybe_stroke) {
            assert(default_fill(fallback.options));
            assert(shape.made_from(
                match fill_options_of(maybe_fill, maybe_stroke, fallback.options) {
                    Some(options) => Some(fill_tessellation(*path, options)),
                    None => None,
                },
                fill_brush_of(maybe_fill, maybe_stroke),
                match maybe_stroke {
                    Some(mode) => Some(stroke_tessellation(*path, mode.options)),
                    None => None,
                },
                stroke_brush_of(maybe_stroke),
                material_of(maybe_fill, maybe_stroke),
            ));
        }
    }
    shape
}

/// Meshes one shape like `mesh_shape`, after testing what `mesh_shape`
/// requires. Where the test fails nothing is tessellated and there is no
/// mesh.
pub fn try_mesh_shape(
    fill_tess: &mut FillTessellator,
    stroke_tess: &mut StrokeTessellator,
    path: &lyon_tessellation::path::Path,
    maybe_fill: Option<&Fill>,
    maybe_stroke: Option<&Stroke>,
) -> (meshing: Option<ShapeMesh>)
    ensures
        meshing is Some <==> {
            &&& maybe_fill matches Some(mode) ==> mode.tessellable() && mode.brush.ready()
            &&& maybe_stroke matches Some(mode) ==> mode.tessellable() && mode.brush.ready()
            &&& drawable(*path)
        },
        meshing matches Some(shape) ==> meshed(shape, *path, maybe_fill, maybe_stroke),
{
    let fill_ok: bool = match maybe_fill {
        Some(mode) => mode.is_tessellable() && mode.brush.is_ready(),
        None => true,
    };
    let stroke_ok: bool = match maybe_stroke {
        Some(mode) => mode.is_tessellable() && mode.brush.is_ready(),
        None => true,
    };
    if fill_ok && stroke_ok && is_drawable(path) {
        Some(mesh_shape(fill_tess, stroke_tess, path, maybe_fill, maybe_stroke))
    } else {
        None
    }
}

/// Sets up shape meshing: owns nothing itself and hands out the tessellators
/// that the meshing passes reuse.
pub struct ShapePlugin;

impl ShapePlugin {
    /// Makes the fill and the stroke tessellator that meshing will reuse.
    pub fn build(&self) -> (tessellators: (FillTessellator, StrokeTessellator)) {
        (new_fill_tessellator(), new_stroke_tessellator())
    }
}

/// The label of the step that meshes new and changed shapes.
#[derive(Clone, Copy, Debug, PartialEq, Eq, Hash)]
pub struct BuildShapes;

} // verus!
