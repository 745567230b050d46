//! The outline of a shape.

use vstd::prelude::*;
use lyon_tessellation::path::PathEvent;
use crate::single::{is_on_canvas, on_canvas};

verus! {

/// `lyon_tessellation::path::Path`, opaque: it is only handed on.
#[verifier::external_type_specification]
#[verifier::external_body]
pub struct ExOutline(lyon_tessellation::path::Path);

/// The outline of a shape: a path of the tessellator, carried as it is.
pub struct ShapePath(pub lyon_tessellation::path::Path);

/// The kind of one event of an outline.
#[derive(Clone, Copy, Debug, PartialEq, Eq, Structural)]
pub enum EdgeKind {
    Begin,
    Line,
    Quadratic,
    Cubic,
    End,
}

/// The points that the events of an outline name, in the order of the
/// events: for each one its control points, then the point it leads to. Each
/// coordinate is the bits of a single-precision number.
pub uninterp spec fn outline_points(path: lyon_tessellation::path::Path) -> Seq<[u32; 2]>;

/// The kinds of the events of an outline, in their order.
pub uninterp spec fn outline_kinds(path: lyon_tessellation::path::Path) -> Seq<EdgeKind>;

/// `Path::iter`, which walks the events of the path, handing out the points
/// that each event names: `at` of `Begin`, `to` of `Line`, `ctrl` and `to` of
/// `Quadratic`, `ctrl1`, `ctrl2` and `to` of `Cubic`, none of `End`. The
/// points an event repeats from the one before it (`from`, `last`, `first`)
/// are left out. Custom attributes are not part of the events.
#[verifier::external_body]
fn outline_points_of(path: &lyon_tessellation::path::Path) -> (points: Vec<[u32; 2]>)
    ensures
        points@ == outline_points(*path),
{
    let mut points = Vec::new();
    for event in path.iter() {
        match event {
            PathEvent::Begin { at } => points.push(at),
            PathEvent::Line { to, .. } => points.push(to),
            PathEvent::Quadratic { ctrl, to, .. } => points.extend([ctrl, to]),
            PathEvent::Cubic { ctrl1, ctrl2, to, .. } => points.extend([ctrl1, ctrl2, to]),
            PathEvent::End { .. } => {},
        }
    }
    points.iter().map(|p| [p.x.to_bits(), p.y.to_bits()]).collect()
}

/// `Path::iter`, which walks the events of the path, handing out the kind of
/// each event.
#[verifier::external_body]
fn outline_kinds_of(path: &lyon_tessellation::path::Path) -> (kinds: Vec<EdgeKind>)
    ensures
        kinds@ == outline_kinds(*path),
{
    path.iter().map(|event| match event {
        PathEvent::Begin { .. } => EdgeKind::Begin,
        PathEvent::Line { .. } => EdgeKind::Line,
        PathEvent::Quadratic { .. } => EdgeKind::Quadratic,
        PathEvent::Cubic { .. } => EdgeKind::Cubic,
        PathEvent::End { .. } => EdgeKind::End,
    }).collect()
}

/// Whether every coordinate of the points is a number on the canvas.
pub open spec fn points_on_canvas(points: Seq<[u32; 2]>) -> bool {
    forall|i: int|
        0 <= i < points.len() ==> on_canvas((#[trigger] points[i])[0]) && on_canvas(points[i][1])
}

/// Whether the outline can be handed to a tessellator: every point it names
/// is a number within the range that fixed point holds. An outline with a
/// point that is no number, or at the far end of single precision, makes the
/// tessellators fail their own assertions.
pub open spec fn drawable(path: lyon_tessellation::path::Path) -> bool {
    points_on_canvas(outline_points(path))
}

/// Whether no event of these kinds is a curve.
pub open spec fn no_curves(kinds: Seq<EdgeKind>) -> bool {
    forall|i: int|
        0 <= i < kinds.len() ==> #[trigger] kinds[i] != EdgeKind::Quadratic && kinds[i]
            != EdgeKind::Cubic
}

/// Whether the outline is made of straight edges alone. Curves are flattened
/// with functions whose precision differs from one machine to another.
pub open spec fn straight(path: lyon_tessellation::path::Path) -> bool {
    no_curves(outline_kinds(path))
}

/// Tells whether the outline can be handed to a tessellator.
pub fn is_drawable(path: &lyon_tessellation::path::Path) -> (r: bool)
    ensures
        r == drawable(*path),
{
    let points = outline_points_of(path);
    let mut i: usize = 0;
    while i < points.len()
        invariant
            i <= points@.len(),
            points@ == outline_points(*path),
            forall|k: int|
                0 <= k < i ==> on_canvas((#[trigger] points@[k])[0]) && on_canvas(points@[k][1]),
        decreases points@.len() - i,
    {
        if !is_on_canvas(points[i][0]) || !is_on_canvas(points[i][1]) {
            return false;
        }
        i += 1;
    }
    true
}

/// Tells whether the outline is made of straight edges alone.
pub fn is_straight(path: &lyon_tessellation::path::Path) -> (r: bool)
    ensures
        r == straight(*path),
{
    let kinds = outline_kinds_of(path);
    let mut i: usize = 0;
    while i < kinds.len()
        invariant
            i <= kinds@.len(),
            kinds@ == outline_kinds(*path),
            forall|k: int|
                0 <= k < i ==> #[trigger] kinds@[k] != EdgeKind::Quadratic && kinds@[k]
                    != EdgeKind::Cubic,
        decreases kinds@.len() - i,
    {
        if kinds[i] == EdgeKind::Quadratic || kinds[i] == EdgeKind::Cubic {
            return false;
        }
        i += 1;
    }
    true
}

} // verus!
