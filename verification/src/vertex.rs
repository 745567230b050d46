//! Vertices and the buffers a tessellation pass fills.

use vstd::prelude::*;
use crate::brush::{Brush, Brusher};
use crate::math::{Color, Point};
use crate::single::{fixed_from_single, fixed_of_single};

verus! {

/// A vertex of a mesh: its position as the tessellator gave it, each
/// coordinate the bits of a single-precision number, and its colour.
#[derive(Clone, Copy, Debug, PartialEq, Eq)]
pub struct Vertex {
    pub position: [u32; 2],
    pub color: Color,
}

/// The fixed-point point at which a position is shaded.
pub open spec fn shading_point(position: [u32; 2]) -> Point {
    Point { x: fixed_of_single(position[0]) as i32, y: fixed_of_single(position[1]) as i32 }
}

/// The vertex that `brush` makes of a position.
pub open spec fn shaded_vertex(brush: Brush, position: [u32; 2]) -> Vertex {
    Vertex { position, color: brush.paint(shading_point(position)) }
}

/// Reads a position in fixed point.
pub fn shading_point_of(position: &[u32; 2]) -> (p: Point)
    ensures
        p == shading_point(*position),
{
    Point { x: fixed_from_single(position[0]), y: fixed_from_single(position[1]) }
}

/// Builds the vertices of one shape, colouring each with the shape's brush.
pub struct VertexConstructor<'a> {
    pub brush: &'a Brush,
}

impl<'a> VertexConstructor<'a> {
    /// Makes the vertex at `position`, coloured by the brush at that position.
    pub fn new_vertex(&self, position: [u32; 2]) -> (v: Vertex)
        requires
            self.brush.ready(),
        ensures
            v == shaded_vertex(*self.brush, position),
    {
        let at: Point = shading_point_of(&position);
        Vertex { position, color: self.brush.brush(at) }
    }
}

/// What the tessellator made of one outline: positions, each coordinate the
/// bits of a single-precision number, and indices into them.
#[derive(Clone, Debug, PartialEq, Eq)]
pub struct RawGeometry {
    pub positions: Vec<[u32; 2]>,
    pub indices: Vec<u32>,
}

impl RawGeometry {
    /// Whether the geometry is a triangle list that can follow `base`
    /// vertices: three indices to a triangle, each the index of a position,
    /// and no index past the range of `u32` once it counts from `base`.
    pub open spec fn fits(&self, base: int) -> bool {
        &&& self.indices@.len() % 3 == 0
        &&& forall|i: int| 0 <= i < self.indices@.len() ==> (#[trigger] self.indices@[i]) < self.positions@.len()
        &&& base + self.positions@.len() <= 0x1_0000_0000
    }

    /// The vertices that `brush` makes of the positions.
    pub open spec fn shaded(&self, brush: Brush) -> Seq<Vertex> {
        Seq::new(self.positions@.len(), |i: int| shaded_vertex(brush, self.positions@[i]))
    }

    /// The indices, counted from `base`.
    pub open spec fn shifted(&self, base: int) -> Seq<u32> {
        Seq::new(self.indices@.len(), |i: int| (self.indices@[i] + base) as u32)
    }

    /// Tells whether the geometry can follow `base` vertices.
    pub fn check_fits(&self, base: usize) -> (r: bool)
        ensures
            r == self.fits(base as int),
    {
        if self.indices.len() % 3 != 0 {
            return false;
        }
        if base as u128 + self.positions.len() as u128 > 0x1_0000_0000 {
            return false;
        }
        let count: usize = self.positions.len();
        let mut i: usize = 0;
        while i < self.indices.len()
            invariant
                i <= self.indices@.len(),
                count == self.positions@.len(),
                forall|k: int| 0 <= k < i ==> (#[trigger] self.indices@[k]) < count,
            decreases self.indices@.len() - i,
        {
            if self.indices[i] as usize >= count {
                return false;
            }
            i += 1;
        }
        true
    }
}

/// Shading is a function of content: geometry of equal content, shaded by
/// one brush behind equally many vertices, gives equal vertices and indices.
pub proof fn lemma_shading_repeats(first: RawGeometry, second: RawGeometry, brush: Brush, base: int)
    requires
        first.positions@ == second.positions@,
        first.indices@ == second.indices@,
    ensures
        first.fits(base) == second.fits(base),
        first.shaded(brush) == second.shaded(brush),
        first.shifted(base) == second.shifted(base),
{
    assert(first.shaded(brush) =~= second.shaded(brush));
    assert(first.shifted(base) =~= second.shifted(base));
}

/// The vertices and the indices of a triangle list.
#[derive(Clone, Debug, PartialEq, Eq)]
pub struct VertexBuffers {
    pub vertices: Vec<Vertex>,
    pub indices: Vec<u32>,
}

impl VertexBuffers {
    /// Whether the buffers hold a triangle list: three indices to a triangle,
    /// each of them the index of a vertex.
    pub open spec fn wf(&self) -> bool {
        &&& self.indices@.len() % 3 == 0
        &&& forall|i: int| 0 <= i < self.indices@.len() ==> (#[trigger] self.indices@[i]) < self.vertices@.len()
    }

    /// Empty buffers.
    pub fn new() -> (b: Self)
        ensures
            b.vertices@ == Seq::<Vertex>::empty(),
            b.indices@ == Seq::<u32>::empty(),
            b.wf(),
    {
        VertexBuffers { vertices: Vec::new(), indices: Vec::new() }
    }

    /// Appends a tessellated outline, each vertex coloured by `brush` at its
    /// own position and each index counted from the vertices already there.
    /// Geometry that does not fit is left out whole.
    pub fn append_shaded(&mut self, geometry: &RawGeometry, brush: &Brush) -> (done: bool)
        requires
            brush.ready(),
        ensures
            done == geometry.fits(old(self).vertices@.len() as int),
            done ==> final(self).vertices@ == old(self).vertices@ + geometry.shaded(*brush),
            done ==> final(self).indices@ == old(self).indices@ + geometry.shifted(
                old(self).vertices@.len() as int,
            ),
            !done ==> final(self).vertices@ == old(self).vertices@,
            !done ==> final(self).indices@ == old(self).indices@,
    {
        let base: usize = self.vertices.len();
        if !geometry.check_fits(base) {
            return false;
        }
        let constructor = VertexConstructor { brush };
        let count: usize = geometry.positions.len();
        let mut i: usize = 0;
        while i < count
            invariant
                i <= count,
                count == geometry.positions@.len(),
                base == old(self).vertices@.len(),
                constructor.brush == brush,
                brush.ready(),
                self.indices@ == old(self).indices@,
                self.vertices@ == old(self).vertices@ + geometry.shaded(*brush).take(i as int),
            decreases count - i,
        {
            let vertex: Vertex = constructor.new_vertex(geometry.positions[i]);
            self.vertices.push(vertex);
            proof {
                let all = geometry.shaded(*brush);
                assert(all.take(i + 1) =~= all.take(i as int).push(all[i as int]));
            }
            i += 1;
        }
        proof {
            let all = geometry.shaded(*brush);
            assert(all.take(count as int) =~= all);
        }
        let total: usize = geometry.indices.len();
        let mut j: usize = 0;
        while j < total
            invariant
                j <= total,
                total == geometry.indices@.len(),
                base == old(self).vertices@.len(),
                geometry.fits(base as int),
                self.vertices@ == old(self).vertices@ + geometry.shaded(*brush),
                self.indices@ == old(self).indices@ + geometry.shifted(base as int).take(j as int),
            decreases total - j,
        {
            let index: u32 = geometry.indices[j];
            self.indices.push(index + base as u32);
            proof {
                let all = geometry.shifted(base as int);
                assert(all.take(j + 1) =~= all.take(j as int).push(all[j as int]));
            }
            j += 1;
        }
        proof {
            let all = geometry.shifted(base as int);
            assert(all.take(total as int) =~= all);
        }
        true
    }

    /// Tells whether the buffers hold a triangle list.
    pub fn is_well_formed(&self) -> (r: bool)
        ensures
            r == self.wf(),
    {
        if self.indices.len() % 3 != 0 {
            return false;
        }
        let count: usize = self.vertices.len();
        let mut i: usize = 0;
        while i < self.indices.len()
            invariant
                i <= self.indices@.len(),
                count == self.vertices@.len(),
                forall|k: int| 0 <= k < i ==> (#[trigger] self.indices@[k]) < count,
            decreases self.indices@.len() - i,
        {
            if self.indices[i] as usize >= count {
                return false;
            }
            i += 1;
        }
        true
    }
}

} // verus!
