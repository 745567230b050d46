//! Brushes: how a point of the plane is coloured.

use vstd::prelude::*;
use crate::math::{blend, blend_exec, Color, Point, UNIT};
use crate::render::GradientMaterialUniform;

verus! {

/// One colour of a gradient and the place along the axis where it holds,
/// `0` at the axis start and `UNIT` at its end.
#[derive(Clone, Copy, Debug, PartialEq, Eq, Structural)]
pub struct GradientStop {
    pub offset: i32,
    pub color: Color,
}

impl GradientStop {
    #[must_use]
    pub fn new(offset: i32, color: Color) -> (stop: Self)
        ensures
            stop.offset == offset,
            stop.color == color,
    {
        Self { offset, color }
    }
}

/// A gradient along the axis from `start` to `end`.
#[derive(Clone, Debug, PartialEq, Eq)]
pub struct LinearGradient {
    pub start: Point,
    pub end: Point,
    pub stops: Vec<GradientStop>,
}

/// The index at which the interval around `p` begins, searched among the
/// indices `0..=n`: the last one whose offset does not exceed `p`, and `0`
/// where even the first offset exceeds it.
pub open spec fn interval_start(stops: Seq<GradientStop>, p: int, n: int) -> int
    decreases n,
{
    if n <= 0 {
        0
    } else if stops[n].offset <= p {
        n
    } else {
        interval_start(stops, p, n - 1)
    }
}

/// Whether the offsets never decrease along the sequence.
pub open spec fn ascending(stops: Seq<GradientStop>) -> bool {
    forall|i: int, j: int| 0 <= i <= j < stops.len() ==> stops[i].offset <= stops[j].offset
}

impl LinearGradient {
    /// Whether the gradient can be evaluated: its stops are in ascending order
    /// of offset and their colours are bounded.
    pub open spec fn wf(&self) -> bool {
        &&& ascending(self.stops@)
        &&& forall|i: int| 0 <= i < self.stops@.len() ==> (#[trigger] self.stops@[i]).color.bounded()
    }

    /// The dot product of the axis with the vector from the axis start to `pos`.
    pub open spec fn along(&self, pos: Point) -> int {
        (self.end.x - self.start.x) * (pos.x - self.start.x)
            + (self.end.y - self.start.y) * (pos.y - self.start.y)
    }

    /// The squared length of the axis.
    pub open spec fn extent(&self) -> int {
        (self.end.x - self.start.x) * (self.end.x - self.start.x)
            + (self.end.y - self.start.y) * (self.end.y - self.start.y)
    }

    /// How far along the axis `pos` projects, as a fixed-point fraction of the
    /// axis, rounded down; `0` on an axis without length.
    pub open spec fn projection(&self, pos: Point) -> int {
        if self.extent() == 0 {
            0
        } else {
            (self.along(pos) * UNIT) / self.extent()
        }
    }

    /// The projection of `pos`, clamped to the axis.
    pub open spec fn progress_at(&self, pos: Point) -> int {
        let raw = self.projection(pos);
        if raw < 0 {
            0
        } else if raw > UNIT {
            UNIT as int
        } else {
            raw
        }
    }

    /// The colour of the gradient at `pos`.
    pub open spec fn color_at(&self, pos: Point) -> Color {
        let stops = self.stops@;
        if stops.len() == 0 {
            Color::spec_none()
        } else if stops.len() == 1 {
            stops[0].color
        } else if stops.len() == 2 && stops[0] == stops[1] {
            stops[0].color
        } else {
            let p = self.progress_at(pos);
            let i = interval_start(stops, p, stops.len() - 2);
            blend(
                stops[i].color,
                stops[i + 1].color,
                p - stops[i].offset,
                stops[i + 1].offset - stops[i].offset,
            )
        }
    }

    /// A gradient along the given axis that has no stops yet.
    #[must_use]
    pub fn new_empty(start: Point, end: Point) -> (g: Self)
        ensures
            g.start == start,
            g.end == end,
            g.stops@ == Seq::<GradientStop>::empty(),
    {
        Self { start, end, stops: Vec::new() }
    }

    /// Appends a stop; the caller keeps the offsets in ascending order.
    pub fn add_stop(&mut self, offset: i32, color: Color)
        ensures
            final(self).start == old(self).start,
            final(self).end == old(self).end,
            final(self).stops@ == old(self).stops@.push(GradientStop { offset, color }),
    {
        self.stops.push(GradientStop::new(offset, color));
    }

    /// Computes how far along the axis `pos` projects, as a fixed-point
    /// fraction of the axis: `0` at its start, `UNIT` at its end, below and
    /// above beyond them.
    pub fn progress(&self, pos: Point) -> (p: i128)
        ensures
            p == self.projection(pos),
    {
        let dx: i128 = self.end.x as i128 - self.start.x as i128;
        let dy: i128 = self.end.y as i128 - self.start.y as i128;
        let px: i128 = pos.x as i128 - self.start.x as i128;
        let py: i128 = pos.y as i128 - self.start.y as i128;
        proof {
            crate::math::lemma_product_bound(dx as int, dx as int, 0x1_0000_0000, 0x1_0000_0000);
            crate::math::lemma_product_bound(dy as int, dy as int, 0x1_0000_0000, 0x1_0000_0000);
            crate::math::lemma_product_bound(dx as int, px as int, 0x1_0000_0000, 0x1_0000_0000);
            crate::math::lemma_product_bound(dy as int, py as int, 0x1_0000_0000, 0x1_0000_0000);
            assert(dx * dx >= 0 && dy * dy >= 0) by (nonlinear_arith);
        }
        let den: i128 = dx * dx + dy * dy;
        let num: i128 = dx * px + dy * py;
        if den == 0 {
            0
        } else {
            assert(-0x2_0000_0000_0000_0000 <= num <= 0x2_0000_0000_0000_0000);
            let scaled: i128 = num * 65536;
            assert(scaled == self.along(pos) * UNIT);
            crate::math::div_floor(scaled, den)
        }
    }

    /// Computes the progress of `pos`, clamped to the axis.
    pub fn clamped_progress(&self, pos: Point) -> (p: i32)
        ensures
            p == self.progress_at(pos),
            0 <= p <= UNIT,
    {
        let raw: i128 = self.progress(pos);
        if raw < 0 {
            0
        } else if raw > UNIT as i128 {
            UNIT
        } else {
            raw as i32
        }
    }
}

/// The interval search is pinned down by what lies on either side of its
/// result: an index whose offset does not exceed `p` (or the first index),
/// with every later index up to `n` having an offset above `p`.
pub proof fn lemma_interval_start_unique(stops: Seq<GradientStop>, p: int, n: int, a: int)
    requires
        0 <= a <= n < stops.len(),
        a == 0 || stops[a].offset <= p,
        forall|k: int| a < k <= n ==> (#[trigger] stops[k]).offset > p,
    ensures
        interval_start(stops, p, n) == a,
    decreases n,
{
    if n > a {
        lemma_interval_start_unique(stops, p, n - 1, a);
    }
}

/// The interval search stays within the indices it was given.
pub proof fn lemma_interval_start_range(stops: Seq<GradientStop>, p: int, n: int)
    requires
        0 <= n,
    ensures
        0 <= interval_start(stops, p, n) <= n,
    decreases n,
{
    if n > 0 && stops[n].offset > p {
        lemma_interval_start_range(stops, p, n - 1);
    }
}

/// Finds the stop at which the interval around `p` begins, by bisection.
pub fn find_interval(stops: &Vec<GradientStop>, p: i32) -> (idx: usize)
    requires
        stops@.len() >= 2,
        ascending(stops@),
    ensures
        idx == interval_start(stops@, p as int, stops@.len() - 2),
        idx + 1 < stops@.len(),
{
    let n: usize = stops.len() - 2;
    let mut lo: usize = 0;
    let mut hi: usize = n;
    while lo < hi
        invariant
            n == stops@.len() - 2,
            ascending(stops@),
            lo <= hi <= n,
            lo == 0 || stops@[lo as int].offset <= p,
            forall|k: int| hi < k <= n ==> (#[trigger] stops@[k]).offset > p,
        decreases hi - lo,
    {
        let mid: usize = hi - (hi - lo) / 2;
        if stops[mid].offset <= p {
            lo = mid;
        } else {
            hi = mid - 1;
        }
    }
    proof {
        lemma_interval_start_unique(stops@, p as int, n as int, lo as int);
    }
    lo
}

/// Something that colours the plane.
pub trait Brusher {
    /// Whether the brush can be evaluated.
    spec fn ready(&self) -> bool;

    /// The colour that the brush gives to `pos`.
    spec fn paint(&self, pos: Point) -> Color;

    /// Evaluates the brush at `pos`.
    fn brush(&self, pos: Point) -> (c: Color)
        requires
            self.ready(),
        ensures
            c == self.paint(pos),
    ;
}

impl Brusher for Color {
    open spec fn ready(&self) -> bool {
        true
    }

    open spec fn paint(&self, pos: Point) -> Color {
        *self
    }

    fn brush(&self, _pos: Point) -> (c: Color) {
        *self
    }
}

impl Brusher for LinearGradient {
    open spec fn ready(&self) -> bool {
        self.wf()
    }

    open spec fn paint(&self, pos: Point) -> Color {
        self.color_at(pos)
    }

    fn brush(&self, pos: Point) -> (c: Color) {
        if self.stops.len() == 0 {
            return Color::none();
        }
        if self.stops.len() == 1 {
            return self.stops[0].color;
        }
        if self.stops.len() == 2 && self.stops[0] == self.stops[1] {
            return self.stops[0].color;
        }
        let progress: i32 = self.clamped_progress(pos);
        let index: usize = find_interval(&self.stops, progress);
        let former: GradientStop = self.stops[index];
        let latter: GradientStop = self.stops[index + 1];
        let num: i64 = progress as i64 - former.offset as i64;
        let den: i64 = latter.offset as i64 - former.offset as i64;
        blend_exec(former.color, latter.color, num, den)
    }
}

/// A gradient of any kind.
#[derive(Clone, Debug, PartialEq, Eq)]
pub enum Gradient {
    Linear(LinearGradient),
}

impl Brusher for Gradient {
    open spec fn ready(&self) -> bool {
        match self {
            Gradient::Linear(linear) => linear.wf(),
        }
    }

    open spec fn paint(&self, pos: Point) -> Color {
        match self {
            Gradient::Linear(linear) => linear.color_at(pos),
        }
    }

    fn brush(&self, pos: Point) -> (c: Color) {
        match self {
            Gradient::Linear(linear) => linear.brush(pos),
        }
    }
}

/// How a shape is coloured: flat, or by a gradient.
#[derive(Clone, Debug, PartialEq, Eq)]
pub enum Brush {
    Color(Color),
    Gradient(Gradient),
}

impl Brusher for Brush {
    open spec fn ready(&self) -> bool {
        match self {
            Brush::Color(_) => true,
            Brush::Gradient(gradient) => gradient.ready(),
        }
    }

    open spec fn paint(&self, pos: Point) -> Color {
        match self {
            Brush::Color(color) => *color,
            Brush::Gradient(gradient) => gradient.paint(pos),
        }
    }

    fn brush(&self, pos: Point) -> (c: Color) {
        match self {
            Brush::Color(color) => color.brush(pos),
            Brush::Gradient(gradient) => gradient.brush(pos),
        }
    }
}

impl Brush {
    /// The two-colour summary of the brush: a flat colour at both ends of an
    /// axis without length, or the first and last stop of a gradient on its
    /// axis; a gradient without stops is transparent at both ends.
    pub open spec fn uniform(&self) -> GradientMaterialUniform {
        match self {
            Brush::Color(color) => GradientMaterialUniform {
                start: *color,
                end: *color,
                start_pos: Point { x: 0, y: 0 },
                end_pos: Point { x: 0, y: 0 },
            },
            Brush::Gradient(Gradient::Linear(linear)) => GradientMaterialUniform {
                start: if linear.stops@.len() == 0 {
                    Color::spec_none()
                } else {
                    linear.stops@.first().color
                },
                end: if linear.stops@.len() == 0 {
                    Color::spec_none()
                } else {
                    linear.stops@.last().color
                },
                start_pos: linear.start,
                end_pos: linear.end,
            },
        }
    }

    /// Summarises the brush for the shader. Stops between the first and the
    /// last are not part of the summary.
    #[must_use]
    pub fn clone_as_uniform(&self) -> (u: GradientMaterialUniform)
        ensures
            u == self.uniform(),
    {
        match self {
            Brush::Color(color) => GradientMaterialUniform {
                start: *color,
                end: *color,
                start_pos: Point { x: 0, y: 0 },
                end_pos: Point { x: 0, y: 0 },
            },
            Brush::Gradient(Gradient::Linear(linear)) => {
                let count: usize = linear.stops.len();
                let start: Color = if count == 0 {
                    Color::none()
                } else {
                    linear.stops[0].color
                };
                let end: Color = if count == 0 {
                    Color::none()
                } else {
                    linear.stops[count - 1].color
                };
                GradientMaterialUniform {
                    start,
                    end,
                    start_pos: linear.start,
                    end_pos: linear.end,
                }
            },
        }
    }
}

impl Default for Brush {
    /// Flat opaque white.
    fn default() -> (b: Self)
        ensures
            b == Brush::Color(Color::spec_white()),
    {
        Brush::Color(Color::white())
    }
}

impl From<Color> for Brush {
    fn from(val: Color) -> (b: Self) {
        Brush::Color(val)
    }
}

impl vstd::std_specs::convert::FromSpecImpl<Color> for Brush {
    open spec fn obeys_from_spec() -> bool {
        true
    }

    open spec fn from_spec(val: Color) -> Self {
        Brush::Color(val)
    }
}

impl From<Gradient> for Brush {
    fn from(val: Gradient) -> (b: Self) {
        Brush::Gradient(val)
    }
}

impl vstd::std_specs::convert::FromSpecImpl<Gradient> for Brush {
    open spec fn obeys_from_spec() -> bool {
        true
    }

    open spec fn from_spec(val: Gradient) -> Self {
        Brush::Gradient(val)
    }
}

impl From<LinearGradient> for Gradient {
    fn from(val: LinearGradient) -> (g: Self) {
        Gradient::Linear(val)
    }
}

impl vstd::std_specs::convert::FromSpecImpl<LinearGradient> for Gradient {
    open spec fn obeys_from_spec() -> bool {
        true
    }

    open spec fn from_spec(val: LinearGradient) -> Self {
        Gradient::Linear(val)
    }
}

impl Default for LinearGradient {
    /// A gradient without stops on an axis without length.
    fn default() -> (g: Self)
        ensures
            g.start == (Point { x: 0, y: 0 }),
            g.end == (Point { x: 0, y: 0 }),
            g.stops@ == Seq::<GradientStop>::empty(),
    {
        Self { start: Point { x: 0, y: 0 }, end: Point { x: 0, y: 0 }, stops: Vec::new() }
    }
}

impl LinearGradient {
    /// Tells whether the gradient can be evaluated.
    pub fn is_well_formed(&self) -> (r: bool)
        ensures
            r == self.wf(),
    {
        let n: usize = self.stops.len();
        let mut i: usize = 0;
        while i < n
            invariant
                n == self.stops@.len(),
                i <= n,
                forall|k: int| 0 <= k < i ==> (#[trigger] self.stops@[k]).color.bounded(),
                forall|k: int| 0 < k < i ==> self.stops@[k - 1].offset <= (#[trigger] self.stops@[k]).offset,
            decreases n - i,
        {
            if !self.stops[i].color.is_bounded() {
                return false;
            }
            if i > 0 && self.stops[i - 1].offset > self.stops[i].offset {
                proof {
                    let a = i as int - 1;
                    let b = i as int;
                    assert(0 <= a <= b < self.stops@.len());
                }
                return false;
            }
            i += 1;
        }
        proof {
            lemma_ascending_from_neighbours(self.stops@);
        }
        true
    }
}

/// Offsets that never decrease from one stop to the next never decrease
/// between any two stops.
pub proof fn lemma_ascending_from_neighbours(stops: Seq<GradientStop>)
    requires
        forall|k: int| 0 < k < stops.len() ==> stops[k - 1].offset <= (#[trigger] stops[k]).offset,
    ensures
        ascending(stops),
{
    assert forall|i: int, j: int| 0 <= i <= j < stops.len() implies stops[i].offset
        <= stops[j].offset by {
        lemma_ascending_between(stops, i, j);
    }
}

proof fn lemma_ascending_between(stops: Seq<GradientStop>, i: int, j: int)
    requires
        forall|k: int| 0 < k < stops.len() ==> stops[k - 1].offset <= (#[trigger] stops[k]).offset,
        0 <= i <= j < stops.len(),
    ensures
        stops[i].offset <= stops[j].offset,
    decreases j - i,
{
    if i < j {
        lemma_ascending_between(stops, i, j - 1);
        assert(stops[j - 1].offset <= stops[j].offset);
    }
}

impl Brush {
    /// Tells whether the brush can be evaluated.
    pub fn is_ready(&self) -> (r: bool)
        ensures
            r == self.ready(),
    {
        match self {
            Brush::Color(_) => true,
            Brush::Gradient(Gradient::Linear(linear)) => linear.is_well_formed(),
        }
    }
}

/// A flat brush gives its colour to every position.
pub proof fn lemma_flat_everywhere(color: Color, pos: Point)
    ensures
        Brush::Color(color).ready(),
        Brush::Color(color).paint(pos) == color,
{
}

/// A gradient with a single stop gives that stop's colour to every position.
pub proof fn lemma_single_stop_everywhere(gradient: LinearGradient, pos: Point)
    requires
        gradient.stops@.len() == 1,
    ensures
        gradient.color_at(pos) == gradient.stops@[0].color,
        Brush::Gradient(Gradient::Linear(gradient)).paint(pos) == gradient.stops@[0].color,
{
}

/// A gradient of two equal stops gives their colour to every position,
/// whatever its axis.
pub proof fn lemma_equal_pair_everywhere(gradient: LinearGradient, pos: Point)
    requires
        gradient.stops@.len() == 2,
        gradient.stops@[0] == gradient.stops@[1],
    ensures
        gradient.color_at(pos) == gradient.stops@[0].color,
        Brush::Gradient(Gradient::Linear(gradient)).paint(pos) == gradient.stops@[0].color,
{
}

/// A gradient without stops is fully transparent at every position.
pub proof fn lemma_no_stops_everywhere(gradient: LinearGradient, pos: Point)
    requires
        gradient.stops@.len() == 0,
    ensures
        gradient.wf(),
        gradient.color_at(pos) == Color::spec_none(),
        Brush::Gradient(Gradient::Linear(gradient)).paint(pos) == Color::spec_none(),
{
}

/// The progress of any position lies on the axis.
pub proof fn lemma_progress_clamped(gradient: LinearGradient, pos: Point)
    ensures
        0 <= gradient.progress_at(pos) <= UNIT,
{
}

/// On an axis without length every position has progress zero.
pub proof fn lemma_progress_on_point_axis(gradient: LinearGradient, pos: Point)
    requires
        gradient.start == gradient.end,
    ensures
        gradient.progress_at(pos) == 0,
{
    assert(gradient.extent() == 0) by (nonlinear_arith)
        requires
            gradient.extent() == (gradient.end.x - gradient.start.x) * (gradient.end.x
                - gradient.start.x) + (gradient.end.y - gradient.start.y) * (gradient.end.y
                - gradient.start.y),
            gradient.end.x - gradient.start.x == 0,
            gradient.end.y - gradient.start.y == 0,
    ;
}

/// In an ordered gradient the interval that is blended encloses the progress
/// whenever the progress lies between the first and the last offset.
pub proof fn lemma_interval_encloses(gradient: LinearGradient, pos: Point)
    requires
        gradient.wf(),
        gradient.stops@.len() >= 2,
        gradient.stops@.first().offset <= gradient.progress_at(pos) <= gradient.stops@.last().offset,
    ensures
        ({
            let p = gradient.progress_at(pos);
            let i = interval_start(gradient.stops@, p, gradient.stops@.len() - 2);
            &&& 0 <= i <= gradient.stops@.len() - 2
            &&& gradient.stops@[i].offset <= p <= gradient.stops@[i + 1].offset
        }),
{
    let stops = gradient.stops@;
    let p = gradient.progress_at(pos);
    lemma_interval_encloses_upto(stops, p, stops.len() - 2);
}

proof fn lemma_interval_encloses_upto(stops: Seq<GradientStop>, p: int, n: int)
    requires
        ascending(stops),
        0 <= n,
        n + 1 < stops.len(),
        stops[0].offset <= p <= stops[n + 1].offset,
    ensures
        ({
            let i = interval_start(stops, p, n);
            &&& 0 <= i <= n
            &&& stops[i].offset <= p <= stops[i + 1].offset
        }),
    decreases n,
{
    if n > 0 && stops[n].offset > p {
        lemma_interval_encloses_upto(stops, p, n - 1);
    }
}

proof fn lemma_whole_fraction(d: int, den: int)
    requires
        den > 0,
    ensures
        (0 * d) / den == 0,
        (den * d) / den == d,
{
    assert((0 * d) / den == 0) by (nonlinear_arith)
        requires
            den > 0,
    ;
    vstd::arithmetic::div_mod::lemma_div_multiples_vanish(d, den);
    assert(den * d == d * den) by (nonlinear_arith);
}

/// At the start of the interval that is blended the gradient has the colour
/// of that stop, and at its end the colour of the next.
pub proof fn lemma_blend_at_ends(a: Color, b: Color, den: int)
    requires
        den > 0,
    ensures
        blend(a, b, 0, den) == a,
        blend(a, b, den, den) == b,
{
    assert(0int / den == 0) by (nonlinear_arith)
        requires
            den > 0,
    ;
    lemma_whole_fraction(b.red - a.red, den);
    lemma_whole_fraction(b.green - a.green, den);
    lemma_whole_fraction(b.blue - a.blue, den);
    lemma_whole_fraction(b.alpha - a.alpha, den);
}

/// A gradient from one colour at offset `0` to another at offset `UNIT` has
/// the first colour wherever the projection falls at or before the start of
/// the axis, and the second wherever it falls at or beyond its end.
pub proof fn lemma_clamped_beyond_axis(gradient: LinearGradient, pos: Point)
    requires
        gradient.stops@.len() == 2,
        gradient.stops@[0].offset == 0,
        gradient.stops@[1].offset == UNIT,
        gradient.extent() > 0,
    ensures
        gradient.along(pos) <= 0 ==> gradient.color_at(pos) == gradient.stops@[0].color,
        gradient.along(pos) >= gradient.extent() ==> gradient.color_at(pos)
            == gradient.stops@[1].color,
{
    lemma_clamped_quotient(gradient.along(pos), gradient.extent());
    lemma_blend_at_ends(gradient.stops@[0].color, gradient.stops@[1].color, UNIT as int);
    assert(interval_start(gradient.stops@, gradient.progress_at(pos), 0) == 0);
}

/// The summary of a gradient for the shader depends on its axis and on its
/// first and last stop alone: the stops between them leave no trace.
pub proof fn lemma_uniform_ignores_inner_stops(first: LinearGradient, second: LinearGradient)
    requires
        first.start == second.start,
        first.end == second.end,
        first.stops@.len() > 0,
        second.stops@.len() > 0,
        first.stops@.first().color == second.stops@.first().color,
        first.stops@.last().color == second.stops@.last().color,
    ensures
        Brush::Gradient(Gradient::Linear(first)).uniform() == Brush::Gradient(
            Gradient::Linear(second),
        ).uniform(),
{
}

/// The summary of a flat brush has the brush's colour at both ends.
pub proof fn lemma_uniform_of_flat(color: Color)
    ensures
        Brush::Color(color).uniform().start == color,
        Brush::Color(color).uniform().end == color,
{
}

/// A gradient gives every position a colour between `0.0` and `1.0` if its
/// stops hold such colours, are in ascending order, and cover the axis from
/// offset `0` to offset `UNIT`.
pub proof fn lemma_color_normalized(gradient: LinearGradient, pos: Point)
    requires
        ascending(gradient.stops@),
        forall|i: int| 0 <= i < gradient.stops@.len() ==> (#[trigger] gradient.stops@[i]).color.normalized(),
        gradient.stops@.len() >= 2 ==> gradient.stops@.first().offset <= 0 && UNIT
            <= gradient.stops@.last().offset,
    ensures
        gradient.color_at(pos).normalized(),
{
    let stops = gradient.stops@;
    if stops.len() >= 2 && !(stops.len() == 2 && stops[0] == stops[1]) {
        let p = gradient.progress_at(pos);
        lemma_interval_encloses_upto(stops, p, stops.len() - 2);
        let i = interval_start(stops, p, stops.len() - 2);
        crate::math::lemma_blend_normalized(
            stops[i].color,
            stops[i + 1].color,
            p - stops[i].offset,
            stops[i + 1].offset - stops[i].offset,
        );
    }
}

/// Where the quotient `num * UNIT / den` falls against the ends of the axis.
pub proof fn lemma_clamped_quotient(num: int, den: int)
    requires
        den >= 0,
    ensures
        den > 0 && num <= 0 ==> (num * UNIT) / den <= 0,
        den > 0 && num >= den ==> (num * UNIT) / den >= UNIT,
        den > 0 && 0 < num < den ==> 0 <= (num * UNIT) / den <= UNIT,
{
    if den > 0 {
        assert(num <= 0 ==> (num * 65536) / den <= 0) by (nonlinear_arith)
            requires
                den > 0,
        ;
        assert(num >= den ==> (num * 65536) / den >= 65536) by (nonlinear_arith)
            requires
                den > 0,
        ;
        assert(0 < num < den ==> 0 <= (num * 65536) / den <= 65536) by (nonlinear_arith)
            requires
                den > 0,
        ;
    }
}

} // verus!
