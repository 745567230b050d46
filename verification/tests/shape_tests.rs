use gradient_shapes::brush::{Brush, Brusher, Gradient, LinearGradient};
use gradient_shapes::draw::{Fill, Stroke};
use gradient_shapes::entity::{is_drawable, is_straight, ShapePath};
use gradient_shapes::math::{Color, Point};
use gradient_shapes::plugin::{
    assemble_shape, build_mesh, choose_material, fill, mesh_shape, settle, shade_onto, stroke,
    try_fill, try_mesh_shape, try_stroke, BuildShapes, Outcome, Pass, ShapePlugin,
};
use gradient_shapes::render::GradientMaterial;
use gradient_shapes::single::{fixed_from_single, is_measure_from, is_on_canvas, NonNan};
use gradient_shapes::vertex::{
    shading_point_of, RawGeometry, Vertex, VertexBuffers, VertexConstructor,
};
use lyon_tessellation::math::{point, Transform};
use lyon_tessellation::path::Path;
use lyon_tessellation::{
    FillOptions, FillRule, GeometryBuilderError, LineCap, LineJoin, Orientation, StrokeOptions,
    TessellationError,
};

fn fixed(value: f32) -> i32 {
    (value * 65536.0) as i32
}

fn rgba(red: f32, green: f32, blue: f32, alpha: f32) -> Color {
    Color {
        red: fixed(red) as i64,
        green: fixed(green) as i64,
        blue: fixed(blue) as i64,
        alpha: fixed(alpha) as i64,
    }
}

fn rectangle(x0: f32, y0: f32, x1: f32, y1: f32) -> Path {
    let mut builder = Path::builder();
    builder.begin(point(x0, y0));
    builder.line_to(point(x1, y0));
    builder.line_to(point(x1, y1));
    builder.line_to(point(x0, y1));
    builder.end(true);
    builder.build()
}

fn ramp() -> Brush {
    let mut g = LinearGradient::new_empty(
        Point { x: 0, y: 0 },
        Point { x: fixed(10.0), y: 0 },
    );
    g.add_stop(0, rgba(1.0, 0.0, 0.0, 1.0));
    g.add_stop(fixed(1.0), rgba(0.0, 0.0, 1.0, 1.0));
    Brush::Gradient(Gradient::Linear(g))
}

fn bits(x: f32, y: f32) -> [u32; 2] {
    [x.to_bits(), y.to_bits()]
}

#[test]
fn reads_single_precision_like_a_saturating_cast() {
    assert_eq!(fixed_from_single(1.0f32.to_bits()), 65536);
    assert_eq!(fixed_from_single((-1.5f32).to_bits()), -98304);
    assert_eq!(fixed_from_single(0.0f32.to_bits()), 0);
    assert_eq!(fixed_from_single((-0.0f32).to_bits()), 0);
    assert_eq!(fixed_from_single(0.3f32.to_bits()), 19660);
    assert_eq!(fixed_from_single((-0.3f32).to_bits()), -19660);
    assert_eq!(fixed_from_single(f32::NAN.to_bits()), 0);
    assert_eq!(fixed_from_single(0xFFC0_0001), 0);
    assert_eq!(fixed_from_single(f32::INFINITY.to_bits()), i32::MAX);
    assert_eq!(fixed_from_single(f32::NEG_INFINITY.to_bits()), i32::MIN);
    assert_eq!(fixed_from_single(32768.0f32.to_bits()), i32::MAX);
    assert_eq!(fixed_from_single((-32768.0f32).to_bits()), i32::MIN);
    assert_eq!(fixed_from_single(32767.998f32.to_bits()), 0x7FFF_FF80);
    assert_eq!(fixed_from_single(f32::MIN_POSITIVE.to_bits()), 0);
    assert_eq!(fixed_from_single(1), 0);
    assert_eq!(fixed_from_single((1.0f32 / 65536.0).to_bits()), 1);
    assert_eq!(fixed_from_single((-1.0f32 / 65536.0).to_bits()), -1);
    assert_eq!(fixed_from_single((0.9f32 / 65536.0).to_bits()), 0);
    let samples: [f32; 14] = [
        0.5, -0.5, 3.14159, -2.71828, 123.456, -9876.543, 1.0e-3, -1.0e-7, 20000.25, 1.0e9,
        -1.0e9, f32::MAX, f32::MIN, 7.0,
    ];
    for value in samples {
        assert_eq!(fixed_from_single(value.to_bits()), (value * 65536.0) as i32);
    }
    let mut pattern: u32 = 0x1234_5678;
    for _ in 0..2000 {
        pattern = pattern.wrapping_mul(1_664_525).wrapping_add(1_013_904_223);
        let value = f32::from_bits(pattern);
        assert_eq!(fixed_from_single(pattern), (value * 65536.0) as i32);
    }
}

#[test]
fn vertex_takes_the_colour_at_its_own_position() {
    let brush = ramp();
    let constructor = VertexConstructor { brush: &brush };
    let v = constructor.new_vertex(bits(5.0, 3.0));
    assert_eq!(v.position, bits(5.0, 3.0));
    assert_eq!(v.color, rgba(0.5, 0.0, 0.5, 1.0));
    assert_eq!(shading_point_of(&bits(5.0, -3.0)), Point { x: fixed(5.0), y: fixed(-3.0) });
    let flat = Brush::Color(rgba(0.0, 1.0, 0.0, 1.0));
    let v = VertexConstructor { brush: &flat }.new_vertex(bits(f32::NAN, f32::INFINITY));
    assert_eq!(v.color, rgba(0.0, 1.0, 0.0, 1.0));
}

#[test]
fn filled_rectangle_is_two_shaded_triangles() {
    let (mut fill_tess, _) = ShapePlugin.build();
    let path = rectangle(0.0, 0.0, 10.0, 4.0);
    let brush = ramp();
    let mode = Fill::brush(brush.clone());
    let mut buffers = VertexBuffers::new();
    let outcome = fill(&mut fill_tess, &path, &mode, &mut buffers);
    assert_eq!(outcome, Outcome::Done);
    assert_eq!(buffers.indices.len(), 6);
    assert_eq!(buffers.vertices.len(), 4);
    assert!(buffers.is_well_formed());
    let mut corners: Vec<(f32, f32)> = buffers
        .vertices
        .iter()
        .map(|v| (f32::from_bits(v.position[0]), f32::from_bits(v.position[1])))
        .collect();
    corners.sort_by(|a, b| a.partial_cmp(b).unwrap());
    assert_eq!(corners, vec![(0.0, 0.0), (0.0, 4.0), (10.0, 0.0), (10.0, 4.0)]);
    for v in &buffers.vertices {
        let x = f32::from_bits(v.position[0]);
        let expected = if x == 0.0 {
            rgba(1.0, 0.0, 0.0, 1.0)
        } else {
            rgba(0.0, 0.0, 1.0, 1.0)
        };
        assert_eq!(v.color, expected);
        assert_eq!(v.color, brush.brush(shading_point_of(&v.position)));
    }
    let mut used: Vec<u32> = buffers.indices.clone();
    used.sort();
    used.dedup();
    assert_eq!(used, vec![0, 1, 2, 3]);
}

#[test]
fn tessellating_twice_gives_equal_buffers() {
    let (mut fill_tess, mut stroke_tess) = ShapePlugin.build();
    let path = rectangle(-3.0, -2.0, 7.0, 9.0);
    let mode = Fill::brush(ramp());
    let mut first = VertexBuffers::new();
    let mut second = VertexBuffers::new();
    assert_eq!(fill(&mut fill_tess, &path, &mode, &mut first), Outcome::Done);
    assert_eq!(fill(&mut fill_tess, &path, &mode, &mut second), Outcome::Done);
    assert_eq!(first, second);
    assert!(!first.vertices.is_empty());
    let (mut other_tess, _) = ShapePlugin.build();
    let mut third = VertexBuffers::new();
    assert_eq!(fill(&mut other_tess, &path, &mode, &mut third), Outcome::Done);
    assert_eq!(first, third);
    let line = Stroke::new(ramp(), StrokeOptions::default().with_line_width(2.0));
    let mut a = VertexBuffers::new();
    let mut b = VertexBuffers::new();
    assert_eq!(stroke(&mut stroke_tess, &path, &line, &mut a), Outcome::Done);
    assert_eq!(stroke(&mut stroke_tess, &path, &line, &mut b), Outcome::Done);
    assert_eq!(a, b);
    assert!(!a.vertices.is_empty());
}

#[test]
fn stroke_follows_fill_in_the_same_buffers() {
    let (mut fill_tess, mut stroke_tess) = ShapePlugin.build();
    let path = rectangle(0.0, 0.0, 10.0, 4.0);
    let fill_brush = ramp();
    let stroke_brush = Brush::Color(rgba(0.0, 1.0, 0.0, 1.0));
    let mut buffers = VertexBuffers::new();
    assert_eq!(
        fill(&mut fill_tess, &path, &Fill::brush(fill_brush.clone()), &mut buffers),
        Outcome::Done
    );
    let filled = buffers.clone();
    let line = Stroke::new(stroke_brush, StrokeOptions::default().with_line_width(1.0));
    assert_eq!(stroke(&mut stroke_tess, &path, &line, &mut buffers), Outcome::Done);
    assert!(buffers.vertices.len() > filled.vertices.len());
    assert_eq!(&buffers.vertices[..filled.vertices.len()], &filled.vertices[..]);
    assert_eq!(&buffers.indices[..filled.indices.len()], &filled.indices[..]);
    for v in &buffers.vertices[filled.vertices.len()..] {
        assert_eq!(v.color, rgba(0.0, 1.0, 0.0, 1.0));
    }
    for index in &buffers.indices[filled.indices.len()..] {
        assert!(*index as usize >= filled.vertices.len());
        assert!((*index as usize) < buffers.vertices.len());
    }
    assert_eq!((buffers.indices.len() - filled.indices.len()) % 3, 0);
    assert!(buffers.is_well_formed());
}

#[test]
fn empty_path_gives_empty_buffers() {
    let (mut fill_tess, mut stroke_tess) = ShapePlugin.build();
    let path = Path::builder().build();
    let mut buffers = VertexBuffers::new();
    assert_eq!(fill(&mut fill_tess, &path, &Fill::brush(ramp()), &mut buffers), Outcome::Done);
    let line = Stroke::color(rgba(1.0, 1.0, 1.0, 1.0));
    assert_eq!(stroke(&mut stroke_tess, &path, &line, &mut buffers), Outcome::Done);
    assert!(buffers.vertices.is_empty());
    assert!(buffers.indices.is_empty());
}

#[test]
fn geometry_is_shaded_and_indices_are_shifted() {
    let brush = ramp();
    let mut buffers = VertexBuffers::new();
    let first = RawGeometry {
        positions: vec![bits(0.0, 0.0), bits(10.0, 0.0), bits(5.0, 5.0)],
        indices: vec![0, 1, 2],
    };
    assert!(first.check_fits(0));
    assert_eq!(shade_onto(&mut buffers, &first, &brush), Outcome::Done);
    let second = RawGeometry {
        positions: vec![bits(2.5, 0.0), bits(7.5, 0.0), bits(20.0, 1.0)],
        indices: vec![2, 1, 0, 0, 1, 2],
    };
    assert_eq!(shade_onto(&mut buffers, &second, &brush), Outcome::Done);
    assert_eq!(buffers.indices, vec![0, 1, 2, 5, 4, 3, 3, 4, 5]);
    assert_eq!(
        buffers.vertices,
        vec![
            Vertex { position: bits(0.0, 0.0), color: rgba(1.0, 0.0, 0.0, 1.0) },
            Vertex { position: bits(10.0, 0.0), color: rgba(0.0, 0.0, 1.0, 1.0) },
            Vertex { position: bits(5.0, 5.0), color: rgba(0.5, 0.0, 0.5, 1.0) },
            Vertex { position: bits(2.5, 0.0), color: rgba(0.75, 0.0, 0.25, 1.0) },
            Vertex { position: bits(7.5, 0.0), color: rgba(0.25, 0.0, 0.75, 1.0) },
            Vertex { position: bits(20.0, 1.0), color: rgba(0.0, 0.0, 1.0, 1.0) },
        ]
    );
    assert!(buffers.is_well_formed());
}

#[test]
fn malformed_geometry_is_left_out_whole() {
    let brush = ramp();
    let mut buffers = VertexBuffers::new();
    let good = RawGeometry {
        positions: vec![bits(0.0, 0.0), bits(10.0, 0.0), bits(5.0, 5.0)],
        indices: vec![0, 1, 2],
    };
    assert_eq!(shade_onto(&mut buffers, &good, &brush), Outcome::Done);
    let before = buffers.clone();
    let stray_index = RawGeometry {
        positions: vec![bits(0.0, 0.0), bits(10.0, 0.0), bits(5.0, 5.0)],
        indices: vec![0, 1, 3],
    };
    assert!(!stray_index.check_fits(3));
    assert_eq!(shade_onto(&mut buffers, &stray_index, &brush), Outcome::Malformed);
    assert_eq!(buffers, before);
    let broken_triangle = RawGeometry {
        positions: vec![bits(0.0, 0.0), bits(10.0, 0.0), bits(5.0, 5.0)],
        indices: vec![0, 1],
    };
    assert_eq!(shade_onto(&mut buffers, &broken_triangle, &brush), Outcome::Malformed);
    assert_eq!(buffers, before);
    assert!(!good.check_fits(0xFFFF_FFFE));
    assert!(good.check_fits(0xFFFF_FFFD));
    assert!(!good.check_fits(usize::MAX));
}

#[test]
fn buffers_check_their_indices() {
    let v = Vertex { position: bits(0.0, 0.0), color: Color::none() };
    assert!(VertexBuffers::new().is_well_formed());
    assert!(VertexBuffers { vertices: vec![v, v, v], indices: vec![0, 1, 2] }.is_well_formed());
    assert!(!VertexBuffers { vertices: vec![v, v, v], indices: vec![0, 1, 3] }.is_well_formed());
    assert!(!VertexBuffers { vertices: vec![v, v, v], indices: vec![0, 1] }.is_well_formed());
    assert!(!VertexBuffers { vertices: vec![], indices: vec![0, 0, 0] }.is_well_formed());
}

#[test]
fn mesh_lies_in_the_plane_and_copies_the_indices() {
    let red = rgba(1.0, 0.0, 0.0, 1.0);
    let blue = rgba(0.0, 0.0, 1.0, 1.0);
    let buffers = VertexBuffers {
        vertices: vec![
            Vertex { position: bits(1.0, 2.0), color: red },
            Vertex { position: bits(-3.0, 4.5), color: blue },
            Vertex { position: bits(0.0, 0.0), color: red },
        ],
        indices: vec![2, 0, 1, 1, 0, 2],
    };
    let mesh = build_mesh(&buffers);
    assert_eq!(
        mesh.positions,
        vec![
            [1.0f32.to_bits(), 2.0f32.to_bits(), 0.0f32.to_bits()],
            [(-3.0f32).to_bits(), 4.5f32.to_bits(), 0],
            [0, 0, 0],
        ]
    );
    assert_eq!(mesh.colors, vec![red, blue, red]);
    assert_eq!(mesh.indices, vec![2, 0, 1, 1, 0, 2]);
    let empty = build_mesh(&VertexBuffers::new());
    assert!(empty.positions.is_empty() && empty.colors.is_empty() && empty.indices.is_empty());
}

#[test]
fn shape_without_fill_or_stroke_is_filled_in_fuchsia() {
    let (mut fill_tess, mut stroke_tess) = ShapePlugin.build();
    let path = ShapePath(rectangle(0.0, 0.0, 10.0, 4.0));
    let shape = mesh_shape(&mut fill_tess, &mut stroke_tess, &path.0, None, None);
    assert_eq!(shape.fill, Some(Outcome::Done));
    assert_eq!(shape.stroke, None);
    assert_eq!(shape.material, None);
    assert_eq!(shape.mesh.positions.len(), 4);
    assert_eq!(shape.mesh.indices.len(), 6);
    assert_eq!(shape.mesh.colors, vec![rgba(1.0, 0.0, 1.0, 1.0); 4]);
}

#[test]
fn material_comes_from_the_fill_before_the_stroke() {
    let (mut fill_tess, mut stroke_tess) = ShapePlugin.build();
    let path = rectangle(0.0, 0.0, 10.0, 4.0);
    let green = rgba(0.0, 1.0, 0.0, 1.0);
    let fill_mode = Fill::brush(ramp());
    let stroke_mode = Stroke::color(green);
    let both = mesh_shape(
        &mut fill_tess,
        &mut stroke_tess,
        &path,
        Some(&fill_mode),
        Some(&stroke_mode),
    );
    assert_eq!(both.material, Some(GradientMaterial { uniform: ramp().clone_as_uniform() }));
    assert_eq!(both.fill, Some(Outcome::Done));
    assert_eq!(both.stroke, Some(Outcome::Done));
    assert_eq!(both.mesh.positions.len(), both.mesh.colors.len());
    assert!(both.mesh.positions.len() > 4);
    assert_eq!(&both.mesh.colors[4..], &vec![green; both.mesh.colors.len() - 4][..]);
    assert!(both.mesh.colors[..4].iter().all(|c| *c != green));
    assert!(both.mesh.indices.iter().all(|i| (*i as usize) < both.mesh.positions.len()));
    assert!(both.mesh.positions.iter().all(|p| p[2] == 0));

    let only_stroke =
        mesh_shape(&mut fill_tess, &mut stroke_tess, &path, None, Some(&stroke_mode));
    assert_eq!(
        only_stroke.material,
        Some(GradientMaterial { uniform: Brush::Color(green).clone_as_uniform() })
    );
    assert_eq!(only_stroke.fill, None);
    assert_eq!(only_stroke.stroke, Some(Outcome::Done));
    assert!(only_stroke.mesh.colors.iter().all(|c| *c == green));

    let only_fill = mesh_shape(&mut fill_tess, &mut stroke_tess, &path, Some(&fill_mode), None);
    assert_eq!(only_fill.material, both.material);
    assert_eq!(only_fill.stroke, None);
    assert_eq!(only_fill.mesh.positions.len(), 4);

    assert_eq!(choose_material(None, None), None);
    assert_eq!(choose_material(Some(&fill_mode), Some(&stroke_mode)), both.material);
    assert_eq!(choose_material(None, Some(&stroke_mode)), only_stroke.material);
}

#[test]
fn draw_modes_keep_their_brush() {
    let green = rgba(0.0, 1.0, 0.0, 1.0);
    assert_eq!(Fill::brush(ramp()).brush, ramp());
    assert_eq!(Fill::brush(ramp()).options, FillOptions::default());
    assert_eq!(Stroke::color(green).brush, Brush::Color(green));
    assert_eq!(Stroke::color(green).options, StrokeOptions::default());
    let wide = StrokeOptions::default().with_line_width(8.0);
    let stroke_mode = Stroke::new(Brush::from(green), wide);
    assert_eq!(stroke_mode.options, wide);
    assert_eq!(stroke_mode.options.line_width, 8.0);
    assert_eq!(stroke_mode.brush, Brush::Color(green));
    assert_eq!(BuildShapes, BuildShapes);
}

#[test]
fn offsets_that_are_no_numbers_are_refused() {
    assert_eq!(NonNan::new_checked(f32::NAN.to_bits()), None);
    assert_eq!(NonNan::new_checked(0x7F80_0001), None);
    assert_eq!(NonNan::new_checked(0xFFFF_FFFF), None);
    assert!(NonNan::new_checked(f32::INFINITY.to_bits()).is_some());
    assert!(NonNan::new_checked(f32::NEG_INFINITY.to_bits()).is_some());
    assert_eq!(NonNan::new_checked(0.25f32.to_bits()).map(|n| n.fixed()), Some(16384));
    assert_eq!(NonNan::new_checked((-2.0f32).to_bits()).map(|n| n.fixed()), Some(-131072));
    assert_eq!(NonNan::new_checked(0).map(|n| n.fixed()), Some(0));
}

#[test]
fn a_pass_is_settled_by_what_the_tessellator_returned() {
    let brush = ramp();
    let mut buffers = VertexBuffers::new();
    let triangle = RawGeometry {
        positions: vec![bits(0.0, 0.0), bits(10.0, 0.0), bits(5.0, 5.0)],
        indices: vec![0, 1, 2],
    };
    assert_eq!(settle(&mut buffers, Ok(triangle.clone()), &brush), Outcome::Done);
    assert_eq!(buffers.vertices.len(), 3);
    assert_eq!(buffers.indices, vec![0, 1, 2]);
    let before = buffers.clone();
    let gave_up = TessellationError::GeometryBuilder(GeometryBuilderError::TooManyVertices);
    assert_eq!(
        settle(&mut buffers, Err(gave_up.clone()), &brush),
        Outcome::EngineFailed(gave_up)
    );
    assert_eq!(buffers, before);
    let stray = RawGeometry { positions: vec![bits(1.0, 1.0)], indices: vec![0, 0, 1] };
    assert_eq!(settle(&mut buffers, Ok(stray), &brush), Outcome::Malformed);
    assert_eq!(buffers, before);
    assert_eq!(settle(&mut buffers, Ok(triangle), &brush), Outcome::Done);
    assert_eq!(buffers.indices, vec![0, 1, 2, 3, 4, 5]);
    assert_eq!(&buffers.vertices[..3], &buffers.vertices[3..]);
}

#[test]
fn constructors_by_brush_keep_it() {
    let fill_mode = Fill::with_brush(ramp());
    assert_eq!(fill_mode.brush, ramp());
    assert_eq!(fill_mode.options, FillOptions::default());
    assert_eq!(fill_mode.options.fill_rule, FillRule::EvenOdd);
    assert_eq!(fill_mode.options.sweep_orientation, Orientation::Vertical);
    assert!(fill_mode.options.handle_intersections);
    assert!(fill_mode.is_tessellable());
    let wide = StrokeOptions::default().with_line_width(3.0);
    let stroke_mode = Stroke::with_brush(ramp(), wide);
    assert_eq!(stroke_mode.brush, ramp());
    assert_eq!(stroke_mode.options, wide);
    assert!(stroke_mode.is_tessellable());
    let flat = Stroke::color(rgba(0.0, 1.0, 0.0, 1.0));
    assert_eq!(flat.options.start_cap, LineCap::Butt);
    assert_eq!(flat.options.end_cap, LineCap::Butt);
    assert_eq!(flat.options.line_join, LineJoin::Miter);
    assert_eq!(flat.options.variable_line_width, None);
    assert!(flat.is_tessellable());
}

#[test]
fn options_the_tessellator_may_panic_on_are_told_apart() {
    let unguarded = Fill {
        options: FillOptions::default().with_intersections(false),
        brush: ramp(),
    };
    assert!(!unguarded.is_tessellable());
    let guarded = Fill { options: FillOptions::non_zero().with_tolerance(0.5), brush: ramp() };
    assert!(guarded.is_tessellable());
    let by_attribute = Stroke::with_brush(ramp(), StrokeOptions::default().with_variable_line_width(5));
    assert!(!by_attribute.is_tessellable());
    let first_attribute =
        Stroke::with_brush(ramp(), StrokeOptions::default().with_variable_line_width(0));
    assert!(!first_attribute.is_tessellable());
    let plain = Stroke::with_brush(ramp(), StrokeOptions::default().with_line_width(5.0));
    assert!(plain.is_tessellable());
}

#[test]
fn shape_is_assembled_from_what_the_passes_returned() {
    let fill_brush = ramp();
    let green = rgba(0.0, 1.0, 0.0, 1.0);
    let stroke_brush = Brush::Color(green);
    let triangle = RawGeometry {
        positions: vec![bits(0.0, 0.0), bits(10.0, 0.0), bits(5.0, 5.0)],
        indices: vec![0, 1, 2],
    };
    let quad = RawGeometry {
        positions: vec![bits(0.0, 0.0), bits(1.0, 0.0), bits(1.0, 1.0), bits(0.0, 1.0)],
        indices: vec![0, 1, 2, 0, 2, 3],
    };
    let material = Some(GradientMaterial { uniform: fill_brush.clone_as_uniform() });
    let shape = assemble_shape(
        Some(Pass { made: Ok(triangle.clone()), brush: &fill_brush }),
        Some(Pass { made: Ok(quad.clone()), brush: &stroke_brush }),
        material,
    );
    assert_eq!(shape.fill, Some(Outcome::Done));
    assert_eq!(shape.stroke, Some(Outcome::Done));
    assert_eq!(shape.material, material);
    assert_eq!(shape.mesh.indices, vec![0, 1, 2, 3, 4, 5, 3, 5, 6]);
    assert_eq!(shape.mesh.positions.len(), 7);
    assert_eq!(shape.mesh.positions[1], [10.0f32.to_bits(), 0, 0]);
    assert_eq!(shape.mesh.positions[5], [1.0f32.to_bits(), 1.0f32.to_bits(), 0]);
    assert_eq!(
        shape.mesh.colors,
        vec![
            rgba(1.0, 0.0, 0.0, 1.0),
            rgba(0.0, 0.0, 1.0, 1.0),
            rgba(0.5, 0.0, 0.5, 1.0),
            green,
            green,
            green,
            green,
        ]
    );

    // A second shape gets the mesh it would get alone.
    let alone = assemble_shape(Some(Pass { made: Ok(quad.clone()), brush: &stroke_brush }), None, None);
    let again = assemble_shape(Some(Pass { made: Ok(quad.clone()), brush: &stroke_brush }), None, None);
    assert_eq!(alone, again);
    assert_eq!(alone.mesh.indices, vec![0, 1, 2, 0, 2, 3]);
    assert_eq!(alone.mesh.positions.len(), 4);
    assert_eq!(alone.stroke, None);
    assert_eq!(alone.material, None);

    // A failed fill leaves nothing behind, and the stroke counts from zero.
    let gave_up = TessellationError::GeometryBuilder(GeometryBuilderError::InvalidVertex);
    let half = assemble_shape(
        Some(Pass { made: Err(gave_up.clone()), brush: &fill_brush }),
        Some(Pass { made: Ok(triangle.clone()), brush: &stroke_brush }),
        None,
    );
    assert_eq!(half.fill, Some(Outcome::EngineFailed(gave_up.clone())));
    assert_eq!(half.stroke, Some(Outcome::Done));
    assert_eq!(half.mesh.indices, vec![0, 1, 2]);
    assert_eq!(half.mesh.colors, vec![green; 3]);

    // Malformed geometry is left out whole; nothing at all gives an empty mesh.
    let stray = RawGeometry { positions: vec![bits(1.0, 1.0)], indices: vec![0, 0, 1] };
    let none = assemble_shape(
        Some(Pass { made: Ok(stray), brush: &fill_brush }),
        Some(Pass { made: Err(gave_up.clone()), brush: &stroke_brush }),
        None,
    );
    assert_eq!(none.fill, Some(Outcome::Malformed));
    assert_eq!(none.stroke, Some(Outcome::EngineFailed(gave_up)));
    assert!(none.mesh.positions.is_empty());
    assert!(none.mesh.colors.is_empty());
    assert!(none.mesh.indices.is_empty());
    let empty = assemble_shape(None, None, None);
    assert_eq!(empty.fill, None);
    assert_eq!(empty.stroke, None);
    assert!(empty.mesh.positions.is_empty() && empty.mesh.indices.is_empty());
}

#[test]
fn shapes_meshed_in_turn_do_not_leak_into_each_other() {
    let (mut fill_tess, mut stroke_tess) = ShapePlugin.build();
    let first = rectangle(0.0, 0.0, 10.0, 4.0);
    let second = rectangle(-5.0, -5.0, 5.0, 5.0);
    let fill_mode = Fill::with_brush(ramp());
    let stroke_mode = Stroke::color(rgba(0.0, 1.0, 0.0, 1.0));
    let (mut fresh_fill, mut fresh_stroke) = ShapePlugin.build();
    let alone = mesh_shape(
        &mut fresh_fill,
        &mut fresh_stroke,
        &second,
        Some(&fill_mode),
        Some(&stroke_mode),
    );
    let _ = mesh_shape(&mut fill_tess, &mut stroke_tess, &first, Some(&fill_mode), Some(&stroke_mode));
    let after = mesh_shape(
        &mut fill_tess,
        &mut stroke_tess,
        &second,
        Some(&fill_mode),
        Some(&stroke_mode),
    );
    assert_eq!(after, alone);
    assert!(after.mesh.indices.iter().all(|i| (*i as usize) < after.mesh.positions.len()));
}

fn curved() -> Path {
    let mut builder = Path::builder();
    builder.begin(point(0.0, 0.0));
    builder.line_to(point(10.0, 0.0));
    builder.quadratic_bezier_to(point(15.0, 5.0), point(10.0, 10.0));
    builder.cubic_bezier_to(point(8.0, 12.0), point(2.0, 12.0), point(0.0, 10.0));
    builder.end(true);
    builder.build()
}

#[test]
fn numbers_on_the_canvas_are_told_from_the_rest() {
    assert!(is_on_canvas(0.0f32.to_bits()));
    assert!(is_on_canvas((-0.0f32).to_bits()));
    assert!(is_on_canvas(32767.998f32.to_bits()));
    assert!(is_on_canvas((-32767.998f32).to_bits()));
    assert!(is_on_canvas(f32::MIN_POSITIVE.to_bits()));
    assert!(is_on_canvas(1));
    assert!(!is_on_canvas(32768.0f32.to_bits()));
    assert!(!is_on_canvas((-32768.0f32).to_bits()));
    assert!(!is_on_canvas(f32::MIN.to_bits()));
    assert!(!is_on_canvas(f32::MAX.to_bits()));
    assert!(!is_on_canvas(f32::INFINITY.to_bits()));
    assert!(!is_on_canvas(f32::NAN.to_bits()));
    assert!(is_measure_from(0.1f32.to_bits(), 111));
    assert!(is_measure_from((1.0f32 / 65536.0).to_bits(), 111));
    assert!(!is_measure_from((0.9f32 / 65536.0).to_bits(), 111));
    assert!(!is_measure_from(0.0f32.to_bits(), 111));
    assert!(!is_measure_from((-0.1f32).to_bits(), 111));
    assert!(!is_measure_from(f32::NAN.to_bits(), 111));
    assert!(!is_measure_from(f32::INFINITY.to_bits(), 111));
    assert!(!is_measure_from(32768.0f32.to_bits(), 111));
    assert!(is_measure_from(1.0f32.to_bits(), 127));
    assert!(is_measure_from(4.0f32.to_bits(), 127));
    assert!(!is_measure_from(0.99f32.to_bits(), 127));
}

#[test]
fn outlines_are_read_point_by_point() {
    assert!(is_drawable(&rectangle(0.0, 0.0, 10.0, 4.0)));
    assert!(is_drawable(&rectangle(-32767.0, -32767.0, 32767.0, 32767.0)));
    assert!(is_drawable(&curved()));
    assert!(is_drawable(&Path::new()));
    assert!(!is_drawable(&rectangle(0.0, 0.0, 40000.0, 4.0)));
    assert!(!is_drawable(&rectangle(0.0, -32768.0, 1.0, 4.0)));
    assert!(!is_drawable(&rectangle(f32::MIN, f32::MIN, 1.0, 1.0)));
    let no_number =
        rectangle(0.0, 0.0, 10.0, 4.0).transformed(&Transform::scale(f32::NAN, 1.0));
    assert!(!is_drawable(&no_number));
    // A control point counts as much as an end point.
    let mut builder = Path::builder();
    builder.begin(point(0.0, 0.0));
    builder.quadratic_bezier_to(point(1.0, 50000.0), point(2.0, 0.0));
    builder.end(false);
    assert!(!is_drawable(&builder.build()));
    let mut builder = Path::builder();
    builder.begin(point(0.0, 0.0));
    builder.cubic_bezier_to(point(1.0, 1.0), point(-70000.0, 1.0), point(2.0, 0.0));
    builder.end(false);
    assert!(!is_drawable(&builder.build()));

    assert!(is_straight(&rectangle(0.0, 0.0, 10.0, 4.0)));
    assert!(is_straight(&Path::new()));
    assert!(!is_straight(&curved()));
    let mut builder = Path::builder();
    builder.begin(point(0.0, 0.0));
    builder.cubic_bezier_to(point(1.0, 1.0), point(2.0, 1.0), point(3.0, 0.0));
    builder.end(false);
    assert!(!is_straight(&builder.build()));
}

#[test]
fn options_without_a_sound_measure_are_refused() {
    let brush = ramp();
    let fill_with = |options: FillOptions| Fill { options, brush: brush.clone() };
    assert!(fill_with(FillOptions::default()).is_tessellable());
    assert!(fill_with(FillOptions::tolerance(0.001)).is_tessellable());
    assert!(!fill_with(FillOptions::tolerance(f32::NAN)).is_tessellable());
    assert!(!fill_with(FillOptions::tolerance(0.0)).is_tessellable());
    assert!(!fill_with(FillOptions::tolerance(-0.1)).is_tessellable());
    assert!(!fill_with(FillOptions::tolerance(f32::INFINITY)).is_tessellable());
    assert!(!fill_with(FillOptions::tolerance(1.0e-6)).is_tessellable());
    let stroke_with = |options: StrokeOptions| Stroke::with_brush(brush.clone(), options);
    assert!(stroke_with(StrokeOptions::default()).is_tessellable());
    assert!(stroke_with(StrokeOptions::default().with_line_width(0.25)).is_tessellable());
    assert!(!stroke_with(StrokeOptions::default().with_line_width(f32::NAN)).is_tessellable());
    assert!(!stroke_with(StrokeOptions::default().with_line_width(0.0)).is_tessellable());
    assert!(!stroke_with(StrokeOptions::default().with_line_width(-1.0)).is_tessellable());
    assert!(!stroke_with(StrokeOptions::default().with_tolerance(f32::NAN)).is_tessellable());
    assert!(!stroke_with(StrokeOptions::default().with_tolerance(0.0)).is_tessellable());
    assert!(stroke_with(StrokeOptions::default().with_miter_limit(1.0)).is_tessellable());
    assert!(!stroke_with(StrokeOptions::default().with_line_width(1.0e9)).is_tessellable());
    let mut low_miter = StrokeOptions::default();
    low_miter.miter_limit = 0.5;
    assert!(!stroke_with(low_miter).is_tessellable());
    let mut no_miter = StrokeOptions::default();
    no_miter.miter_limit = f32::NAN;
    assert!(!stroke_with(no_miter).is_tessellable());
}

#[test]
fn a_pass_that_tests_first_refuses_what_it_cannot_hand_on() {
    let (mut fill_tess, mut stroke_tess) = ShapePlugin.build();
    let good = rectangle(0.0, 0.0, 10.0, 4.0);
    let far = rectangle(f32::MIN, f32::MIN, 1.0, 1.0);
    let no_number = rectangle(0.0, 0.0, 10.0, 4.0).transformed(&Transform::scale(f32::NAN, 1.0));
    let fill_mode = Fill::with_brush(ramp());
    let stroke_mode = Stroke::color(rgba(0.0, 1.0, 0.0, 1.0));
    let mut buffers = VertexBuffers::new();
    assert_eq!(try_fill(&mut fill_tess, &good, &fill_mode, &mut buffers), Some(Outcome::Done));
    assert_eq!(buffers.vertices.len(), 4);
    let before = buffers.clone();

    assert_eq!(try_fill(&mut fill_tess, &far, &fill_mode, &mut buffers), None);
    assert_eq!(try_fill(&mut fill_tess, &no_number, &fill_mode, &mut buffers), None);
    assert_eq!(try_stroke(&mut stroke_tess, &no_number, &stroke_mode, &mut buffers), None);
    let unguarded =
        Fill { options: FillOptions::default().with_intersections(false), brush: ramp() };
    assert_eq!(try_fill(&mut fill_tess, &good, &unguarded, &mut buffers), None);
    let no_tolerance = Fill { options: FillOptions::tolerance(f32::NAN), brush: ramp() };
    assert_eq!(try_fill(&mut fill_tess, &good, &no_tolerance, &mut buffers), None);
    let no_width =
        Stroke::with_brush(ramp(), StrokeOptions::default().with_line_width(f32::NAN));
    assert_eq!(try_stroke(&mut stroke_tess, &curved(), &no_width, &mut buffers), None);
    let by_attribute =
        Stroke::with_brush(ramp(), StrokeOptions::default().with_variable_line_width(5));
    assert_eq!(try_stroke(&mut stroke_tess, &good, &by_attribute, &mut buffers), None);
    let mut unordered = LinearGradient::new_empty(Point { x: 0, y: 0 }, Point { x: 9, y: 0 });
    unordered.add_stop(9, rgba(1.0, 0.0, 0.0, 1.0));
    unordered.add_stop(3, rgba(0.0, 0.0, 1.0, 1.0));
    let unready = Fill::with_brush(Brush::Gradient(Gradient::Linear(unordered)));
    assert_eq!(try_fill(&mut fill_tess, &good, &unready, &mut buffers), None);
    assert_eq!(buffers, before);

    assert_eq!(
        try_stroke(&mut stroke_tess, &good, &stroke_mode, &mut buffers),
        Some(Outcome::Done)
    );
    assert!(buffers.vertices.len() > before.vertices.len());
    assert!(buffers.is_well_formed());

    assert_eq!(
        try_mesh_shape(&mut fill_tess, &mut stroke_tess, &far, Some(&fill_mode), None),
        None
    );
    assert_eq!(
        try_mesh_shape(&mut fill_tess, &mut stroke_tess, &good, Some(&unguarded), None),
        None
    );
    assert_eq!(
        try_mesh_shape(&mut fill_tess, &mut stroke_tess, &good, None, Some(&by_attribute)),
        None
    );
    assert_eq!(try_mesh_shape(&mut fill_tess, &mut stroke_tess, &no_number, None, None), None);
    let meshed = try_mesh_shape(
        &mut fill_tess,
        &mut stroke_tess,
        &good,
        Some(&fill_mode),
        Some(&stroke_mode),
    );
    let (mut fresh_fill, mut fresh_stroke) = ShapePlugin.build();
    assert_eq!(
        meshed,
        Some(mesh_shape(
            &mut fresh_fill,
            &mut fresh_stroke,
            &good,
            Some(&fill_mode),
            Some(&stroke_mode)
        ))
    );
}

#[test]
fn curves_and_round_joins_are_tessellated_too() {
    let (mut fill_tess, mut stroke_tess) = ShapePlugin.build();
    let path = curved();
    let mut buffers = VertexBuffers::new();
    assert_eq!(
        try_fill(&mut fill_tess, &path, &Fill::with_brush(ramp()), &mut buffers),
        Some(Outcome::Done)
    );
    assert!(buffers.vertices.len() > 4);
    let filled = buffers.vertices.len();
    let round = StrokeOptions::default()
        .with_line_join(LineJoin::Round)
        .with_line_cap(LineCap::Round)
        .with_line_width(2.0);
    let line = Stroke::with_brush(Brush::Color(rgba(0.0, 1.0, 0.0, 1.0)), round);
    assert_eq!(try_stroke(&mut stroke_tess, &path, &line, &mut buffers), Some(Outcome::Done));
    assert!(buffers.vertices.len() > filled);
    assert!(buffers.is_well_formed());
    let brush = ramp();
    for v in &buffers.vertices[..filled] {
        assert_eq!(v.color, brush.brush(shading_point_of(&v.position)));
    }
}

#[test]
fn mesh_is_built_from_any_buffers() {
    let v = Vertex { position: bits(1.0, 2.0), color: rgba(1.0, 0.0, 0.0, 1.0) };
    let loose = VertexBuffers { vertices: vec![v, v], indices: vec![1, 0] };
    assert!(!loose.is_well_formed());
    let mesh = build_mesh(&loose);
    assert_eq!(mesh.indices, vec![1, 0]);
    assert_eq!(mesh.positions, vec![[1.0f32.to_bits(), 2.0f32.to_bits(), 0]; 2]);
    assert_eq!(mesh.colors, vec![v.color; 2]);
}
