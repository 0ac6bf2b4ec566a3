use debug_draw::geom::{floor_div, isqrt_u64, rotor_mul};
use debug_draw::text::{BASE_SCALE_DEN, LINE_HEIGHT};
use debug_draw::{
    Character, Color, DebugDraw, DebugDrawCircle, DebugDrawDrawable, DebugDrawMesh,
    DebugDrawVertex, DebugLine, DebugLineColor, DebugRectangle, DebugText, DebugTextAlignment,
    DebugTextVerticalAlignment, DebugTriangle, Glyph, GlyphTriangle, OutlineAssembler, Rotor,
    Vec2, FX_ONE,
};

fn red() -> Color {
    Color { r: 255, g: 0, b: 0, a: 255 }
}

fn blue() -> Color {
    Color { r: 0, g: 0, b: 255, a: 255 }
}

fn v(x: i64, y: i64) -> Vec2 {
    Vec2 { x, y }
}

fn mesh_of(verts: &[(i64, i64)], indices: &[u32], depth: i64) -> DebugDrawMesh {
    DebugDrawMesh {
        vertices: verts
            .iter()
            .map(|&(x, y)| DebugDrawVertex { position: v(x, y), color: red() })
            .collect(),
        indices: indices.to_vec(),
        depth,
    }
}

fn positions(m: &DebugDrawMesh) -> Vec<(i64, i64)> {
    m.vertices.iter().map(|w| (w.position.x, w.position.y)).collect()
}

#[test]
fn floor_div_rounds_toward_negative_infinity() {
    assert_eq!(floor_div(7, 2), 3);
    assert_eq!(floor_div(-7, 2), -4);
    assert_eq!(floor_div(-6, 3), -2);
    assert_eq!(floor_div(0, 5), 0);
}

#[test]
fn isqrt_exact_and_rounded() {
    assert_eq!(isqrt_u64(0), 0);
    assert_eq!(isqrt_u64(10), 3);
    assert_eq!(isqrt_u64(1000000), 1000);
    assert_eq!(isqrt_u64(999999), 999);
}

#[test]
fn rotor_product_of_axis_rotations() {
    let id = Rotor::identity();
    let quarter = Rotor { cos: 0, sin: FX_ONE };
    let r = rotor_mul(id, quarter);
    assert_eq!(r.cos, 0);
    assert_eq!(r.sin, FX_ONE);
    let half = rotor_mul(quarter, quarter);
    assert_eq!(half.cos, -FX_ONE);
    assert_eq!(half.sin, 0);
}

#[test]
fn degenerate_line_yields_empty_mesh() {
    let l = DebugLine {
        from: v(42, -7),
        to: v(42, -7),
        color: DebugLineColor::Solid(red()),
        thickness: 100,
        depth: 3,
    };
    let m = l.to_mesh();
    assert_eq!(m.vertices.len(), 0);
    assert_eq!(m.indices.len(), 0);
}

#[test]
fn line_quad_covers_segment_with_thickness() {
    let l = DebugLine {
        from: v(0, 0),
        to: v(1000, 0),
        color: DebugLineColor::Solid(red()),
        thickness: 100,
        depth: 5,
    };
    let m = l.to_mesh();
    assert_eq!(m.vertices.len(), 4);
    assert_eq!(m.indices, vec![0, 1, 2, 3, 2, 1]);
    assert_eq!(positions(&m), vec![(0, 50), (0, -50), (1000, 50), (1000, -50)]);
    // the quad is exactly thickness wide and centred on the segment
    assert_eq!(m.vertices[0].position.y - m.vertices[1].position.y, 100);
    assert_eq!(m.vertices[0].position.y + m.vertices[1].position.y, 0);
    assert_eq!(m.depth, 5);
}

#[test]
fn gradient_line_colors_each_end() {
    let l = DebugLine {
        from: v(0, 0),
        to: v(100, 0),
        color: DebugLineColor::Gradient(red(), blue()),
        thickness: 10,
        depth: 0,
    };
    let m = l.to_mesh();
    assert_eq!(m.vertices[0].color, red());
    assert_eq!(m.vertices[1].color, red());
    assert_eq!(m.vertices[2].color, blue());
    assert_eq!(m.vertices[3].color, blue());
}

#[test]
fn rectangle_unrotated_corners_at_half_size() {
    let r = DebugRectangle {
        position: v(10, 20),
        size: v(100, 60),
        rotation: Rotor::identity(),
        color: red(),
        depth: 0,
    };
    let m = r.to_mesh();
    assert_eq!(m.indices, vec![0, 1, 2, 3, 2, 1]);
    assert_eq!(positions(&m), vec![(60, 50), (-40, 50), (60, -10), (-40, -10)]);
}

#[test]
fn rectangle_quarter_turn_swaps_axes() {
    let r = DebugRectangle {
        position: v(0, 0),
        size: v(100, 60),
        rotation: Rotor { cos: 0, sin: FX_ONE },
        color: red(),
        depth: 0,
    };
    let m = r.to_mesh();
    // (hx, hy) rotated a quarter turn is (-hy, hx)
    assert_eq!(positions(&m), vec![(-30, 50), (-30, -50), (30, 50), (30, -50)]);
}

#[test]
fn circle_fan_counts_and_equidistant_perimeter() {
    let dirs = vec![
        Rotor { cos: FX_ONE, sin: 0 },
        Rotor { cos: 0, sin: FX_ONE },
        Rotor { cos: -FX_ONE, sin: 0 },
        Rotor { cos: 0, sin: -FX_ONE },
    ];
    let c = DebugDrawCircle {
        position: v(10, 20),
        radius: 200,
        segments: 4,
        rotation: Rotor::identity(),
        segment_dirs: dirs,
        color: red(),
    };
    let m = c.to_mesh();
    assert_eq!(m.vertices.len(), 5);
    assert_eq!(m.indices.len(), 12);
    assert_eq!(positions(&m), vec![(110, 20), (10, 120), (-90, 20), (10, -80), (10, 20)]);
    assert_eq!(m.indices, vec![4, 0, 1, 4, 1, 2, 4, 2, 3, 4, 3, 0]);
    // each perimeter vertex sits at half the radius from the center
    for i in 0..4 {
        let p = m.vertices[i].position;
        let dx = p.x - 10;
        let dy = p.y - 20;
        assert_eq!(dx * dx + dy * dy, 100 * 100);
    }
}

fn shoelace(m: &DebugDrawMesh) -> i64 {
    let p: Vec<Vec2> =
        m.indices.iter().map(|&i| m.vertices[i as usize].position).collect();
    p[0].x * p[1].y + p[1].x * p[2].y + p[2].x * p[0].y - p[1].x * p[0].y - p[2].x * p[1].y
        - p[0].x * p[2].y
}

#[test]
fn triangle_counter_clockwise_kept() {
    let t = DebugTriangle { points: [v(0, 0), v(10, 0), v(0, 10)], color: red(), depth: 0 };
    let m = t.to_mesh();
    assert_eq!(m.indices, vec![0, 1, 2]);
    assert!(shoelace(&m) > 0);
}

#[test]
fn triangle_clockwise_reversed() {
    let t = DebugTriangle { points: [v(0, 0), v(0, 10), v(10, 0)], color: red(), depth: 0 };
    let m = t.to_mesh();
    assert_eq!(m.indices, vec![0, 2, 1]);
    assert!(shoelace(&m) > 0);
}

#[test]
fn merge_concatenates_and_rebases_indices() {
    let mut a = mesh_of(&[(1, 1)], &[0], 0);
    let b = mesh_of(&[(2, 2), (3, 3)], &[1, 0], 0);
    a.merge_with(&b);
    assert_eq!(positions(&a), vec![(1, 1), (2, 2), (3, 3)]);
    assert_eq!(a.indices, vec![0, 2, 1]);
}

#[test]
fn flush_orders_by_depth() {
    let mut d = DebugDraw::new();
    d.submit(mesh_of(&[(3, 3)], &[0], 3));
    d.submit(mesh_of(&[(1, 1)], &[0], 1));
    d.submit(mesh_of(&[(2, 2)], &[0], 2));
    let m = d.flush();
    assert_eq!(positions(&m), vec![(1, 1), (2, 2), (3, 3)]);
    assert_eq!(m.indices, vec![0, 1, 2]);
}

#[test]
fn flush_keeps_submission_order_on_ties() {
    let mut d = DebugDraw::new();
    d.submit(mesh_of(&[(1, 1)], &[0], 7));
    d.submit(mesh_of(&[(9, 9)], &[0], 7));
    d.submit(mesh_of(&[(0, 0)], &[0], 1));
    let m = d.flush();
    assert_eq!(positions(&m), vec![(0, 0), (1, 1), (9, 9)]);
}

#[test]
fn flush_clears_pending() {
    let mut d = DebugDraw::new();
    d.submit(mesh_of(&[(1, 1)], &[0], 1));
    let first = d.flush();
    assert_eq!(first.vertices.len(), 1);
    let second = d.flush();
    assert_eq!(second.vertices.len(), 0);
    assert_eq!(second.indices.len(), 0);
}

#[test]
fn flush_on_empty_frame_yields_empty_mesh() {
    let mut d = DebugDraw::new();
    let m = d.flush();
    assert_eq!(m.vertices.len(), 0);
    assert_eq!(m.indices.len(), 0);
}

#[test]
fn flush_merges_vertex_buffers_in_full() {
    let mut d = DebugDraw::new();
    d.submit(mesh_of(&[(1, 1), (2, 2)], &[0, 1], 0));
    d.submit(mesh_of(&[(3, 3)], &[0], 0));
    let m = d.flush();
    assert_eq!(m.vertices.len(), 3);
    assert_eq!(m.indices, vec![0, 1, 2]);
}

fn letter_glyph() -> Glyph {
    Glyph {
        triangles: vec![GlyphTriangle { a: v(0, 0), b: v(100, 0), c: v(0, 100) }],
        horizontal_advance: 600,
    }
}

fn two_line_text(alignment: DebugTextAlignment) -> DebugText {
    DebugText {
        characters: vec![
            Character::Glyph(letter_glyph()),
            Character::Glyph(letter_glyph()),
            Character::Newline,
            Character::Glyph(letter_glyph()),
            Character::Glyph(letter_glyph()),
        ],
        position: v(100, 200),
        scale: FX_ONE,
        color: red(),
        alignment,
        vertical_alignment: DebugTextVerticalAlignment::Top,
        depth: 7,
    }
}

#[test]
fn text_left_top_resets_cursor_to_origin_and_drops_one_line() {
    // effective scale: FX_ONE / 50 = 1310; advance step: 600*1310/65536 = 11;
    // line step: 1200*1310/65536 = 23
    assert_eq!(floor_div(FX_ONE, BASE_SCALE_DEN), 1310);
    let t = two_line_text(DebugTextAlignment::Left);
    let m = t.to_mesh();
    assert_eq!(m.vertices.len(), 12);
    assert_eq!(m.indices, (0..12u32).collect::<Vec<u32>>());
    assert_eq!(m.depth, 7);
    // first glyph of line one sits at the origin
    assert_eq!((m.vertices[0].position.x, m.vertices[0].position.y), (100, 200));
    // second glyph advanced by the scaled advance
    assert_eq!((m.vertices[3].position.x, m.vertices[3].position.y), (111, 200));
    // first glyph of line two: x reset to the origin, y dropped by the line step
    assert_eq!((m.vertices[6].position.x, m.vertices[6].position.y), (100, 177));
    assert_eq!((m.vertices[9].position.x, m.vertices[9].position.y), (111, 177));
    assert_eq!(200 - m.vertices[6].position.y, LINE_HEIGHT * 1310 / 65536);
    for w in &m.vertices {
        assert_eq!(w.color, red());
    }
}

#[test]
fn text_centered_lines_share_their_offset() {
    let t = two_line_text(DebugTextAlignment::Center);
    let m = t.to_mesh();
    // each line is 22 units wide, so both lines start at x - 11
    assert_eq!((m.vertices[0].position.x, m.vertices[0].position.y), (89, 200));
    assert_eq!((m.vertices[6].position.x, m.vertices[6].position.y), (89, 177));
}

#[test]
fn empty_text_yields_empty_mesh() {
    let t = DebugText::default();
    let m = t.to_mesh();
    assert_eq!(m.vertices.len(), 0);
    assert_eq!(m.indices.len(), 0);
}

#[test]
fn drawable_dispatch_matches_direct_tessellation() {
    let tri = DebugTriangle { points: [v(0, 0), v(10, 0), v(0, 10)], color: red(), depth: 2 };
    let via_enum = DebugDrawDrawable::Triangle(tri).to_mesh();
    let direct = tri.to_mesh();
    assert_eq!(positions(&via_enum), positions(&direct));
    assert_eq!(via_enum.indices, direct.indices);
    assert_eq!(via_enum.depth, direct.depth);
}

#[test]
fn accumulator_draw_tessellates_and_buffers() {
    let mut d = DebugDraw::new();
    let tri = DebugTriangle { points: [v(0, 0), v(10, 0), v(0, 10)], color: red(), depth: 0 };
    d.draw(&DebugDrawDrawable::Triangle(tri));
    let m = d.flush();
    assert_eq!(m.vertices.len(), 3);
    assert_eq!(m.indices, vec![0, 1, 2]);
}

#[test]
fn outline_quadratic_subdivision_points() {
    let mut a = OutlineAssembler::new();
    a.move_to(0, 0);
    a.quad_to(300, 300, 600, 0);
    a.close();
    let contours = a.into_contours();
    assert_eq!(contours.len(), 1);
    let pts: Vec<(i64, i64)> = contours[0].iter().map(|p| (p.x, p.y)).collect();
    assert_eq!(pts, vec![(0, 0), (100, 100), (300, 166), (600, 0)]);
}

#[test]
fn outline_move_to_flushes_previous_contour() {
    let mut a = OutlineAssembler::new();
    a.move_to(0, 0);
    a.line_to(10, 0);
    a.line_to(10, 10);
    a.move_to(100, 100);
    a.line_to(110, 100);
    a.close();
    let contours = a.into_contours();
    assert_eq!(contours.len(), 2);
    assert_eq!(contours[0].len(), 3);
    assert_eq!(contours[1].len(), 2);
    assert_eq!((contours[1][0].x, contours[1][0].y), (100, 100));
}

#[test]
fn outline_cubic_degrades_to_endpoint() {
    let mut a = OutlineAssembler::new();
    a.move_to(0, 0);
    a.curve_to(100, 100, 200, 100, 300, 0);
    a.close();
    let contours = a.into_contours();
    assert_eq!(contours.len(), 1);
    let pts: Vec<(i64, i64)> = contours[0].iter().map(|p| (p.x, p.y)).collect();
    assert_eq!(pts, vec![(0, 0), (300, 0)]);
}

#[test]
fn outline_empty_stream_yields_no_contours() {
    let a = OutlineAssembler::new();
    let contours = a.into_contours();
    assert_eq!(contours.len(), 0);
}

#[test]
fn default_shapes_match_documented_values() {
    let l = DebugLine::default();
    assert_eq!(l.from, v(0, 0));
    assert_eq!(l.to, v(0, 0));
    assert_eq!(l.thickness, 1);
    assert_eq!(l.depth, 0);
    let r = DebugRectangle::default();
    assert_eq!(r.size, v(0, 0));
    assert_eq!(r.rotation, Rotor { cos: FX_ONE, sin: 0 });
    let c = DebugDrawCircle::default();
    assert_eq!(c.segments, 64);
    assert_eq!(c.radius, 0);
    assert_eq!(c.segment_dirs.len(), 0);
    let t = DebugTriangle::default();
    assert_eq!(t.points[0], v(0, 0));
    let x = DebugText::default();
    assert_eq!(x.scale, FX_ONE);
    assert_eq!(x.alignment, DebugTextAlignment::Left);
    assert_eq!(x.vertical_alignment, DebugTextVerticalAlignment::Top);
}

#[test]
fn line_color_conversions() {
    assert_eq!(
        DebugLineColor::default(),
        DebugLineColor::Solid(Color { r: 0, g: 0, b: 0, a: 255 })
    );
    assert_eq!(DebugLineColor::from(red()), DebugLineColor::Solid(red()));
}

#[test]
fn zero_size_rectangle_yields_empty_mesh() {
    let r = DebugRectangle {
        position: v(10, 20),
        size: v(0, 0),
        rotation: Rotor::identity(),
        color: red(),
        depth: 4,
    };
    let m = r.to_mesh();
    assert_eq!(m.vertices.len(), 0);
    assert_eq!(m.indices.len(), 0);
}

#[test]
fn text_vertical_alignment_counts_whole_lines() {
    // one line (no newline): Center raises the start by half a line step,
    // Bottom by a whole one; the line step at natural scale is 23
    let mut t = DebugText {
        characters: vec![Character::Glyph(letter_glyph())],
        position: v(100, 200),
        scale: FX_ONE,
        color: red(),
        alignment: DebugTextAlignment::Left,
        vertical_alignment: DebugTextVerticalAlignment::Center,
        depth: 0,
    };
    let m = t.to_mesh();
    assert_eq!((m.vertices[0].position.x, m.vertices[0].position.y), (100, 211));
    t.vertical_alignment = DebugTextVerticalAlignment::Bottom;
    let m = t.to_mesh();
    assert_eq!((m.vertices[0].position.x, m.vertices[0].position.y), (100, 223));
    // two lines, Center: the whole block is two line steps tall
    let mut t2 = two_line_text(DebugTextAlignment::Left);
    t2.vertical_alignment = DebugTextVerticalAlignment::Center;
    let m2 = t2.to_mesh();
    assert_eq!((m2.vertices[0].position.x, m2.vertices[0].position.y), (100, 223));
}
