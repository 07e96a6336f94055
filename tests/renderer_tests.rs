use batch_renderer::color::Color;
use batch_renderer::matrix::Matrix4;
use batch_renderer::renderer::{Renderer, Vertex, UV_ONE};

fn color(r: u8, g: u8, b: u8) -> Color {
    Color { r, g, b, a: 255 }
}

fn positions(vs: &[Vertex]) -> Vec<(i64, i64)> {
    vs.iter().map(|v| (v.x, v.y)).collect()
}

#[test]
fn new_renderer_is_idle() {
    let r = Renderer::new(800, 600);
    assert!(r.pending_vertices().is_empty());
    assert_eq!(r.active_shader(), 0);
    let p = r.projection();
    assert_eq!(p.row_scale, [800, -600, 2, 1]);
}

#[test]
fn draw_vertex_appends_one_record() {
    let mut r = Renderer::new(100, 100);
    let c = color(1, 2, 3);
    r.draw_vertex((4, 5), &c, (6, 7));
    assert_eq!(r.pending_vertices().as_slice(), &[Vertex { x: 4, y: 5, color: c, u: 6, v: 7 }]);
}

#[test]
fn draw_triangle_keeps_winding_and_color() {
    let mut r = Renderer::new(100, 100);
    let c = color(9, 8, 7);
    r.draw_triangle([(0, 0), (5, 0), (0, 5)], &c, [(1, 1), (2, 2), (3, 3)]);
    let vs = r.pending_vertices();
    assert_eq!(positions(vs), vec![(0, 0), (5, 0), (0, 5)]);
    assert!(vs.iter().all(|v| v.color == c));
    assert_eq!(vs.iter().map(|v| (v.u, v.v)).collect::<Vec<_>>(), vec![(1, 1), (2, 2), (3, 3)]);
}

#[test]
fn draw_triangle_colors_per_vertex() {
    let mut r = Renderer::new(800, 600);
    let a = Color::from_hex("#A3212C");
    let b = Color::from_hex("#933484");
    let c = Color::from_hex("#00A67D");
    r.draw_triangle_colors(
        [(100, 100), (400, 100), (250, 300)],
        [&a, &b, &c],
        [(100, 100), (400, 100), (250, 300)],
    );
    let vs = r.pending_vertices();
    assert_eq!(vs.len(), 3);
    assert_eq!((vs[0].color, vs[1].color, vs[2].color), (a, b, c));
    assert_eq!(positions(vs), vec![(100, 100), (400, 100), (250, 300)]);
}

#[test]
fn draw_quad_two_triangles() {
    let mut r = Renderer::new(800, 600);
    let c = color(0x51, 0x4B, 0x8E);
    r.draw_quad((0, 0), (10, 20), &c);
    let vs = r.pending_vertices();
    assert_eq!(vs.len(), 6);
    assert!(vs.iter().all(|v| v.color == c));
    let ps = positions(vs);
    for corner in [(0, 0), (10, 0), (0, 20), (10, 20)] {
        assert!(ps.contains(&corner));
    }
    assert!(ps.iter().all(|p| [(0, 0), (10, 0), (0, 20), (10, 20)].contains(p)));
    assert!(ps.iter().filter(|p| **p == (0, 0)).count() >= 2);
    assert!(ps.iter().filter(|p| **p == (10, 20)).count() >= 2);
}

#[test]
fn draw_quad_maps_unit_square() {
    let mut r = Renderer::new(800, 600);
    r.draw_quad((3, 4), (10, 20), &color(0, 0, 0));
    for v in r.pending_vertices() {
        let expected = (
            if v.x == 3 { 0 } else { UV_ONE },
            if v.y == 4 { 0 } else { UV_ONE },
        );
        assert_eq!((v.u, v.v), expected);
    }
}

#[test]
fn draw_quad_colors_corners() {
    let mut r = Renderer::new(800, 600);
    let tl = color(1, 0, 0);
    let tr = color(2, 0, 0);
    let bl = color(3, 0, 0);
    let br = color(4, 0, 0);
    r.draw_quad_colors((350, 250), (100, 100), [&tl, &tr, &bl, &br]);
    let vs = r.pending_vertices();
    assert_eq!(vs.len(), 6);
    let expected = [((350, 250), tl), ((450, 250), tr), ((350, 350), bl), ((450, 350), br)];
    for (pos, c) in expected {
        assert!(vs.iter().any(|v| (v.x, v.y) == pos && v.color == c));
    }
    for v in vs {
        let (_, c) = expected.iter().find(|(p, _)| *p == (v.x, v.y)).unwrap();
        assert_eq!(v.color, *c);
    }
}

#[test]
fn flush_hands_over_and_clears() {
    let mut r = Renderer::new(800, 600);
    r.register_shader("simple", 7);
    r.use_shader("simple");
    r.draw_quad((0, 0), (10, 20), &color(5, 5, 5));
    let before = r.pending_vertices().clone();
    let batch = r.flush();
    assert_eq!(batch.program, 7);
    assert_eq!(batch.vertices, before);
    assert_eq!(batch.projection.row_scale, [800, -600, 2, 1]);
    assert!(r.pending_vertices().is_empty());
}

#[test]
fn flush_twice_draws_nothing_the_second_time() {
    let mut r = Renderer::new(800, 600);
    r.draw_quad((0, 0), (10, 20), &color(5, 5, 5));
    let first = r.flush();
    assert_eq!(first.vertices.len(), 6);
    let second = r.flush();
    assert!(second.vertices.is_empty());
}

#[test]
fn triangles_then_flush_returns_to_idle() {
    let mut r = Renderer::new(640, 480);
    let c = color(1, 1, 1);
    for k in 0..4 {
        r.draw_triangle([(k, 0), (k + 1, 0), (k, 1)], &c, [(0, 0), (0, 0), (0, 0)]);
    }
    assert_eq!(r.pending_vertices().len(), 12);
    let batch = r.flush();
    assert_eq!(batch.vertices.len(), 12);
    assert!(r.pending_vertices().is_empty());
    r.draw_quad((1, 1), (2, 2), &c);
    let again = r.flush();
    assert_eq!(again.vertices.len(), 6);
    assert_eq!(again.vertices[0], Vertex { x: 1, y: 1, color: c, u: 0, v: 0 });
}

#[test]
fn unknown_shader_keeps_active_program() {
    let mut r = Renderer::new(800, 600);
    r.init_shaders(11, 12, 13);
    assert!(r.use_shader("gray"));
    assert_eq!(r.active_shader(), 12);
    assert!(!r.use_shader("missing"));
    assert_eq!(r.active_shader(), 12);
    r.draw_quad((0, 0), (1, 1), &color(0, 0, 0));
    assert_eq!(r.flush().program, 12);
}

#[test]
fn init_shaders_registers_three_names() {
    let mut r = Renderer::new(800, 600);
    r.init_shaders(11, 12, 13);
    r.use_shader("simple");
    assert_eq!(r.active_shader(), 11);
    r.use_shader("texture");
    assert_eq!(r.active_shader(), 13);
}

#[test]
fn reregistering_a_name_replaces_its_program() {
    let mut r = Renderer::new(800, 600);
    r.register_shader("simple", 1);
    r.register_shader("other", 2);
    r.register_shader("simple", 3);
    r.use_shader("simple");
    assert_eq!(r.active_shader(), 3);
    r.use_shader("other");
    assert_eq!(r.active_shader(), 2);
}

#[test]
fn projection_update_keeps_pending_vertices() {
    let mut r = Renderer::new(800, 600);
    r.draw_vertex((1, 2), &color(0, 0, 0), (0, 0));
    r.update_projection_matrix(1024, 768);
    assert_eq!(r.projection().row_scale, [1024, -768, 2, 1]);
    assert_eq!(r.projection().elements[12], -1024);
    assert_eq!(r.projection().elements[13], -768);
    assert_eq!(r.pending_vertices().len(), 1);
}

#[test]
fn set_projection_applies_to_next_flush() {
    let mut r = Renderer::new(800, 600);
    r.set_projection(Matrix4::orthographic(-5, 5, -2, 2, 0, 10));
    r.draw_triangle([(0, 0), (1, 0), (0, 1)], &color(0, 0, 0), [(0, 0), (0, 0), (0, 0)]);
    let batch = r.flush();
    assert_eq!(batch.projection.row_scale, [10, 4, 10, 1]);
    assert_eq!(batch.projection.elements[14], 10);
}

#[test]
fn draw_quad_far_corner_beyond_i32() {
    let mut r = Renderer::new(800, 600);
    r.draw_quad((i32::MAX, i32::MAX), (i32::MAX, 1), &color(1, 2, 3));
    let ps = positions(r.pending_vertices());
    let far = (2 * i32::MAX as i64, i32::MAX as i64 + 1);
    assert!(ps.contains(&far));
    assert_eq!(ps.iter().filter(|p| **p == far).count(), 2);
}

#[test]
fn flush_hands_over_a_partial_triangle() {
    let mut r = Renderer::new(800, 600);
    r.draw_vertex((1, 1), &color(0, 0, 0), (0, 0));
    let batch = r.flush();
    assert_eq!(batch.vertices.len(), 1);
    assert!(r.pending_vertices().is_empty());
}
