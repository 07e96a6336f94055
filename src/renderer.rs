use vstd::prelude::*;
use crate::color::Color;
use crate::matrix::{Matrix4, ortho_elements, ortho_scales};
use crate::shaders::ShaderRegistry;

verus! {

/// Texture coordinates are fixed-point numbers with 16 fractional bits: this value is 1.
pub const UV_ONE: i32 = 65536;

/// One vertex record: a screen position in pixels (depth is always 0), a color, and a
/// texture coordinate in units of `1 / UV_ONE`. Positions are wider than the `i32`
/// coordinates that shapes are given in, so that a rectangle's far corner always fits.
#[derive(Clone, Copy, Debug, PartialEq, Eq, Structural)]
pub struct Vertex {
    pub x: i64,
    pub y: i64,
    pub color: Color,
    pub u: i32,
    pub v: i32,
}

/// What one flush hands to the graphics driver: the program to draw with, the projection
/// to upload as `projectionMatrix`, and the triangle list to upload and draw.
pub struct DrawBatch {
    pub program: u32,
    pub projection: Matrix4,
    pub vertices: Vec<Vertex>,
}

/// Accumulates triangles between flushes and keeps the shader table, the active program
/// and the projection used by the next flush.
pub struct Renderer {
    shaders: ShaderRegistry,
    active_shader: u32,
    vertices: Vec<Vertex>,
    projection_matrix: Matrix4,
}

/// The abstract state of a renderer.
pub struct RendererView {
    pub shaders: Map<Seq<char>, u32>,
    pub active_shader: u32,
    pub vertices: Seq<Vertex>,
    pub projection: Matrix4,
}

impl View for Renderer {
    type V = RendererView;

    closed spec fn view(&self) -> RendererView {
        RendererView {
            shaders: self.shaders@,
            active_shader: self.active_shader,
            vertices: self.vertices@,
            projection: self.projection_matrix,
        }
    }
}

pub open spec fn vertex_at(position: (i64, i64), color: Color, uv: (i32, i32)) -> Vertex {
    Vertex { x: position.0, y: position.1, color, u: uv.0, v: uv.1 }
}

/// A shape coordinate widened to a vertex position.
pub open spec fn wide(p: (i32, i32)) -> (i64, i64) {
    (p.0 as i64, p.1 as i64)
}

/// Three vertices, the `i`-th from the `i`-th position, color and texture coordinate.
pub open spec fn triangle_vertices(
    positions: Seq<(i64, i64)>,
    colors: Seq<Color>,
    uvs: Seq<(i32, i32)>,
) -> Seq<Vertex> {
    Seq::new(3, |i: int| vertex_at(positions[i], colors[i], uvs[i]))
}

/// Corner `c` of the rectangle at `(x, y)` of size `(w, h)`: 0 top-left, 1 top-right,
/// 2 bottom-left, 3 bottom-right.
pub open spec fn corner_position(x: int, y: int, w: int, h: int, c: int) -> (i64, i64) {
    if c == 0 {
        (x as i64, y as i64)
    } else if c == 1 {
        ((x + w) as i64, y as i64)
    } else if c == 2 {
        (x as i64, (y + h) as i64)
    } else {
        ((x + w) as i64, (y + h) as i64)
    }
}

/// The texture coordinate of corner `c`: the rectangle maps onto the unit square with
/// `(0, 0)` at the top-left.
pub open spec fn corner_uv(c: int) -> (i32, i32) {
    if c == 0 {
        (0i32, 0i32)
    } else if c == 1 {
        (UV_ONE, 0i32)
    } else if c == 2 {
        (0i32, UV_ONE)
    } else {
        (UV_ONE, UV_ONE)
    }
}

/// Which corner the `k`-th vertex of a rectangle stands on: the triangles
/// (top-left, bottom-left, bottom-right) and (top-left, bottom-right, top-right), which
/// share the diagonal from top-left to bottom-right.
pub open spec fn quad_corner(k: int) -> int {
    if k == 0 || k == 3 {
        0
    } else if k == 1 {
        2
    } else if k == 2 || k == 4 {
        3
    } else {
        1
    }
}

/// The six vertices of a rectangle whose corner `c` has color `colors[c]`.
pub open spec fn quad_vertices(x: int, y: int, w: int, h: int, colors: Seq<Color>) -> Seq<Vertex> {
    Seq::new(
        6,
        |k: int|
            vertex_at(
                corner_position(x, y, w, h, quad_corner(k)),
                colors[quad_corner(k)],
                corner_uv(quad_corner(k)),
            ),
    )
}

/// The state after appending `vs` to the pending vertices.
pub open spec fn appended(s: RendererView, vs: Seq<Vertex>) -> RendererView {
    RendererView { vertices: s.vertices + vs, ..s }
}

/// The state after a flush: nothing pending, all else kept.
pub open spec fn flushed(s: RendererView) -> RendererView {
    RendererView { vertices: Seq::empty(), ..s }
}

/// The state after selecting the shader `name`: its program becomes active if it is
/// registered; otherwise nothing changes.
pub open spec fn selected(s: RendererView, name: Seq<char>) -> RendererView {
    if s.shaders.contains_key(name) {
        RendererView { active_shader: s.shaders[name], ..s }
    } else {
        s
    }
}

/// The screen projection for a surface of the given size: origin at the top-left, `y`
/// growing downward.
pub open spec fn is_screen_projection(m: Matrix4, width: int, height: int) -> bool {
    &&& m.elements@ == ortho_elements(0, width, height, 0, -1, 1)
    &&& m.row_scale@ == ortho_scales(0, width, height, 0, -1, 1)
}

impl Renderer {
    /// A renderer with no shaders, program 0 active, nothing pending, and the screen
    /// projection for a surface of the given size.
    pub fn new(window_width: i32, window_height: i32) -> (r: Renderer)
        requires
            window_width != 0,
            window_height != 0,
        ensures
            r@.shaders == Map::<Seq<char>, u32>::empty(),
            r@.active_shader == 0,
            r@.vertices == Seq::<Vertex>::empty(),
            is_screen_projection(r@.projection, window_width as int, window_height as int),
    {
        let projection_matrix = Matrix4::orthographic(0, window_width, window_height, 0, -1, 1);
        Renderer {
            shaders: ShaderRegistry::new(),
            active_shader: 0,
            vertices: Vec::new(),
            projection_matrix,
        }
    }

    /// Appends one vertex.
    pub fn draw_vertex(&mut self, position: (i32, i32), color: &Color, uv: (i32, i32))
        ensures
            final(self)@ == appended(old(self)@, seq![vertex_at(wide(position), *color, uv)]),
    {
        self.push_vertex((position.0 as i64, position.1 as i64), color, uv);
    }

    fn push_vertex(&mut self, position: (i64, i64), color: &Color, uv: (i32, i32))
        ensures
            final(self)@ == appended(old(self)@, seq![vertex_at(position, *color, uv)]),
    {
        self.vertices.push(Vertex { x: position.0, y: position.1, color: *color, u: uv.0, v: uv.1 });
        assert(self@.vertices =~= old(self)@.vertices + seq![vertex_at(position, *color, uv)]);
    }

    /// Appends a triangle of one color, in the given winding order.
    pub fn draw_triangle(&mut self, vertices: [(i32, i32); 3], color: &Color, uvs: [(i32, i32); 3])
        ensures
            final(self)@ == appended(
                old(self)@,
                triangle_vertices(
                    seq![wide(vertices[0]), wide(vertices[1]), wide(vertices[2])],
                    seq![*color, *color, *color],
                    uvs@,
                ),
            ),
    {
        self.draw_triangle_colors(vertices, [color, color, color], uvs);
    }

    /// Appends a triangle whose `i`-th vertex has color `colors[i]`.
    pub fn draw_triangle_colors(
        &mut self,
        vertices: [(i32, i32); 3],
        colors: [&Color; 3],
        uvs: [(i32, i32); 3],
    )
        ensures
            final(self)@ == appended(
                old(self)@,
                triangle_vertices(
                    seq![wide(vertices[0]), wide(vertices[1]), wide(vertices[2])],
                    seq![*colors[0], *colors[1], *colors[2]],
                    uvs@,
                ),
            ),
    {
        let p0 = (vertices[0].0 as i64, vertices[0].1 as i64);
        let p1 = (vertices[1].0 as i64, vertices[1].1 as i64);
        let p2 = (vertices[2].0 as i64, vertices[2].1 as i64);
        self.push_triangle([p0, p1, p2], colors, uvs);
        assert(p0 == wide(vertices[0]) && p1 == wide(vertices[1]) && p2 == wide(vertices[2]));
        assert([p0, p1, p2]@ =~= seq![wide(vertices[0]), wide(vertices[1]), wide(vertices[2])]);
    }

    fn push_triangle(&mut self, vertices: [(i64, i64); 3], colors: [&Color; 3], uvs: [(i32, i32); 3])
        ensures
            final(self)@ == appended(
                old(self)@,
                triangle_vertices(vertices@, seq![*colors[0], *colors[1], *colors[2]], uvs@),
            ),
    {
        let mut i: usize = 0;
        while i < 3
            invariant
                0 <= i <= 3,
                self@.shaders == old(self)@.shaders,
                self@.active_shader == old(self)@.active_shader,
                self@.projection == old(self)@.projection,
                self@.vertices == old(self)@.vertices + triangle_vertices(
                    vertices@,
                    seq![*colors[0], *colors[1], *colors[2]],
                    uvs@,
                ).take(i as int),
            decreases 3 - i,
        {
            self.push_vertex(vertices[i], colors[i], uvs[i]);
            i = i + 1;
            assert(self@.vertices =~= old(self)@.vertices + triangle_vertices(
                vertices@,
                seq![*colors[0], *colors[1], *colors[2]],
                uvs@,
            ).take(i as int));
        }
        assert(triangle_vertices(vertices@, seq![*colors[0], *colors[1], *colors[2]], uvs@).take(3)
            =~= triangle_vertices(vertices@, seq![*colors[0], *colors[1], *colors[2]], uvs@));
    }

    /// Appends an axis-aligned rectangle with top-left corner `position` and extent `size`,
    /// in one color, as two triangles that cover it once.
    pub fn draw_quad(&mut self, position: (i32, i32), size: (i32, i32), color: &Color)
        ensures
            final(self)@ == appended(
                old(self)@,
                quad_vertices(
                    position.0 as int,
                    position.1 as int,
                    size.0 as int,
                    size.1 as int,
                    seq![*color, *color, *color, *color],
                ),
            ),
    {
        self.draw_quad_colors(position, size, [color, color, color, color]);
    }

    /// Appends a rectangle whose corners have the colors `colors`, in the order top-left,
    /// top-right, bottom-left, bottom-right; the fill shades between them.
    pub fn draw_quad_colors(&mut self, position: (i32, i32), size: (i32, i32), colors: [&Color; 4])
        ensures
            final(self)@ == appended(
                old(self)@,
                quad_vertices(
                    position.0 as int,
                    position.1 as int,
                    size.0 as int,
                    size.1 as int,
                    seq![*colors[0], *colors[1], *colors[2], *colors[3]],
                ),
            ),
    {
        let x = position.0 as i64;
        let y = position.1 as i64;
        let width = size.0 as i64;
        let height = size.1 as i64;
        let top_left = (x, y);
        let top_right = (x + width, y);
        let bottom_left = (x, y + height);
        let bottom_right = (x + width, y + height);
        let uv_top_left = (0i32, 0i32);
        let uv_top_right = (UV_ONE, 0i32);
        let uv_bottom_left = (0i32, UV_ONE);
        let uv_bottom_right = (UV_ONE, UV_ONE);
        self.push_triangle(
            [top_left, bottom_left, bottom_right],
            [colors[0], colors[2], colors[3]],
            [uv_top_left, uv_bottom_left, uv_bottom_right],
        );
        self.push_triangle(
            [top_left, bottom_right, top_right],
            [colors[0], colors[3], colors[1]],
            [uv_top_left, uv_bottom_right, uv_top_right],
        );
        assert(self@.vertices =~= old(self)@.vertices + quad_vertices(
            x as int,
            y as int,
            width as int,
            height as int,
            seq![*colors[0], *colors[1], *colors[2], *colors[3]],
        ));
    }

    /// Makes the program registered as `name` active and returns `true`; an unknown name
    /// changes nothing and returns `false`, so that the caller can warn.
    pub fn use_shader(&mut self, name: &str) -> (found: bool)
        ensures
            found == old(self)@.shaders.contains_key(name@),
            final(self)@ == selected(old(self)@, name@),
    {
        match self.shaders.lookup(name) {
            Some(program) => {
                self.active_shader = program;
                true
            },
            None => false,
        }
    }

    /// Registers `program` under `name`, replacing any program of that name.
    pub fn register_shader(&mut self, name: &str, program: u32)
        ensures
            final(self)@ == (RendererView { shaders: old(self)@.shaders.insert(name@, program), ..old(self)@ }),
    {
        self.shaders.register(name, program);
    }

    /// Registers the three standard programs under the names `simple`, `gray` and
    /// `texture`.
    pub fn init_shaders(&mut self, simple: u32, gray: u32, texture: u32)
        ensures
            final(self)@ == (RendererView {
                shaders: old(self)@.shaders.insert("simple"@, simple).insert("gray"@, gray).insert(
                    "texture"@,
                    texture,
                ),
                ..old(self)@
            }),
    {
        self.register_shader("simple", simple);
        self.register_shader("gray", gray);
        self.register_shader("texture", texture);
    }

    /// Hands over everything appended since the last flush, with the active program and
    /// the current projection, and empties the pending list. The batch is drawn as a list of
    /// independent triangles, so callers append whole triangles between flushes.
    pub fn flush(&mut self) -> (batch: DrawBatch)
        ensures
            batch.vertices@ == old(self)@.vertices,
            batch.program == old(self)@.active_shader,
            batch.projection == old(self)@.projection,
            final(self)@ == flushed(old(self)@),
    {
        let mut vertices: Vec<Vertex> = Vec::new();
        std::mem::swap(&mut vertices, &mut self.vertices);
        assert(self@.vertices =~= Seq::<Vertex>::empty());
        DrawBatch { program: self.active_shader, projection: self.projection_matrix, vertices }
    }

    /// Replaces the projection with the screen projection for a surface of the new size.
    pub fn update_projection_matrix(&mut self, width: i32, height: i32)
        requires
            width != 0,
            height != 0,
        ensures
            is_screen_projection(final(self)@.projection, width as int, height as int),
            final(self)@.shaders == old(self)@.shaders,
            final(self)@.active_shader == old(self)@.active_shader,
            final(self)@.vertices == old(self)@.vertices,
    {
        self.projection_matrix = Matrix4::orthographic(0, width, height, 0, -1, 1);
    }

    /// Replaces the projection used by the next flush.
    pub fn set_projection(&mut self, projection: Matrix4)
        requires
            projection.wf(),
        ensures
            final(self)@ == (RendererView { projection, ..old(self)@ }),
    {
        self.projection_matrix = projection;
    }

    /// The vertices appended since the last flush.
    pub fn pending_vertices(&self) -> (r: &Vec<Vertex>)
        ensures
            r@ == self@.vertices,
    {
        &self.vertices
    }

    /// The program the next flush draws with.
    pub fn active_shader(&self) -> (r: u32)
        ensures
            r == self@.active_shader,
    {
        self.active_shader
    }

    /// The projection the next flush uploads.
    pub fn projection(&self) -> (r: Matrix4)
        ensures
            r == self@.projection,
    {
        self.projection_matrix
    }
}

/// A second flush with nothing appended in between hands over no vertices and leaves the
/// state as the first flush left it.
pub proof fn lemma_flush_twice(s: RendererView)
    ensures
        flushed(s).vertices == Seq::<Vertex>::empty(),
        flushed(flushed(s)) == flushed(s),
{
}

/// From a state with nothing pending, appending any whole number of triangles and then
/// flushing hands all of them to the draw and returns to exactly that state.
pub proof fn lemma_triangles_then_flush(s: RendererView, vs: Seq<Vertex>)
    requires
        s.vertices.len() == 0,
        vs.len() % 3 == 0,
    ensures
        appended(s, vs).vertices.len() % 3 == 0,
        appended(s, vs).vertices == vs,
        flushed(appended(s, vs)) == s,
{
    assert(s.vertices + vs =~= vs);
    assert(s.vertices =~= Seq::<Vertex>::empty());
}

/// Selecting a registered shader and then a name that is not registered leaves the first
/// shader's program active for the next flush.
pub proof fn lemma_unknown_shader_keeps_active(s: RendererView, known: Seq<char>, unknown: Seq<char>)
    requires
        s.shaders.contains_key(known),
        !s.shaders.contains_key(unknown),
    ensures
        selected(selected(s, known), unknown).active_shader == s.shaders[known],
        selected(selected(s, known), unknown) == selected(s, known),
{
}

/// In a rectangle with one color per corner, every vertex stands on a corner and carries
/// exactly that corner's color; the vertices 0, 5, 1 and 2 stand on the top-left, top-right,
/// bottom-left and bottom-right corners, so every corner shows its color.
pub proof fn lemma_quad_corner_colors(x: int, y: int, w: int, h: int, colors: Seq<Color>)
    requires
        colors.len() == 4,
    ensures
        quad_vertices(x, y, w, h, colors).len() == 6,
        forall|k: int|
            0 <= k < 6 ==> 0 <= #[trigger] quad_corner(k) < 4
                && (quad_vertices(x, y, w, h, colors)[k].x, quad_vertices(x, y, w, h, colors)[k].y)
                == corner_position(x, y, w, h, quad_corner(k))
                && quad_vertices(x, y, w, h, colors)[k].color == colors[quad_corner(k)],
        quad_corner(0) == 0,
        quad_corner(5) == 1,
        quad_corner(1) == 2,
        quad_corner(2) == 3,
{
    let q = quad_vertices(x, y, w, h, colors);
    assert forall|k: int| 0 <= k < 6 implies 0 <= #[trigger] quad_corner(k) < 4
        && (q[k].x, q[k].y) == corner_position(x, y, w, h, quad_corner(k))
        && q[k].color == colors[quad_corner(k)] by {
        let c = quad_corner(k);
        assert(q[k] == vertex_at(corner_position(x, y, w, h, c), colors[c], corner_uv(c)));
    }
}

/// A one-color rectangle is six vertices of that color, each on one of its four corners;
/// every corner is used (vertices 0, 5, 1 and 2 stand on the top-left, top-right,
/// bottom-left and bottom-right corners), and the top-left and bottom-right corners, which
/// the two triangles share, are used twice (vertices 0 and 3, and 2 and 4).
pub proof fn lemma_quad_corners(x: int, y: int, w: int, h: int, color: Color)
    ensures
        ({
            let q = quad_vertices(x, y, w, h, seq![color, color, color, color]);
            &&& q.len() == 6
            &&& forall|k: int| 0 <= k < 6 ==> (#[trigger] q[k]).color == color
            &&& forall|k: int|
                0 <= k < 6 ==> 0 <= #[trigger] quad_corner(k) < 4
                    && (q[k].x, q[k].y) == corner_position(x, y, w, h, quad_corner(k))
            &&& (q[0].x, q[0].y) == corner_position(x, y, w, h, 0)
            &&& (q[5].x, q[5].y) == corner_position(x, y, w, h, 1)
            &&& (q[1].x, q[1].y) == corner_position(x, y, w, h, 2)
            &&& (q[2].x, q[2].y) == corner_position(x, y, w, h, 3)
            &&& (q[3].x, q[3].y) == corner_position(x, y, w, h, 0)
            &&& (q[4].x, q[4].y) == corner_position(x, y, w, h, 3)
        }),
{
    let colors = seq![color, color, color, color];
    let q = quad_vertices(x, y, w, h, colors);
    lemma_quad_corner_colors(x, y, w, h, colors);
    assert forall|k: int| 0 <= k < 6 implies (#[trigger] q[k]).color == color by {
        assert(0 <= quad_corner(k) < 4);
        assert(q[k].color == colors[quad_corner(k)]);
    }
    assert(quad_corner(3) == 0 && quad_corner(4) == 3);
}

} // verus!
