use vstd::prelude::*;

verus! {

/// A 4x4 matrix with exact rational entries, stored in column-major order.
///
/// `elements[c * 4 + r]` is the numerator of the entry in column `c` and row `r`;
/// every entry of row `r` shares the denominator `row_scale[r]`, which is never zero.
#[derive(Clone, Copy, Debug)]
pub struct Matrix4 {
    pub elements: [i64; 16],
    pub row_scale: [i64; 4],
}

impl Matrix4 {
    pub open spec fn wf(&self) -> bool {
        forall|r: int| 0 <= r < 4 ==> #[trigger] self.row_scale[r] != 0
    }

    /// Numerator of row `r` of the product of this matrix with the column `(x, y, z, w)`;
    /// the row's value is this divided by `row_scale[r]`.
    pub open spec fn row_dot(&self, r: int, x: int, y: int, z: int, w: int) -> int {
        self.elements[r] * x + self.elements[4 + r] * y + self.elements[8 + r] * z
            + self.elements[12 + r] * w
    }

    /// Row `r` of the product with `(x, y, z, w)` equals the integer `k`.
    pub open spec fn row_equals(&self, r: int, x: int, y: int, z: int, w: int, k: int) -> bool {
        self.row_dot(r, x, y, z, w) == k * self.row_scale[r]
    }

    /// The identity matrix.
    pub fn new() -> (m: Matrix4)
        ensures
            m.wf(),
            forall|r: int| 0 <= r < 4 ==> #[trigger] m.row_scale[r] == 1,
            forall|c: int, r: int|
                0 <= c < 4 && 0 <= r < 4 ==> #[trigger] m.elements[c * 4 + r] == (if c == r {
                    1int
                } else {
                    0int
                }),
    {
        let m = Matrix4 {
            elements: [1, 0, 0, 0, 0, 1, 0, 0, 0, 0, 1, 0, 0, 0, 0, 1],
            row_scale: [1, 1, 1, 1],
        };
        assert forall|c: int, r: int| 0 <= c < 4 && 0 <= r < 4 implies #[trigger] m.elements[c
            * 4 + r] == (if c == r {
            1int
        } else {
            0int
        }) by {
            assert(0 <= c * 4 + r < 16) by (nonlinear_arith)
                requires
                    0 <= c < 4 && 0 <= r < 4,
            ;
        }
        m
    }

    /// The orthographic projection of the box `[left, right] x [bottom, top] x [near, far]`
    /// onto the clip cube `[-1, 1]^3`, with `near` sent to `1` and `far` to `-1` in depth.
    pub fn orthographic(left: i32, right: i32, bottom: i32, top: i32, near: i32, far: i32) -> (m:
        Matrix4)
        requires
            left != right,
            bottom != top,
            near != far,
        ensures
            m.elements@ == ortho_elements(left as int, right as int, bottom as int, top as int, near as int, far as int),
            m.row_scale@ == ortho_scales(left as int, right as int, bottom as int, top as int, near as int, far as int),
            m.wf(),
    {
        let w = right as i64 - left as i64;
        let h = top as i64 - bottom as i64;
        let d = far as i64 - near as i64;
        let tx = -(right as i64 + left as i64);
        let ty = -(top as i64 + bottom as i64);
        let tz = far as i64 + near as i64;
        let m = Matrix4 {
            elements: [2, 0, 0, 0, 0, 2, 0, 0, 0, 0, -2, 0, tx, ty, tz, 1],
            row_scale: [w, h, d, 1],
        };
        assert(m.elements@ =~= ortho_elements(left as int, right as int, bottom as int, top as int, near as int, far as int));
        assert(m.row_scale@ =~= ortho_scales(left as int, right as int, bottom as int, top as int, near as int, far as int));
        m
    }
}

/// Numerators of the orthographic projection, column by column: `2 / (right - left)` and
/// `-(right + left) / (right - left)` in the first row, likewise from `bottom` and `top` in the
/// second, `-2 / (far - near)` and `(far + near) / (far - near)` in the third, `(0, 0, 0, 1)`
/// in the last.
pub open spec fn ortho_elements(left: int, right: int, bottom: int, top: int, near: int, far: int) -> Seq<i64> {
    seq![
        2i64, 0, 0, 0,
        0, 2, 0, 0,
        0, 0, -2i64, 0,
        (-(right + left)) as i64, (-(top + bottom)) as i64, (far + near) as i64, 1,
    ]
}

/// Denominators of the rows of the orthographic projection.
pub open spec fn ortho_scales(left: int, right: int, bottom: int, top: int, near: int, far: int) -> Seq<i64> {
    seq![(right - left) as i64, (top - bottom) as i64, (far - near) as i64, 1]
}

proof fn lemma_ortho_rows(
    m: Matrix4,
    left: int,
    right: int,
    bottom: int,
    top: int,
    near: int,
    far: int,
    x: int,
    y: int,
    z: int,
    w: int,
)
    requires
        i32::MIN <= left <= i32::MAX && i32::MIN <= right <= i32::MAX,
        i32::MIN <= bottom <= i32::MAX && i32::MIN <= top <= i32::MAX,
        i32::MIN <= near <= i32::MAX && i32::MIN <= far <= i32::MAX,
        m.elements@ == ortho_elements(left, right, bottom, top, near, far),
        m.row_scale@ == ortho_scales(left, right, bottom, top, near, far),
    ensures
        m.row_dot(0, x, y, z, w) == 2 * x - (right + left) * w,
        m.row_dot(1, x, y, z, w) == 2 * y - (top + bottom) * w,
        m.row_dot(2, x, y, z, w) == -2 * z + (far + near) * w,
        m.row_dot(3, x, y, z, w) == w,
        m.row_scale[0] == right - left,
        m.row_scale[1] == top - bottom,
        m.row_scale[2] == far - near,
        m.row_scale[3] == 1,
{
    let e = m.elements;
    assert(e[0] == 2 && e[5] == 2 && e[10] == -2 && e[15] == 1);
    assert(e[1] == 0 && e[2] == 0 && e[3] == 0 && e[4] == 0 && e[6] == 0 && e[7] == 0);
    assert(e[8] == 0 && e[9] == 0 && e[11] == 0);
    assert(e[12] == -(right + left) && e[13] == -(top + bottom) && e[14] == far + near);
    assert(m.row_scale[0] == right - left && m.row_scale[1] == top - bottom);
    assert(m.row_scale[2] == far - near && m.row_scale[3] == 1);
    assert(m.row_dot(0, x, y, z, w) == 2 * x - (right + left) * w) by (nonlinear_arith)
        requires
            m.row_dot(0, x, y, z, w) == e[0] * x + e[4] * y + e[8] * z + e[12] * w,
            e[0] == 2 && e[4] == 0 && e[8] == 0 && e[12] == -(right + left),
    ;
    assert(m.row_dot(1, x, y, z, w) == 2 * y - (top + bottom) * w) by (nonlinear_arith)
        requires
            m.row_dot(1, x, y, z, w) == e[1] * x + e[5] * y + e[9] * z + e[13] * w,
            e[1] == 0 && e[5] == 2 && e[9] == 0 && e[13] == -(top + bottom),
    ;
    assert(m.row_dot(2, x, y, z, w) == -2 * z + (far + near) * w) by (nonlinear_arith)
        requires
            m.row_dot(2, x, y, z, w) == e[2] * x + e[6] * y + e[10] * z + e[14] * w,
            e[2] == 0 && e[6] == 0 && e[10] == -2 && e[14] == far + near,
    ;
    assert(m.row_dot(3, x, y, z, w) == w) by (nonlinear_arith)
        requires
            m.row_dot(3, x, y, z, w) == e[3] * x + e[7] * y + e[11] * z + e[15] * w,
            e[3] == 0 && e[7] == 0 && e[11] == 0 && e[15] == 1,
    ;
}

/// The orthographic projection sends the corner `(left, bottom, near)` of its box to the
/// clip-space corner `(-1, -1, 1, 1)`, and the opposite corner `(right, top, far)` to
/// `(1, 1, -1, 1)`.
pub proof fn lemma_ortho_box_corners(
    m: Matrix4,
    left: int,
    right: int,
    bottom: int,
    top: int,
    near: int,
    far: int,
)
    requires
        i32::MIN <= left <= i32::MAX && i32::MIN <= right <= i32::MAX,
        i32::MIN <= bottom <= i32::MAX && i32::MIN <= top <= i32::MAX,
        i32::MIN <= near <= i32::MAX && i32::MIN <= far <= i32::MAX,
        m.elements@ == ortho_elements(left, right, bottom, top, near, far),
        m.row_scale@ == ortho_scales(left, right, bottom, top, near, far),
    ensures
        m.row_equals(0, left, bottom, near, 1, -1),
        m.row_equals(1, left, bottom, near, 1, -1),
        m.row_equals(2, left, bottom, near, 1, 1),
        m.row_equals(3, left, bottom, near, 1, 1),
        m.row_equals(0, right, top, far, 1, 1),
        m.row_equals(1, right, top, far, 1, 1),
        m.row_equals(2, right, top, far, 1, -1),
        m.row_equals(3, right, top, far, 1, 1),
{
    lemma_ortho_rows(m, left, right, bottom, top, near, far, left, bottom, near, 1);
    lemma_ortho_rows(m, left, right, bottom, top, near, far, right, top, far, 1);
}

/// The screen projection `orthographic(0, width, height, 0, -1, 1)` puts the origin at the
/// top-left: the screen point `(0, 0)` goes to clip `x = -1, y = 1, w = 1` and the point
/// `(width, height)` to clip `x = 1, y = -1, w = 1`, so `x` grows to the right and screen `y`
/// grows downward.
pub proof fn lemma_screen_projection(m: Matrix4, width: int, height: int)
    requires
        i32::MIN <= width <= i32::MAX && i32::MIN <= height <= i32::MAX,
        m.elements@ == ortho_elements(0, width, height, 0, -1, 1),
        m.row_scale@ == ortho_scales(0, width, height, 0, -1, 1),
    ensures
        m.row_equals(0, 0, 0, 0, 1, -1),
        m.row_equals(1, 0, 0, 0, 1, 1),
        m.row_equals(3, 0, 0, 0, 1, 1),
        m.row_equals(0, width, height, 0, 1, 1),
        m.row_equals(1, width, height, 0, 1, -1),
        m.row_equals(3, width, height, 0, 1, 1),
{
    lemma_ortho_rows(m, 0, width, height, 0, -1, 1, 0, 0, 0, 1);
    lemma_ortho_rows(m, 0, width, height, 0, -1, 1, width, height, 0, 1);
}

} // verus!
