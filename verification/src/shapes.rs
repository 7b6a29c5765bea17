//! The shapes that the QR styles draw for one dark module, and the loops
//! that draw them on a canvas.
//!
//! Every shape is drawn around a centre `(cx, cy)` with a radius `r`; a
//! pixel is drawn when its offset `(dx, dy)` from the centre lies in the
//! shape and the pixel lies inside the canvas. Pixels outside the canvas
//! are skipped.

use vstd::prelude::*;
use crate::canvas::{Canvas, canvas_dims, canvas_pixels, canvas_wf, grid};

verus! {

/// The shapes a module can be drawn as.
#[derive(Clone, Copy, PartialEq, Eq, Debug, Structural)]
pub enum Shape {
    /// The full `2r` by `2r` square.
    Square,
    /// The square narrowed by 16 pixels on the left and on the right.
    Narrow,
    /// A disc of radius `r - 16`.
    Circle,
    /// The disc, with the narrowed square's lower half below it.
    Top,
    /// The disc, with the narrowed square's upper half above it.
    Bottom,
}

/// `lo <= d < hi`, half-open.
pub open spec fn within(d: int, lo: int, hi: int) -> bool {
    lo <= d < hi
}

/// The disc of radius `q`, as the loops of `draw_circle` see it: offsets in
/// `[-q, q)` on both axes whose squared distance is at most `q * q`.
pub open spec fn in_disc(dx: int, dy: int, q: int) -> bool {
    within(dx, -q, q) && within(dy, -q, q) && dx * dx + dy * dy <= q * q
}

/// Whether `shape` of radius `r` covers the offset `(dx, dy)`.
pub open spec fn covers(shape: Shape, r: int, dx: int, dy: int) -> bool {
    match shape {
        Shape::Square => within(dx, -r, r) && within(dy, -r, r),
        Shape::Narrow => within(dx, -(r - 16), r - 16) && within(dy, -r, r),
        Shape::Circle => in_disc(dx, dy, r - 16),
        Shape::Top => in_disc(dx, dy, r - 16) || (within(dx, -(r - 16), r - 16) && within(dy, 0, r)),
        Shape::Bottom => in_disc(dx, dy, r - 16) || (within(dx, -(r - 16), r - 16) && within(dy, -r, 0)),
    }
}

/// The pixels `m` after painting `color` on every position whose offset from
/// `(cx, cy)` satisfies `pred`.
pub open spec fn paint_where(
    m: Map<(u32, u32), [u8; 4]>,
    pred: spec_fn(int, int) -> bool,
    cx: int,
    cy: int,
    color: [u8; 4],
) -> Map<(u32, u32), [u8; 4]> {
    Map::new(
        |p: (u32, u32)| m.dom().contains(p),
        |p: (u32, u32)| if pred(p.0 - cx, p.1 - cy) { color } else { m[p] },
    )
}

/// The pixels `m` after drawing `shape` of radius `r` around `(cx, cy)`.
pub open spec fn painted(
    m: Map<(u32, u32), [u8; 4]>,
    shape: Shape,
    cx: int,
    cy: int,
    r: int,
    color: [u8; 4],
) -> Map<(u32, u32), [u8; 4]> {
    paint_where(m, |dx: int, dy: int| covers(shape, r, dx, dy), cx, cy, color)
}

/// The loop `for t in 0..len` computing `c + t - lo` stays within `u32`.
pub open spec fn span_fits(c: int, lo: int, len: int) -> bool {
    len <= 0 || (c >= lo && c + len - 1 <= u32::MAX)
}

/// The arithmetic of `draw_square` stays within `u32`.
pub open spec fn square_fits(cx: int, cy: int, r: int) -> bool {
    &&& 2 * r <= u32::MAX
    &&& r > 0 ==> span_fits(cx, r, 2 * r) && span_fits(cy, r, 2 * r)
}

/// One step of the pixel loops: paint `(px, py)` when it is on the canvas.
fn plot(canvas: &mut Canvas, px: u32, py: u32, color: [u8; 4])
    requires
        canvas_wf(*old(canvas)),
    ensures
        canvas_wf(*final(canvas)),
        canvas_dims(*final(canvas)) == canvas_dims(*old(canvas)),
        canvas_pixels(*final(canvas)) == if canvas_pixels(*old(canvas)).dom().contains((px, py)) {
            canvas_pixels(*old(canvas)).insert((px, py), color)
        } else {
            canvas_pixels(*old(canvas))
        },
{
    if px < canvas.width() && py < canvas.height() {
        canvas.put_pixel(px, py, color);
        assert(canvas_pixels(*canvas).dom() =~= grid(canvas_dims(*canvas)));
    }
}

/// Draws the full square of radius `radius` around `(cx, cy)`.
pub fn draw_square(canvas: &mut Canvas, cx: u32, cy: u32, radius: u32, color: [u8; 4])
    requires
        canvas_wf(*old(canvas)),
        square_fits(cx as int, cy as int, radius as int),
    ensures
        canvas_wf(*final(canvas)),
        canvas_dims(*final(canvas)) == canvas_dims(*old(canvas)),
        canvas_pixels(*final(canvas)) == painted(
            canvas_pixels(*old(canvas)),
            Shape::Square,
            cx as int,
            cy as int,
            radius as int,
            color,
        ),
{
    let ghost m0 = canvas_pixels(*canvas);
    let ghost r = radius as int;
    for x in 0..2 * radius
        invariant
            canvas_wf(*canvas),
            canvas_dims(*canvas) == canvas_dims(*old(canvas)),
            m0 == canvas_pixels(*old(canvas)),
            r == radius,
            square_fits(cx as int, cy as int, r),
            canvas_pixels(*canvas) == paint_where(
                m0,
                |dx: int, dy: int| within(dx, -r, x - r) && within(dy, -r, r),
                cx as int,
                cy as int,
                color,
            ),
    {
        for y in 0..2 * radius
            invariant
                canvas_wf(*canvas),
                canvas_dims(*canvas) == canvas_dims(*old(canvas)),
                m0 == canvas_pixels(*old(canvas)),
                r == radius,
                0 <= x < 2 * r,
                square_fits(cx as int, cy as int, r),
                canvas_pixels(*canvas) == paint_where(
                    m0,
                    |dx: int, dy: int|
                        within(dx, -r, x - r) && within(dy, -r, r) || dx == x - r && within(dy, -r, y - r),
                    cx as int,
                    cy as int,
                    color,
                ),
        {
            let px = cx + x - radius;
            let py = cy + y - radius;
            plot(canvas, px, py, color);
            assert(canvas_pixels(*canvas) =~= paint_where(
                m0,
                |dx: int, dy: int|
                    within(dx, -r, x - r) && within(dy, -r, r) || dx == x - r && within(dy, -r, y + 1 - r),
                cx as int,
                cy as int,
                color,
            ));
        }
        assert(canvas_pixels(*canvas) =~= paint_where(
            m0,
            |dx: int, dy: int| within(dx, -r, x + 1 - r) && within(dy, -r, r),
            cx as int,
            cy as int,
            color,
        ));
    }
    assert(canvas_pixels(*canvas) =~= painted(m0, Shape::Square, cx as int, cy as int, r, color));
}

/// Painting two regions one after the other in the same colour paints their
/// union.
pub proof fn lemma_paint_union(
    m: Map<(u32, u32), [u8; 4]>,
    a: spec_fn(int, int) -> bool,
    b: spec_fn(int, int) -> bool,
    cx: int,
    cy: int,
    color: [u8; 4],
)
    ensures
        paint_where(paint_where(m, a, cx, cy, color), b, cx, cy, color) =~= paint_where(
            m,
            |dx: int, dy: int| a(dx, dy) || b(dx, dy),
            cx,
            cy,
            color,
        ),
{
}

/// The arithmetic of `fill_rect` stays within `u32`.
pub open spec fn rect_fits(cx: int, cy: int, x_off: int, x_len: int, y_from: int, y_to: int, y_off: int) -> bool {
    x_len > 0 && y_from < y_to ==> {
        &&& span_fits(cx, x_off, x_len)
        &&& cy + y_from >= y_off
        &&& cy + y_to - 1 <= u32::MAX
    }
}

/// The region that `fill_rect` paints, as offsets from the centre.
pub open spec fn in_rect(dx: int, dy: int, x_off: int, x_len: int, y_from: int, y_to: int, y_off: int) -> bool {
    within(dx, -x_off, x_len - x_off) && within(dy, y_from - y_off, y_to - y_off)
}

/// The loops `for x in 0..x_len { for y in y_from..y_to { .. } }` that draw
/// the pixel `(cx + x - x_off, cy + y - y_off)`.
fn fill_rect(
    canvas: &mut Canvas,
    cx: u32,
    cy: u32,
    x_off: u32,
    x_len: u32,
    y_from: u32,
    y_to: u32,
    y_off: u32,
    color: [u8; 4],
)
    requires
        canvas_wf(*old(canvas)),
        y_from <= y_to,
        rect_fits(cx as int, cy as int, x_off as int, x_len as int, y_from as int, y_to as int, y_off as int),
    ensures
        canvas_wf(*final(canvas)),
        canvas_dims(*final(canvas)) == canvas_dims(*old(canvas)),
        canvas_pixels(*final(canvas)) == paint_where(
            canvas_pixels(*old(canvas)),
            |dx: int, dy: int| in_rect(dx, dy, x_off as int, x_len as int, y_from as int, y_to as int, y_off as int),
            cx as int,
            cy as int,
            color,
        ),
{
    let ghost m0 = canvas_pixels(*canvas);
    let ghost xo = x_off as int;
    let ghost yf = y_from as int;
    let ghost yo = y_off as int;
    for x in 0..x_len
        invariant
            canvas_wf(*canvas),
            canvas_dims(*canvas) == canvas_dims(*old(canvas)),
            m0 == canvas_pixels(*old(canvas)),
            xo == x_off,
            yf == y_from,
            yo == y_off,
            y_from <= y_to,
            rect_fits(cx as int, cy as int, x_off as int, x_len as int, y_from as int, y_to as int, y_off as int),
            canvas_pixels(*canvas) == paint_where(
                m0,
                |dx: int, dy: int| within(dx, -xo, x - xo) && within(dy, yf - yo, y_to - yo),
                cx as int,
                cy as int,
                color,
            ),
    {
        assert(canvas_pixels(*canvas) =~= paint_where(
            m0,
            |dx: int, dy: int|
                within(dx, -xo, x - xo) && within(dy, yf - yo, y_to - yo) || dx == x - xo && within(
                    dy,
                    yf - yo,
                    y_from - yo,
                ),
            cx as int,
            cy as int,
            color,
        ));
        let mut y = y_from;
        while y < y_to
            invariant
                y_from <= y <= y_to,
                canvas_wf(*canvas),
                canvas_dims(*canvas) == canvas_dims(*old(canvas)),
                m0 == canvas_pixels(*old(canvas)),
                xo == x_off,
                yf == y_from,
                yo == y_off,
                0 <= x < x_len,
                rect_fits(cx as int, cy as int, x_off as int, x_len as int, y_from as int, y_to as int, y_off as int),
                canvas_pixels(*canvas) == paint_where(
                    m0,
                    |dx: int, dy: int|
                        within(dx, -xo, x - xo) && within(dy, yf - yo, y_to - yo) || dx == x - xo && within(
                            dy,
                            yf - yo,
                            y - yo,
                        ),
                    cx as int,
                    cy as int,
                    color,
                ),
            decreases y_to - y,
        {
            let px = cx + x - x_off;
            let py = cy + y - y_off;
            plot(canvas, px, py, color);
            assert(canvas_pixels(*canvas) =~= paint_where(
                m0,
                |dx: int, dy: int|
                    within(dx, -xo, x - xo) && within(dy, yf - yo, y_to - yo) || dx == x - xo && within(
                        dy,
                        yf - yo,
                        y + 1 - yo,
                    ),
                cx as int,
                cy as int,
                color,
            ));
            y = y + 1;
        }
        assert(canvas_pixels(*canvas) =~= paint_where(
            m0,
            |dx: int, dy: int| within(dx, -xo, x + 1 - xo) && within(dy, yf - yo, y_to - yo),
            cx as int,
            cy as int,
            color,
        ));
    }
    assert(canvas_pixels(*canvas) =~= paint_where(
        m0,
        |dx: int, dy: int| in_rect(dx, dy, xo, x_len as int, yf, y_to as int, yo),
        cx as int,
        cy as int,
        color,
    ));
}

/// The arithmetic of `draw_narrow` stays within `u32`.
pub open spec fn narrow_fits(cx: int, cy: int, r: int) -> bool {
    &&& r >= 16
    &&& 2 * (r - 16) <= u32::MAX
    &&& r - 16 > 0 ==> 2 * r <= u32::MAX && span_fits(cx, r - 16, 2 * (r - 16)) && span_fits(cy, r, 2 * r)
}

/// Draws the narrowed square of radius `radius` around `(cx, cy)`.
pub fn draw_narrow(canvas: &mut Canvas, cx: u32, cy: u32, radius: u32, color: [u8; 4])
    requires
        canvas_wf(*old(canvas)),
        narrow_fits(cx as int, cy as int, radius as int),
    ensures
        canvas_wf(*final(canvas)),
        canvas_dims(*final(canvas)) == canvas_dims(*old(canvas)),
        canvas_pixels(*final(canvas)) == painted(
            canvas_pixels(*old(canvas)),
            Shape::Narrow,
            cx as int,
            cy as int,
            radius as int,
            color,
        ),
{
    let ghost m0 = canvas_pixels(*canvas);
    let q = radius - 16;
    let x_len = 2 * q;
    let y_to = if q > 0 { 2 * radius } else { 0 };
    fill_rect(canvas, cx, cy, q, x_len, 0, y_to, radius, color);
    assert(canvas_pixels(*canvas) =~= painted(m0, Shape::Narrow, cx as int, cy as int, radius as int, color));
}

/// The arithmetic of `draw_circle` stays within `u32` and `i32`.
pub open spec fn circle_fits(cx: int, cy: int, r: int) -> bool {
    &&& r >= 16
    &&& r - 16 > 0 ==> {
        &&& 2 * (r - 16) * (r - 16) <= i32::MAX
        &&& span_fits(cx, r - 16, 2 * (r - 16))
        &&& span_fits(cy, r - 16, 2 * (r - 16))
    }
}

proof fn lemma_square_bound(d: int, q: int)
    requires
        -q <= d <= q,
    ensures
        d * d <= q * q,
        0 <= d * d,
{
    assert(d * d <= q * q) by (nonlinear_arith)
        requires
            -q <= d <= q,
    ;
    assert(0 <= d * d) by (nonlinear_arith);
}

/// Draws the disc of radius `radius - 16` around `(cx, cy)`.
pub fn draw_circle(canvas: &mut Canvas, cx: u32, cy: u32, radius: u32, color: [u8; 4])
    requires
        canvas_wf(*old(canvas)),
        circle_fits(cx as int, cy as int, radius as int),
    ensures
        canvas_wf(*final(canvas)),
        canvas_dims(*final(canvas)) == canvas_dims(*old(canvas)),
        canvas_pixels(*final(canvas)) == painted(
            canvas_pixels(*old(canvas)),
            Shape::Circle,
            cx as int,
            cy as int,
            radius as int,
            color,
        ),
{
    let ghost m0 = canvas_pixels(*canvas);
    let rad = radius - 16;
    let ghost q = rad as int;
    if rad > 0 {
        assert(q <= 32767) by (nonlinear_arith)
            requires
                2 * q * q <= i32::MAX,
                q > 0,
        ;
    }
    for x in 0..2 * rad
        invariant
            canvas_wf(*canvas),
            canvas_dims(*canvas) == canvas_dims(*old(canvas)),
            m0 == canvas_pixels(*old(canvas)),
            q == rad,
            rad > 0 ==> q <= 32767,
            circle_fits(cx as int, cy as int, radius as int),
            rad == radius - 16,
            canvas_pixels(*canvas) == paint_where(
                m0,
                |dx: int, dy: int| within(dx, -q, x - q) && in_disc(dx, dy, q),
                cx as int,
                cy as int,
                color,
            ),
    {
        assert(canvas_pixels(*canvas) =~= paint_where(
            m0,
            |dx: int, dy: int| within(dx, -q, x - q) && in_disc(dx, dy, q) || dx == x - q && within(dy, -q, -q) && in_disc(dx, dy, q),
            cx as int,
            cy as int,
            color,
        ));
        for y in 0..2 * rad
            invariant
                canvas_wf(*canvas),
                canvas_dims(*canvas) == canvas_dims(*old(canvas)),
                m0 == canvas_pixels(*old(canvas)),
                q == rad,
                0 < q <= 32767,
                0 <= x < 2 * q,
                circle_fits(cx as int, cy as int, radius as int),
                rad == radius - 16,
                canvas_pixels(*canvas) == paint_where(
                    m0,
                    |dx: int, dy: int|
                        within(dx, -q, x - q) && in_disc(dx, dy, q) || dx == x - q && within(dy, -q, y - q) && in_disc(dx, dy, q),
                    cx as int,
                    cy as int,
                    color,
                ),
        {
            let dx = x as i32 - rad as i32;
            let dy = y as i32 - rad as i32;
            proof {
                lemma_square_bound(dx as int, q);
                lemma_square_bound(dy as int, q);
                assert(q * q <= 32767 * 32767) by (nonlinear_arith)
                    requires
                        0 < q <= 32767,
                ;
            }
            if dx * dx + dy * dy <= (rad * rad) as i32 {
                let px = cx + x - rad;
                let py = cy + y - rad;
                plot(canvas, px, py, color);
            }
            assert(canvas_pixels(*canvas) =~= paint_where(
                m0,
                |dx: int, dy: int|
                    within(dx, -q, x - q) && in_disc(dx, dy, q) || dx == x - q && within(dy, -q, y + 1 - q) && in_disc(dx, dy, q),
                cx as int,
                cy as int,
                color,
            ));
        }
        assert(canvas_pixels(*canvas) =~= paint_where(
            m0,
            |dx: int, dy: int| within(dx, -q, x + 1 - q) && in_disc(dx, dy, q),
            cx as int,
            cy as int,
            color,
        ));
    }
    assert(canvas_pixels(*canvas) =~= painted(m0, Shape::Circle, cx as int, cy as int, radius as int, color));
}

/// The arithmetic of `draw_top` stays within `u32` and `i32`.
pub open spec fn top_fits(cx: int, cy: int, r: int) -> bool {
    &&& circle_fits(cx, cy, r)
    &&& r - 16 > 0 ==> 2 * r <= u32::MAX && span_fits(cx, r - 16, 2 * (r - 16)) && cy + 2 * r - 1 <= u32::MAX
}

/// Draws the disc and, below its centre, the lower half of the narrowed
/// square.
pub fn draw_top(canvas: &mut Canvas, cx: u32, cy: u32, radius: u32, color: [u8; 4])
    requires
        canvas_wf(*old(canvas)),
        top_fits(cx as int, cy as int, radius as int),
    ensures
        canvas_wf(*final(canvas)),
        canvas_dims(*final(canvas)) == canvas_dims(*old(canvas)),
        canvas_pixels(*final(canvas)) == painted(
            canvas_pixels(*old(canvas)),
            Shape::Top,
            cx as int,
            cy as int,
            radius as int,
            color,
        ),
{
    let ghost m0 = canvas_pixels(*canvas);
    draw_circle(canvas, cx, cy, radius, color);
    let q = radius - 16;
    let y_to = if q > 0 { radius * 2 } else { radius };
    fill_rect(canvas, cx, cy, q, 2 * q, radius, y_to, radius, color);
    proof {
        let r = radius as int;
        lemma_paint_union(
            m0,
            |dx: int, dy: int| covers(Shape::Circle, r, dx, dy),
            |dx: int, dy: int| in_rect(dx, dy, q as int, 2 * q, r, y_to as int, r),
            cx as int,
            cy as int,
            color,
        );
    }
    assert(canvas_pixels(*canvas) =~= painted(m0, Shape::Top, cx as int, cy as int, radius as int, color));
}

/// The arithmetic of `draw_bottom` stays within `u32` and `i32`.
pub open spec fn bottom_fits(cx: int, cy: int, r: int) -> bool {
    &&& circle_fits(cx, cy, r)
    &&& r - 16 > 0 ==> span_fits(cx, r - 16, 2 * (r - 16)) && span_fits(cy, r, r)
}

/// Draws the disc and, above its centre, the upper half of the narrowed
/// square.
pub fn draw_bottom(canvas: &mut Canvas, cx: u32, cy: u32, radius: u32, color: [u8; 4])
    requires
        canvas_wf(*old(canvas)),
        bottom_fits(cx as int, cy as int, radius as int),
    ensures
        canvas_wf(*final(canvas)),
        canvas_dims(*final(canvas)) == canvas_dims(*old(canvas)),
        canvas_pixels(*final(canvas)) == painted(
            canvas_pixels(*old(canvas)),
            Shape::Bottom,
            cx as int,
            cy as int,
            radius as int,
            color,
        ),
{
    let ghost m0 = canvas_pixels(*canvas);
    draw_circle(canvas, cx, cy, radius, color);
    let q = radius - 16;
    fill_rect(canvas, cx, cy, q, 2 * q, 0, radius, radius, color);
    proof {
        let r = radius as int;
        lemma_paint_union(
            m0,
            |dx: int, dy: int| covers(Shape::Circle, r, dx, dy),
            |dx: int, dy: int| in_rect(dx, dy, q as int, 2 * q, 0, r, r),
            cx as int,
            cy as int,
            color,
        );
    }
    assert(canvas_pixels(*canvas) =~= painted(m0, Shape::Bottom, cx as int, cy as int, radius as int, color));
}

} // verus!
