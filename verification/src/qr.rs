//! `QrCat`: a QR code builder that paints the modules of a QR symbol as
//! squares, rounded bars or discs on a coloured canvas.
//!
//! The grey-scale picture of the symbol has modules of 8 by 8 pixels; the
//! styles look at one pixel of each module (those whose coordinates are
//! multiples of 8) and, for a dark one, draw a shape of radius
//! `4 * resolution` around `(x * resolution + resolution / 2, y *
//! resolution + resolution / 2)` on a canvas `resolution` times as large.

use vstd::prelude::*;
use vstd::arithmetic::div_mod::lemma_fundamental_div_mod_converse;
use crate::canvas::{Canvas, QrPicture, canvas_dims, canvas_pixels, canvas_wf, filled_pixels, picture_dims, picture_pixels};
use crate::symbol::{encode_symbol, qr_symbol, render_picture, rendered_map, rendered_side, symbol_width};
use qrcode::types::QrError;
use crate::shapes::{
    Shape, covers, painted, square_fits, narrow_fits, circle_fits, top_fits, bottom_fits, draw_square,
    draw_narrow, draw_circle, draw_top, draw_bottom,
};

verus! {

/// How the dark modules of a QR code are drawn.
#[derive(Clone, Copy, PartialEq, Eq, Debug, Structural)]
pub enum QrStyle {
    /// Every dark module is a full square.
    Default,
    /// Dark modules become discs, bars and rounded ends depending on their
    /// neighbours above and below.
    Rounded,
    /// Modules below the diagonal are red squares, the others as in
    /// `Rounded`.
    Half,
}

/// The colour of the squares below the diagonal in the `Half` style.
pub open spec fn half_red() -> [u8; 4] {
    [255u8, 0u8, 0u8, 255u8]
}

/// Whether `(x, y)` is one of the pixels the styles look at: inside the
/// picture, both coordinates multiples of 8.
pub open spec fn sampled(pd: (u32, u32), x: int, y: int) -> bool {
    0 <= x < pd.0 && 0 <= y < pd.1 && x % 8 == 0 && y % 8 == 0
}

/// The grey level of the picture at `(x, y)`.
pub open spec fn level(pic: Map<(u32, u32), u8>, x: int, y: int) -> u8 {
    pic[(x as u32, y as u32)]
}

/// The shape of a dark module in the rounded styles: with light pixels
/// both just above it (at `y - 1`) and just below it (at `y + 8`) it is a
/// disc; with light above only, a disc continued downwards; with light
/// below only, a disc continued upwards; between two dark neighbours a
/// bar.
pub open spec fn rounded_shape(pic: Map<(u32, u32), u8>, x: int, y: int) -> Shape {
    let up_light = level(pic, x, y - 1) != 0;
    let down_light = level(pic, x, y + 8) != 0;
    if up_light && down_light {
        Shape::Circle
    } else if up_light {
        Shape::Top
    } else if down_light {
        Shape::Bottom
    } else {
        Shape::Narrow
    }
}

/// The shape that `style` draws for a dark module at `(x, y)`.
pub open spec fn module_shape(style: QrStyle, pic: Map<(u32, u32), u8>, x: int, y: int) -> Shape {
    match style {
        QrStyle::Default => Shape::Square,
        QrStyle::Rounded => rounded_shape(pic, x, y),
        QrStyle::Half => if x < y {
            Shape::Square
        } else {
            rounded_shape(pic, x, y)
        },
    }
}

/// The colour that `style` draws a dark module at `(x, y)` in.
pub open spec fn module_color(style: QrStyle, x: int, y: int, color: [u8; 4]) -> [u8; 4] {
    if style == QrStyle::Half && x < y {
        half_red()
    } else {
        color
    }
}

/// The canvas coordinate of the centre of a module at picture coordinate
/// `x`.
pub open spec fn centre(x: int, res: int) -> int {
    x * res + res / 2
}

/// The arithmetic of drawing `shape` stays within `u32` and `i32`.
pub open spec fn shape_fits(shape: Shape, cx: int, cy: int, r: int) -> bool {
    match shape {
        Shape::Square => square_fits(cx, cy, r),
        Shape::Narrow => narrow_fits(cx, cy, r),
        Shape::Circle => circle_fits(cx, cy, r),
        Shape::Top => top_fits(cx, cy, r),
        Shape::Bottom => bottom_fits(cx, cy, r),
    }
}

/// Drawing the dark module at `(x, y)` does not overflow, and the
/// neighbours that the rounded styles read lie inside the picture.
pub open spec fn module_fits(style: QrStyle, pic: Map<(u32, u32), u8>, pd: (u32, u32), res: int, x: int, y: int) -> bool {
    &&& centre(x, res) <= u32::MAX
    &&& centre(y, res) <= u32::MAX
    &&& 4 * res <= u32::MAX
    &&& style != QrStyle::Default ==> 1 <= y && y + 8 < pd.1
    &&& shape_fits(module_shape(style, pic, x, y), centre(x, res), centre(y, res), 4 * res)
}

/// Painting the picture in `style` with resolution `res` does not panic:
/// every dark sampled module fits.
pub open spec fn style_fits(style: QrStyle, pic: Map<(u32, u32), u8>, pd: (u32, u32), res: int) -> bool {
    forall|x: int, y: int|
        #![trigger module_fits(style, pic, pd, res, x, y)]
        sampled(pd, x, y) && level(pic, x, y) == 0 ==> module_fits(style, pic, pd, res, x, y)
}

/// The picture coordinate of the only module whose shape can reach canvas
/// coordinate `p`: shapes stay within `4 * res` of their centre, and
/// centres are `8 * res` apart.
pub open spec fn module_at(p: int, res: int) -> int {
    8 * ((p + 4 * res - res / 2) / (8 * res))
}

/// The colour of canvas position `(px, py)`, now `prev`, after the modules
/// for which `done` holds have been drawn.
pub open spec fn styled_pixel(
    prev: [u8; 4],
    px: int,
    py: int,
    style: QrStyle,
    pic: Map<(u32, u32), u8>,
    pd: (u32, u32),
    res: int,
    color: [u8; 4],
    done: spec_fn(int, int) -> bool,
) -> [u8; 4] {
    if res <= 0 {
        prev
    } else {
        let mx = module_at(px, res);
        let my = module_at(py, res);
        if sampled(pd, mx, my) && done(mx, my) && level(pic, mx, my) == 0 && covers(
            module_shape(style, pic, mx, my),
            4 * res,
            px - centre(mx, res),
            py - centre(my, res),
        ) {
            module_color(style, mx, my, color)
        } else {
            prev
        }
    }
}

/// The canvas `m` after drawing the modules for which `done` holds.
pub open spec fn styled_partly(
    m: Map<(u32, u32), [u8; 4]>,
    style: QrStyle,
    pic: Map<(u32, u32), u8>,
    pd: (u32, u32),
    res: int,
    color: [u8; 4],
    done: spec_fn(int, int) -> bool,
) -> Map<(u32, u32), [u8; 4]> {
    Map::new(
        |p: (u32, u32)| m.dom().contains(p),
        |p: (u32, u32)| styled_pixel(m[p], p.0 as int, p.1 as int, style, pic, pd, res, color, done),
    )
}

/// The canvas `m` after every dark sampled module of the picture has been
/// drawn in `style`: a position covered by the shape of the dark module
/// nearest to it takes that module's colour, every other keeps its colour.
pub open spec fn styled(
    m: Map<(u32, u32), [u8; 4]>,
    style: QrStyle,
    pic: Map<(u32, u32), u8>,
    pd: (u32, u32),
    res: int,
    color: [u8; 4],
) -> Map<(u32, u32), [u8; 4]> {
    styled_partly(m, style, pic, pd, res, color, |x: int, y: int| true)
}

/// Every shape lies in the square of its radius around its centre.
pub proof fn lemma_shape_in_square(shape: Shape, r: int, dx: int, dy: int)
    requires
        r >= 0,
        covers(shape, r, dx, dy),
    ensures
        -r <= dx < r,
        -r <= dy < r,
{
}

/// A position within `4 * res` of the centre of the module at `x` belongs
/// to that module.
pub proof fn lemma_module_at(p: int, x: int, res: int)
    requires
        res > 0,
        x >= 0,
        x % 8 == 0,
        -4 * res <= p - centre(x, res) < 4 * res,
    ensures
        module_at(p, res) == x,
{
    let i = x / 8;
    let k = p - centre(x, res) + 4 * res;
    assert(p + 4 * res - res / 2 == i * (8 * res) + k) by (nonlinear_arith)
        requires
            x == 8 * i,
            k == p - (x * res + res / 2) + 4 * res,
    ;
    lemma_fundamental_div_mod_converse(p + 4 * res - res / 2, 8 * res, i, k);
}

/// Draws one dark module at `(x, y)` of the picture.
fn draw_module(canvas: &mut Canvas, pic: &QrPicture, style: QrStyle, res: u32, color: [u8; 4], x: u32, y: u32)
    requires
        canvas_wf(*old(canvas)),
        sampled(picture_dims(*pic), x as int, y as int),
        module_fits(style, picture_pixels(*pic), picture_dims(*pic), res as int, x as int, y as int),
    ensures
        canvas_wf(*final(canvas)),
        canvas_dims(*final(canvas)) == canvas_dims(*old(canvas)),
        canvas_pixels(*final(canvas)) == painted(
            canvas_pixels(*old(canvas)),
            module_shape(style, picture_pixels(*pic), x as int, y as int),
            centre(x as int, res as int),
            centre(y as int, res as int),
            4 * res as int,
            module_color(style, x as int, y as int, color),
        ),
{
    let cx = x * res + res / 2;
    let cy = y * res + res / 2;
    let radius = res * 4;
    match style {
        QrStyle::Default => {
            draw_square(canvas, cx, cy, radius, color);
        },
        _ => {
            let is_simple = pic.luma(x, y - 1) != 0 && pic.luma(x, y + 8) != 0;
            let is_bot_angle = pic.luma(x, y + 8) != 0;
            let is_top_angle = pic.luma(x, y - 1) != 0;
            if style == QrStyle::Half && x < y {
                draw_square(canvas, cx, cy, radius, [255u8, 0u8, 0u8, 255u8]);
            } else if is_simple {
                draw_circle(canvas, cx, cy, radius, color);
            } else if is_top_angle {
                draw_top(canvas, cx, cy, radius, color);
            } else if is_bot_angle {
                draw_bottom(canvas, cx, cy, radius, color);
            } else {
                draw_narrow(canvas, cx, cy, radius, color);
            }
        },
    }
}

/// Drawing the module at `(x, y)` onto a canvas on which the modules in
/// `done` have been drawn gives the canvas on which `done` and `(x, y)`
/// have been drawn.
proof fn lemma_draw_step(
    m0: Map<(u32, u32), [u8; 4]>,
    style: QrStyle,
    pic: Map<(u32, u32), u8>,
    pd: (u32, u32),
    res: int,
    color: [u8; 4],
    done: spec_fn(int, int) -> bool,
    x: int,
    y: int,
)
    requires
        res > 0,
        sampled(pd, x, y),
        !done(x, y),
    ensures
        ({
            let before = styled_partly(m0, style, pic, pd, res, color, done);
            let after = styled_partly(m0, style, pic, pd, res, color, |a: int, b: int| done(a, b) || a == x && b == y);
            level(pic, x, y) == 0 ==> painted(
                before,
                module_shape(style, pic, x, y),
                centre(x, res),
                centre(y, res),
                4 * res,
                module_color(style, x, y, color),
            ) =~= after
        }),
        ({
            let before = styled_partly(m0, style, pic, pd, res, color, done);
            let after = styled_partly(m0, style, pic, pd, res, color, |a: int, b: int| done(a, b) || a == x && b == y);
            level(pic, x, y) != 0 ==> before =~= after
        }),
{
    let shape = module_shape(style, pic, x, y);
    assert forall|p: (u32, u32)| covers(shape, 4 * res, p.0 - centre(x, res), p.1 - centre(y, res)) implies module_at(
        p.0 as int,
        res,
    ) == x && module_at(p.1 as int, res) == y by {
        lemma_shape_in_square(shape, 4 * res, p.0 - centre(x, res), p.1 - centre(y, res));
        lemma_module_at(p.0 as int, x, res);
        lemma_module_at(p.1 as int, y, res);
    }
}

/// Draws every dark sampled module of the picture, column by column.
fn paint_modules(canvas: &mut Canvas, pic: &QrPicture, style: QrStyle, res: u32, color: [u8; 4])
    requires
        canvas_wf(*old(canvas)),
        style_fits(style, picture_pixels(*pic), picture_dims(*pic), res as int),
    ensures
        canvas_wf(*final(canvas)),
        canvas_dims(*final(canvas)) == canvas_dims(*old(canvas)),
        canvas_pixels(*final(canvas)) == styled(
            canvas_pixels(*old(canvas)),
            style,
            picture_pixels(*pic),
            picture_dims(*pic),
            res as int,
            color,
        ),
{
    let ghost m0 = canvas_pixels(*canvas);
    let ghost pm = picture_pixels(*pic);
    let ghost pd = picture_dims(*pic);
    let ghost r = res as int;
    let w = pic.width();
    let h = pic.height();
    assert(canvas_pixels(*canvas) =~= styled_partly(m0, style, pm, pd, r, color, |a: int, b: int| a < 0));
    let mut x: u32 = 0;
    while x < w
        invariant
            canvas_wf(*canvas),
            canvas_dims(*canvas) == canvas_dims(*old(canvas)),
            m0 == canvas_pixels(*old(canvas)),
            pm == picture_pixels(*pic),
            pd == picture_dims(*pic),
            w == pd.0,
            h == pd.1,
            r == res,
            x <= w,
            x % 8 == 0 || x == w,
            style_fits(style, pm, pd, r),
            canvas_pixels(*canvas) == styled_partly(m0, style, pm, pd, r, color, |a: int, b: int| a < x),
        decreases w - x,
    {
        let mut y: u32 = 0;
        assert(styled_partly(m0, style, pm, pd, r, color, |a: int, b: int| a < x) =~= styled_partly(
            m0,
            style,
            pm,
            pd,
            r,
            color,
            |a: int, b: int| a < x || a == x && b < y,
        ));
        while y < h
            invariant
                canvas_wf(*canvas),
                canvas_dims(*canvas) == canvas_dims(*old(canvas)),
                m0 == canvas_pixels(*old(canvas)),
                pm == picture_pixels(*pic),
                pd == picture_dims(*pic),
                w == pd.0,
                h == pd.1,
                r == res,
                x < w,
                x % 8 == 0,
                y <= h,
                y % 8 == 0 || y == h,
                style_fits(style, pm, pd, r),
                canvas_pixels(*canvas) == styled_partly(
                    m0,
                    style,
                    pm,
                    pd,
                    r,
                    color,
                    |a: int, b: int| a < x || a == x && b < y,
                ),
            decreases h - y,
        {
            let ghost done = |a: int, b: int| a < x || a == x && b < y;
            let ghost next = |a: int, b: int| done(a, b) || a == x && b == y;
            let pixel = pic.luma(x, y);
            if pixel == 0 {
                assert(module_fits(style, pm, pd, r, x as int, y as int));
                if res > 0 {
                    proof {
                        lemma_draw_step(m0, style, pm, pd, r, color, done, x as int, y as int);
                    }
                }
                draw_module(canvas, pic, style, res, color, x, y);
                if res == 0 {
                    assert(canvas_pixels(*canvas) =~= styled_partly(m0, style, pm, pd, r, color, next));
                }
            } else {
                if res > 0 {
                    proof {
                        lemma_draw_step(m0, style, pm, pd, r, color, done, x as int, y as int);
                    }
                } else {
                    assert(canvas_pixels(*canvas) =~= styled_partly(m0, style, pm, pd, r, color, next));
                }
            }
            let ny = if h - y > 8 { y + 8 } else { h };
            assert(styled_partly(m0, style, pm, pd, r, color, next) =~= styled_partly(
                m0,
                style,
                pm,
                pd,
                r,
                color,
                |a: int, b: int| a < x || a == x && b < ny,
            ));
            y = ny;
        }
        let nx = if w - x > 8 { x + 8 } else { w };
        assert(styled_partly(m0, style, pm, pd, r, color, |a: int, b: int| a < x || a == x && b < y) =~= styled_partly(
            m0,
            style,
            pm,
            pd,
            r,
            color,
            |a: int, b: int| a < nx,
        ));
        x = nx;
    }
    assert(canvas_pixels(*canvas) =~= styled(m0, style, pm, pd, r, color));
}

/// `span_fits`, computed.
fn span_ok(c: i128, lo: i128, len: i128) -> (b: bool)
    requires
        -0x1_0000_0000_0000 < c < 0x1_0000_0000_0000,
        -0x1_0000_0000_0000 < lo < 0x1_0000_0000_0000,
        -0x1_0000_0000_0000 < len < 0x1_0000_0000_0000,
    ensures
        b == crate::shapes::span_fits(c as int, lo as int, len as int),
{
    len <= 0 || (c >= lo && c + len - 1 <= 0xffff_ffff)
}

/// `shape_fits`, computed.
fn shape_ok(shape: Shape, cx: i128, cy: i128, r: i128) -> (b: bool)
    requires
        0 <= cx < 0x1_0000_0000_0000,
        0 <= cy < 0x1_0000_0000_0000,
        0 <= r < 0x1_0000_0000,
    ensures
        b == shape_fits(shape, cx as int, cy as int, r as int),
{
    let q = r - 16;
    proof {
        if q > 0 {
            assert(2 * q * q < 0x4_0000_0000_0000_0000) by (nonlinear_arith)
                requires
                    0 < q < 0x1_0000_0000,
            ;
        }
    }
    let circle = r >= 16 && (q <= 0 || (2 * q * q <= 0x7fff_ffff && span_ok(cx, q, 2 * q) && span_ok(cy, q, 2 * q)));
    match shape {
        Shape::Square => 2 * r <= 0xffff_ffff && (r <= 0 || (span_ok(cx, r, 2 * r) && span_ok(cy, r, 2 * r))),
        Shape::Narrow => r >= 16 && 2 * q <= 0xffff_ffff && (q <= 0 || (2 * r <= 0xffff_ffff && span_ok(cx, q, 2 * q)
            && span_ok(cy, r, 2 * r))),
        Shape::Circle => circle,
        Shape::Top => circle && (q <= 0 || (2 * r <= 0xffff_ffff && span_ok(cx, q, 2 * q) && cy + 2 * r - 1
            <= 0xffff_ffff)),
        Shape::Bottom => circle && (q <= 0 || (span_ok(cx, q, 2 * q) && span_ok(cy, r, r))),
    }
}

/// `module_fits` for a sampled module, computed.
fn module_ok(pic: &QrPicture, style: QrStyle, res: u32, x: u32, y: u32) -> (b: bool)
    requires
        sampled(picture_dims(*pic), x as int, y as int),
    ensures
        b == module_fits(style, picture_pixels(*pic), picture_dims(*pic), res as int, x as int, y as int),
{
    let h = pic.height();
    proof {
        assert(x as int * res as int <= 0xffff_ffff * 0xffff_ffff) by (nonlinear_arith)
            requires
                x <= 0xffff_ffff,
                res <= 0xffff_ffff,
        ;
        assert(y as int * res as int <= 0xffff_ffff * 0xffff_ffff) by (nonlinear_arith)
            requires
                y <= 0xffff_ffff,
                res <= 0xffff_ffff,
        ;
    }
    let cx = x as i128 * res as i128 + res as i128 / 2;
    let cy = y as i128 * res as i128 + res as i128 / 2;
    let r = 4 * res as i128;
    if cx > 0xffff_ffff || cy > 0xffff_ffff || r > 0xffff_ffff {
        return false;
    }
    let shape = match style {
        QrStyle::Default => Shape::Square,
        _ => {
            if y < 1 || y as u64 + 8 >= h as u64 {
                return false;
            }
            let up_light = pic.luma(x, y - 1) != 0;
            let down_light = pic.luma(x, y + 8) != 0;
            if style == QrStyle::Half && x < y {
                Shape::Square
            } else if up_light && down_light {
                Shape::Circle
            } else if up_light {
                Shape::Top
            } else if down_light {
                Shape::Bottom
            } else {
                Shape::Narrow
            }
        },
    };
    shape_ok(shape, cx, cy, r)
}

/// `style_fits`, computed by looking at every sampled module.
fn style_ok(pic: &QrPicture, style: QrStyle, res: u32) -> (b: bool)
    ensures
        b == style_fits(style, picture_pixels(*pic), picture_dims(*pic), res as int),
{
    let ghost pm = picture_pixels(*pic);
    let ghost pd = picture_dims(*pic);
    let w = pic.width();
    let h = pic.height();
    let mut x: u32 = 0;
    while x < w
        invariant
            pm == picture_pixels(*pic),
            pd == picture_dims(*pic),
            w == pd.0,
            h == pd.1,
            x <= w,
            x % 8 == 0 || x == w,
            forall|a: int, b: int|
                #![trigger module_fits(style, pm, pd, res as int, a, b)]
                sampled(pd, a, b) && a < x && level(pm, a, b) == 0 ==> module_fits(style, pm, pd, res as int, a, b),
        decreases w - x,
    {
        let mut y: u32 = 0;
        while y < h
            invariant
                pm == picture_pixels(*pic),
                pd == picture_dims(*pic),
                w == pd.0,
                h == pd.1,
                x < w,
                x % 8 == 0,
                y <= h,
                y % 8 == 0 || y == h,
                forall|a: int, b: int|
                    #![trigger module_fits(style, pm, pd, res as int, a, b)]
                    sampled(pd, a, b) && (a < x || a == x && b < y) && level(pm, a, b) == 0 ==> module_fits(
                        style,
                        pm,
                        pd,
                        res as int,
                        a,
                        b,
                    ),
            decreases h - y,
        {
            if pic.luma(x, y) == 0 && !module_ok(pic, style, res, x, y) {
                assert(sampled(pd, x as int, y as int) && level(pm, x as int, y as int) == 0);
                assert(!module_fits(style, pm, pd, res as int, x as int, y as int));
                return false;
            }
            y = if h - y > 8 { y + 8 } else { h };
        }
        x = if w - x > 8 { x + 8 } else { w };
    }
    true
}

/// Why `QrCat::build` or `gen_qr` made no picture.
#[derive(Debug)]
pub enum QrCatError {
    /// The data does not fit in a QR symbol of the chosen version, or the
    /// version is not one of 1 to 40.
    Encoding(QrError),
    /// The canvas, `resolution` times the size of the symbol's picture,
    /// does not fit in memory addresses.
    TooLarge,
    /// Drawing the modules at this resolution overflows the pixel
    /// arithmetic, or a rounded style would look outside the picture.
    Unpaintable,
    /// The PNG encoder failed.
    Image(image::ImageError),
}

/// A canvas of `width` by `height` can be made.
pub open spec fn canvas_size_ok(width: int, height: int) -> bool {
    width <= u32::MAX && height <= u32::MAX && 4 * width * height <= isize::MAX
}

/// What painting the symbol with modules `modules` of a version `version`
/// gives: the canvas is the symbol's picture scaled by `res`, filled with
/// `bgcolor`, with the dark modules drawn in `style` and `color`.
pub open spec fn painted_symbol(
    modules: Seq<bool>,
    version: i16,
    res: u32,
    style: QrStyle,
    color: [u8; 4],
    bgcolor: [u8; 4],
) -> Result<((u32, u32), Map<(u32, u32), [u8; 4]>), QrCatError> {
    let w = symbol_width(version);
    let side = rendered_side(w);
    let pic = rendered_map(modules, w);
    let pd = (side as u32, side as u32);
    let cd = ((side * res) as u32, (side * res) as u32);
    if !canvas_size_ok(side * res, side * res) {
        Err(QrCatError::TooLarge)
    } else if !style_fits(style, pic, pd, res as int) {
        Err(QrCatError::Unpaintable)
    } else {
        Ok((cd, styled(filled_pixels(cd, bgcolor), style, pic, pd, res as int, color)))
    }
}

/// The size and grey levels of the picture of the symbol with modules
/// `modules` of version `version`.
pub open spec fn symbol_picture(modules: Seq<bool>, version: i16) -> ((u32, u32), Map<(u32, u32), u8>) {
    let w = symbol_width(version);
    let side = rendered_side(w);
    ((side as u32, side as u32), rendered_map(modules, w))
}

/// Law: painting a canvas a second time, in the same style, from the same
/// picture, at the same resolution and in the same colour, changes
/// nothing (for each of the three styles).
pub proof fn law_styled_idempotent(
    m: Map<(u32, u32), [u8; 4]>,
    style: QrStyle,
    pic: Map<(u32, u32), u8>,
    pd: (u32, u32),
    res: int,
    color: [u8; 4],
)
    ensures
        styled(styled(m, style, pic, pd, res, color), style, pic, pd, res, color) == styled(
            m,
            style,
            pic,
            pd,
            res,
            color,
        ),
{
    assert(styled(styled(m, style, pic, pd, res, color), style, pic, pd, res, color) =~= styled(
        m,
        style,
        pic,
        pd,
        res,
        color,
    ));
}

/// Law: a picture without dark sampled modules leaves the canvas as it
/// is, in every style.
pub proof fn law_no_dark_no_change(
    m: Map<(u32, u32), [u8; 4]>,
    style: QrStyle,
    pic: Map<(u32, u32), u8>,
    pd: (u32, u32),
    res: int,
    color: [u8; 4],
)
    requires
        forall|x: int, y: int| sampled(pd, x, y) ==> level(pic, x, y) != 0,
    ensures
        styled(m, style, pic, pd, res, color) == m,
{
    assert(styled(m, style, pic, pd, res, color) =~= m);
}

/// Law: when no dark sampled module lies below the diagonal (`x < y`),
/// the half style paints exactly what the rounded style paints.
pub proof fn law_half_is_rounded_above_diagonal(
    m: Map<(u32, u32), [u8; 4]>,
    pic: Map<(u32, u32), u8>,
    pd: (u32, u32),
    res: int,
    color: [u8; 4],
)
    requires
        forall|x: int, y: int| sampled(pd, x, y) && level(pic, x, y) == 0 ==> x >= y,
    ensures
        styled(m, QrStyle::Half, pic, pd, res, color) == styled(m, QrStyle::Rounded, pic, pd, res, color),
{
    assert(styled(m, QrStyle::Half, pic, pd, res, color) =~= styled(m, QrStyle::Rounded, pic, pd, res, color));
}

/// Law: when every dark sampled module lies below the diagonal (`x < y`),
/// the half style paints exactly what the default style paints in red:
/// full red squares, the module colour unused.
pub proof fn law_half_is_red_default_below_diagonal(
    m: Map<(u32, u32), [u8; 4]>,
    pic: Map<(u32, u32), u8>,
    pd: (u32, u32),
    res: int,
    color: [u8; 4],
)
    requires
        forall|x: int, y: int| sampled(pd, x, y) && level(pic, x, y) == 0 ==> x < y,
    ensures
        styled(m, QrStyle::Half, pic, pd, res, color) == styled(m, QrStyle::Default, pic, pd, res, half_red()),
{
    assert(styled(m, QrStyle::Half, pic, pd, res, color) =~= styled(
        m,
        QrStyle::Default,
        pic,
        pd,
        res,
        half_red(),
    ));
}

/// Law: the rounded style paints inside the default style's squares: a
/// position that the default style leaves as it was, the rounded style
/// leaves as it was too.
pub proof fn law_rounded_inside_default(
    m: Map<(u32, u32), [u8; 4]>,
    pic: Map<(u32, u32), u8>,
    pd: (u32, u32),
    res: int,
    color: [u8; 4],
    p: (u32, u32),
)
    requires
        m.dom().contains(p),
        styled(m, QrStyle::Default, pic, pd, res, color)[p] == m[p],
    ensures
        styled(m, QrStyle::Rounded, pic, pd, res, color)[p] == m[p],
{
    if res > 0 {
        let mx = module_at(p.0 as int, res);
        let my = module_at(p.1 as int, res);
        let dx = p.0 - centre(mx, res);
        let dy = p.1 - centre(my, res);
        let shape = module_shape(QrStyle::Rounded, pic, mx, my);
        if covers(shape, 4 * res, dx, dy) {
            lemma_shape_in_square(shape, 4 * res, dx, dy);
            assert(covers(Shape::Square, 4 * res, dx, dy));
        }
    }
}

/// Law: a light sampled module leaves its whole cell (the `8 * res` square
/// around its centre) as it was, in every style.
pub proof fn law_light_module_untouched(
    m: Map<(u32, u32), [u8; 4]>,
    style: QrStyle,
    pic: Map<(u32, u32), u8>,
    pd: (u32, u32),
    res: int,
    color: [u8; 4],
    x: int,
    y: int,
    p: (u32, u32),
)
    requires
        res > 0,
        sampled(pd, x, y),
        level(pic, x, y) != 0,
        m.dom().contains(p),
        -4 * res <= p.0 - (x * res + res / 2) < 4 * res,
        -4 * res <= p.1 - (y * res + res / 2) < 4 * res,
    ensures
        styled(m, style, pic, pd, res, color)[p] == m[p],
{
    lemma_module_at(p.0 as int, x, res);
    lemma_module_at(p.1 as int, y, res);
}

/// Law: in the default style a dark sampled module fills its whole cell,
/// the `8 * res` square around its centre, with the module colour.
pub proof fn law_default_module_square(
    m: Map<(u32, u32), [u8; 4]>,
    pic: Map<(u32, u32), u8>,
    pd: (u32, u32),
    res: int,
    color: [u8; 4],
    x: int,
    y: int,
    p: (u32, u32),
)
    requires
        res > 0,
        sampled(pd, x, y),
        level(pic, x, y) == 0,
        m.dom().contains(p),
        -4 * res <= p.0 - (x * res + res / 2) < 4 * res,
        -4 * res <= p.1 - (y * res + res / 2) < 4 * res,
    ensures
        styled(m, QrStyle::Default, pic, pd, res, color)[p] == color,
{
    lemma_module_at(p.0 as int, x, res);
    lemma_module_at(p.1 as int, y, res);
}

/// Law: in the half style a dark sampled module below the diagonal
/// (`x < y`) fills its whole cell with red, whatever the module colour.
pub proof fn law_half_module_below_diagonal(
    m: Map<(u32, u32), [u8; 4]>,
    pic: Map<(u32, u32), u8>,
    pd: (u32, u32),
    res: int,
    color: [u8; 4],
    x: int,
    y: int,
    p: (u32, u32),
)
    requires
        res > 0,
        sampled(pd, x, y),
        level(pic, x, y) == 0,
        x < y,
        m.dom().contains(p),
        -4 * res <= p.0 - (x * res + res / 2) < 4 * res,
        -4 * res <= p.1 - (y * res + res / 2) < 4 * res,
    ensures
        styled(m, QrStyle::Half, pic, pd, res, color)[p] == [255u8, 0u8, 0u8, 255u8],
{
    lemma_module_at(p.0 as int, x, res);
    lemma_module_at(p.1 as int, y, res);
}

/// Law: in the rounded style (and in the half style on or above the
/// diagonal) a dark sampled module is drawn from its neighbours 1 pixel
/// above and 8 pixels below. With `r = 4 * res`, `q = r - 16` and offsets
/// `(dx, dy)` from its centre, its cell is painted in the module colour:
/// - light above and below: on the disc `dx² + dy² <= q²` (inside
///   `[-q, q)` on both axes);
/// - light above, dark below (top end of a run): on the disc and on the
///   bar `-q <= dx < q`, `0 <= dy < r` that joins the module below;
/// - dark above, light below (bottom end): on the disc and on the bar
///   `-q <= dx < q`, `-r <= dy < 0` that joins the module above;
/// - dark above and below: on the bar `-q <= dx < q` over the whole
///   height;
/// and everywhere else in the cell it is left as it was.
pub proof fn law_rounded_module(
    m: Map<(u32, u32), [u8; 4]>,
    style: QrStyle,
    pic: Map<(u32, u32), u8>,
    pd: (u32, u32),
    res: int,
    color: [u8; 4],
    x: int,
    y: int,
    p: (u32, u32),
)
    requires
        style == QrStyle::Rounded || (style == QrStyle::Half && x >= y),
        res > 0,
        sampled(pd, x, y),
        1 <= y,
        level(pic, x, y) == 0,
        m.dom().contains(p),
        -4 * res <= p.0 - (x * res + res / 2) < 4 * res,
        -4 * res <= p.1 - (y * res + res / 2) < 4 * res,
    ensures
        ({
            let r = 4 * res;
            let q = r - 16;
            let dx = p.0 - (x * res + res / 2);
            let dy = p.1 - (y * res + res / 2);
            let up_light = pic[(x as u32, (y - 1) as u32)] != 0;
            let down_light = pic[(x as u32, (y + 8) as u32)] != 0;
            let on_disc = -q <= dx < q && -q <= dy < q && dx * dx + dy * dy <= q * q;
            let on_bar = -q <= dx < q;
            let drawn = if up_light && down_light {
                on_disc
            } else if up_light {
                on_disc || (on_bar && 0 <= dy < r)
            } else if down_light {
                on_disc || (on_bar && -r <= dy < 0)
            } else {
                on_bar
            };
            styled(m, style, pic, pd, res, color)[p] == if drawn {
                color
            } else {
                m[p]
            }
        }),
{
    lemma_module_at(p.0 as int, x, res);
    lemma_module_at(p.1 as int, y, res);
}

/// Law: a picture that the builder makes holds no colour but the
/// background, the module colour, and (in the half style) red.
pub proof fn law_build_palette(
    modules: Seq<bool>,
    version: i16,
    res: u32,
    style: QrStyle,
    color: [u8; 4],
    bgcolor: [u8; 4],
    p: (u32, u32),
)
    requires
        painted_symbol(modules, version, res, style, color, bgcolor) is Ok,
        painted_symbol(modules, version, res, style, color, bgcolor)->Ok_0.1.dom().contains(p),
    ensures
        ({
            let c = painted_symbol(modules, version, res, style, color, bgcolor)->Ok_0.1[p];
            c == bgcolor || c == color || (style == QrStyle::Half && c == half_red())
        }),
{
}

/// Law: at a resolution of at least 5 (at least 1 in the default style),
/// the centre of every sampled module of the symbol's picture shows the
/// module: a dark module's colour (red below the diagonal in the half
/// style), the background for a light one.
pub proof fn law_modules_visible(
    modules: Seq<bool>,
    version: i16,
    res: u32,
    style: QrStyle,
    color: [u8; 4],
    bgcolor: [u8; 4],
    x: u32,
    y: u32,
)
    requires
        painted_symbol(modules, version, res, style, color, bgcolor) is Ok,
        1 <= version <= 40,
        res >= 5 || (style == QrStyle::Default && res >= 1),
        sampled(symbol_picture(modules, version).0, x as int, y as int),
    ensures
        ({
            let (cd, pixels) = painted_symbol(modules, version, res, style, color, bgcolor)->Ok_0;
            let (pd, pic) = symbol_picture(modules, version);
            let cx = centre(x as int, res as int);
            let cy = centre(y as int, res as int);
            &&& cx < cd.0 && cy < cd.1
            &&& pixels[(cx as u32, cy as u32)] == if level(pic, x as int, y as int) == 0 {
                module_color(style, x as int, y as int, color)
            } else {
                bgcolor
            }
        }),
{
    let (cd, pixels) = painted_symbol(modules, version, res, style, color, bgcolor)->Ok_0;
    let (pd, pic) = symbol_picture(modules, version);
    let side = rendered_side(symbol_width(version));
    let r = res as int;
    let cx = centre(x as int, r);
    let cy = centre(y as int, r);
    assert(cx < side * r && cy < side * r) by (nonlinear_arith)
        requires
            cx == x * r + r / 2,
            cy == y * r + r / 2,
            x < side,
            y < side,
            r >= 1,
    ;
    assert(cd == ((side * r) as u32, (side * r) as u32));
    let q = (cx as u32, cy as u32);
    lemma_module_at(cx, x as int, r);
    lemma_module_at(cy, y as int, r);
    assert(q.0 == cx && q.1 == cy);
    assert(module_at(q.0 as int, r) == x);
    assert(module_at(q.1 as int, r) == y);
    let shape = module_shape(style, pic, x as int, y as int);
    assert(covers(shape, 4 * r, 0, 0));
}

/// A QR code builder: data, version, resolution, style and colours.
pub struct QrCat {
    version: i16,
    data: String,
    resolution: u32,
    style: QrStyle,
    color: [u8; 4],
    bgcolor: [u8; 4],
}

impl QrCat {
    /// The QR version (1 to 40 for a symbol that can be made).
    pub closed spec fn spec_version(&self) -> i16 {
        self.version
    }

    /// The text to encode.
    pub closed spec fn spec_data(&self) -> Seq<char> {
        self.data@
    }

    /// Canvas pixels per picture pixel.
    pub closed spec fn spec_resolution(&self) -> u32 {
        self.resolution
    }

    /// How dark modules are drawn.
    pub closed spec fn spec_style(&self) -> QrStyle {
        self.style
    }

    /// The colour of the dark modules (RGBA).
    pub closed spec fn spec_color(&self) -> [u8; 4] {
        self.color
    }

    /// The background colour (RGBA).
    pub closed spec fn spec_bgcolor(&self) -> [u8; 4] {
        self.bgcolor
    }

    /// What `build` gives for this builder, or why it gives nothing.
    pub open spec fn spec_build(&self) -> Result<((u32, u32), Map<(u32, u32), [u8; 4]>), QrCatError> {
        match qr_symbol(self.spec_data(), self.spec_version()) {
            Err(e) => Err(QrCatError::Encoding(e)),
            Ok(modules) => painted_symbol(
                modules,
                self.spec_version(),
                self.spec_resolution(),
                self.spec_style(),
                self.spec_color(),
                self.spec_bgcolor(),
            ),
        }
    }

    /// A builder with version 2, no data, resolution 20, the default
    /// style, white modules and a black background.
    pub fn new() -> (r: Self)
        ensures
            r.spec_version() == 2,
            r.spec_data() == Seq::<char>::empty(),
            r.spec_resolution() == 20,
            r.spec_style() == QrStyle::Default,
            r.spec_color() == [255u8, 255u8, 255u8, 255u8],
            r.spec_bgcolor() == [0u8, 0u8, 0u8, 255u8],
    {
        QrCat {
            version: 2,
            data: String::new(),
            resolution: 20,
            style: QrStyle::Default,
            color: [255, 255, 255, 255],
            bgcolor: [0, 0, 0, 255],
        }
    }

    /// Sets the QR version.
    pub fn version(self, version: i16) -> (r: Self)
        ensures
            r.spec_version() == version,
            r.spec_data() == self.spec_data(),
            r.spec_resolution() == self.spec_resolution(),
            r.spec_style() == self.spec_style(),
            r.spec_color() == self.spec_color(),
            r.spec_bgcolor() == self.spec_bgcolor(),
    {
        let mut s = self;
        s.version = version;
        s
    }

    /// Sets the text to encode.
    pub fn data(self, data: &str) -> (r: Self)
        ensures
            r.spec_version() == self.spec_version(),
            r.spec_data() == data@,
            r.spec_resolution() == self.spec_resolution(),
            r.spec_style() == self.spec_style(),
            r.spec_color() == self.spec_color(),
            r.spec_bgcolor() == self.spec_bgcolor(),
    {
        let mut s = self;
        s.data = data.to_string();
        s
    }

    /// Sets how many canvas pixels each picture pixel becomes.
    pub fn resolution(self, resolution: u32) -> (r: Self)
        ensures
            r.spec_version() == self.spec_version(),
            r.spec_data() == self.spec_data(),
            r.spec_resolution() == resolution,
            r.spec_style() == self.spec_style(),
            r.spec_color() == self.spec_color(),
            r.spec_bgcolor() == self.spec_bgcolor(),
    {
        let mut s = self;
        s.resolution = resolution;
        s
    }

    /// Sets how dark modules are drawn.
    pub fn style(self, style: QrStyle) -> (r: Self)
        ensures
            r.spec_version() == self.spec_version(),
            r.spec_data() == self.spec_data(),
            r.spec_resolution() == self.spec_resolution(),
            r.spec_style() == style,
            r.spec_color() == self.spec_color(),
            r.spec_bgcolor() == self.spec_bgcolor(),
    {
        let mut s = self;
        s.style = style;
        s
    }

    /// Sets the colour of the dark modules (RGBA).
    pub fn color(self, color: [u8; 4]) -> (r: Self)
        ensures
            r.spec_version() == self.spec_version(),
            r.spec_data() == self.spec_data(),
            r.spec_resolution() == self.spec_resolution(),
            r.spec_style() == self.spec_style(),
            r.spec_color() == color,
            r.spec_bgcolor() == self.spec_bgcolor(),
    {
        let mut s = self;
        s.color = color;
        s
    }

    /// Sets the background colour (RGBA).
    pub fn bgcolor(self, bgcolor: [u8; 4]) -> (r: Self)
        ensures
            r.spec_version() == self.spec_version(),
            r.spec_data() == self.spec_data(),
            r.spec_resolution() == self.spec_resolution(),
            r.spec_style() == self.spec_style(),
            r.spec_color() == self.spec_color(),
            r.spec_bgcolor() == bgcolor,
    {
        let mut s = self;
        s.bgcolor = bgcolor;
        s
    }

    /// Paints every dark module as a full square.
    fn set_default_style(&self, rgba_image: &mut Canvas, img: &QrPicture)
        requires
            canvas_wf(*old(rgba_image)),
            style_fits(QrStyle::Default, picture_pixels(*img), picture_dims(*img), self.resolution as int),
        ensures
            canvas_wf(*final(rgba_image)),
            canvas_dims(*final(rgba_image)) == canvas_dims(*old(rgba_image)),
            canvas_pixels(*final(rgba_image)) == styled(
                canvas_pixels(*old(rgba_image)),
                QrStyle::Default,
                picture_pixels(*img),
                picture_dims(*img),
                self.resolution as int,
                self.color,
            ),
    {
        paint_modules(rgba_image, img, QrStyle::Default, self.resolution, self.color);
    }

    /// Paints every dark module as a disc, a bar or a rounded end.
    fn set_rounded_style(&self, rgba_image: &mut Canvas, img: &QrPicture)
        requires
            canvas_wf(*old(rgba_image)),
            style_fits(QrStyle::Rounded, picture_pixels(*img), picture_dims(*img), self.resolution as int),
        ensures
            canvas_wf(*final(rgba_image)),
            canvas_dims(*final(rgba_image)) == canvas_dims(*old(rgba_image)),
            canvas_pixels(*final(rgba_image)) == styled(
                canvas_pixels(*old(rgba_image)),
                QrStyle::Rounded,
                picture_pixels(*img),
                picture_dims(*img),
                self.resolution as int,
                self.color,
            ),
    {
        paint_modules(rgba_image, img, QrStyle::Rounded, self.resolution, self.color);
    }

    /// Paints the dark modules below the diagonal as red squares, the
    /// others as in the rounded style.
    fn set_half_style(&self, rgba_image: &mut Canvas, img: &QrPicture)
        requires
            canvas_wf(*old(rgba_image)),
            style_fits(QrStyle::Half, picture_pixels(*img), picture_dims(*img), self.resolution as int),
        ensures
            canvas_wf(*final(rgba_image)),
            canvas_dims(*final(rgba_image)) == canvas_dims(*old(rgba_image)),
            canvas_pixels(*final(rgba_image)) == styled(
                canvas_pixels(*old(rgba_image)),
                QrStyle::Half,
                picture_pixels(*img),
                picture_dims(*img),
                self.resolution as int,
                self.color,
            ),
    {
        paint_modules(rgba_image, img, QrStyle::Half, self.resolution, self.color);
    }

    /// Whether `build` can paint this builder's symbol: encodes the data,
    /// renders the symbol and checks the canvas size and the drawing
    /// arithmetic, without painting. Gives the error `build` would meet.
    pub fn check_build(&self) -> (r: Result<(), QrCatError>)
        ensures
            match self.spec_build() {
                Ok(_) => r is Ok,
                Err(e) => r matches Err(f) && f == e,
            },
    {
        let code = match encode_symbol(self.data.as_str(), self.version) {
            Ok(code) => code,
            Err(e) => return Err(QrCatError::Encoding(e)),
        };
        let img = render_picture(&code);
        let w = img.width();
        let h = img.height();
        proof {
            assert((w as int) * (self.resolution as int) <= 0xffff_ffff * 0xffff_ffff) by (nonlinear_arith)
                requires
                    w <= 0xffff_ffff,
                    self.resolution <= 0xffff_ffff,
            ;
            assert((h as int) * (self.resolution as int) <= 0xffff_ffff * 0xffff_ffff) by (nonlinear_arith)
                requires
                    h <= 0xffff_ffff,
                    self.resolution <= 0xffff_ffff,
            ;
        }
        let cw = w as u128 * self.resolution as u128;
        let ch = h as u128 * self.resolution as u128;
        if cw > 0xffff_ffff || ch > 0xffff_ffff {
            return Err(QrCatError::TooLarge);
        }
        proof {
            assert(4 * cw * ch <= 4 * 0xffff_ffff * 0xffff_ffff) by (nonlinear_arith)
                requires
                    cw <= 0xffff_ffff,
                    ch <= 0xffff_ffff,
            ;
        }
        if 4 * cw * ch > isize::MAX as u128 {
            return Err(QrCatError::TooLarge);
        }
        if !style_ok(&img, self.style, self.resolution) {
            return Err(QrCatError::Unpaintable);
        }
        Ok(())
    }

    /// Encodes the data, renders the symbol and paints it. The data must
    /// fit the version, the canvas must fit in memory addresses and the
    /// drawing must not overflow (`check_build` tells); the result is then
    /// always a canvas.
    pub fn build(&mut self) -> (r: Result<Canvas, QrCatError>)
        requires
            old(self).spec_build() is Ok,
        ensures
            *final(self) == *old(self),
            1 <= old(self).spec_version() <= 40,
            r matches Ok(c) && canvas_wf(c) && canvas_dims(c) == old(self).spec_build()->Ok_0.0 && canvas_pixels(c)
                == old(self).spec_build()->Ok_0.1,
    {
        let code = match encode_symbol(self.data.as_str(), self.version) {
            Ok(code) => code,
            Err(e) => return Err(QrCatError::Encoding(e)),
        };
        let img = render_picture(&code);
        let w = img.width();
        let h = img.height();
        proof {
            assert((w as int) * (self.resolution as int) <= 0xffff_ffff * 0xffff_ffff) by (nonlinear_arith)
                requires
                    w <= 0xffff_ffff,
                    self.resolution <= 0xffff_ffff,
            ;
            assert((h as int) * (self.resolution as int) <= 0xffff_ffff * 0xffff_ffff) by (nonlinear_arith)
                requires
                    h <= 0xffff_ffff,
                    self.resolution <= 0xffff_ffff,
            ;
        }
        let cw = w as u128 * self.resolution as u128;
        let ch = h as u128 * self.resolution as u128;
        let mut rgba_image = Canvas::filled(cw as u32, ch as u32, self.bgcolor);
        proof {
            assert(canvas_pixels(rgba_image).dom() =~= crate::canvas::grid(canvas_dims(rgba_image)));
        }
        match self.style {
            QrStyle::Default => self.set_default_style(&mut rgba_image, &img),
            QrStyle::Rounded => self.set_rounded_style(&mut rgba_image, &img),
            QrStyle::Half => self.set_half_style(&mut rgba_image, &img),
        }
        Ok(rgba_image)
    }

    /// `build` for any builder: the error where the data cannot be
    /// encoded, the canvas would be too large or the drawing would
    /// overflow; the painted canvas otherwise.
    pub fn try_build(&mut self) -> (r: Result<Canvas, QrCatError>)
        ensures
            *final(self) == *old(self),
            r is Ok ==> 1 <= old(self).spec_version() <= 40,
            match old(self).spec_build() {
                Ok((dims, pixels)) => r matches Ok(c) && canvas_wf(c) && canvas_dims(c) == dims && canvas_pixels(c)
                    == pixels,
                Err(e) => r matches Err(f) && f == e,
            },
    {
        match self.check_build() {
            Err(e) => Err(e),
            Ok(()) => self.build(),
        }
    }
}

} // verus!
