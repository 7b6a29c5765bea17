//! QR symbols from the `qrcode` crate, and the grey-scale picture that its
//! renderer draws of one.

use vstd::prelude::*;
use qrcode::{EcLevel, QrCode, Version};
use qrcode::types::QrError;
use image::Luma;
use crate::canvas::{QrPicture, grid, picture_dims, picture_pixels};

verus! {

#[verifier::external_type_specification]
#[verifier::external_body]
pub struct ExQrCode(QrCode);

#[verifier::external_type_specification]
#[verifier::external_body]
pub struct ExQrError(QrError);

/// The modules of a QR symbol, row after row, `true` for dark.
pub uninterp spec fn qr_modules(code: QrCode) -> Seq<bool>;

/// The number of modules on each side of a QR symbol.
pub uninterp spec fn qr_width(code: QrCode) -> nat;

/// What `QrCode::with_version` gives for the UTF-8 bytes of `data`, the
/// normal (not micro) version `version` and error correction level H: the
/// modules of the symbol, or the error.
pub uninterp spec fn qr_symbol(data: Seq<char>, version: i16) -> Result<Seq<bool>, QrError>;

/// The number of modules on each side of a normal QR symbol of `version`.
pub open spec fn symbol_width(version: i16) -> int {
    4 * version + 17
}

/// `QrCode::with_version(data, Version::Normal(version), EcLevel::H)`.
/// Its result is named by `qr_symbol`. Of a symbol it returns, the
/// source shows that the version lies in 1 to 40 (otherwise the capacity
/// table lookup fails with `InvalidVersion`) and that it has
/// `4 * version + 17` modules on each side.
#[verifier::external_body]
pub(crate) fn encode_symbol(data: &str, version: i16) -> (r: Result<QrCode, QrError>)
    ensures
        match qr_symbol(data@, version) {
            Ok(modules) => r matches Ok(code) && qr_modules(code) == modules,
            Err(e) => r == Err::<QrCode, QrError>(e),
        },
        r matches Ok(code) ==> {
            &&& 1 <= version <= 40
            &&& qr_width(code) == symbol_width(version)
            &&& qr_modules(code).len() == qr_width(code) * qr_width(code)
        },
{
    QrCode::with_version(data, Version::Normal(version), EcLevel::H)
}

/// The grey level that the renderer gives to the pixel at `(x, y)` of a
/// symbol `w` modules wide: modules are 8 by 8 pixels, behind a light
/// border 4 modules wide; dark modules are 0, all else 255.
pub open spec fn rendered_level(modules: Seq<bool>, w: int, x: int, y: int) -> u8 {
    let mx = x / 8;
    let my = y / 8;
    if 4 <= mx < w + 4 && 4 <= my < w + 4 && modules[(my - 4) * w + (mx - 4)] {
        0
    } else {
        255
    }
}

/// The side, in pixels, of the rendered picture of a symbol `w` modules
/// wide.
pub open spec fn rendered_side(w: int) -> int {
    (w + 8) * 8
}

/// The picture the renderer draws of a symbol `w` modules wide with the
/// given modules.
pub open spec fn rendered_map(modules: Seq<bool>, w: int) -> Map<(u32, u32), u8> {
    Map::new(
        |q: (u32, u32)| grid((rendered_side(w) as u32, rendered_side(w) as u32)).contains(q),
        |q: (u32, u32)| rendered_level(modules, w, q.0 as int, q.1 as int),
    )
}

/// `code.render::<Luma<u8>>().build()`: the renderer's defaults for
/// `Luma<u8>` are 8 by 8 pixels a module, a quiet zone of 4 modules, dark
/// 0 and light 255, so the picture is the one `rendered_level` describes.
#[verifier::external_body]
pub(crate) fn render_picture(code: &QrCode) -> (p: QrPicture)
    requires
        qr_width(*code) <= 177,
        qr_modules(*code).len() == qr_width(*code) * qr_width(*code),
    ensures
        picture_dims(p) == (rendered_side(qr_width(*code) as int) as u32, rendered_side(qr_width(*code) as int) as u32),
        picture_pixels(p) == rendered_map(qr_modules(*code), qr_width(*code) as int),
{
    QrPicture { img: code.render::<Luma<u8>>().build() }
}

} // verus!
