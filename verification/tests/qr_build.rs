use image::Luma;
use qrcode::types::QrError;
use qrcode::{EcLevel, QrCode, Version};
use redrum_bot::qr::{QrCat, QrCatError, QrStyle};

fn picture(data: &str, version: i16) -> image::GrayImage {
    QrCode::with_version(data, Version::Normal(version), EcLevel::H)
        .unwrap()
        .render::<Luma<u8>>()
        .build()
}

fn pixel(raw: &[u8], width: u32, x: u32, y: u32) -> [u8; 4] {
    let i = 4 * (y as usize * width as usize + x as usize);
    [raw[i], raw[i + 1], raw[i + 2], raw[i + 3]]
}

fn centre(x: u32, res: u32) -> u32 {
    x * res + res / 2
}

/// The sampled modules of a picture, dark or light.
fn modules(pic: &image::GrayImage) -> Vec<(u32, u32, bool)> {
    let mut v = Vec::new();
    for x in (0..pic.width()).step_by(8) {
        for y in (0..pic.height()).step_by(8) {
            v.push((x, y, pic.get_pixel(x, y).0[0] == 0));
        }
    }
    v
}

#[test]
fn build_default_style_size_and_colours() {
    let res = 2;
    let mut cat = QrCat::new().data("hello").resolution(res);
    let canvas = cat.build().ok().unwrap();
    assert_eq!(canvas.width(), 264 * res);
    assert_eq!(canvas.height(), 264 * res);
    let raw = canvas.into_rgba().2;
    assert_eq!(raw.len(), 4 * 528 * 528);
    // the quiet zone keeps the black background
    assert_eq!(pixel(&raw, 528, 0, 0), [0, 0, 0, 255]);
    let pic = picture("hello", 2);
    let mut dark = 0;
    for (x, y, is_dark) in modules(&pic) {
        let p = pixel(&raw, 528, centre(x, res), centre(y, res));
        if is_dark {
            dark += 1;
            assert_eq!(p, [255, 255, 255, 255]);
        } else {
            assert_eq!(p, [0, 0, 0, 255]);
        }
    }
    assert!(dark > 0);
}

#[test]
fn build_default_style_paints_full_squares() {
    let res = 2;
    let mut cat = QrCat::new().data("hello").resolution(res);
    let raw = cat.build().ok().unwrap().into_rgba().2;
    let pic = picture("hello", 2);
    let (x, y, _) = modules(&pic).into_iter().find(|m| m.2).unwrap();
    let (cx, cy) = (centre(x, res), centre(y, res));
    let r = 4 * res;
    for dx in 0..2 * r {
        for dy in 0..2 * r {
            assert_eq!(pixel(&raw, 528, cx + dx - r, cy + dy - r), [255, 255, 255, 255]);
        }
    }
}

#[test]
fn build_custom_colours() {
    let res = 1;
    let mut cat = QrCat::new()
        .data("hello")
        .resolution(res)
        .color([10, 20, 30, 255])
        .bgcolor([200, 201, 202, 255]);
    let raw = cat.build().ok().unwrap().into_rgba().2;
    assert_eq!(pixel(&raw, 264, 0, 0), [200, 201, 202, 255]);
    let pic = picture("hello", 2);
    for (x, y, is_dark) in modules(&pic) {
        let p = pixel(&raw, 264, centre(x, res), centre(y, res));
        assert_eq!(p, if is_dark { [10, 20, 30, 255] } else { [200, 201, 202, 255] });
    }
}

#[test]
fn build_version_sets_size() {
    let mut cat = QrCat::new().data("hi").version(1).resolution(1);
    let canvas = cat.build().ok().unwrap();
    // 21 modules and a border of 4 on each side, 8 pixels a module
    assert_eq!(canvas.width(), 232);
}

#[test]
fn build_rounded_style_draws_discs_and_bars() {
    let res = 6;
    let mut cat = QrCat::new().data("hello").resolution(res).style(QrStyle::Rounded);
    let raw = cat.build().ok().unwrap().into_rgba().2;
    let w = 264 * res;
    let pic = picture("hello", 2);
    let r = 4 * res;
    let q = r - 16;
    for (x, y, is_dark) in modules(&pic) {
        let (cx, cy) = (centre(x, res), centre(y, res));
        let p = pixel(&raw, w, cx, cy);
        if !is_dark {
            assert_eq!(p, [0, 0, 0, 255]);
            continue;
        }
        assert_eq!(p, [255, 255, 255, 255]);
        let up_light = pic.get_pixel(x, y - 1).0[0] != 0;
        let down_light = pic.get_pixel(x, y + 8).0[0] != 0;
        // the column just outside the narrowed square stays background
        assert_eq!(pixel(&raw, w, cx - q - 1, cy), [0, 0, 0, 255]);
        // the top row of the module's square is painted only between two dark modules
        // or below a dark one in a downward continuation
        let top = pixel(&raw, w, cx, cy - r);
        if up_light {
            assert_eq!(top, [0, 0, 0, 255]);
        } else if down_light {
            assert_eq!(top, [255, 255, 255, 255]);
        } else {
            assert_eq!(top, [255, 255, 255, 255]);
        }
    }
}

#[test]
fn build_half_style_reddens_below_diagonal() {
    let res = 5;
    let mut cat = QrCat::new().data("hello").resolution(res).style(QrStyle::Half);
    let raw = cat.build().ok().unwrap().into_rgba().2;
    let w = 264 * res;
    let pic = picture("hello", 2);
    let mut red = 0;
    for (x, y, is_dark) in modules(&pic) {
        let p = pixel(&raw, w, centre(x, res), centre(y, res));
        if !is_dark {
            assert_eq!(p, [0, 0, 0, 255]);
        } else if x < y {
            red += 1;
            assert_eq!(p, [255, 0, 0, 255]);
        } else {
            assert_eq!(p, [255, 255, 255, 255]);
        }
    }
    assert!(red > 0);
}

#[test]
fn build_rounded_at_resolution_four_draws_nothing() {
    let mut cat = QrCat::new().data("hello").resolution(4).style(QrStyle::Rounded);
    let raw = cat.build().ok().unwrap().into_rgba().2;
    assert!(raw.chunks(4).all(|p| p == [0, 0, 0, 255]));
}

#[test]
fn build_rounded_below_resolution_four_is_unpaintable() {
    let mut cat = QrCat::new().data("hello").resolution(3).style(QrStyle::Rounded);
    assert!(matches!(cat.try_build(), Err(QrCatError::Unpaintable)));
    let mut cat = QrCat::new().data("hello").resolution(3).style(QrStyle::Half);
    assert!(matches!(cat.try_build(), Err(QrCatError::Unpaintable)));
    let mut cat = QrCat::new().data("hello").resolution(3);
    assert!(cat.try_build().is_ok());
}

#[test]
fn build_resolution_zero_gives_empty_canvas() {
    let mut cat = QrCat::new().data("hello").resolution(0);
    let canvas = cat.build().ok().unwrap();
    assert_eq!(canvas.width(), 0);
    assert_eq!(canvas.height(), 0);
}

#[test]
fn build_too_large() {
    let mut cat = QrCat::new().data("hello").resolution(100_000_000);
    assert!(matches!(cat.try_build(), Err(QrCatError::TooLarge)));
    let mut cat = QrCat::new().data("hello").resolution(10_000_000);
    assert!(matches!(cat.try_build(), Err(QrCatError::TooLarge)));
}

#[test]
fn build_bad_version_or_data() {
    let mut cat = QrCat::new().data("hello").version(0);
    assert!(matches!(cat.try_build(), Err(QrCatError::Encoding(QrError::InvalidVersion))));
    let mut cat = QrCat::new().data("hello").version(41);
    assert!(matches!(cat.try_build(), Err(QrCatError::Encoding(QrError::InvalidVersion))));
    let long = "x".repeat(200);
    let mut cat = QrCat::new().data(&long).version(1);
    assert!(matches!(cat.try_build(), Err(QrCatError::Encoding(QrError::DataTooLong))));
}

#[test]
fn build_twice_gives_the_same_picture() {
    let mut cat = QrCat::new().data("same").resolution(5).style(QrStyle::Rounded);
    let a = cat.build().ok().unwrap().into_rgba().2;
    let b = cat.build().ok().unwrap().into_rgba().2;
    assert_eq!(a, b);
}

#[test]
fn build_uses_only_its_palette() {
    let mut cat = QrCat::new()
        .data("palette")
        .resolution(5)
        .style(QrStyle::Half)
        .color([1, 2, 3, 4])
        .bgcolor([9, 9, 9, 9]);
    let raw = cat.build().ok().unwrap().into_rgba().2;
    assert!(raw
        .chunks(4)
        .all(|p| p == [1, 2, 3, 4] || p == [9, 9, 9, 9] || p == [255, 0, 0, 255]));
}

#[test]
fn check_build_agrees_with_try_build() {
    let cat = QrCat::new().data("hello").resolution(3).style(QrStyle::Rounded);
    assert!(matches!(cat.check_build(), Err(QrCatError::Unpaintable)));
    let cat = QrCat::new().data("hello").version(0);
    assert!(matches!(cat.check_build(), Err(QrCatError::Encoding(QrError::InvalidVersion))));
    let cat = QrCat::new().data("hello").resolution(100_000_000);
    assert!(matches!(cat.check_build(), Err(QrCatError::TooLarge)));
    let mut cat = QrCat::new().data("hello").resolution(2);
    assert!(cat.check_build().is_ok());
    let a = cat.try_build().ok().unwrap().into_rgba().2;
    let b = cat.build().ok().unwrap().into_rgba().2;
    assert_eq!(a, b);
}
