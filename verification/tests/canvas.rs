use qingjian::canvas::Canvas;
use qingjian::color::{mul_u8, premultiply, Color, PremultipliedRgba};
use qingjian::error::RenderError;

fn filled(width: u32, height: u32, color: tiny_skia::Color) -> Canvas {
    let mut pixmap = tiny_skia::Pixmap::new(width, height).unwrap();
    pixmap.fill(color);
    Canvas::from_pixmap(pixmap)
}

#[test]
fn blends_source_over_and_clips_to_bounds() {
    let mut canvas = filled(2, 1, tiny_skia::Color::from_rgba8(0, 0, 255, 255));
    canvas.blend_mask(0, 0, 1, 1, &[255], Color::rgb(255, 0, 0));
    canvas.blend_mask(5, 5, 1, 1, &[255], Color::rgb(255, 0, 0));
    let pixmap = canvas.into_pixmap();
    let red = pixmap.pixel(0, 0).unwrap();
    assert_eq!((red.red(), red.blue(), red.alpha()), (255, 0, 255));
    let blue = pixmap.pixel(1, 0).unwrap();
    assert_eq!((blue.red(), blue.blue()), (0, 255));
}

#[test]
fn half_alpha_over_white_lightens() {
    let mut canvas = filled(1, 1, tiny_skia::Color::from_rgba8(255, 255, 255, 255));
    canvas.blend_mask(0, 0, 1, 1, &[255], Color::gray(0, 128));
    let px = canvas.into_pixmap().pixel(0, 0).unwrap();
    assert_eq!(px.alpha(), 255);
    assert!((px.red() as i32 - 127).abs() <= 1, "got {}", px.red());
}

#[test]
fn premultiplies_with_coverage() {
    let c = Color::rgba(255, 0, 0, 255).premultiplied(128);
    assert_eq!((c.red(), c.green(), c.blue(), c.alpha()), (128, 0, 0, 128));
    let half = Color::gray(0, 128).premultiplied(255);
    assert_eq!((half.red(), half.alpha()), (0, 128));
    assert_eq!(mul_u8(255, 255), 255);
    assert_eq!(mul_u8(0, 255), 0);
}

#[test]
fn mul_u8_rounds_to_nearest() {
    assert_eq!(mul_u8(128, 128), 64);
    assert_eq!(mul_u8(255, 128), 128);
    assert_eq!(mul_u8(1, 127), 0);
    assert_eq!(mul_u8(1, 128), 1);
    assert_eq!(mul_u8(200, 100), 78);
}

#[test]
fn premultiply_scales_colour_by_alpha() {
    let p = premultiply(200, 100, 50, 128);
    assert_eq!((p.red(), p.green(), p.blue(), p.alpha()), (100, 50, 25, 128));
    let clear = premultiply(255, 255, 255, 0);
    assert_eq!((clear.red(), clear.green(), clear.blue(), clear.alpha()), (0, 0, 0, 0));
}

#[test]
fn color_constructors() {
    assert_eq!(Color::rgb(1, 2, 3), Color::rgba(1, 2, 3, 255));
    assert_eq!(Color::gray(7, 9), Color::rgba(7, 7, 7, 9));
}

#[test]
fn new_canvas_is_transparent_and_sized() {
    let canvas = Canvas::new(3, 2).unwrap();
    assert_eq!((canvas.width(), canvas.height()), (3, 2));
    let pixmap = canvas.into_pixmap();
    assert!(pixmap.data().iter().all(|&b| b == 0));
}

#[test]
fn zero_sized_canvas_is_refused() {
    match Canvas::new(0, 5) {
        Err(RenderError::InvalidSize { width, height }) => assert_eq!((width, height), (0, 5)),
        _ => panic!("a zero width must be refused"),
    }
    assert!(Canvas::new(4, 0).is_err());
}

#[test]
fn opaque_pixel_replaces_and_transparent_pixel_keeps() {
    let mut canvas = filled(1, 1, tiny_skia::Color::from_rgba8(10, 20, 30, 255));
    let none = PremultipliedRgba { red: 0, green: 0, blue: 0, alpha: 0 };
    canvas.blend_pixel(0, 0, none);
    let kept = canvas.into_pixmap().pixel(0, 0).unwrap();
    assert_eq!((kept.red(), kept.green(), kept.blue(), kept.alpha()), (10, 20, 30, 255));

    let mut canvas = filled(1, 1, tiny_skia::Color::from_rgba8(10, 20, 30, 255));
    let solid = PremultipliedRgba { red: 200, green: 100, blue: 50, alpha: 255 };
    canvas.blend_pixel(0, 0, solid);
    canvas.blend_pixel(-1, 0, none);
    canvas.blend_pixel(0, 7, solid);
    let px = canvas.into_pixmap().pixel(0, 0).unwrap();
    assert_eq!((px.red(), px.green(), px.blue(), px.alpha()), (200, 100, 50, 255));
}

#[test]
fn blend_rgba_and_pixmap_place_their_pixels() {
    let mut canvas = Canvas::new(3, 1).unwrap();
    canvas.blend_rgba(1, 0, 1, 1, &[40, 50, 60, 255]);
    let mut other = tiny_skia::Pixmap::new(1, 1).unwrap();
    other.data_mut().copy_from_slice(&[1, 2, 3, 255]);
    canvas.blend_pixmap(2, 0, &other);
    let pixmap = canvas.into_pixmap();
    assert_eq!(pixmap.data(), &[0, 0, 0, 0, 40, 50, 60, 255, 1, 2, 3, 255]);
}

#[test]
fn layers_far_off_the_canvas_blend_nothing() {
    let mut canvas = Canvas::new(2, 2).unwrap();
    // a layer whose far edge is past i32::MAX, with short data
    canvas.blend_mask(i32::MAX - 1, 0, u32::MAX, u32::MAX, &[255, 255, 255], Color::rgb(255, 0, 0));
    canvas.blend_rgba(i32::MIN, -5, u32::MAX, 3, &[1, 2, 3, 255]);
    let mut other = tiny_skia::Pixmap::new(1, 1).unwrap();
    other.data_mut().copy_from_slice(&[1, 2, 3, 255]);
    canvas.blend_pixmap(i32::MAX, i32::MAX, &other);
    assert!(canvas.into_pixmap().data().iter().all(|&b| b == 0));
}

#[test]
fn wide_mask_rows_wrap_at_the_layer_width() {
    let mut canvas = Canvas::new(2, 2).unwrap();
    // a 3-wide layer at (-1, 0): the second row starts at data[3]
    canvas.blend_mask(-1, 0, 3, 2, &[0, 0, 255, 0, 255, 0], Color::rgb(0, 0, 255));
    let pixmap = canvas.into_pixmap();
    assert_eq!(pixmap.pixel(1, 0).unwrap().blue(), 255);
    assert_eq!(pixmap.pixel(0, 1).unwrap().blue(), 255);
    assert_eq!(pixmap.pixel(0, 0).unwrap().alpha(), 0);
    assert_eq!(pixmap.pixel(1, 1).unwrap().alpha(), 0);
}
