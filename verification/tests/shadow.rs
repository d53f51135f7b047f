use qingjian::layered::{bgra_pixels, shadow_margin};
use qingjian::shadow::{blur_fits_line, blur_mask, box_blur_horizontal, box_blur_line, box_blur_vertical};

#[test]
fn blur_spreads_and_preserves_mass() {
    let src = [0, 0, 255, 0, 0];
    let mut dst = [0u8; 5];
    box_blur_line(&src, &mut dst, 1);
    assert_eq!(dst, [0, 85, 85, 85, 0]);
}

#[test]
fn blur_with_zero_radius_copies() {
    let src = [3, 200, 0, 77];
    let mut dst = [9u8; 4];
    box_blur_line(&src, &mut dst, 0);
    assert_eq!(dst, src);
}

#[test]
fn blur_window_is_cut_at_the_edges() {
    // the window is always 2r+1 wide: outside the line counts as zero
    let src = [255, 255, 255];
    let mut dst = [0u8; 3];
    box_blur_line(&src, &mut dst, 1);
    assert_eq!(dst, [170, 255, 170]);
    let mut wide = [0u8; 3];
    box_blur_line(&src, &mut wide, 5);
    assert_eq!(wide, [70, 70, 70]);
}

#[test]
fn blur_never_exceeds_the_brightest_input() {
    let src = [10, 250, 3, 90, 250, 0, 17];
    for radius in 0..5 {
        let mut dst = [0u8; 7];
        box_blur_line(&src, &mut dst, radius);
        assert!(dst.iter().all(|&v| v <= 250));
    }
}

#[test]
fn horizontal_pass_blurs_each_row_alone() {
    let mut data = [0, 255, 0, 0, 0, 0, 0, 255, 0];
    box_blur_horizontal(&mut data, 3, 3, 1);
    assert_eq!(data, [85, 85, 85, 0, 0, 0, 85, 85, 85]);
}

#[test]
fn vertical_pass_blurs_each_column_alone() {
    let mut data = [0, 0, 255, 0, 0, 0, 0, 0, 0];
    box_blur_vertical(&mut data, 3, 3, 1);
    assert_eq!(data, [0, 0, 85, 0, 0, 85, 0, 0, 0]);
}

#[test]
fn mask_blur_spreads_a_dot_symmetrically() {
    let mut mask = vec![0u8; 25];
    mask[12] = 255;
    blur_mask(&mut mask, 5, 5, 1);
    for y in 0..5 {
        for x in 0..5 {
            assert_eq!(mask[y * 5 + x], mask[x * 5 + y]);
            assert_eq!(mask[y * 5 + x], mask[(4 - y) * 5 + (4 - x)]);
        }
    }
    assert!(mask[12] > 0 && mask[12] < 255);
    assert!(mask[0] > 0);
}

#[test]
fn shadow_margin_scales_with_dpi() {
    assert_eq!(shadow_margin(96), 16);
    assert_eq!(shadow_margin(144), 24);
    assert_eq!(shadow_margin(192), 32);
    assert_eq!(shadow_margin(0), 1);
    assert_eq!(shadow_margin(5), 1);
    assert_eq!(shadow_margin(u32::MAX), 1);
}

#[test]
fn bgra_swaps_red_and_blue() {
    let mut pixmap = tiny_skia::Pixmap::new(2, 1).unwrap();
    pixmap.data_mut().copy_from_slice(&[10, 20, 30, 40, 1, 2, 3, 255]);
    assert_eq!(bgra_pixels(&pixmap), vec![30, 20, 10, 40, 3, 2, 1, 255]);
}

#[test]
fn mask_blur_never_exceeds_the_brightest_sample() {
    let mut mask = vec![0u8; 36];
    for (i, v) in mask.iter_mut().enumerate() {
        *v = ((i * 37) % 201) as u8;
    }
    let brightest = *mask.iter().max().unwrap();
    blur_mask(&mut mask, 6, 6, 2);
    assert!(mask.iter().all(|&v| v <= brightest));
}

#[test]
fn huge_radius_on_a_short_line() {
    let mut dst = [9u8; 10];
    box_blur_line(&[0u8; 10], &mut dst, 2_000_000_000);
    assert_eq!(dst, [0u8; 10]);
    let mut dst = [9u8; 3];
    box_blur_line(&[255, 255, 255], &mut dst, 2_000_000_000);
    assert_eq!(dst, [0u8; 3]);
    assert!(blur_fits_line(10, 2_000_000_000));
}
