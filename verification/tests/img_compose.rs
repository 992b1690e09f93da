use image::{DynamicImage, RgbImage};
use syno_photo_frame::img::{background_sources, compose_frame, Bitmap};

type Pixel = [u8; 3];

const RED: Pixel = [255, 0, 0];
const GREEN: Pixel = [0, 255, 0];
const BLUE: Pixel = [0, 0, 255];

fn create_test_image((w, h): (u32, u32), pixel: Pixel) -> Bitmap {
    let pixels = (0..w * h).flat_map(|_| pixel).collect();
    Bitmap::from_rgb(w, h, pixels).unwrap()
}

fn put_pixel(image: Bitmap, x: u32, y: u32, pixel: Pixel) -> Bitmap {
    let (w, h) = (image.width(), image.height());
    let mut pixels = image.into_pixels();
    let i = 3 * (y * w + x) as usize;
    pixels[i..i + 3].copy_from_slice(&pixel);
    Bitmap::from_rgb(w, h, pixels).unwrap()
}

fn get_pixel(image: &Bitmap, x: u32, y: u32) -> Pixel {
    let i = 3 * (y * image.width() + x) as usize;
    let p = &image.pixels()[i..i + 3];
    [p[0], p[1], p[2]]
}

/// This will help asserting that the function got applied to the background
fn brighten_and_blur_stub(band: Bitmap) -> Bitmap {
    let (w, h) = (band.width(), band.height());
    let image = DynamicImage::ImageRgb8(RgbImage::from_raw(w, h, band.into_pixels()).unwrap());
    let brightened = image.brighten(-55).into_rgb8();
    Bitmap::from_rgb(w, h, brightened.into_raw()).unwrap()
}

fn internal_fit_to_screen_and_add_background(original: Bitmap, screen: (u32, u32)) -> Bitmap {
    let bands = background_sources(&original, screen)
        .map(|(first, second)| (brighten_and_blur_stub(first), brighten_and_blur_stub(second)));
    compose_frame(original, screen, bands)
}

#[test]
fn when_smaller_image_fits_perfectly_then_background_is_not_created() {
    let pixel = [1, 2, 3];
    let original = create_test_image((60, 40), pixel);
    let screen = (120, 80);

    assert!(background_sources(&original, screen).is_none());
    let result = compose_frame(original, screen, None);

    assert_eq!(result.pixels().len(), 120 * 80 * 3);
    assert!(result.pixels().chunks(3).all(|p| p == pixel));
}

#[test]
fn when_larger_image_fits_perfectly_then_background_is_not_created() {
    let pixel = [1, 2, 3];
    let original = create_test_image((759, 426), pixel);
    let screen = (640, 360);

    assert!(background_sources(&original, screen).is_none());
    let result = compose_frame(original, screen, None);

    assert_eq!(result.pixels().len(), 640 * 360 * 3);
    assert!(result.pixels().chunks(3).all(|p| p == pixel));
}

#[test]
fn when_smaller_image_fits_vertically_then_background_fills_left_and_right_space() {
    let mut original = create_test_image((50, 40), RED);
    for y in 3..37 {
        /* Color the part that forms left background green */
        for x in 0..6 {
            original = put_pixel(original, x, y, GREEN);
        }
        /* Color the part that forms right background blue */
        for x in 44..50 {
            original = put_pixel(original, x, y, BLUE);
        }
    }
    let (xres, yres) = (120, 80); /* screen resolution */

    let result = internal_fit_to_screen_and_add_background(original, (xres, yres));

    assert_eq!(result.pixels().len(), (xres * yres * 3) as usize);
    let expected_bg_w = 10;
    for y in 0..yres {
        /* Check left background fill is green, brightened by -55 */
        for x in 0..expected_bg_w {
            assert_eq!(get_pixel(&result, x, y), [0, 200, 0]);
        }
        /* Check right background fill is blue, brightened by -55 */
        for x in xres - expected_bg_w..xres {
            assert_eq!(get_pixel(&result, x, y), [0, 0, 200]);
        }
    }
}

#[test]
fn when_bigger_image_fits_vertically_then_background_fills_left_and_right_space() {
    let mut original = create_test_image((100, 80), RED);
    for y in 6..74 {
        /* Color the part that forms left background green */
        for x in 0..12 {
            original = put_pixel(original, x, y, GREEN);
        }
        /* Color the part that forms right background blue */
        for x in 88..100 {
            original = put_pixel(original, x, y, BLUE);
        }
    }
    let (xres, yres) = (60, 40); /* screen resolution */

    let result = internal_fit_to_screen_and_add_background(original, (xres, yres));

    assert_eq!(result.pixels().len(), (xres * yres * 3) as usize);
    let expected_bg_w = 5;
    for y in 0..yres {
        /* Check left background fill is green, brightened by -55 */
        for x in 0..expected_bg_w {
            assert_eq!(get_pixel(&result, x, y), [0, 200, 0]);
        }
        /* Check right background fill is blue, brightened by -55 */
        for x in xres - expected_bg_w..xres {
            assert_eq!(get_pixel(&result, x, y), [0, 0, 200]);
        }
    }
}

#[test]
fn when_smaller_image_fits_horizontally_then_background_fills_top_and_bottom_space() {
    let mut original = create_test_image((60, 30), RED);
    for x in 7..53 {
        /* Color the part that forms top background green */
        for y in 0..4 {
            original = put_pixel(original, x, y, GREEN);
        }
        /* Color the part that forms bottom background blue */
        for y in 26..30 {
            original = put_pixel(original, x, y, BLUE);
        }
    }
    let (xres, yres) = (120, 80); /* screen resolution */

    let result = internal_fit_to_screen_and_add_background(original, (xres, yres));

    assert_eq!(result.pixels().len(), (xres * yres * 3) as usize);
    let expected_bg_h = 10;
    for x in 0..xres {
        /* Check top background fill is green, brightened by -55 */
        for y in 0..expected_bg_h {
            assert_eq!(get_pixel(&result, x, y), [0, 200, 0]);
        }
        /* Check bottom background fill is blue, brightened by -55 */
        for y in yres - expected_bg_h..yres {
            assert_eq!(get_pixel(&result, x, y), [0, 0, 200]);
        }
    }
}

#[test]
fn when_bigger_image_fits_horizontally_then_background_fills_top_and_bottom_space() {
    let mut original = create_test_image((120, 60), RED);
    for x in 14..106 {
        /* Color the part that forms top background green */
        for y in 0..8 {
            original = put_pixel(original, x, y, GREEN);
        }
        /* Color the part that forms bottom background blue */
        for y in 52..60 {
            original = put_pixel(original, x, y, BLUE);
        }
    }
    let (xres, yres) = (60, 40); /* screen resolution */

    let result = internal_fit_to_screen_and_add_background(original, (xres, yres));

    assert_eq!(result.pixels().len(), (xres * yres * 3) as usize);
    let expected_bg_h = 5;
    for x in 0..xres {
        /* Check top background fill is green, brightened by -55 */
        for y in 0..expected_bg_h {
            assert_eq!(get_pixel(&result, x, y), [0, 200, 0]);
        }
        /* Check bottom background fill is blue, brightened by -55 */
        for y in yres - expected_bg_h..yres {
            assert_eq!(get_pixel(&result, x, y), [0, 0, 200]);
        }
    }
}

#[test]
fn bitmap_needs_three_bytes_per_pixel() {
    assert!(Bitmap::from_rgb(2, 2, vec![0; 12]).is_some());
    assert!(Bitmap::from_rgb(2, 2, vec![0; 11]).is_none());
    assert!(Bitmap::from_rgb(0, 5, vec![]).is_some());
}

#[test]
fn black_bitmap_is_all_zero() {
    let black = Bitmap::black(4, 3);

    assert_eq!((black.width(), black.height()), (4, 3));
    assert_eq!(black.pixels(), &[0u8; 36][..]);
}

#[test]
fn without_bands_the_empty_space_is_black() {
    let original = create_test_image((50, 40), RED);

    let result = compose_frame(original, (120, 80), None);

    assert_eq!(get_pixel(&result, 0, 0), [0, 0, 0]);
    assert_eq!(get_pixel(&result, 119, 79), [0, 0, 0]);
    assert_eq!(get_pixel(&result, 60, 40), RED);
}
