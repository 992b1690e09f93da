use std::io::Cursor;

use image::{DynamicImage, ImageFormat, RgbImage};

use syno_photo_frame::asset::{error_screen, splash_screen, update_icon, welcome_screen};
use syno_photo_frame::cli::Rotation;
use syno_photo_frame::img::{decode_photo, draw_icon, turn_picture, Bitmap};

/// A `w` x `h` RGB picture whose pixel `(x, y)` is `(x, y, 7)`.
fn gradient(w: u32, h: u32) -> RgbImage {
    RgbImage::from_fn(w, h, |x, y| image::Rgb([x as u8, y as u8, 7]))
}

fn png(picture: &RgbImage) -> Vec<u8> {
    let mut bytes = Cursor::new(Vec::new());
    DynamicImage::ImageRgb8(picture.clone()).write_to(&mut bytes, ImageFormat::Png).unwrap();
    bytes.into_inner()
}

fn bitmap(picture: &RgbImage) -> Bitmap {
    Bitmap::from_rgb(picture.width(), picture.height(), picture.as_raw().clone()).unwrap()
}

#[test]
fn photo_bytes_decode_to_their_pixels() {
    let picture = gradient(3, 2);

    let decoded = decode_photo(&png(&picture)).unwrap();

    assert_eq!((decoded.width(), decoded.height()), (3, 2));
    assert_eq!(decoded.pixels(), picture.as_raw().as_slice());
}

#[test]
fn bytes_that_are_no_picture_do_not_decode() {
    assert!(decode_photo(&[1, 2, 3, 4]).is_none());
    assert!(decode_photo(&[]).is_none());
}

#[test]
fn pictures_turn_clockwise_as_image_rotates_them() {
    let picture = gradient(3, 2);
    let dynamic = DynamicImage::ImageRgb8(picture.clone());
    let cases = [
        (Rotation::D0, dynamic.clone()),
        (Rotation::D90, dynamic.rotate90()),
        (Rotation::D180, dynamic.rotate180()),
        (Rotation::D270, dynamic.rotate270()),
    ];
    for (rotation, expected) in cases {
        let turned = turn_picture(bitmap(&picture), rotation);
        let expected = expected.to_rgb8();
        assert_eq!((turned.width(), turned.height()), expected.dimensions());
        assert_eq!(turned.pixels(), expected.as_raw().as_slice());
    }
}

#[test]
fn a_quarter_turn_moves_the_top_left_pixel_to_the_top_right() {
    let turned = turn_picture(bitmap(&gradient(3, 2)), Rotation::D90);

    assert_eq!((turned.width(), turned.height()), (2, 3));
    /* Pixel (0, 0) of the picture, (0, 0, 7), is now at (1, 0). */
    assert_eq!(&turned.pixels()[3..6], &[0, 0, 7]);
    /* Pixel (0, 1) of the picture, (0, 1, 7), is now at (0, 0). */
    assert_eq!(&turned.pixels()[0..3], &[0, 1, 7]);
}

#[test]
fn asset_screens_fill_the_screen_turned_with_it() {
    let bytes = png(&gradient(40, 30));

    let welcome = welcome_screen(&bytes, (80, 60), Rotation::D0).unwrap();
    assert_eq!((welcome.width(), welcome.height()), (80, 60));
    let error = error_screen(&bytes, (120, 60), Rotation::D90).unwrap();
    assert_eq!((error.width(), error.height()), (120, 60));
    /* The picture is framed on the screen turned back (60 x 120): black bands above and
     * below it, which turned with the screen are at the left and the right. */
    assert_eq!(&error.pixels()[0..3], &[0, 0, 0]);
}

#[test]
fn asset_screen_needs_a_picture_and_a_screen() {
    assert!(welcome_screen(&[0, 1, 2], (80, 60), Rotation::D0).is_none());
    assert!(error_screen(&png(&gradient(4, 4)), (0, 60), Rotation::D0).is_none());
}

#[test]
fn update_icon_is_a_fifteenth_of_the_screen_width() {
    let bytes = png(&gradient(20, 10));

    let icon = update_icon(&bytes, (300, 200), Rotation::D0).unwrap();
    assert_eq!((icon.width(), icon.height()), (20, 10));
    let turned = update_icon(&bytes, (300, 200), Rotation::D270).unwrap();
    assert_eq!((turned.width(), turned.height()), (10, 20));
    assert!(update_icon(&bytes, (14, 200), Rotation::D0).is_none());
}

#[test]
fn splash_screen_is_stretched_to_the_screen() {
    let bytes = png(&gradient(5, 5));

    let splash = splash_screen(&bytes, (10, 4)).unwrap();

    assert_eq!((splash.width(), splash.height()), (10, 4));
    assert!(splash_screen(b"not a picture", (10, 4)).is_none());
}

#[test]
fn icon_is_drawn_over_the_top_left_corner() {
    let mut picture = Bitmap::black(3, 2);
    let icon = Bitmap::from_rgb(1, 1, vec![9, 8, 7]).unwrap();

    draw_icon(&mut picture, &icon);

    assert_eq!(picture.pixels(), &[9, 8, 7, 0, 0, 0, 0, 0, 0, 0, 0, 0, 0, 0, 0, 0, 0, 0]);
}
