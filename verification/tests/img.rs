use syno_photo_frame::img::{frame_layout, Crop, Framing};

fn crop(x: u32, y: u32, w: u32, h: u32) -> Crop {
    Crop { x, y, w, h }
}

#[test]
fn smaller_image_that_fits_perfectly_needs_no_background() {
    assert_eq!(frame_layout((60, 40), (120, 80)), Framing::ExactFit);
}

#[test]
fn larger_image_that_fits_within_a_pixel_needs_no_background() {
    assert_eq!(frame_layout((759, 426), (640, 360)), Framing::ExactFit);
}

#[test]
fn smaller_image_fitting_vertically_gets_left_and_right_bands() {
    assert_eq!(
        frame_layout((50, 40), (120, 80)),
        Framing::WithBackground {
            first: crop(0, 3, 5, 34),
            second: crop(45, 3, 5, 34),
            foreground_x: 10,
            foreground_y: 0,
        }
    );
}

#[test]
fn bigger_image_fitting_vertically_gets_left_and_right_bands() {
    assert_eq!(
        frame_layout((100, 80), (60, 40)),
        Framing::WithBackground {
            first: crop(0, 6, 9, 67),
            second: crop(91, 6, 9, 67),
            foreground_x: 5,
            foreground_y: 0,
        }
    );
}

#[test]
fn smaller_image_fitting_horizontally_gets_top_and_bottom_bands() {
    assert_eq!(
        frame_layout((60, 30), (120, 80)),
        Framing::WithBackground {
            first: crop(7, 0, 45, 4),
            second: crop(7, 26, 45, 4),
            foreground_x: 0,
            foreground_y: 10,
        }
    );
}

#[test]
fn bigger_image_fitting_horizontally_gets_top_and_bottom_bands() {
    assert_eq!(
        frame_layout((120, 60), (60, 40)),
        Framing::WithBackground {
            first: crop(15, 0, 90, 8),
            second: crop(15, 52, 90, 8),
            foreground_x: 0,
            foreground_y: 5,
        }
    );
}

#[test]
fn camera_photos_on_full_hd_screen() {
    assert_eq!(
        frame_layout((4000, 3000), (1920, 1080)),
        Framing::WithBackground {
            first: crop(0, 375, 500, 2250),
            second: crop(3500, 375, 500, 2250),
            foreground_x: 240,
            foreground_y: 0,
        }
    );
    assert_eq!(
        frame_layout((3000, 4000), (1920, 1080)),
        Framing::WithBackground {
            first: crop(0, 1156, 868, 1688),
            second: crop(2132, 1156, 868, 1688),
            foreground_x: 555,
            foreground_y: 0,
        }
    );
}

#[test]
fn background_crops_stay_inside_the_photo() {
    let sizes = [(1, 1), (3, 7), (50, 40), (640, 427), (1000, 1), (1, 1000), (4032, 3024), (1920, 1080)];
    for image in sizes {
        for screen in sizes {
            if let Framing::WithBackground { first, second, foreground_x, foreground_y } =
                frame_layout(image, screen)
            {
                for crop in [first, second] {
                    assert!(crop.x + crop.w <= image.0, "{image:?} on {screen:?}");
                    assert!(crop.y + crop.h <= image.1, "{image:?} on {screen:?}");
                }
                assert!(
                    (first.x == 0 && second.x + second.w == image.0)
                        || (first.y == 0 && second.y + second.h == image.1)
                );
                assert!(foreground_x <= screen.0 && foreground_y <= screen.1);
            }
        }
    }
}
