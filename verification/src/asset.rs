//! The screens and the icon made from picture assets: the welcome (loading) screen, the error
//! screen, a custom splash screen and the update icon. The caller reads the assets' bytes.

use vstd::prelude::*;

use crate::cli::Rotation;
use crate::update::update_icon_size;
use crate::img::{
    composable_screen, compose_frame, decode_photo, decoded_picture, fitted_size, framed_bytes,
    is_composable_screen, lemma_turn_moves_pixels_clockwise, opt_bitmap_view, byte_index, scale_exact, scale_to_fit, scaled_pixels, turn_picture,
    turned_size, turned_view, Bitmap, ScaleFilter,
};

verus! {

/// What a screen shown from a picture asset looks like: the picture the asset decodes to, framed
/// on black at the size of the screen turned back by the rotation, then turned with the screen;
/// `None` when the asset does not decode to a picture or no frame can be composed for the
/// screen.
pub open spec fn asset_screen_view(bytes: Seq<u8>, screen_size: (u32, u32), rotation: Rotation) -> Option<
    (u32, u32, Seq<u8>),
> {
    let oriented = turned_size(screen_size.0, screen_size.1, rotation);
    match decoded_picture(bytes) {
        Some((w, h, pixels)) => if composable_screen(oriented) {
            Some(
                turned_view(
                    (oriented.0, oriented.1, framed_bytes(w, h, pixels, oriented.0, oriented.1, None)),
                    rotation,
                ),
            )
        } else {
            None
        },
        None => None,
    }
}

/// A full screen made from a picture asset: decoded, framed on black and turned with the screen.
fn load_and_resize(bytes: &[u8], screen_size: (u32, u32), rotation: Rotation) -> (r: Option<
    Bitmap,
>)
    ensures
        opt_bitmap_view(r) == asset_screen_view(bytes@, screen_size, rotation),
{
    let oriented = rotation.oriented_size(screen_size);
    match decode_photo(bytes) {
        None => None,
        Some(picture) => if is_composable_screen(oriented) {
            let framed = compose_frame(picture, oriented, None);
            Some(turn_picture(framed, rotation))
        } else {
            None
        },
    }
}

/// What the update icon looks like: the picture the asset decodes to, scaled (Lanczos3) to fit
/// a square a fifteenth of the screen's width on each side, then turned with the screen; `None`
/// when the asset does not decode to a picture or the screen is narrower than 15 pixels.
pub open spec fn update_icon_view(bytes: Seq<u8>, screen_size: (u32, u32), rotation: Rotation) -> Option<
    (u32, u32, Seq<u8>),
> {
    let side = (screen_size.0 / 15) as u32;
    match decoded_picture(bytes) {
        Some((w, h, pixels)) => if side > 0 {
            let (fw, fh) = fitted_size(w, h, side, side);
            Some(turned_view((fw, fh, scaled_pixels(w, h, pixels, fw, fh, ScaleFilter::Lanczos3)), rotation))
        } else {
            None
        },
        None => None,
    }
}

/// The update icon made from the bytes of its picture asset.
pub fn update_icon(bytes: &[u8], screen_size: (u32, u32), rotation: Rotation) -> (r: Option<
    Bitmap,
>)
    ensures
        opt_bitmap_view(r) == update_icon_view(bytes@, screen_size, rotation),
{
    let (side, _) = update_icon_size(screen_size);
    match decode_photo(bytes) {
        None => None,
        Some(picture) => if side > 0 {
            let icon = scale_to_fit(picture, side, side, ScaleFilter::Lanczos3);
            Some(turn_picture(icon, rotation))
        } else {
            None
        },
    }
}

/// What a custom splash screen looks like: the picture the file decodes to, stretched to the
/// screen (nearest neighbour); `None` when it does not decode to a picture or no frame can be
/// composed for the screen.
pub open spec fn splash_view(bytes: Seq<u8>, screen_size: (u32, u32)) -> Option<(u32, u32, Seq<u8>)> {
    match decoded_picture(bytes) {
        Some((w, h, pixels)) => if composable_screen(screen_size) {
            Some(
                (
                    screen_size.0,
                    screen_size.1,
                    scaled_pixels(w, h, pixels, screen_size.0, screen_size.1, ScaleFilter::Nearest),
                ),
            )
        } else {
            None
        },
        None => None,
    }
}

/// A custom splash screen from the bytes of a picture file.
pub fn splash_screen(bytes: &[u8], screen_size: (u32, u32)) -> (r: Option<Bitmap>)
    ensures
        opt_bitmap_view(r) == splash_view(bytes@, screen_size),
{
    match decode_photo(bytes) {
        None => None,
        Some(picture) => if is_composable_screen(screen_size) {
            Some(scale_exact(&picture, screen_size.0, screen_size.1, ScaleFilter::Nearest))
        } else {
            None
        },
    }
}

/// The welcome screen shown while the first photo is fetched, from the bytes of its picture.
pub fn welcome_screen(bytes: &[u8], screen_size: (u32, u32), rotation: Rotation) -> (r: Option<
    Bitmap,
>)
    ensures
        opt_bitmap_view(r) == asset_screen_view(bytes@, screen_size, rotation),
{
    load_and_resize(bytes, screen_size, rotation)
}

/// The screen shown when a photo cannot be fetched or decoded, from the bytes of its picture.
pub fn error_screen(bytes: &[u8], screen_size: (u32, u32), rotation: Rotation) -> (r: Option<
    Bitmap,
>)
    ensures
        opt_bitmap_view(r) == asset_screen_view(bytes@, screen_size, rotation),
{
    load_and_resize(bytes, screen_size, rotation)
}

/// Law: a screen made from an asset stands upright for the viewer. It has the screen's size; the
/// asset is framed for the screen as the viewer sees it (sides swapped by a quarter turn) and that
/// frame is turned clockwise with the screen: pixel `(x, y)` of the screen is, unturned, pixel
/// `(x, y)` of the frame composed at `sw` x `sh`; by a quarter turn, pixel `(y, sw - 1 - x)` of
/// the frame composed at `sh` x `sw`; by a half turn, pixel `(sw - 1 - x, sh - 1 - y)` of the
/// frame at `sw` x `sh`; by three quarters, pixel `(sh - 1 - y, x)` of the frame at `sh` x `sw`.
pub proof fn lemma_asset_screen_stands_upright(
    bytes: Seq<u8>,
    screen_size: (u32, u32),
    rotation: Rotation,
    x: int,
    y: int,
    c: int,
)
    requires
        asset_screen_view(bytes, screen_size, rotation) is Some,
        0 <= x < screen_size.0,
        0 <= y < screen_size.1,
        0 <= c < 3,
    ensures
        ({
            let (sw, sh) = screen_size;
            let (w, h, pixels) = decoded_picture(bytes)->0;
            let (tw, th, screen) = asset_screen_view(bytes, screen_size, rotation)->0;
            let at = screen[byte_index(sw as int, x, y, c)];
            &&& tw == sw
            &&& th == sh
            &&& match rotation {
                Rotation::D0 => at == framed_bytes(w, h, pixels, sw, sh, None)[byte_index(
                    sw as int,
                    x,
                    y,
                    c,
                )],
                Rotation::D90 => at == framed_bytes(w, h, pixels, sh, sw, None)[byte_index(
                    sh as int,
                    y,
                    sw - 1 - x,
                    c,
                )],
                Rotation::D180 => at == framed_bytes(w, h, pixels, sw, sh, None)[byte_index(
                    sw as int,
                    sw - 1 - x,
                    sh - 1 - y,
                    c,
                )],
                Rotation::D270 => at == framed_bytes(w, h, pixels, sh, sw, None)[byte_index(
                    sh as int,
                    sh - 1 - y,
                    x,
                    c,
                )],
            }
        }),
{
    let (w, h, pixels) = decoded_picture(bytes)->0;
    let oriented = turned_size(screen_size.0, screen_size.1, rotation);
    let frame = framed_bytes(w, h, pixels, oriented.0, oriented.1, None);
    lemma_turn_moves_pixels_clockwise(oriented.0, oriented.1, frame, rotation, x, y, c);
}

/// Law: the update icon is turned with the screen. Pixel `(x, y)` of the icon is, unturned,
/// pixel `(x, y)` of the asset scaled to fit a square a fifteenth of the screen's width on each
/// side; by a quarter turn, pixel `(y, fh - 1 - x)` of it (its top-left pixel lands at the icon's
/// top-right); by a half turn, pixel `(fw - 1 - x, fh - 1 - y)`; by three quarters, pixel
/// `(fw - 1 - y, x)`, where `fw` x `fh` is the scaled size.
pub proof fn lemma_update_icon_turns_with_the_screen(
    bytes: Seq<u8>,
    screen_size: (u32, u32),
    rotation: Rotation,
    x: int,
    y: int,
    c: int,
)
    requires
        update_icon_view(bytes, screen_size, rotation) is Some,
        0 <= x < (update_icon_view(bytes, screen_size, rotation)->0).0,
        0 <= y < (update_icon_view(bytes, screen_size, rotation)->0).1,
        0 <= c < 3,
    ensures
        ({
            let side = (screen_size.0 / 15) as u32;
            let (w, h, pixels) = decoded_picture(bytes)->0;
            let (fw, fh) = fitted_size(w, h, side, side);
            let scaled = scaled_pixels(w, h, pixels, fw, fh, ScaleFilter::Lanczos3);
            let (tw, th, icon) = update_icon_view(bytes, screen_size, rotation)->0;
            let at = icon[byte_index(tw as int, x, y, c)];
            match rotation {
                Rotation::D0 => tw == fw && th == fh && at == scaled[byte_index(fw as int, x, y, c)],
                Rotation::D90 => tw == fh && th == fw && at == scaled[byte_index(
                    fw as int,
                    y,
                    fh - 1 - x,
                    c,
                )],
                Rotation::D180 => tw == fw && th == fh && at == scaled[byte_index(
                    fw as int,
                    fw - 1 - x,
                    fh - 1 - y,
                    c,
                )],
                Rotation::D270 => tw == fh && th == fw && at == scaled[byte_index(
                    fw as int,
                    fw - 1 - y,
                    x,
                    c,
                )],
            }
        }),
{
    let side = (screen_size.0 / 15) as u32;
    let (w, h, pixels) = decoded_picture(bytes)->0;
    let (fw, fh) = fitted_size(w, h, side, side);
    let scaled = scaled_pixels(w, h, pixels, fw, fh, ScaleFilter::Lanczos3);
    lemma_turn_moves_pixels_clockwise(fw, fh, scaled, rotation, x, y, c);
}

} // verus!
