//! The image producer's pipeline: decode in-memory bytes, scale the
//! picture down to the display budget when it exceeds it, and hand back
//! the raw pixels with the final dimensions.

use vstd::prelude::*;

use crate::preview::Preview;

verus! {

#[verifier::external_type_specification]
#[verifier::external_body]
pub struct ExDynamicImage(image::DynamicImage);

/// A decoded picture together with its dimensions.
pub struct ImageHandle {
    pub img: image::DynamicImage,
    pub width: u32,
    pub height: u32,
}

/// The dimensions of the picture `data` decodes to, absent when the bytes
/// do not decode: a function of the bytes alone.
pub uninterp spec fn spec_decoded(data: Seq<u8>) -> Option<(u32, u32)>;

/// Relies on image::load_from_memory: guesses the format and decodes;
/// whether the bytes decode, and to what dimensions, depends on the bytes
/// alone.
#[verifier::external_body]
fn decode_image(data: &Vec<u8>) -> (r: Option<ImageHandle>)
    ensures
        r is Some <==> spec_decoded(data@) is Some,
        r matches Some(h) ==> spec_decoded(data@) == Some((h.width, h.height)),
{
    match image::load_from_memory(data.as_slice()) {
        Ok(img) => {
            let (w, h) = (img.width(), img.height());
            Some(ImageHandle { img, width: w, height: h })
        },
        Err(_) => None,
    }
}

/// Relies on image::DynamicImage::resize: on a picture of positive
/// dimensions, scales it, preserving its aspect ratio, to the largest
/// size that fits within the positive bounds `(w, h)`.
#[verifier::external_body]
fn resize_image(handle: &ImageHandle, w: u32, h: u32) -> (r: ImageHandle)
    requires
        1 <= handle.width,
        1 <= handle.height,
        1 <= w,
        1 <= h,
    ensures
        r.width <= w,
        r.height <= h,
{
    let img = handle.img.resize(w, h, image::imageops::FilterType::Triangle);
    let (nw, nh) = (img.width(), img.height());
    ImageHandle { img, width: nw, height: nh }
}

/// Relies on image::DynamicImage::into_bytes: the picture's raw pixel
/// buffer.
#[verifier::external_body]
fn image_bytes(handle: ImageHandle) -> (r: Vec<u8>)
{
    handle.img.into_bytes()
}

/// A fitted picture: its raw pixels and the dimensions they describe.
#[derive(Debug)]
pub struct ImageOut {
    pub data: Vec<u8>,
    pub width: u32,
    pub height: u32,
}

impl Preview {
    /// The display budget in pixels: the pane's pixel size, clamped by
    /// the configured caps.
    pub fn image_budget(pane_w: u32, pane_h: u32, max_width: u32, max_height: u32) -> (r: (
        u32,
        u32,
    ))
        ensures
            r.0 == vstd::math::min(pane_w as int, max_width as int),
            r.1 == vstd::math::min(pane_h as int, max_height as int),
    {
        let w = if pane_w < max_width {
            pane_w
        } else {
            max_width
        };
        let h = if pane_h < max_height {
            pane_h
        } else {
            max_height
        };
        (w, h)
    }

    /// Decode `data` and fit it to the `(w, h)` budget: a picture larger
    /// than the budget in either dimension is scaled down, one within it
    /// passes through unchanged. Succeeds exactly when the budget is
    /// positive and the bytes decode to a picture with positive
    /// dimensions; the result always fits the budget.
    pub fn image(data: &Vec<u8>, w: u32, h: u32) -> (r: Option<ImageOut>)
        ensures
            r is Some <==> (w >= 1 && h >= 1 && (spec_decoded(data@) matches Some(d) && d.0 >= 1
                && d.1 >= 1)),
            r matches Some(o) ==> (spec_decoded(data@) matches Some(d) && o.width <= w && o.height
                <= h && ((d.0 <= w && d.1 <= h) ==> (o.width == d.0 && o.height == d.1))),
    {
        if w == 0 || h == 0 {
            return None;
        }
        let handle = match decode_image(data) {
            Some(x) => x,
            None => {
                return None;
            },
        };
        if handle.width == 0 || handle.height == 0 {
            return None;
        }
        let fitted = if handle.width > w || handle.height > h {
            resize_image(&handle, w, h)
        } else {
            handle
        };
        let width = fitted.width;
        let height = fitted.height;
        Some(ImageOut { data: image_bytes(fitted), width, height })
    }
}

} // verus!
