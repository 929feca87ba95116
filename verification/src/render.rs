//! The snip as a PNG: decoding the portal's picture within the size this
//! editor accepts, and encoding the annotated result.
//!
//! A `Pixmap` is taken by what it holds: its size and its premultiplied RGBA
//! bytes, row by row.

use vstd::prelude::*;

use tiny_skia::Pixmap;

use crate::config::{MAX_IMAGE_HEIGHT, MAX_IMAGE_WIDTH};
use crate::text::{decimal, joined, u32_text};

verus! {

#[verifier::external_type_specification]
#[verifier::external_body]
pub struct ExPixmap(tiny_skia::Pixmap);

/// The premultiplied RGBA bytes a pixmap holds, row by row.
pub uninterp spec fn pixmap_pixels(p: Pixmap) -> Seq<u8>;

/// The width and height a pixmap was made with.
pub uninterp spec fn pixmap_size(p: Pixmap) -> (u32, u32);

/// What `Pixmap::decode_png` makes of `bytes`: the width, height and
/// premultiplied pixels of the picture, or, when it cannot read them, the
/// text (`Display`) of its error.
pub uninterp spec fn png_decoding(bytes: Seq<u8>) -> Result<(u32, u32, Seq<u8>), Seq<char>>;

/// What `Pixmap::encode_png` makes of a pixmap of this size holding these
/// pixels: the bytes of a PNG, or, when it fails, the text (`Display`) of its
/// error.
pub uninterp spec fn png_encoding(width: u32, height: u32, pixels: Seq<u8>) -> Result<
    Seq<u8>,
    Seq<char>,
>;

/// `Pixmap::decode_png`, its error taken by its text. Claimed of it: its
/// outcome is a function of the bytes alone, and the pixmap it gives holds the
/// size and pixels that decoding names.
#[verifier::external_body]
fn decode_pixmap(bytes: &[u8]) -> (res: Result<Pixmap, String>)
    ensures
        match res {
            Ok(p) => png_decoding(bytes@) == Ok::<(u32, u32, Seq<u8>), Seq<char>>(
                (pixmap_size(p).0, pixmap_size(p).1, pixmap_pixels(p)),
            ),
            Err(text) => png_decoding(bytes@) == Err::<(u32, u32, Seq<u8>), Seq<char>>(text@),
        },
{
    match Pixmap::decode_png(bytes) {
        Ok(p) => Ok(p),
        Err(e) => Err(e.to_string()),
    }
}

/// `Pixmap::encode_png`, its error taken by its text. Claimed of it: its
/// outcome is a function of the pixmap's size and pixels alone.
#[verifier::external_body]
fn encode_pixmap(p: &Pixmap) -> (res: Result<Vec<u8>, String>)
    ensures
        match res {
            Ok(bytes) => png_encoding(pixmap_size(*p).0, pixmap_size(*p).1, pixmap_pixels(*p))
                == Ok::<Seq<u8>, Seq<char>>(bytes@),
            Err(text) => png_encoding(pixmap_size(*p).0, pixmap_size(*p).1, pixmap_pixels(*p))
                == Err::<Seq<u8>, Seq<char>>(text@),
        },
{
    match p.encode_png() {
        Ok(bytes) => Ok(bytes),
        Err(e) => Err(e.to_string()),
    }
}

/// `Pixmap::width`: the width the pixmap was made with.
#[verifier::external_body]
fn width_of(p: &Pixmap) -> (w: u32)
    ensures
        w == pixmap_size(*p).0,
{
    p.width()
}

/// `Pixmap::height`: the height the pixmap was made with.
#[verifier::external_body]
fn height_of(p: &Pixmap) -> (h: u32)
    ensures
        h == pixmap_size(*p).1,
{
    p.height()
}

/// A snip of this size is one the editor accepts.
pub open spec fn fits(width: u32, height: u32) -> bool {
    width <= MAX_IMAGE_WIDTH && height <= MAX_IMAGE_HEIGHT
}

/// Why a snip of this size is refused.
pub open spec fn too_large_message(width: u32, height: u32) -> Seq<char> {
    "the snip is "@ + decimal(width as nat) + "x"@ + decimal(height as nat) + ", larger than the "@
        + decimal(MAX_IMAGE_WIDTH as nat) + "x"@ + decimal(MAX_IMAGE_HEIGHT as nat)
        + " this app accepts"@
}

/// Refuses a snip larger than a 16K display.
pub fn check_snip_size(width: u32, height: u32) -> (res: Result<(), String>)
    ensures
        fits(width, height) ==> res is Ok,
        !fits(width, height) ==> (res matches Err(msg) && msg@ == too_large_message(width, height)),
{
    if width > MAX_IMAGE_WIDTH || height > MAX_IMAGE_HEIGHT {
        let mut msg = joined("the snip is ", u32_text(width).as_str());
        msg.append("x");
        msg.append(u32_text(height).as_str());
        msg.append(", larger than the ");
        msg.append(u32_text(MAX_IMAGE_WIDTH).as_str());
        msg.append("x");
        msg.append(u32_text(MAX_IMAGE_HEIGHT).as_str());
        msg.append(" this app accepts");
        return Err(msg);
    }
    Ok(())
}

/// Decode the portal's PNG, refusing anything larger than a 16K display.
pub fn decode_png(bytes: &[u8]) -> (res: Result<Pixmap, String>)
    ensures
        match png_decoding(bytes@) {
            Err(text) => res matches Err(msg) && msg@ == "not a readable PNG: "@ + text,
            Ok((w, h, pixels)) => if fits(w, h) {
                res matches Ok(p) && pixmap_size(p) == (w, h) && pixmap_pixels(p) == pixels
            } else {
                res matches Err(msg) && msg@ == too_large_message(w, h)
            },
        },
{
    match decode_pixmap(bytes) {
        Err(text) => Err(joined("not a readable PNG: ", text.as_str())),
        Ok(pixmap) => {
            match check_snip_size(width_of(&pixmap), height_of(&pixmap)) {
                Ok(()) => Ok(pixmap),
                Err(msg) => Err(msg),
            }
        },
    }
}

/// The PNG bytes of a pixmap.
pub fn encode_png(pixmap: &Pixmap) -> (res: Result<Vec<u8>, String>)
    ensures
        match png_encoding(pixmap_size(*pixmap).0, pixmap_size(*pixmap).1, pixmap_pixels(*pixmap)) {
            Ok(bytes) => res matches Ok(b) && b@ == bytes,
            Err(text) => res matches Err(msg) && msg@ == "could not encode PNG: "@ + text,
        },
{
    match encode_pixmap(pixmap) {
        Ok(bytes) => Ok(bytes),
        Err(text) => Err(joined("could not encode PNG: ", text.as_str())),
    }
}

} // verus!
