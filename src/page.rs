//! Rendered pages: RGBA pixel buffers tagged with their page ordinal, and
//! their PNG encoding for the spool.

use vstd::prelude::*;
use image::ImageEncoder;
use crate::job::ConversionError;

verus! {

/// The PNG file that `image`'s encoder makes of RGBA pixels of this size.
pub uninterp spec fn png_of(pixels: Seq<u8>, width: nat, height: nat) -> Seq<u8>;

/// Relies on `image::codecs::png::PngEncoder::write_image` with the `Rgba8`
/// color type, writing into memory: it panics unless the buffer holds four
/// bytes per pixel; it fails exactly when the width or the height is zero (the
/// png encoder's header check; writing into a `Vec` does not fail); when it
/// succeeds, the bytes written are the PNG encoding of the pixels.
#[verifier::external_body]
fn encode_rgba_png(pixels: &Vec<u8>, width: u32, height: u32) -> (r: Option<Vec<u8>>)
    requires
        pixels@.len() == 4 * width * height,
    ensures
        r is Some <==> (width > 0 && height > 0),
        r matches Some(bytes) ==> bytes@ == png_of(pixels@, width as nat, height as nat),
{
    let mut out: Vec<u8> = Vec::new();
    let written = image::codecs::png::PngEncoder::new(&mut out).write_image(
        pixels.as_slice(),
        width,
        height,
        image::ExtendedColorType::Rgba8,
    );
    written.ok().map(|_| out)
}

/// Said when an image without pixels is to be encoded.
pub const MSG_EMPTY_IMAGE: &'static str = "Imagem vazia: largura ou altura zero";

/// One rendered page: its ordinal and its pixels, four bytes (red, green,
/// blue, alpha) per pixel, row by row.
pub struct RenderedImage {
    ordinal: u64,
    width: u32,
    height: u32,
    pixels: Vec<u8>,
}

impl RenderedImage {
    pub closed spec fn ordinal_spec(&self) -> nat {
        self.ordinal as nat
    }

    pub closed spec fn width_spec(&self) -> nat {
        self.width as nat
    }

    pub closed spec fn height_spec(&self) -> nat {
        self.height as nat
    }

    pub closed spec fn pixels_spec(&self) -> Seq<u8> {
        self.pixels@
    }

    /// Every image holds exactly four bytes per pixel.
    pub open spec fn wf(&self) -> bool {
        self.pixels_spec().len() == 4 * self.width_spec() * self.height_spec()
    }

    /// The image of page `ordinal`; `None` unless `pixels` holds exactly four
    /// bytes per pixel of a `width` by `height` image.
    pub fn new(ordinal: u64, width: u32, height: u32, pixels: Vec<u8>) -> (r: Option<Self>)
        ensures
            r is Some <==> pixels@.len() == 4 * width * height,
            r matches Some(img) ==> img.wf() && img.ordinal_spec() == ordinal && img.width_spec()
                == width && img.height_spec() == height && img.pixels_spec() == pixels@,
    {
        assert(width * height <= 0xffff_ffffu32 * 0xffff_ffffu32) by (nonlinear_arith)
            requires
                width <= 0xffff_ffffu32,
                height <= 0xffff_ffffu32,
        ;
        let area: u128 = (width as u128) * (height as u128);
        let expected: u128 = 4u128 * area;
        assert(4 * width * height == 4 * area) by (nonlinear_arith)
            requires
                area == width * height,
        ;
        if pixels.len() as u128 == expected {
            Some(RenderedImage { ordinal, width, height, pixels })
        } else {
            None
        }
    }

    pub fn ordinal(&self) -> (r: u64)
        ensures
            r == self.ordinal_spec(),
    {
        self.ordinal
    }

    pub fn width(&self) -> (r: u32)
        ensures
            r == self.width_spec(),
    {
        self.width
    }

    pub fn height(&self) -> (r: u32)
        ensures
            r == self.height_spec(),
    {
        self.height
    }

    /// The PNG file of this page; an I/O error when the image has no pixels,
    /// which PNG cannot hold.
    pub fn encode_png(&self) -> (r: Result<Vec<u8>, ConversionError>)
        requires
            self.wf(),
        ensures
            r matches Ok(bytes) ==> bytes@ == png_of(
                self.pixels_spec(),
                self.width_spec(),
                self.height_spec(),
            ),
            r is Ok <==> (self.width_spec() > 0 && self.height_spec() > 0),
            r matches Err(e) ==> (e matches ConversionError::Io(m) && m@ == MSG_EMPTY_IMAGE@),
    {
        match encode_rgba_png(&self.pixels, self.width, self.height) {
            Some(bytes) => Ok(bytes),
            None => Err(ConversionError::Io(String::from_str(MSG_EMPTY_IMAGE))),
        }
    }
}

} // verus!
