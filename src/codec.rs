//! Handing block-compressed planes to the image codec's block decoder.

use vstd::prelude::*;

use image::dxt::{DXTVariant, DxtDecoder};
use image::ImageError;

use crate::format::TextureFormat;
use crate::model::SubTexture;

verus! {

#[verifier::external_type_specification]
pub struct ExDXTVariant(DXTVariant);

#[verifier::external_type_specification]
#[verifier::external_body]
pub struct ExImageError(ImageError);

/// The codec's block decoder over a plane's bytes. Its type is generic over a
/// reader bound that cannot be declared here, so it is held as a field.
#[verifier::external_body]
pub struct DxtReader<'a> {
    pub decoder: DxtDecoder<&'a [u8]>,
}

/// A block decoder together with what it was made from: the plane's bytes,
/// its size and the decoder variant. Only `dxt_stream` makes one.
pub struct DxtStream<'a> {
    reader: DxtReader<'a>,
    data: &'a [u8],
    width: u32,
    height: u32,
    variant: DXTVariant,
}

impl<'a> DxtStream<'a> {
    /// The bytes the decoder reads.
    pub closed spec fn data_spec(&self) -> Seq<u8> {
        self.data@
    }

    /// The width and height the decoder was given.
    pub closed spec fn size_spec(&self) -> (u32, u32) {
        (self.width, self.height)
    }

    /// The variant the decoder was given.
    pub closed spec fn variant_spec(&self) -> DXTVariant {
        self.variant
    }

    /// The variant the decoder was given.
    pub fn variant(&self) -> (r: DXTVariant)
        ensures
            r == self.variant_spec(),
    {
        self.variant
    }

    /// The decoder itself.
    pub fn into_reader(self) -> DxtReader<'a> {
        self.reader
    }
}

/// Relies on `image::dxt::DxtDecoder::new`: a decoder reading `data` as blocks
/// of `variant` for an image of the given size. It fails exactly when a
/// dimension is not a multiple of four.
#[verifier::external_body]
fn dxt_stream<'a>(data: &'a [u8], width: u32, height: u32, variant: DXTVariant) -> (r: Result<
    DxtStream<'a>,
    ImageError,
>)
    ensures
        r is Ok <==> (width % 4 == 0 && height % 4 == 0),
        r matches Ok(d) ==> d.data@ == data@ && d.width == width && d.height == height
            && d.variant == variant,
{
    match DxtDecoder::new(data, width, height, variant) {
        Ok(decoder) => Ok(DxtStream { reader: DxtReader { decoder }, data, width, height, variant }),
        Err(e) => Err(e),
    }
}

/// How an uncompressed plane's bytes lay out as pixels.
#[derive(Debug, Clone, Copy, PartialEq, Eq, Structural)]
pub enum RawPixels {
    Rgb,
    Rgba,
    Luma,
    LumaAlpha,
}

/// The pixel layout of each uncompressed format that an image can hold as it
/// is; RGBA4 and the block-compressed formats have none.
pub open spec fn raw_pixels_of(f: TextureFormat) -> Option<RawPixels> {
    match f {
        TextureFormat::RGB => Some(RawPixels::Rgb),
        TextureFormat::RGBA => Some(RawPixels::Rgba),
        TextureFormat::L8 => Some(RawPixels::Luma),
        TextureFormat::L8A8 => Some(RawPixels::LumaAlpha),
        _ => None,
    }
}

/// The decoder variant of each block-compressed format; DXT1a decodes as
/// DXT1. The other formats have none.
pub open spec fn dxt_variant_of(f: TextureFormat) -> Option<DXTVariant> {
    match f {
        TextureFormat::DXT1 | TextureFormat::DXT1a => Some(DXTVariant::DXT1),
        TextureFormat::DXT3 => Some(DXTVariant::DXT3),
        TextureFormat::DXT5 => Some(DXTVariant::DXT5),
        _ => None,
    }
}

impl<'a> SubTexture<'a> {
    /// The block decoder variant for this plane's format, if it is
    /// block-compressed.
    pub fn dxt_variant(&self) -> (r: Option<DXTVariant>)
        ensures
            r == dxt_variant_of(self.format),
    {
        match self.format {
            TextureFormat::DXT1 | TextureFormat::DXT1a => Some(DXTVariant::DXT1),
            TextureFormat::DXT3 => Some(DXTVariant::DXT3),
            TextureFormat::DXT5 => Some(DXTVariant::DXT5),
            _ => None,
        }
    }

    /// A block decoder over this plane's bytes for a block-compressed format;
    /// `None` for the other formats. The decoder is refused where a dimension
    /// is not a multiple of four.
    pub fn to_dxt_decoder(&self) -> (r: Option<Result<DxtStream<'a>, ImageError>>)
        ensures
            r is None <==> dxt_variant_of(self.format) is None,
            r matches Some(d) ==> (d is Ok <==> (self.width % 4 == 0 && self.height % 4 == 0)),
            r matches Some(Ok(d)) ==> d.data_spec() == self.data@ && d.size_spec() == (
                self.width,
                self.height,
            ) && Some(d.variant_spec()) == dxt_variant_of(self.format),
    {
        let variant = self.dxt_variant()?;
        Some(dxt_stream(self.data, self.width, self.height, variant))
    }

    /// How this plane's bytes lay out as pixels, for the uncompressed formats
    /// an image can hold as they are.
    pub fn raw_pixels(&self) -> (r: Option<RawPixels>)
        ensures
            r == raw_pixels_of(self.format),
    {
        match self.format {
            TextureFormat::RGB => Some(RawPixels::Rgb),
            TextureFormat::RGBA => Some(RawPixels::Rgba),
            TextureFormat::L8 => Some(RawPixels::Luma),
            TextureFormat::L8A8 => Some(RawPixels::LumaAlpha),
            _ => None,
        }
    }
}

} // verus!
