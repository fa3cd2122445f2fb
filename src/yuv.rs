//! Textures that carry planar video: two ATI2-tagged planes holding luma and
//! interleaved chroma, rebuilt into packed colour.

use vstd::prelude::*;

use dcv_color_primitives::{ColorSpace, ErrorKind, ImageFormat, PixelFormat};

use crate::format::TextureFormat;
use crate::model::{AtlasMap, AtlasMapView, MipmapView, Texture, TxpError};

verus! {

#[verifier::external_type_specification]
pub struct ExImageFormat(ImageFormat);

#[verifier::external_type_specification]
pub struct ExPixelFormat(PixelFormat);

#[verifier::external_type_specification]
pub struct ExColorSpace(ColorSpace);

#[verifier::external_type_specification]
#[verifier::external_body]
pub struct ExErrorKind(ErrorKind);

/// A mip chain that marks planar video: exactly two planes, both ATI2.
pub open spec fn is_yuv_chain(v: Seq<MipmapView>) -> bool {
    v.len() == 2 && v[0].format == TextureFormat::ATI2 && v[1].format == TextureFormat::ATI2
}

/// An atlas entry that marks planar video: a texture, never an array, whose
/// chain marks it.
pub open spec fn is_yuv_map(m: AtlasMapView) -> bool {
    match m {
        AtlasMapView::Texture(t) => is_yuv_chain(t),
        AtlasMapView::Array(_) => false,
    }
}

/// The chroma plane handed to the conversion: the interleaved chroma twice
/// over, then the neutral value 128 up to `size` bytes.
pub open spec fn chroma_spec(uv: Seq<u8>, size: nat) -> Seq<u8> {
    let doubled = uv + uv;
    if size > doubled.len() {
        doubled + Seq::new((size - doubled.len()) as nat, |i: int| 128u8)
    } else {
        doubled
    }
}

/// `v` with the first and third byte of each group of four swapped; a
/// trailing partial group is kept as it is.
pub open spec fn swap_red_blue(v: Seq<u8>) -> Seq<u8> {
    Seq::new(
        v.len(),
        |i: int|
            if i - i % 4 + 4 <= v.len() && i % 4 == 0 {
                v[i + 2]
            } else if i - i % 4 + 4 <= v.len() && i % 4 == 2 {
                v[i - 2]
            } else {
                v[i]
            },
    )
}

impl<'a> Texture<'a> {
    /// Whether this texture marks planar video: exactly two planes, both
    /// tagged ATI2.
    pub fn is_yuv(&self) -> (r: bool)
        ensures
            r == is_yuv_chain(self@),
    {
        self.mipmaps.len() == 2 && self.mipmaps[0].format == TextureFormat::ATI2
            && self.mipmaps[1].format == TextureFormat::ATI2
    }

    /// Rebuilds packed colour from the two planes of a video-marked texture:
    /// the first is full-size luma, the second interleaved chroma. The bytes
    /// come in blue, green, red, alpha order, four per pixel.
    pub fn yuv_to_bgra(&self) -> (r: Result<Vec<u8>, TxpError>)
        requires
            is_yuv_chain(self@),
            2 * self@[1].data.len() <= usize::MAX,
            4 * self@[0].width * self@[0].height <= usize::MAX,
        ensures
            r is Err ==> r == Err::<Vec<u8>, TxpError>(TxpError::ConversionFailed),
            r matches Ok(v) ==> v@.len() == 4 * self@[0].width * self@[0].height,
            self@[0].width % 2 != 0 || self@[0].height % 2 != 0 ==> r is Err,
            self@[0].width > 0 && self@[0].height > 0 && self@[0].data.len() < self@[0].width
                * self@[0].height ==> r is Err,
    {
        init_conversion();
        let y = &self.mipmaps[0];
        let uv = &self.mipmaps[1];
        let src = nv12();
        let dst_format = bgra();
        let chroma_size = match plane_size(y.width, y.height, &src, 1) {
            Ok(n) => n,
            Err(_) => return Err(TxpError::ConversionFailed),
        };
        let chroma = chroma_plane(uv.data, chroma_size);
        let dst_size = match plane_size(y.width, y.height, &dst_format, 0) {
            Ok(n) => n,
            Err(_) => return Err(TxpError::ConversionFailed),
        };
        let mut dst: Vec<u8> = vec![0u8; dst_size];
        match convert(y.width, y.height, &src, y.data, chroma.as_slice(), &dst_format, &mut dst) {
            Ok(()) => Ok(dst),
            Err(_) => Err(TxpError::ConversionFailed),
        }
    }

    /// As `yuv_to_bgra`, with the bytes in red, green, blue, alpha order.
    pub fn yuv_to_rgba(&self) -> (r: Result<Vec<u8>, TxpError>)
        requires
            is_yuv_chain(self@),
            2 * self@[1].data.len() <= usize::MAX,
            4 * self@[0].width * self@[0].height <= usize::MAX,
        ensures
            r is Err ==> r == Err::<Vec<u8>, TxpError>(TxpError::ConversionFailed),
            r matches Ok(v) ==> v@.len() == 4 * self@[0].width * self@[0].height,
            self@[0].width % 2 != 0 || self@[0].height % 2 != 0 ==> r is Err,
    {
        let bgra = self.yuv_to_bgra()?;
        Ok(swap_channels(&bgra))
    }
}

impl<'a> AtlasMap<'a> {
    /// Whether this entry marks planar video: a texture of exactly two ATI2
    /// planes. An array never does.
    pub fn is_yuv(&self) -> (r: bool)
        ensures
            r == is_yuv_map(self@),
    {
        match self {
            AtlasMap::Texture(t) => t.is_yuv(),
            AtlasMap::Array(_) => false,
        }
    }
}

/// The semi-planar 4:2:0 source format: luma, then interleaved chroma.
pub open spec fn nv12_format() -> ImageFormat {
    ImageFormat { pixel_format: PixelFormat::Nv12, color_space: ColorSpace::Bt709, num_planes: 2 }
}

/// The packed four-channel target format.
pub open spec fn bgra_format() -> ImageFormat {
    ImageFormat { pixel_format: PixelFormat::Bgra, color_space: ColorSpace::Lrgb, num_planes: 1 }
}

/// The semi-planar 4:2:0 source format.
fn nv12() -> (r: ImageFormat)
    ensures
        r == nv12_format(),
{
    ImageFormat { pixel_format: PixelFormat::Nv12, color_space: ColorSpace::Bt709, num_planes: 2 }
}

/// The packed four-channel target format.
fn bgra() -> (r: ImageFormat)
    ensures
        r == bgra_format(),
{
    ImageFormat { pixel_format: PixelFormat::Bgra, color_space: ColorSpace::Lrgb, num_planes: 1 }
}

/// The chroma plane for the conversion: `uv` twice over, padded with 128 up
/// to `size` bytes.
pub fn chroma_plane(uv: &[u8], size: usize) -> (r: Vec<u8>)
    requires
        2 * uv@.len() <= usize::MAX,
    ensures
        r@ == chroma_spec(uv@, size as nat),
{
    let n = uv.len();
    let total: usize = if size > 2 * n {
        size
    } else {
        2 * n
    };
    let mut r: Vec<u8> = vec![128u8; total];
    let mut i: usize = 0;
    while i < n
        invariant
            n == uv@.len(),
            i <= n,
            total >= 2 * n,
            r@.len() == total,
            forall|k: int| 0 <= k < i ==> r@[k] == uv@[k],
            forall|k: int| n <= k < n + i ==> r@[k] == uv@[k - n],
            forall|k: int| n + i <= k < total ==> r@[k] == 128u8,
        decreases n - i,
    {
        r.set(i, uv[i]);
        r.set(i + n, uv[i]);
        i = i + 1;
    }
    proof {
        let c = chroma_spec(uv@, size as nat);
        assert(c.len() == total);
        assert(r@ =~= c);
    }
    r
}

/// Swaps the first and third byte of each whole group of four: blue-first
/// pixels become red-first ones and back.
pub fn swap_channels(v: &[u8]) -> (r: Vec<u8>)
    ensures
        r@ == swap_red_blue(v@),
{
    let mut r: Vec<u8> = Vec::new();
    let n = v.len();
    let mut i: usize = 0;
    while i < n
        invariant
            n == v@.len(),
            i <= n,
            r@.len() == i,
            forall|k: int| 0 <= k < i ==> r@[k] == swap_red_blue(v@)[k],
        decreases n - i,
    {
        let q = i % 4;
        let whole = n - (i - q) >= 4;
        let b = if whole && q == 0 {
            v[i + 2]
        } else if whole && q == 2 {
            v[i - 2]
        } else {
            v[i]
        };
        r.push(b);
        i = i + 1;
    }
    proof {
        assert(r@ =~= swap_red_blue(v@));
    }
    r
}

/// Relies on `dcv_color_primitives::initialize`: sets up the conversion
/// tables; later calls do nothing.
#[verifier::external_body]
fn init_conversion() {
    dcv_color_primitives::initialize()
}

/// Relies on `dcv_color_primitives::get_buffers_size`: the byte size of plane
/// `plane` of an image of `format` at the given size. Packed BGRA takes four
/// bytes a pixel at any size; NV12 needs an even width and height, and then
/// takes a byte a pixel of luma and half as much interleaved chroma.
#[verifier::external_body]
fn plane_size(width: u32, height: u32, format: &ImageFormat, plane: usize) -> (r: Result<
    usize,
    ErrorKind,
>)
    requires
        *format == nv12_format() || *format == bgra_format(),
        plane < format.num_planes,
        4 * width * height <= usize::MAX,
    ensures
        r is Ok <==> (*format == bgra_format() || (width % 2 == 0 && height % 2 == 0)),
        r matches Ok(n) ==> n == (if *format == bgra_format() {
            4 * width * height
        } else if plane == 0 {
            width * height
        } else {
            width * (height / 2)
        }),
{
    let mut sizes = [0usize; 4];
    dcv_color_primitives::get_buffers_size(width, height, format, None, &mut sizes)?;
    Ok(sizes[plane])
}

/// Relies on `dcv_color_primitives::convert_image`: converts the two source
/// planes into `dst` in place, so its length stays as it was. For a non-empty
/// image every converter from NV12 to BGRA refuses a luma plane under a byte
/// a pixel, a chroma plane under half that, or a target under four bytes a
/// pixel.
#[verifier::external_body]
fn convert(
    width: u32,
    height: u32,
    src_format: &ImageFormat,
    luma: &[u8],
    chroma: &[u8],
    dst_format: &ImageFormat,
    dst: &mut Vec<u8>,
) -> (r: Result<(), ErrorKind>)
    requires
        *src_format == nv12_format(),
        *dst_format == bgra_format(),
    ensures
        final(dst)@.len() == old(dst)@.len(),
        (width > 0 && height > 0 && (luma@.len() < width * height || chroma@.len() < width * (
        height / 2) || old(dst)@.len() < 4 * width * height)) ==> r is Err,
{
    let src: &[&[u8]] = &[luma, chroma];
    let dst_buffers: &mut [&mut [u8]] = &mut [dst.as_mut_slice()];
    dcv_color_primitives::convert_image(
        width,
        height,
        src_format,
        None,
        src,
        dst_format,
        None,
        dst_buffers,
    )
}

} // verus!
