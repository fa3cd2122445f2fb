//! Pixel-format tables for the two container descriptor shapes, and the
//! descriptor derived from a texture or a texture array.

use vstd::prelude::*;

use ddsfile::{AlphaMode, Caps2, D3D10ResourceDimension, D3DFormat, Dds, DxgiFormat};

use crate::format::TextureFormat;
use crate::model::{planes_view, sides_view, Mipmap, MipmapView, Texture, TextureArray, TxpError};

verus! {

#[verifier::external_type_specification]
pub struct ExD3DFormat(D3DFormat);

#[verifier::external_type_specification]
pub struct ExDxgiFormat(DxgiFormat);

#[verifier::external_type_specification]
pub struct ExAlphaMode(AlphaMode);

#[verifier::external_type_specification]
pub struct ExD3D10ResourceDimension(D3D10ResourceDimension);

#[verifier::external_type_specification]
#[verifier::external_body]
pub struct ExCaps2(Caps2);

#[verifier::external_type_specification]
#[verifier::external_body]
pub struct ExDds(Dds);

#[verifier::external_type_specification]
#[verifier::external_body]
pub struct ExDdsError(ddsfile::Error);

/// The legacy descriptor code of each format; RGBA4, ATI1 and ATI2 have none.
pub open spec fn legacy_format(f: TextureFormat) -> Option<D3DFormat> {
    match f {
        TextureFormat::RGB => Some(D3DFormat::R8G8B8),
        TextureFormat::RGBA => Some(D3DFormat::A8R8G8B8),
        TextureFormat::L8 => Some(D3DFormat::L8),
        TextureFormat::L8A8 => Some(D3DFormat::A8L8),
        TextureFormat::DXT1 => Some(D3DFormat::DXT1),
        TextureFormat::DXT1a => Some(D3DFormat::DXT1),
        TextureFormat::DXT3 => Some(D3DFormat::DXT3),
        TextureFormat::DXT5 => Some(D3DFormat::DXT5),
        _ => None,
    }
}

/// The modern descriptor code of each format. RGB has no three-channel code
/// there and takes the four-channel one.
pub open spec fn modern_format(f: TextureFormat) -> DxgiFormat {
    match f {
        TextureFormat::RGB => DxgiFormat::R8G8B8A8_UNorm,
        TextureFormat::RGBA => DxgiFormat::R8G8B8A8_UNorm,
        TextureFormat::RGBA4 => DxgiFormat::B4G4R4A4_UNorm,
        TextureFormat::L8 => DxgiFormat::A8_UNorm,
        TextureFormat::L8A8 => DxgiFormat::A8P8,
        TextureFormat::DXT1 => DxgiFormat::BC1_UNorm,
        TextureFormat::DXT1a => DxgiFormat::BC1_UNorm,
        TextureFormat::DXT3 => DxgiFormat::BC2_UNorm,
        TextureFormat::DXT5 => DxgiFormat::BC3_UNorm,
        TextureFormat::ATI1 => DxgiFormat::BC4_UNorm,
        TextureFormat::ATI2 => DxgiFormat::BC5_UNorm,
    }
}

/// DXT1 and DXT1a are pre-multiplied; every other format is straight.
pub open spec fn alpha_of(f: TextureFormat) -> AlphaMode {
    match f {
        TextureFormat::DXT1 | TextureFormat::DXT1a => AlphaMode::PreMultiplied,
        _ => AlphaMode::Straight,
    }
}

impl TextureFormat {
    /// The legacy descriptor code of this format, if it has one.
    pub fn to_d3d(&self) -> (r: Option<D3DFormat>)
        ensures
            r == legacy_format(*self),
    {
        match self {
            TextureFormat::RGB => Some(D3DFormat::R8G8B8),
            TextureFormat::RGBA => Some(D3DFormat::A8R8G8B8),
            TextureFormat::L8 => Some(D3DFormat::L8),
            TextureFormat::L8A8 => Some(D3DFormat::A8L8),
            TextureFormat::DXT1 => Some(D3DFormat::DXT1),
            TextureFormat::DXT1a => Some(D3DFormat::DXT1),
            TextureFormat::DXT3 => Some(D3DFormat::DXT3),
            TextureFormat::DXT5 => Some(D3DFormat::DXT5),
            _ => None,
        }
    }

    /// The modern descriptor code of this format.
    pub fn to_dxgi(&self) -> (r: DxgiFormat)
        ensures
            r == modern_format(*self),
    {
        match self {
            TextureFormat::RGB => DxgiFormat::R8G8B8A8_UNorm,
            TextureFormat::RGBA => DxgiFormat::R8G8B8A8_UNorm,
            TextureFormat::RGBA4 => DxgiFormat::B4G4R4A4_UNorm,
            TextureFormat::L8 => DxgiFormat::A8_UNorm,
            TextureFormat::L8A8 => DxgiFormat::A8P8,
            TextureFormat::DXT1 => DxgiFormat::BC1_UNorm,
            TextureFormat::DXT1a => DxgiFormat::BC1_UNorm,
            TextureFormat::DXT3 => DxgiFormat::BC2_UNorm,
            TextureFormat::DXT5 => DxgiFormat::BC3_UNorm,
            TextureFormat::ATI1 => DxgiFormat::BC4_UNorm,
            TextureFormat::ATI2 => DxgiFormat::BC5_UNorm,
        }
    }

    /// The alpha mode that the modern descriptor records for this format.
    pub fn alpha_mode(&self) -> (r: AlphaMode)
        ensures
            r == alpha_of(*self),
    {
        match self {
            TextureFormat::DXT1 | TextureFormat::DXT1a => AlphaMode::PreMultiplied,
            _ => AlphaMode::Straight,
        }
    }
}

/// What a container writer needs to know of a texture, taken from its first
/// side and that side's first plane.
#[derive(Debug, Clone, Copy, PartialEq, Eq)]
pub struct Descriptor {
    pub width: u32,
    pub height: u32,
    /// Planes in the first side.
    pub mips: u32,
    /// 1 for a texture, the number of sides for an array.
    pub sides: u32,
    /// Set exactly when there are six sides.
    pub cubemap: bool,
    pub format: TextureFormat,
    /// Pre-multiplied for DXT1 and DXT1a, straight for the rest.
    pub alpha: AlphaMode,
}

/// The descriptor of a first side `first` among `sides` sides, where the side
/// holds a plane and its length fits a `u32`.
pub open spec fn descriptor_of(first: Seq<MipmapView>, sides: nat) -> Descriptor {
    Descriptor {
        width: first[0].width,
        height: first[0].height,
        mips: first.len() as u32,
        sides: sides as u32,
        cubemap: sides == 6,
        format: first[0].format,
        alpha: alpha_of(first[0].format),
    }
}

/// The result of describing a first side among `sides` sides: `Empty` for a
/// side with no plane.
pub open spec fn describe_spec(first: Seq<MipmapView>, sides: nat) -> Result<Descriptor, TxpError> {
    if first.len() == 0 || sides == 0 {
        Err(TxpError::Empty)
    } else {
        Ok(descriptor_of(first, sides))
    }
}

/// Describes a first side among `sides` sides.
pub fn describe(first: &[Mipmap], sides: usize) -> (r: Result<Descriptor, TxpError>)
    requires
        first@.len() <= u32::MAX,
        sides <= u32::MAX,
    ensures
        r == describe_spec(planes_view(first@), sides as nat),
{
    if first.len() == 0 || sides == 0 {
        return Err(TxpError::Empty);
    }
    let m = &first[0];
    Ok(
        Descriptor {
            width: m.width,
            height: m.height,
            mips: first.len() as u32,
            sides: sides as u32,
            cubemap: sides == 6,
            format: m.format,
            alpha: m.format.alpha_mode(),
        },
    )
}

/// The sizes for which the container writer's arithmetic stays inside 32 bits:
/// at least one side, and room for the largest row pitch of any format (four
/// bytes a pixel plus a block) times the rows, the sides and the mip chain.
pub open spec fn fits_container(d: Descriptor) -> bool {
    &&& d.sides >= 1
    &&& d.width <= 0x7ff_ffff
    &&& 2 * (4 * d.width + 16) * (d.height + 3) * d.sides + 16 * d.mips * d.sides <= 0xffff_ffff
}

/// Whether a container can be built for `d` within the writer's 32-bit sizes.
pub fn fits(d: &Descriptor) -> (r: bool)
    ensures
        r == fits_container(*d),
{
    if d.sides < 1 || d.width > 0x7ff_ffff {
        return false;
    }
    let (w, h, n, m) = (d.width as u128, d.height as u128, d.sides as u128, d.mips as u128);
    proof {
        assert((4 * w + 16) * (h + 3) <= 0x2000_0010 * 0x1_0000_0002) by (nonlinear_arith)
            requires
                w <= 0x7ff_ffff,
                h <= 0xffff_ffff,
        ;
        assert(2 * ((4 * w + 16) * (h + 3)) * n <= 2 * (0x2000_0010 * 0x1_0000_0002) * 0xffff_ffff)
            by (nonlinear_arith)
            requires
                (4 * w + 16) * (h + 3) <= 0x2000_0010 * 0x1_0000_0002,
                n <= 0xffff_ffff,
        ;
        assert(16 * m * n <= 16 * 0xffff_ffff * 0xffff_ffff) by (nonlinear_arith)
            requires
                m <= 0xffff_ffff,
                n <= 0xffff_ffff,
        ;
        assert(2 * (4 * w + 16) * (h + 3) * n == 2 * ((4 * w + 16) * (h + 3)) * n)
            by (nonlinear_arith);
    }
    2 * ((4 * w + 16) * (h + 3)) * n + 16 * m * n <= 0xffff_ffff
}

/// The legacy descriptor's code for `d`, or `UnsupportedFormat`.
pub fn legacy_descriptor(d: &Descriptor) -> (r: Result<D3DFormat, TxpError>)
    ensures
        r == (match legacy_format(d.format) {
            Some(f) => Ok::<D3DFormat, TxpError>(f),
            None => Err(TxpError::UnsupportedFormat),
        }),
{
    match d.format.to_d3d() {
        Some(f) => Ok(f),
        None => Err(TxpError::UnsupportedFormat),
    }
}

/// Capability bits of a cubemap: the cubemap bit and its six faces.
pub const CUBEMAP_CAPS: u32 = 0xfe00;

/// Every capability bit that the writer knows, the volume bit included.
pub const KNOWN_CAPS: u32 = 0x20_fe00;

/// The pixel format that a container records.
#[derive(Debug, Clone, Copy, PartialEq, Eq)]
pub enum ContainerFormat {
    /// A legacy header with this code.
    Legacy(D3DFormat),
    /// A modern header with this code, alpha mode and cubemap flag.
    Modern { format: DxgiFormat, alpha: AlphaMode, cubemap: bool },
}

/// The header values a container was built with: dimensions, mip count, the
/// side count (as depth for the legacy shape, as array layers for the modern
/// one), capability bits and format.
#[derive(Debug, Clone, Copy, PartialEq, Eq)]
pub struct Shape {
    pub width: u32,
    pub height: u32,
    pub mips: u32,
    pub layers: Option<u32>,
    pub caps2: Option<u32>,
    pub format: ContainerFormat,
}

/// The side count handed to the writer: none for a single side.
pub open spec fn layers_spec(d: Descriptor) -> Option<u32> {
    if d.sides > 1 {
        Some(d.sides)
    } else {
        None
    }
}

/// The capability bits handed to the writer: the cubemap bits exactly for a
/// cubemap.
pub open spec fn caps_spec(d: Descriptor) -> Option<u32> {
    if d.cubemap {
        Some(CUBEMAP_CAPS)
    } else {
        None
    }
}

/// The legacy shape of `d` with code `f`.
pub open spec fn legacy_shape(d: Descriptor, f: D3DFormat) -> Shape {
    Shape {
        width: d.width,
        height: d.height,
        mips: d.mips,
        layers: layers_spec(d),
        caps2: caps_spec(d),
        format: ContainerFormat::Legacy(f),
    }
}

/// The modern shape of `d`.
pub open spec fn modern_shape(d: Descriptor) -> Shape {
    Shape {
        width: d.width,
        height: d.height,
        mips: d.mips,
        layers: layers_spec(d),
        caps2: caps_spec(d),
        format: ContainerFormat::Modern {
            format: modern_format(d.format),
            alpha: d.alpha,
            cubemap: d.cubemap,
        },
    }
}

/// The shape a container of `d` takes: legacy where the format has a legacy
/// code, else modern.
pub open spec fn container_shape(d: Descriptor) -> Shape {
    match legacy_format(d.format) {
        Some(f) => legacy_shape(d, f),
        None => modern_shape(d),
    }
}

/// The writer's sizes stay inside 32 bits for `s`.
pub open spec fn shape_fits(s: Shape) -> bool {
    let l: int = match s.layers {
        Some(n) => n as int,
        None => 1,
    };
    &&& l >= 1
    &&& s.width <= 0x7ff_ffff
    &&& 2 * (4 * s.width + 16) * (s.height + 3) * l + 16 * s.mips * l <= 0xffff_ffff
}

/// A container header together with the payload it will carry. Only the
/// writer's constructors below make one, so its shape is the one the header
/// was built with.
pub struct Container {
    dds: Dds,
    shape: Shape,
    data: Vec<u8>,
}

impl Container {
    /// The header values the container was built with.
    pub closed spec fn shape_spec(&self) -> Shape {
        self.shape
    }

    /// The payload the container carries.
    pub closed spec fn data_spec(&self) -> Seq<u8> {
        self.data@
    }

    /// The header values the container was built with.
    pub fn shape(&self) -> (r: Shape)
        ensures
            r == self.shape_spec(),
    {
        self.shape
    }

    /// The payload the container carries.
    pub fn data(&self) -> (r: &[u8])
        ensures
            r@ == self.data_spec(),
    {
        self.data.as_slice()
    }

    /// The writer's container with its payload in place.
    pub fn into_dds(self) -> Dds {
        with_payload(self.dds, self.data)
    }
}

/// A code that the legacy table gives to some format.
pub open spec fn is_legacy_code(f: D3DFormat) -> bool {
    exists|t: TextureFormat| legacy_format(t) == Some(f)
}

/// Relies on `ddsfile::Dds::new_d3d`: a legacy header with the shape's width,
/// height, mip count, depth, capability bits (`Caps2::from_bits_truncate`,
/// which keeps known bits as they are) and code. Its sizes are computed in 32
/// bits, which the bounds keep from overflowing. It fails only for a code
/// without a pixel size or block size, and every code of the legacy table has
/// one.
#[verifier::external_body]
fn new_d3d(shape: Shape, format: D3DFormat) -> (r: Result<Container, ddsfile::Error>)
    requires
        shape.format == ContainerFormat::Legacy(format),
        shape_fits(shape),
        shape.caps2 matches Some(b) ==> b & KNOWN_CAPS == b,
    ensures
        r matches Ok(c) ==> c.shape == shape && c.data@.len() == 0,
        is_legacy_code(format) ==> r is Ok,
{
    let caps2 = match shape.caps2 {
        Some(b) => Some(Caps2::from_bits_truncate(b)),
        None => None,
    };
    match Dds::new_d3d(shape.height, shape.width, shape.layers, format, Some(shape.mips), caps2) {
        Ok(dds) => Ok(Container { dds, shape, data: Vec::new() }),
        Err(e) => Err(e),
    }
}

/// A code that the modern table gives to some format.
pub open spec fn is_modern_code(f: DxgiFormat) -> bool {
    exists|t: TextureFormat| modern_format(t) == f
}

/// Relies on `ddsfile::Dds::new_dxgi`: a modern header for a 2D texture with
/// the shape's width, height, mip count, array layers, capability bits
/// (`Caps2::from_bits_truncate`, which keeps known bits as they are), code,
/// cubemap flag and alpha mode. Its sizes are computed in 32 bits, which the
/// bounds keep from overflowing. It fails only for a code without a pixel size
/// or block size, and every code of the modern table has one.
#[verifier::external_body]
fn new_dxgi(
    shape: Shape,
    format: DxgiFormat,
    alpha: AlphaMode,
    cubemap: bool,
    dimension: D3D10ResourceDimension,
) -> (r: Result<Container, ddsfile::Error>)
    requires
        shape.format == (ContainerFormat::Modern { format, alpha, cubemap }),
        shape_fits(shape),
        shape.caps2 matches Some(b) ==> b & KNOWN_CAPS == b,
    ensures
        r matches Ok(c) ==> c.shape == shape && c.data@.len() == 0,
        is_modern_code(format) ==> r is Ok,
{
    let caps2 = match shape.caps2 {
        Some(b) => Some(Caps2::from_bits_truncate(b)),
        None => None,
    };
    let (w, h, mips, layers) = (shape.width, shape.height, Some(shape.mips), shape.layers);
    match Dds::new_dxgi(h, w, None, format, mips, layers, caps2, cubemap, dimension, alpha) {
        Ok(dds) => Ok(Container { dds, shape, data: Vec::new() }),
        Err(e) => Err(e),
    }
}

/// Relies on the public field `ddsfile::Dds::data`: puts the payload in place.
#[verifier::external_body]
fn with_payload(dds: Dds, data: Vec<u8>) -> Dds {
    let mut dds = dds;
    dds.data = data;
    dds
}

/// The side count handed to the writer.
fn layers_of(d: &Descriptor) -> (r: Option<u32>)
    ensures
        r == layers_spec(*d),
{
    if d.sides > 1 {
        Some(d.sides)
    } else {
        None
    }
}

/// The capability bits handed to the writer.
fn caps_of(d: &Descriptor) -> (r: Option<u32>)
    ensures
        r == caps_spec(*d),
{
    if d.cubemap {
        Some(CUBEMAP_CAPS)
    } else {
        None
    }
}

/// The bounds of a descriptor carry over to both of its shapes.
proof fn lemma_shapes_fit(d: Descriptor)
    requires
        fits_container(d),
    ensures
        forall|f: D3DFormat| #[trigger] shape_fits(legacy_shape(d, f)),
        shape_fits(modern_shape(d)),
        CUBEMAP_CAPS & KNOWN_CAPS == CUBEMAP_CAPS,
{
    assert(CUBEMAP_CAPS & KNOWN_CAPS == CUBEMAP_CAPS) by (bit_vector);
}

/// A legacy-shaped container for `d` with an empty payload; fails with
/// `UnsupportedFormat` exactly where the format has no legacy code.
pub fn legacy_container(d: &Descriptor) -> (r: Result<Container, TxpError>)
    requires
        fits_container(*d),
    ensures
        legacy_format(d.format) is None ==> r == Err::<Container, TxpError>(
            TxpError::UnsupportedFormat,
        ),
        legacy_format(d.format) matches Some(f) ==> r matches Ok(c) && c.shape_spec()
            == legacy_shape(*d, f) && c.data_spec().len() == 0,
{
    let f = legacy_descriptor(d)?;
    let shape = Shape {
        width: d.width,
        height: d.height,
        mips: d.mips,
        layers: layers_of(d),
        caps2: caps_of(d),
        format: ContainerFormat::Legacy(f),
    };
    proof {
        lemma_shapes_fit(*d);
        assert(shape == legacy_shape(*d, f));
        assert(legacy_format(d.format) == Some(f));
    }
    match new_d3d(shape, f) {
        Ok(c) => Ok(c),
        Err(_) => Err(TxpError::UnsupportedFormat),
    }
}

/// A modern-shaped container for `d` with an empty payload: array layers for
/// the sides, the cubemap flag, and the alpha mode. Every format has a modern
/// code, so this always succeeds.
pub fn modern_container(d: &Descriptor) -> (r: Result<Container, TxpError>)
    requires
        fits_container(*d),
    ensures
        r matches Ok(c) && c.shape_spec() == modern_shape(*d) && c.data_spec().len() == 0,
{
    let format = d.format.to_dxgi();
    let shape = Shape {
        width: d.width,
        height: d.height,
        mips: d.mips,
        layers: layers_of(d),
        caps2: caps_of(d),
        format: ContainerFormat::Modern { format, alpha: d.alpha, cubemap: d.cubemap },
    };
    proof {
        lemma_shapes_fit(*d);
        assert(is_modern_code(modern_format(d.format)));
    }
    match new_dxgi(shape, format, d.alpha, d.cubemap, D3D10ResourceDimension::Texture2D) {
        Ok(c) => Ok(c),
        Err(_) => Err(TxpError::UnsupportedFormat),
    }
}

/// Builds a container for `d` carrying `payload`: the legacy shape where the
/// format has a legacy code, else the modern shape.
pub fn build_container(d: &Descriptor, payload: Vec<u8>) -> (r: Result<Container, TxpError>)
    requires
        fits_container(*d),
    ensures
        r matches Ok(c) && c.shape_spec() == container_shape(*d) && c.data_spec() == payload@,
{
    let built = match legacy_container(d) {
        Ok(c) => Ok(c),
        Err(_) => modern_container(d),
    };
    match built {
        Ok(c) => Ok(Container { dds: c.dds, shape: c.shape, data: payload }),
        Err(e) => Err(e),
    }
}

/// The bytes of the planes of `v`, one after another in order.
pub open spec fn concat_data(v: Seq<MipmapView>) -> Seq<u8>
    decreases v.len(),
{
    if v.len() == 0 {
        Seq::empty()
    } else {
        concat_data(v.drop_last()) + v.last().data
    }
}

/// The bytes of the sides of `v`, one after another in order.
pub open spec fn concat_sides(v: Seq<Seq<MipmapView>>) -> Seq<u8>
    decreases v.len(),
{
    if v.len() == 0 {
        Seq::empty()
    } else {
        concat_sides(v.drop_last()) + concat_data(v.last())
    }
}

/// Appends `data` to `out`.
fn append_bytes(out: &mut Vec<u8>, data: &[u8])
    ensures
        final(out)@ == old(out)@ + data@,
{
    let mut i: usize = 0;
    while i < data.len()
        invariant
            i <= data@.len(),
            out@ == old(out)@ + data@.subrange(0, i as int),
        decreases data@.len() - i,
    {
        out.push(data[i]);
        i = i + 1;
        proof {
            assert(data@.subrange(0, i as int) =~= data@.subrange(0, i - 1).push(data@[i - 1]));
        }
    }
    proof {
        assert(data@.subrange(0, data@.len() as int) =~= data@);
    }
}

/// Appends the bytes of the planes of `side` to `out`.
fn append_side(out: &mut Vec<u8>, side: &[Mipmap])
    ensures
        final(out)@ == old(out)@ + concat_data(planes_view(side@)),
{
    let mut i: usize = 0;
    while i < side.len()
        invariant
            i <= side@.len(),
            out@ == old(out)@ + concat_data(planes_view(side@.subrange(0, i as int))),
        decreases side@.len() - i,
    {
        let ghost before = out@;
        append_bytes(out, side[i].data);
        i = i + 1;
        proof {
            let v = planes_view(side@.subrange(0, i as int));
            assert(v.drop_last() =~= planes_view(side@.subrange(0, i - 1)));
            assert(v.last() == side@[i - 1]@);
            assert(out@ =~= old(out)@ + concat_data(v));
        }
    }
    proof {
        assert(side@.subrange(0, side@.len() as int) =~= side@);
    }
}

impl<'a> Texture<'a> {
    /// The bytes of all planes, in order: the payload of its container.
    pub fn payload(&self) -> (r: Vec<u8>)
        ensures
            r@ == concat_data(self@),
    {
        let mut r: Vec<u8> = Vec::new();
        append_side(&mut r, self.mipmaps.as_slice());
        proof {
            assert(r@ =~= concat_data(self@));
        }
        r
    }

    /// The descriptor of this texture: one side.
    pub fn descriptor(&self) -> (r: Result<Descriptor, TxpError>)
        requires
            self.mipmaps@.len() <= u32::MAX,
        ensures
            r == describe_spec(self@, 1),
    {
        describe(self.mipmaps.as_slice(), 1)
    }

    /// A container for this texture: its descriptor in the legacy shape where
    /// that succeeds, else the modern shape, with all plane bytes as payload.
    /// Fails exactly when the texture holds no plane.
    pub fn to_dds(&self) -> (r: Result<Container, TxpError>)
        requires
            self.mipmaps@.len() <= u32::MAX,
            describe_spec(self@, 1) matches Ok(d) ==> fits_container(d),
        ensures
            r is Ok <==> describe_spec(self@, 1) is Ok,
            r matches Err(x) ==> describe_spec(self@, 1) == Err::<Descriptor, TxpError>(x),
            r matches Ok(c) ==> c.shape_spec() == container_shape(describe_spec(self@, 1)->Ok_0)
                && c.data_spec() == concat_data(self@),
    {
        let d = self.descriptor()?;
        build_container(&d, self.payload())
    }

    /// A modern-shaped container for this texture, with a zeroed payload.
    /// Fails exactly when the texture holds no plane.
    pub fn dxgi(&self) -> (r: Result<Container, TxpError>)
        requires
            self.mipmaps@.len() <= u32::MAX,
            describe_spec(self@, 1) matches Ok(d) ==> fits_container(d),
        ensures
            r is Ok <==> describe_spec(self@, 1) is Ok,
            r matches Err(x) ==> describe_spec(self@, 1) == Err::<Descriptor, TxpError>(x),
            r matches Ok(c) ==> c.shape_spec() == modern_shape(describe_spec(self@, 1)->Ok_0)
                && c.data_spec().len() == 0,
    {
        let d = self.descriptor()?;
        modern_container(&d)
    }
}

impl<'a> TextureArray<'a> {
    /// The bytes of all planes of all sides, in order: the payload of its
    /// container.
    pub fn payload(&self) -> (r: Vec<u8>)
        ensures
            r@ == concat_sides(self@),
    {
        let mut r: Vec<u8> = Vec::new();
        let mut i: usize = 0;
        while i < self.sides.len()
            invariant
                i <= self.sides@.len(),
                r@ == concat_sides(sides_view(self.sides@.subrange(0, i as int))),
            decreases self.sides@.len() - i,
        {
            append_side(&mut r, self.sides[i].as_slice());
            i = i + 1;
            proof {
                let v = sides_view(self.sides@.subrange(0, i as int));
                assert(v.drop_last() =~= sides_view(self.sides@.subrange(0, i - 1)));
            }
        }
        proof {
            assert(self.sides@.subrange(0, self.sides@.len() as int) =~= self.sides@);
        }
        r
    }

    /// The descriptor of this array: its first side among all sides.
    pub fn descriptor(&self) -> (r: Result<Descriptor, TxpError>)
        requires
            self.sides@.len() <= u32::MAX,
            self.sides@.len() > 0 ==> self.sides@[0]@.len() <= u32::MAX,
        ensures
            r == describe_spec(first_side(self@), self@.len()),
    {
        if self.sides.len() == 0 {
            return Err(TxpError::Empty);
        }
        describe(self.sides[0].as_slice(), self.sides.len())
    }

    /// A container for this array, as for a texture: the legacy shape where
    /// that succeeds, else the modern shape, flagged as a cubemap when it has
    /// six sides. Fails exactly when it has no side or its first side holds
    /// no plane.
    pub fn to_dds(&self) -> (r: Result<Container, TxpError>)
        requires
            self.sides@.len() <= u32::MAX,
            self.sides@.len() > 0 ==> self.sides@[0]@.len() <= u32::MAX,
            describe_spec(first_side(self@), self@.len()) matches Ok(d) ==> fits_container(d),
        ensures
            r is Ok <==> describe_spec(first_side(self@), self@.len()) is Ok,
            r matches Err(x) ==> describe_spec(first_side(self@), self@.len()) == Err::<
                Descriptor,
                TxpError,
            >(x),
            r matches Ok(c) ==> c.shape_spec() == container_shape(
                describe_spec(first_side(self@), self@.len())->Ok_0,
            ) && c.data_spec() == concat_sides(self@),
    {
        let d = self.descriptor()?;
        build_container(&d, self.payload())
    }

    /// A modern-shaped container for this array, with a zeroed payload.
    /// Fails exactly when it has no side or its first side holds no plane.
    pub fn dxgi(&self) -> (r: Result<Container, TxpError>)
        requires
            self.sides@.len() <= u32::MAX,
            self.sides@.len() > 0 ==> self.sides@[0]@.len() <= u32::MAX,
            describe_spec(first_side(self@), self@.len()) matches Ok(d) ==> fits_container(d),
        ensures
            r is Ok <==> describe_spec(first_side(self@), self@.len()) is Ok,
            r matches Err(x) ==> describe_spec(first_side(self@), self@.len()) == Err::<
                Descriptor,
                TxpError,
            >(x),
            r matches Ok(c) ==> c.shape_spec() == modern_shape(
                describe_spec(first_side(self@), self@.len())->Ok_0,
            ) && c.data_spec().len() == 0,
    {
        let d = self.descriptor()?;
        modern_container(&d)
    }
}

/// The first side of an array, empty where it has none.
pub open spec fn first_side(v: Seq<Seq<MipmapView>>) -> Seq<MipmapView> {
    if v.len() == 0 {
        Seq::empty()
    } else {
        v[0]
    }
}

} // verus!
