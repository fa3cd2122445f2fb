//! The decoded texture pack: atlas, entries, textures, arrays and planes, with
//! the mathematical view of each.

use vstd::prelude::*;

use crate::format::TextureFormat;

verus! {

/// What went wrong while decoding or converting a texture pack.
#[derive(Debug, Clone, Copy, PartialEq, Eq, Structural)]
pub enum TxpError {
    /// Neither byte order of the section tag matched: the section id that was
    /// expected and the position examined.
    BadHeader { id: u8, offset: usize },
    /// A texture array whose packed field gives no sides.
    NoSides,
    /// A plane's format code lies outside 1..=11.
    UnknownFormat(u32),
    /// An offset, a length or a field reaches past the end of the buffer.
    Truncated,
    /// The target descriptor has no code for the pixel format.
    UnsupportedFormat,
    /// A texture with no plane to describe.
    Empty,
    /// The colour conversion refused the buffers it was given.
    ConversionFailed,
}

/// One mip level of one side: its dimensions, format and raw bytes, which
/// borrow the buffer that was decoded.
#[derive(Debug, Clone, PartialEq)]
pub struct Mipmap<'a> {
    /// Position marker taken from the stream; not unique.
    pub id: u32,
    pub width: u32,
    pub height: u32,
    pub format: TextureFormat,
    pub data: &'a [u8],
}

/// The name under which the stream's leaf planes are parsed.
pub type SubTexture<'a> = Mipmap<'a>;

/// The value of a plane, with its bytes as a sequence.
pub ghost struct MipmapView {
    pub id: u32,
    pub width: u32,
    pub height: u32,
    pub format: TextureFormat,
    pub data: Seq<u8>,
}

impl<'a> View for Mipmap<'a> {
    type V = MipmapView;

    open spec fn view(&self) -> MipmapView {
        MipmapView {
            id: self.id,
            width: self.width,
            height: self.height,
            format: self.format,
            data: self.data@,
        }
    }
}

impl<'a> Mipmap<'a> {
    /// An owned copy of the plane's bytes, for a caller that must not keep
    /// the decoded buffer alive.
    pub fn owned_data(&self) -> (r: Vec<u8>)
        ensures
            r@ == self.data@,
    {
        vstd::slice::slice_to_vec(self.data)
    }
}

/// The view of each plane of a sequence, in order.
pub open spec fn planes_view<'a>(v: Seq<Mipmap<'a>>) -> Seq<MipmapView> {
    v.map_values(|m: Mipmap<'a>| m@)
}

/// A single mip chain.
#[derive(Debug, Clone, PartialEq)]
pub struct Texture<'a> {
    pub mipmaps: Vec<Mipmap<'a>>,
    /// Not coded in this version of the format: always `None` after decoding.
    pub name: Option<String>,
}

impl<'a> View for Texture<'a> {
    type V = Seq<MipmapView>;

    open spec fn view(&self) -> Seq<MipmapView> {
        planes_view(self.mipmaps@)
    }
}

/// A set of mip chains, one per side (six for a cubemap).
#[derive(Debug, Clone, PartialEq)]
pub struct TextureArray<'a> {
    pub sides: Vec<Vec<Mipmap<'a>>>,
    /// Not coded in this version of the format: always `None` after decoding.
    pub name: Option<String>,
}

/// The view of each side of a sequence, in order.
pub open spec fn sides_view<'a>(v: Seq<Vec<Mipmap<'a>>>) -> Seq<Seq<MipmapView>> {
    v.map_values(|s: Vec<Mipmap<'a>>| planes_view(s@))
}

impl<'a> View for TextureArray<'a> {
    type V = Seq<Seq<MipmapView>>;

    open spec fn view(&self) -> Seq<Seq<MipmapView>> {
        sides_view(self.sides@)
    }
}

/// One entry of an atlas.
#[derive(Debug, Clone, PartialEq)]
pub enum AtlasMap<'a> {
    Texture(Texture<'a>),
    Array(TextureArray<'a>),
}

/// The value of an atlas entry.
pub ghost enum AtlasMapView {
    Texture(Seq<MipmapView>),
    Array(Seq<Seq<MipmapView>>),
}

impl<'a> View for AtlasMap<'a> {
    type V = AtlasMapView;

    open spec fn view(&self) -> AtlasMapView {
        match self {
            AtlasMap::Texture(t) => AtlasMapView::Texture(t@),
            AtlasMap::Array(a) => AtlasMapView::Array(a@),
        }
    }
}

impl<'a> AtlasMap<'a> {
    /// An entry from its sides: a texture where there is exactly one, else
    /// an array of them all. Neither carries a name.
    pub fn from_sides(sides: Vec<Vec<Mipmap<'a>>>) -> (r: AtlasMap<'a>)
        ensures
            sides@.len() == 1 ==> r@ == AtlasMapView::Texture(planes_view(sides@[0]@)),
            sides@.len() != 1 ==> r@ == AtlasMapView::Array(sides_view(sides@)),
            match r {
                AtlasMap::Texture(t) => t.name is None,
                AtlasMap::Array(a) => a.name is None,
            },
    {
        if sides.len() == 1 {
            let mut sides = sides;
            let mipmaps = sides.remove(0);
            AtlasMap::Texture(Texture { mipmaps, name: None })
        } else {
            AtlasMap::Array(TextureArray { sides, name: None })
        }
    }

    /// The sides of an entry: the texture's one chain, or the array's sides.
    pub fn into_sides(self) -> (r: Vec<Vec<Mipmap<'a>>>)
        ensures
            sides_view(r@) == match self@ {
                AtlasMapView::Texture(t) => seq![t],
                AtlasMapView::Array(a) => a,
            },
    {
        match self {
            AtlasMap::Texture(t) => {
                let r = vec![t.mipmaps];
                proof {
                    assert(sides_view(r@) =~= seq![planes_view(t.mipmaps@)]);
                }
                r
            },
            AtlasMap::Array(a) => a.sides,
        }
    }
}

/// The whole decoded archive: its entries in table order.
#[derive(Debug, Clone, PartialEq)]
pub struct TextureAtlas<'a>(pub Vec<AtlasMap<'a>>);

/// The view of each entry of a sequence, in order.
pub open spec fn maps_view<'a>(v: Seq<AtlasMap<'a>>) -> Seq<AtlasMapView> {
    v.map_values(|m: AtlasMap<'a>| m@)
}

impl<'a> View for TextureAtlas<'a> {
    type V = Seq<AtlasMapView>;

    open spec fn view(&self) -> Seq<AtlasMapView> {
        maps_view(self.0@)
    }
}

} // verus!
