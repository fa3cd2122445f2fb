//! The closed set of pixel formats found in a texture pack, and its numeric codes.

use vstd::prelude::*;

verus! {

/// Pixel format of one plane, as coded in the stream by the numbers 1 to 11.
#[derive(Debug, Clone, Copy, PartialEq, Eq, Structural)]
pub enum TextureFormat {
    RGB,
    RGBA,
    RGBA4,
    L8,
    L8A8,
    DXT1,
    DXT1a,
    DXT3,
    DXT5,
    ATI1,
    ATI2,
}

/// The numeric code of each format in the stream.
pub open spec fn format_code(f: TextureFormat) -> u32 {
    match f {
        TextureFormat::RGB => 1,
        TextureFormat::RGBA => 2,
        TextureFormat::RGBA4 => 3,
        TextureFormat::L8 => 4,
        TextureFormat::L8A8 => 5,
        TextureFormat::DXT1 => 6,
        TextureFormat::DXT1a => 7,
        TextureFormat::DXT3 => 8,
        TextureFormat::DXT5 => 9,
        TextureFormat::ATI1 => 10,
        TextureFormat::ATI2 => 11,
    }
}

/// The format that a stream code names, if any.
pub open spec fn format_of_code(id: u32) -> Option<TextureFormat> {
    if 1 <= id <= 11 {
        Some(choose|f: TextureFormat| format_code(f) == id)
    } else {
        None
    }
}

/// Every format has a code in 1..=11, and no two formats share one.
pub proof fn lemma_format_code_injective(f: TextureFormat, g: TextureFormat)
    ensures
        1 <= format_code(f) <= 11,
        format_code(f) == format_code(g) ==> f == g,
{
}

/// A code in 1..=11 names the format that carries it.
pub proof fn lemma_format_of_code(id: u32)
    ensures
        format_of_code(id) matches Some(f) ==> format_code(f) == id,
{
    if 1 <= id <= 11 {
        let w = if id == 1 {
            TextureFormat::RGB
        } else if id == 2 {
            TextureFormat::RGBA
        } else if id == 3 {
            TextureFormat::RGBA4
        } else if id == 4 {
            TextureFormat::L8
        } else if id == 5 {
            TextureFormat::L8A8
        } else if id == 6 {
            TextureFormat::DXT1
        } else if id == 7 {
            TextureFormat::DXT1a
        } else if id == 8 {
            TextureFormat::DXT3
        } else if id == 9 {
            TextureFormat::DXT5
        } else if id == 10 {
            TextureFormat::ATI1
        } else {
            TextureFormat::ATI2
        };
        assert(format_code(w) == id);
    }
}

impl TextureFormat {
    /// The format coded by `id`; `None` for any code outside 1..=11.
    pub fn from_id(id: u32) -> (r: Option<TextureFormat>)
        ensures
            r matches Some(f) ==> format_code(f) == id,
            r is None <==> !(1 <= id <= 11),
            r == format_of_code(id),
    {
        let r = match id {
            1 => Some(TextureFormat::RGB),
            2 => Some(TextureFormat::RGBA),
            3 => Some(TextureFormat::RGBA4),
            4 => Some(TextureFormat::L8),
            5 => Some(TextureFormat::L8A8),
            6 => Some(TextureFormat::DXT1),
            7 => Some(TextureFormat::DXT1a),
            8 => Some(TextureFormat::DXT3),
            9 => Some(TextureFormat::DXT5),
            10 => Some(TextureFormat::ATI1),
            11 => Some(TextureFormat::ATI2),
            _ => None,
        };
        proof {
            if let Some(f) = r {
                let g = choose|g: TextureFormat| format_code(g) == id;
                lemma_format_code_injective(f, g);
            }
        }
        r
    }

    /// The stream code of this format.
    pub fn id(&self) -> (r: u32)
        ensures
            r == format_code(*self),
    {
        match self {
            TextureFormat::RGB => 1,
            TextureFormat::RGBA => 2,
            TextureFormat::RGBA4 => 3,
            TextureFormat::L8 => 4,
            TextureFormat::L8A8 => 5,
            TextureFormat::DXT1 => 6,
            TextureFormat::DXT1a => 7,
            TextureFormat::DXT3 => 8,
            TextureFormat::DXT5 => 9,
            TextureFormat::ATI1 => 10,
            TextureFormat::ATI2 => 11,
        }
    }
}

} // verus!
