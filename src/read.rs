//! Decoding of the section stream: tags and byte order, fields, offset tables,
//! and one parser per kind of section.
//!
//! Every position here is absolute in the buffer that was handed in. A
//! section's offsets count from the section's own start, and a nested section
//! extends to the end of that buffer.

use vstd::prelude::*;
use vstd::slice::slice_subrange;

use crate::format::{format_of_code, TextureFormat};
use crate::model::{
    maps_view, planes_view, sides_view, AtlasMap, AtlasMapView, Mipmap, MipmapView, SubTexture,
    Texture, TextureArray, TextureAtlas, TxpError,
};

verus! {

/// Byte order of one section, as its tag shows it.
#[derive(Debug, Clone, Copy, PartialEq, Eq, Structural)]
pub enum Endian {
    Little,
    Big,
}

/// Section id of a leaf plane.
pub const PLANE_ID: u8 = 2;

/// Section id of an atlas.
pub const ATLAS_ID: u8 = 3;

/// Section id of a texture.
pub const TEXTURE_ID: u8 = 4;

/// Section id of a texture array.
pub const ARRAY_ID: u8 = 5;

/// `n` bytes from position `p` lie inside `s`.
pub open spec fn readable(s: Seq<u8>, p: int, n: int) -> bool {
    0 <= p && 0 <= n && p + n <= s.len()
}

/// The byte order that the tag of section `id` at `p` shows: `T X P id`
/// for little-endian, `id P X T` for big-endian.
pub open spec fn tag_at(s: Seq<u8>, p: int, id: u8) -> Option<Endian> {
    if readable(s, p, 4) {
        if s[p] == 0x54 && s[p + 1] == 0x58 && s[p + 2] == 0x50 && s[p + 3] == id {
            Some(Endian::Little)
        } else if s[p] == id && s[p + 1] == 0x50 && s[p + 2] == 0x58 && s[p + 3] == 0x54 {
            Some(Endian::Big)
        } else {
            None
        }
    } else {
        None
    }
}

/// The 32-bit word at `p` in byte order `e`.
pub open spec fn word_at(s: Seq<u8>, p: int, e: Endian) -> u32 {
    let v = match e {
        Endian::Little => s[p] + 256 * s[p + 1] + 65536 * s[p + 2] + 16777216 * s[p + 3],
        Endian::Big => s[p + 3] + 256 * s[p + 2] + 65536 * s[p + 1] + 16777216 * s[p],
    };
    v as u32
}

/// The error for a tag of section `id` that does not match at `p`.
pub open spec fn bad_header(id: u8, p: int) -> TxpError {
    TxpError::BadHeader { id, offset: p as usize }
}

/// A leaf plane at `p`: the position after it and its value.
pub open spec fn plane_spec(s: Seq<u8>, p: int) -> Result<(int, MipmapView), TxpError> {
    match tag_at(s, p, PLANE_ID) {
        None => Err(bad_header(PLANE_ID, p)),
        Some(e) => if !readable(s, p + 4, 12) {
            Err(TxpError::Truncated)
        } else {
            let code = word_at(s, p + 12, e);
            match format_of_code(code) {
                None => Err(TxpError::UnknownFormat(code)),
                Some(f) => if !readable(s, p + 16, 8) {
                    Err(TxpError::Truncated)
                } else {
                    let len = word_at(s, p + 20, e) as int;
                    if !readable(s, p + 24, len) {
                        Err(TxpError::Truncated)
                    } else {
                        Ok(
                            (
                                p + 24 + len,
                                MipmapView {
                                    id: word_at(s, p + 16, e),
                                    width: word_at(s, p + 4, e),
                                    height: word_at(s, p + 8, e),
                                    format: f,
                                    data: s.subrange(p + 24, p + 24 + len),
                                },
                            ),
                        )
                    }
                },
            }
        },
    }
}

/// The position `off` bytes past `base`, if it lies inside `s`.
pub open spec fn offset_spec(s: Seq<u8>, base: int, off: u32) -> Result<int, TxpError> {
    if base + off <= s.len() {
        Ok(base + off)
    } else {
        Err(TxpError::Truncated)
    }
}

/// The plane that offset `off` of a table owned by the section at `base`
/// points to.
pub open spec fn plane_at_offset(s: Seq<u8>, base: int, off: u32) -> Result<MipmapView, TxpError> {
    match offset_spec(s, base, off) {
        Err(x) => Err(x),
        Ok(q) => match plane_spec(s, q) {
            Err(x) => Err(x),
            Ok((_, m)) => Ok(m),
        },
    }
}

/// The planes of the first `k` entries of the table at `p`, in order; the
/// first failure if one of them fails.
pub open spec fn planes_at(s: Seq<u8>, base: int, p: int, e: Endian, k: nat) -> Result<
    Seq<MipmapView>,
    TxpError,
>
    decreases k,
{
    if k == 0 {
        Ok(Seq::empty())
    } else {
        match planes_at(s, base, p, e, (k - 1) as nat) {
            Err(x) => Err(x),
            Ok(v) => match plane_at_offset(s, base, word_at(s, p + 4 * (k - 1), e)) {
                Err(x) => Err(x),
                Ok(m) => Ok(v.push(m)),
            },
        }
    }
}

/// A table's words lie inside `s`: its first word, read ahead of the
/// offsets, and its `n` offsets.
pub open spec fn table_readable(s: Seq<u8>, p: int, n: nat) -> bool {
    readable(s, p, 4) && readable(s, p, 4 * n as int)
}

/// An offset table of `n` planes at `p`, owned by the section at `base`.
pub open spec fn plane_table(s: Seq<u8>, base: int, p: int, e: Endian, n: nat) -> Result<
    Seq<MipmapView>,
    TxpError,
> {
    if !table_readable(s, p, n) {
        Err(TxpError::Truncated)
    } else {
        planes_at(s, base, p, e, n)
    }
}

/// A texture at `p`: the position after its header and its planes.
pub open spec fn texture_spec(s: Seq<u8>, p: int) -> Result<(int, Seq<MipmapView>), TxpError> {
    match tag_at(s, p, TEXTURE_ID) {
        None => Err(bad_header(TEXTURE_ID, p)),
        Some(e) => if !readable(s, p + 4, 8) {
            Err(TxpError::Truncated)
        } else {
            let n = word_at(s, p + 4, e) as nat;
            match plane_table(s, p, p + 12, e, n) {
                Err(x) => Err(x),
                Ok(v) => Ok((p + 12, v)),
            }
        },
    }
}

/// The side count held in the second byte of an array's packed field.
pub open spec fn depth_of(packed: u32) -> nat {
    ((packed / 256) % 256) as nat
}

/// Mip levels per side: the total divided by the side count, rounded down.
/// An array with no sides is refused before this is asked.
pub open spec fn mips_per_side(total: u32, depth: nat) -> nat {
    if depth == 0 {
        0
    } else {
        (total as nat / depth) as nat
    }
}

/// The first `k` of the consecutive tables of `mips` planes that start at `p`.
pub open spec fn sides_at(s: Seq<u8>, base: int, p: int, e: Endian, mips: nat, k: nat) -> Result<
    Seq<Seq<MipmapView>>,
    TxpError,
>
    decreases k,
{
    if k == 0 {
        Ok(Seq::empty())
    } else {
        match sides_at(s, base, p, e, mips, (k - 1) as nat) {
            Err(x) => Err(x),
            Ok(v) => match plane_table(s, base, p + 4 * mips * (k - 1), e, mips) {
                Err(x) => Err(x),
                Ok(t) => Ok(v.push(t)),
            },
        }
    }
}

/// A texture array at `p`: the position after its header and its sides;
/// `NoSides` where its packed field gives no sides.
pub open spec fn array_spec(s: Seq<u8>, p: int) -> Result<(int, Seq<Seq<MipmapView>>), TxpError> {
    match tag_at(s, p, ARRAY_ID) {
        None => Err(bad_header(ARRAY_ID, p)),
        Some(e) => if !readable(s, p + 4, 8) {
            Err(TxpError::Truncated)
        } else {
            let depth = depth_of(word_at(s, p + 8, e));
            let mips = mips_per_side(word_at(s, p + 4, e), depth);
            if depth == 0 {
                Err(TxpError::NoSides)
            } else {
                match sides_at(s, p, p + 12, e, mips, depth) {
                    Err(x) => Err(x),
                    Ok(v) => Ok((p + 12, v)),
                }
            }
        },
    }
}

/// An atlas entry at `p`: a texture where the texture tag matches, else an
/// array.
pub open spec fn map_spec(s: Seq<u8>, p: int) -> Result<(int, AtlasMapView), TxpError> {
    if tag_at(s, p, TEXTURE_ID) is Some {
        match texture_spec(s, p) {
            Err(x) => Err(x),
            Ok((q, t)) => Ok((q, AtlasMapView::Texture(t))),
        }
    } else {
        match array_spec(s, p) {
            Err(x) => Err(x),
            Ok((q, a)) => Ok((q, AtlasMapView::Array(a))),
        }
    }
}

/// The entry that offset `off` of the atlas at `base` points to.
pub open spec fn map_at_offset(s: Seq<u8>, base: int, off: u32) -> Result<AtlasMapView, TxpError> {
    match offset_spec(s, base, off) {
        Err(x) => Err(x),
        Ok(q) => match map_spec(s, q) {
            Err(x) => Err(x),
            Ok((_, m)) => Ok(m),
        },
    }
}

/// The entries of the first `k` offsets of the table at `p`.
pub open spec fn maps_at(s: Seq<u8>, base: int, p: int, e: Endian, k: nat) -> Result<
    Seq<AtlasMapView>,
    TxpError,
>
    decreases k,
{
    if k == 0 {
        Ok(Seq::empty())
    } else {
        match maps_at(s, base, p, e, (k - 1) as nat) {
            Err(x) => Err(x),
            Ok(v) => match map_at_offset(s, base, word_at(s, p + 4 * (k - 1), e)) {
                Err(x) => Err(x),
                Ok(m) => Ok(v.push(m)),
            },
        }
    }
}

/// An atlas at `p`: the position after its header and its entries.
pub open spec fn atlas_spec(s: Seq<u8>, p: int) -> Result<(int, Seq<AtlasMapView>), TxpError> {
    match tag_at(s, p, ATLAS_ID) {
        None => Err(bad_header(ATLAS_ID, p)),
        Some(e) => if !readable(s, p + 4, 8) {
            Err(TxpError::Truncated)
        } else {
            let n = word_at(s, p + 4, e) as nat;
            if !table_readable(s, p + 12, n) {
                Err(TxpError::Truncated)
            } else {
                match maps_at(s, p, p + 12, e, n) {
                    Err(x) => Err(x),
                    Ok(v) => Ok((p + 12, v)),
                }
            }
        },
    }
}

/// Matches the tag of section `id` at `pos` and gives its byte order.
fn parse_magic(buf: &[u8], pos: usize, id: u8) -> (r: Result<Endian, TxpError>)
    requires
        pos <= buf@.len(),
    ensures
        r == (match tag_at(buf@, pos as int, id) {
            Some(e) => Ok::<Endian, TxpError>(e),
            None => Err(bad_header(id, pos as int)),
        }),
{
    if buf.len() - pos < 4 {
        return Err(TxpError::BadHeader { id, offset: pos });
    }
    let (a, b, c, d) = (buf[pos], buf[pos + 1], buf[pos + 2], buf[pos + 3]);
    if a == 0x54 && b == 0x58 && c == 0x50 && d == id {
        Ok(Endian::Little)
    } else if a == id && b == 0x50 && c == 0x58 && d == 0x54 {
        Ok(Endian::Big)
    } else {
        Err(TxpError::BadHeader { id, offset: pos })
    }
}

/// The word at `pos` in byte order `e`.
fn word(buf: &[u8], pos: usize, e: Endian) -> (r: u32)
    requires
        readable(buf@, pos as int, 4),
    ensures
        r == word_at(buf@, pos as int, e),
{
    let n = buf.len();
    let (b0, b1, b2, b3) = match e {
        Endian::Little => (buf[pos], buf[pos + 1], buf[pos + 2], buf[pos + 3]),
        Endian::Big => (buf[pos + 3], buf[pos + 2], buf[pos + 1], buf[pos]),
    };
    proof {
        assert(b0 + 256 * b1 + 65536 * b2 + 16777216 * b3 <= 0xffff_ffff) by (nonlinear_arith)
            requires
                b0 <= 255,
                b1 <= 255,
                b2 <= 255,
                b3 <= 255,
        ;
    }
    b0 as u32 + 256 * (b1 as u32) + 65536 * (b2 as u32) + 16777216 * (b3 as u32)
}

/// Reads the word at `pos`; fails with `Truncated` where it would pass the end.
fn read_u32(buf: &[u8], pos: usize, e: Endian) -> (r: Result<u32, TxpError>)
    requires
        pos <= buf@.len(),
    ensures
        r == (if readable(buf@, pos as int, 4) {
            Ok::<u32, TxpError>(word_at(buf@, pos as int, e))
        } else {
            Err(TxpError::Truncated)
        }),
{
    if buf.len() - pos < 4 {
        Err(TxpError::Truncated)
    } else {
        Ok(word(buf, pos, e))
    }
}

/// The position `offset` bytes past `base`, where a nested section of the
/// section at `base` starts; `Truncated` where that lies past the end.
pub fn at_offset(buf: &[u8], base: usize, offset: u32) -> (r: Result<usize, TxpError>)
    requires
        base <= buf@.len(),
    ensures
        r matches Ok(q) ==> q as int == base + offset && q <= buf@.len(),
        r is Err ==> r == Err::<usize, TxpError>(TxpError::Truncated),
        r is Ok <==> offset_spec(buf@, base as int, offset) is Ok,
{
    if (offset as usize) <= buf.len() - base {
        Ok(base + offset as usize)
    } else {
        Err(TxpError::Truncated)
    }
}

/// Decodes the leaf plane at `pos`: the position after it and the plane,
/// whose bytes borrow `buf`.
pub fn plane_at<'a>(buf: &'a [u8], pos: usize) -> (r: Result<(usize, Mipmap<'a>), TxpError>)
    requires
        pos <= buf@.len(),
    ensures
        match r {
            Ok((q, m)) => plane_spec(buf@, pos as int) == Ok::<(int, MipmapView), TxpError>(
                (q as int, m@),
            ),
            Err(x) => plane_spec(buf@, pos as int) == Err::<(int, MipmapView), TxpError>(x),
        },
{
    let e = parse_magic(buf, pos, PLANE_ID)?;
    if buf.len() - pos < 16 {
        return Err(TxpError::Truncated);
    }
    let width = word(buf, pos + 4, e);
    let height = word(buf, pos + 8, e);
    let code = word(buf, pos + 12, e);
    let format = match TextureFormat::from_id(code) {
        Some(f) => f,
        None => return Err(TxpError::UnknownFormat(code)),
    };
    if buf.len() - pos < 24 {
        return Err(TxpError::Truncated);
    }
    let id = word(buf, pos + 16, e);
    let len = word(buf, pos + 20, e);
    if buf.len() - (pos + 24) < len as usize {
        return Err(TxpError::Truncated);
    }
    let end = pos + 24 + len as usize;
    let data = slice_subrange(buf, pos + 24, end);
    Ok((end, Mipmap { id, width, height, format, data }))
}

/// Once the first `k` entries of a plane table fail, every longer prefix
/// fails the same way.
proof fn lemma_planes_err(s: Seq<u8>, base: int, p: int, e: Endian, k: nat, n: nat)
    requires
        k <= n,
        planes_at(s, base, p, e, k) is Err,
    ensures
        planes_at(s, base, p, e, n) == planes_at(s, base, p, e, k),
    decreases n - k,
{
    if k < n {
        lemma_planes_err(s, base, p, e, k, (n - 1) as nat);
    }
}

/// Once the first `k` sides fail, every longer prefix fails the same way.
proof fn lemma_sides_err(s: Seq<u8>, base: int, p: int, e: Endian, mips: nat, k: nat, n: nat)
    requires
        k <= n,
        sides_at(s, base, p, e, mips, k) is Err,
    ensures
        sides_at(s, base, p, e, mips, n) == sides_at(s, base, p, e, mips, k),
    decreases n - k,
{
    if k < n {
        lemma_sides_err(s, base, p, e, mips, k, (n - 1) as nat);
    }
}

/// Once the first `k` atlas entries fail, every longer prefix fails the same
/// way.
proof fn lemma_maps_err(s: Seq<u8>, base: int, p: int, e: Endian, k: nat, n: nat)
    requires
        k <= n,
        maps_at(s, base, p, e, k) is Err,
    ensures
        maps_at(s, base, p, e, n) == maps_at(s, base, p, e, k),
    decreases n - k,
{
    if k < n {
        lemma_maps_err(s, base, p, e, k, (n - 1) as nat);
    }
}

/// Decodes the offset table of `n` planes at `pos`, owned by the section at
/// `base`, in table order.
fn plane_table_at<'a>(buf: &'a [u8], base: usize, pos: usize, e: Endian, n: u32) -> (r: Result<
    Vec<Mipmap<'a>>,
    TxpError,
>)
    requires
        base <= buf@.len(),
        pos <= buf@.len(),
    ensures
        match r {
            Ok(v) => plane_table(buf@, base as int, pos as int, e, n as nat) == Ok::<
                Seq<MipmapView>,
                TxpError,
            >(planes_view(v@)),
            Err(x) => plane_table(buf@, base as int, pos as int, e, n as nat) == Err::<
                Seq<MipmapView>,
                TxpError,
            >(x),
        },
{
    let len = buf.len();
    if len - pos < 4 || (len - pos) / 4 < n as usize {
        return Err(TxpError::Truncated);
    }
    let mut res: Vec<Mipmap<'a>> = Vec::new();
    let mut k: u32 = 0;
    proof {
        assert(planes_view(res@) =~= Seq::<MipmapView>::empty());
    }
    while k < n
        invariant
            k <= n,
            len == buf@.len(),
            base <= len,
            pos + 4 * n <= len,
            planes_at(buf@, base as int, pos as int, e, k as nat) == Ok::<
                Seq<MipmapView>,
                TxpError,
            >(planes_view(res@)),
        decreases n - k,
    {
        let off = word(buf, pos + 4 * (k as usize), e);
        let q = match at_offset(buf, base, off) {
            Ok(q) => q,
            Err(x) => {
                proof {
                    lemma_planes_err(buf@, base as int, pos as int, e, (k + 1) as nat, n as nat);
                }
                return Err(x);
            },
        };
        let m = match plane_at(buf, q) {
            Ok((_, m)) => m,
            Err(x) => {
                proof {
                    lemma_planes_err(buf@, base as int, pos as int, e, (k + 1) as nat, n as nat);
                }
                return Err(x);
            },
        };
        let ghost prev = res@;
        res.push(m);
        proof {
            assert(planes_view(res@) =~= planes_view(prev).push(m@));
        }
        k = k + 1;
    }
    Ok(res)
}

/// Decodes the texture at `pos`: the position after its header and the
/// texture.
fn texture_at<'a>(buf: &'a [u8], pos: usize) -> (r: Result<(usize, Texture<'a>), TxpError>)
    requires
        pos <= buf@.len(),
    ensures
        match r {
            Ok((q, t)) => texture_spec(buf@, pos as int) == Ok::<
                (int, Seq<MipmapView>),
                TxpError,
            >((q as int, t@)) && t.name is None,
            Err(x) => texture_spec(buf@, pos as int) == Err::<(int, Seq<MipmapView>), TxpError>(x),
        },
{
    let e = parse_magic(buf, pos, TEXTURE_ID)?;
    if buf.len() - pos < 12 {
        return Err(TxpError::Truncated);
    }
    let n = word(buf, pos + 4, e);
    let mipmaps = plane_table_at(buf, pos, pos + 12, e, n)?;
    Ok((pos + 12, Texture { mipmaps, name: None }))
}

/// Decodes `depth` consecutive tables of `mips` planes each, starting at
/// `start` and owned by the section at `base`: the position after them and
/// the sides in order.
fn sides_table_at<'a>(buf: &'a [u8], base: usize, start: usize, e: Endian, mips: u32, depth: u32) -> (r:
    Result<(usize, Vec<Vec<Mipmap<'a>>>), TxpError>)
    requires
        base <= buf@.len(),
        start <= buf@.len(),
    ensures
        match r {
            Ok((q, v)) => sides_at(buf@, base as int, start as int, e, mips as nat, depth as nat)
                == Ok::<Seq<Seq<MipmapView>>, TxpError>(sides_view(v@)) && q == start + 4 * mips
                * depth && q <= buf@.len(),
            Err(x) => sides_at(buf@, base as int, start as int, e, mips as nat, depth as nat)
                == Err::<Seq<Seq<MipmapView>>, TxpError>(x),
        },
{
    let len = buf.len();
    let ghost s = buf@;
    let mut sides: Vec<Vec<Mipmap<'a>>> = Vec::new();
    let mut cur: usize = start;
    let mut j: u32 = 0;
    proof {
        assert(sides_view(sides@) =~= Seq::<Seq<MipmapView>>::empty());
    }
    while j < depth
        invariant
            j <= depth,
            len == buf@.len(),
            s == buf@,
            base <= len,
            cur <= len,
            cur as int == start + 4 * mips * j,
            sides_at(s, base as int, start as int, e, mips as nat, j as nat) == Ok::<
                Seq<Seq<MipmapView>>,
                TxpError,
            >(sides_view(sides@)),
        decreases depth - j,
    {
        let t = match plane_table_at(buf, base, cur, e, mips) {
            Ok(t) => t,
            Err(x) => {
                proof {
                    lemma_sides_err(s, base as int, start as int, e, mips as nat, (j + 1) as nat, depth as nat);
                }
                return Err(x);
            },
        };
        let ghost prev = sides@;
        sides.push(t);
        proof {
            assert(sides_view(sides@) =~= sides_view(prev).push(planes_view(t@)));
            assert(4 * mips * (j + 1) == 4 * mips * j + 4 * mips) by (nonlinear_arith);
        }
        cur = cur + 4 * (mips as usize);
        j = j + 1;
    }
    Ok((cur, sides))
}

/// Decodes the texture array at `pos`: the position after its header and the
/// array.
fn array_at<'a>(buf: &'a [u8], pos: usize) -> (r: Result<(usize, TextureArray<'a>), TxpError>)
    requires
        pos <= buf@.len(),
    ensures
        match r {
            Ok((q, a)) => array_spec(buf@, pos as int) == Ok::<
                (int, Seq<Seq<MipmapView>>),
                TxpError,
            >((q as int, a@)) && a.name is None && q <= buf@.len(),
            Err(x) => array_spec(buf@, pos as int) == Err::<
                (int, Seq<Seq<MipmapView>>),
                TxpError,
            >(x),
        },
{
    let e = parse_magic(buf, pos, ARRAY_ID)?;
    if buf.len() - pos < 12 {
        return Err(TxpError::Truncated);
    }
    let total = word(buf, pos + 4, e);
    let packed = word(buf, pos + 8, e);
    let depth: u32 = (packed & 0xff00) >> 8;
    proof {
        assert((packed & 0xff00) >> 8 == (packed / 256) % 256) by (bit_vector);
    }
    if depth == 0 {
        return Err(TxpError::NoSides);
    }
    let mips: u32 = total / depth;
    let (_, sides) = sides_table_at(buf, pos, pos + 12, e, mips, depth)?;
    Ok((pos + 12, TextureArray { sides, name: None }))
}

/// Decodes the atlas entry at `pos`: a texture where the texture tag
/// matches, else a texture array.
fn map_at<'a>(buf: &'a [u8], pos: usize) -> (r: Result<(usize, AtlasMap<'a>), TxpError>)
    requires
        pos <= buf@.len(),
    ensures
        match r {
            Ok((q, m)) => map_spec(buf@, pos as int) == Ok::<(int, AtlasMapView), TxpError>(
                (q as int, m@),
            ) && q <= buf@.len(),
            Err(x) => map_spec(buf@, pos as int) == Err::<(int, AtlasMapView), TxpError>(x),
        },
{
    if parse_magic(buf, pos, TEXTURE_ID).is_ok() {
        let (q, t) = texture_at(buf, pos)?;
        Ok((q, AtlasMap::Texture(t)))
    } else {
        let (q, a) = array_at(buf, pos)?;
        Ok((q, AtlasMap::Array(a)))
    }
}

/// Decodes the offset table of `n` atlas entries at `pos`, owned by the atlas
/// at `base`, in table order.
fn map_table_at<'a>(buf: &'a [u8], base: usize, pos: usize, e: Endian, n: u32) -> (r: Result<
    Vec<AtlasMap<'a>>,
    TxpError,
>)
    requires
        base <= buf@.len(),
        pos <= buf@.len(),
    ensures
        match r {
            Ok(v) => table_readable(buf@, pos as int, n as nat) && maps_at(
                buf@,
                base as int,
                pos as int,
                e,
                n as nat,
            ) == Ok::<Seq<AtlasMapView>, TxpError>(maps_view(v@)),
            Err(x) => if table_readable(buf@, pos as int, n as nat) {
                maps_at(buf@, base as int, pos as int, e, n as nat) == Err::<
                    Seq<AtlasMapView>,
                    TxpError,
                >(x)
            } else {
                x == TxpError::Truncated
            },
        },
{
    let len = buf.len();
    if len - pos < 4 || (len - pos) / 4 < n as usize {
        return Err(TxpError::Truncated);
    }
    let mut res: Vec<AtlasMap<'a>> = Vec::new();
    let mut k: u32 = 0;
    proof {
        assert(maps_view(res@) =~= Seq::<AtlasMapView>::empty());
    }
    while k < n
        invariant
            k <= n,
            len == buf@.len(),
            base <= len,
            pos + 4 * n <= len,
            table_readable(buf@, pos as int, n as nat),
            maps_at(buf@, base as int, pos as int, e, k as nat) == Ok::<
                Seq<AtlasMapView>,
                TxpError,
            >(maps_view(res@)),
        decreases n - k,
    {
        let off = word(buf, pos + 4 * (k as usize), e);
        let q = match at_offset(buf, base, off) {
            Ok(q) => q,
            Err(x) => {
                proof {
                    lemma_maps_err(buf@, base as int, pos as int, e, (k + 1) as nat, n as nat);
                }
                return Err(x);
            },
        };
        let m = match map_at(buf, q) {
            Ok((_, m)) => m,
            Err(x) => {
                proof {
                    lemma_maps_err(buf@, base as int, pos as int, e, (k + 1) as nat, n as nat);
                }
                return Err(x);
            },
        };
        let ghost prev = res@;
        res.push(m);
        proof {
            assert(maps_view(res@) =~= maps_view(prev).push(m@));
        }
        k = k + 1;
    }
    Ok(res)
}

/// Decodes the atlas at `pos`: the position after its header and the atlas.
fn atlas_at<'a>(buf: &'a [u8], pos: usize) -> (r: Result<(usize, TextureAtlas<'a>), TxpError>)
    requires
        pos <= buf@.len(),
    ensures
        match r {
            Ok((q, a)) => atlas_spec(buf@, pos as int) == Ok::<
                (int, Seq<AtlasMapView>),
                TxpError,
            >((q as int, a@)),
            Err(x) => atlas_spec(buf@, pos as int) == Err::<(int, Seq<AtlasMapView>), TxpError>(x),
        },
{
    let e = parse_magic(buf, pos, ATLAS_ID)?;
    if buf.len() - pos < 12 {
        return Err(TxpError::Truncated);
    }
    let n = word(buf, pos + 4, e);
    let maps = map_table_at(buf, pos, pos + 12, e, n)?;
    Ok((pos + 12, TextureAtlas(maps)))
}

/// The input that follows a section which ended at `q`.
pub open spec fn rest_after(s: Seq<u8>, q: int) -> Seq<u8> {
    s.subrange(q, s.len() as int)
}

impl<'a> SubTexture<'a> {
    /// Decodes a leaf plane at the start of `i`: the input that follows it and
    /// the plane, whose bytes borrow `i`.
    pub fn parse(i: &'a [u8]) -> (r: Result<(&'a [u8], SubTexture<'a>), TxpError>)
        ensures
            match r {
                Ok((rest, m)) => plane_spec(i@, 0) matches Ok((q, v)) && v == m@ && rest@
                    == rest_after(i@, q),
                Err(x) => plane_spec(i@, 0) == Err::<(int, MipmapView), TxpError>(x),
            },
    {
        let (q, m) = plane_at(i, 0)?;
        Ok((slice_subrange(i, q, i.len()), m))
    }
}

impl<'a> Texture<'a> {
    /// Decodes a texture at the start of `i`: the input that follows its
    /// header and the texture, with no name.
    pub fn parse(i: &'a [u8]) -> (r: Result<(&'a [u8], Texture<'a>), TxpError>)
        ensures
            match r {
                Ok((rest, t)) => texture_spec(i@, 0) matches Ok((q, v)) && v == t@ && rest@
                    == rest_after(i@, q) && t.name is None,
                Err(x) => texture_spec(i@, 0) == Err::<(int, Seq<MipmapView>), TxpError>(x),
            },
    {
        let (q, t) = texture_at(i, 0)?;
        Ok((slice_subrange(i, q, i.len()), t))
    }
}

impl<'a> TextureArray<'a> {
    /// Decodes a texture array at the start of `i`: the input that follows its
    /// header and the array, with no name.
    pub fn parse(i: &'a [u8]) -> (r: Result<(&'a [u8], TextureArray<'a>), TxpError>)
        ensures
            match r {
                Ok((rest, a)) => array_spec(i@, 0) matches Ok((q, v)) && v == a@ && rest@
                    == rest_after(i@, q) && a.name is None,
                Err(x) => array_spec(i@, 0) == Err::<(int, Seq<Seq<MipmapView>>), TxpError>(x),
            },
    {
        let (q, a) = array_at(i, 0)?;
        Ok((slice_subrange(i, q, i.len()), a))
    }
}

impl<'a> AtlasMap<'a> {
    /// Decodes an atlas entry at the start of `i`: a texture where the texture
    /// tag matches, else a texture array.
    pub fn parse(i: &'a [u8]) -> (r: Result<(&'a [u8], AtlasMap<'a>), TxpError>)
        ensures
            match r {
                Ok((rest, m)) => map_spec(i@, 0) matches Ok((q, v)) && v == m@ && rest@
                    == rest_after(i@, q),
                Err(x) => map_spec(i@, 0) == Err::<(int, AtlasMapView), TxpError>(x),
            },
    {
        let (q, m) = map_at(i, 0)?;
        Ok((slice_subrange(i, q, i.len()), m))
    }
}

impl<'a> TextureAtlas<'a> {
    /// Decodes a whole texture pack: the input that follows the atlas's
    /// header and the atlas. Any failing entry fails the whole decode.
    pub fn parse(i: &'a [u8]) -> (r: Result<(&'a [u8], TextureAtlas<'a>), TxpError>)
        ensures
            match r {
                Ok((rest, a)) => atlas_spec(i@, 0) matches Ok((q, v)) && v == a@ && rest@
                    == rest_after(i@, q),
                Err(x) => atlas_spec(i@, 0) == Err::<(int, Seq<AtlasMapView>), TxpError>(x),
            },
    {
        let (q, a) = atlas_at(i, 0)?;
        Ok((slice_subrange(i, q, i.len()), a))
    }
}

} // verus!
