//! Properties of the decoder stated over its models and proved.

use vstd::prelude::*;

use crate::dds::{container_shape, describe_spec, modern_shape, ContainerFormat, CUBEMAP_CAPS};
use crate::format::format_code;
use crate::model::{AtlasMapView, MipmapView, TxpError};
use crate::read::{
    array_spec, depth_of, map_at_offset, maps_at, mips_per_side, plane_at_offset, plane_spec, plane_table, planes_at,
    readable, sides_at, table_readable, tag_at, texture_spec, word_at, Endian, PLANE_ID,
};

verus! {

/// A decoded plane holds exactly the words at fixed places after its tag:
/// width at 4, height at 8, format code at 12, id at 16, and the payload
/// whose length is at 20.
pub proof fn lemma_plane_fields(s: Seq<u8>, p: int)
    requires
        plane_spec(s, p) is Ok,
    ensures
        tag_at(s, p, PLANE_ID) matches Some(e) && ({
            let (q, m) = plane_spec(s, p)->Ok_0;
            &&& m.width == word_at(s, p + 4, e)
            &&& m.height == word_at(s, p + 8, e)
            &&& format_code(m.format) == word_at(s, p + 12, e)
            &&& m.id == word_at(s, p + 16, e)
            &&& m.data.len() == word_at(s, p + 20, e)
            &&& q == p + 24 + m.data.len()
        }),
{
    let e = tag_at(s, p, PLANE_ID)->Some_0;
    let code = word_at(s, p + 12, e);
    crate::format::lemma_format_of_code(code);
}

/// A decoded texture has as many planes as the word at 4 after its tag says.
pub proof fn lemma_texture_mip_count(s: Seq<u8>, p: int)
    requires
        texture_spec(s, p) is Ok,
    ensures
        tag_at(s, p, 4) matches Some(e) && texture_spec(s, p)->Ok_0.1.len() == word_at(
            s,
            p + 4,
            e,
        ),
{
    let e = tag_at(s, p, 4)->Some_0;
    let n = word_at(s, p + 4, e) as nat;
    lemma_plane_table(s, p, p + 12, e, n);
}

/// The first `k` entries of a plane table, where they decode, are one plane
/// per offset in table order, each the plane at its own offset.
pub proof fn lemma_planes_at(s: Seq<u8>, base: int, p: int, e: Endian, k: nat)
    requires
        planes_at(s, base, p, e, k) is Ok,
    ensures
        ({
            let v = planes_at(s, base, p, e, k)->Ok_0;
            &&& v.len() == k
            &&& forall|i: int|
                0 <= i < k ==> plane_at_offset(s, base, #[trigger] word_at(s, p + 4 * i, e))
                    == Ok::<MipmapView, TxpError>(v[i])
        }),
    decreases k,
{
    if k > 0 {
        lemma_planes_at(s, base, p, e, (k - 1) as nat);
    }
}

/// A decoded offset table of `n` planes holds exactly `n` planes in table
/// order, each the plane at its own offset; entries whose offsets alias are
/// equal, each decoded on its own.
pub proof fn lemma_plane_table(s: Seq<u8>, base: int, p: int, e: Endian, n: nat)
    requires
        plane_table(s, base, p, e, n) is Ok,
    ensures
        table_readable(s, p, n),
        ({
            let v = plane_table(s, base, p, e, n)->Ok_0;
            &&& v.len() == n
            &&& forall|i: int|
                0 <= i < n ==> plane_at_offset(s, base, #[trigger] word_at(s, p + 4 * i, e))
                    == Ok::<MipmapView, TxpError>(v[i])
            &&& forall|i: int, j: int|
                0 <= i < n && 0 <= j < n && word_at(s, p + 4 * i, e) == word_at(s, p + 4 * j, e)
                    ==> #[trigger] v[i] == #[trigger] v[j]
        }),
{
    lemma_planes_at(s, base, p, e, n);
}

/// The first `k` entries of an atlas table, where they decode, are one entry
/// per offset in table order, each the entry at its own offset; entries whose
/// offsets alias are equal.
pub proof fn lemma_maps_at(s: Seq<u8>, base: int, p: int, e: Endian, k: nat)
    requires
        maps_at(s, base, p, e, k) is Ok,
    ensures
        ({
            let v = maps_at(s, base, p, e, k)->Ok_0;
            &&& v.len() == k
            &&& forall|i: int|
                0 <= i < k ==> map_at_offset(s, base, #[trigger] word_at(s, p + 4 * i, e))
                    == Ok::<AtlasMapView, TxpError>(v[i])
            &&& forall|i: int, j: int|
                0 <= i < k && 0 <= j < k && word_at(s, p + 4 * i, e) == word_at(s, p + 4 * j, e)
                    ==> #[trigger] v[i] == #[trigger] v[j]
        }),
    decreases k,
{
    if k > 0 {
        lemma_maps_at(s, base, p, e, (k - 1) as nat);
    }
}

/// The first `k` sides of an array, where they decode, are `k` tables of
/// `mips` planes each.
pub proof fn lemma_sides_at(s: Seq<u8>, base: int, p: int, e: Endian, mips: nat, k: nat)
    requires
        sides_at(s, base, p, e, mips, k) is Ok,
    ensures
        ({
            let v = sides_at(s, base, p, e, mips, k)->Ok_0;
            &&& v.len() == k
            &&& forall|i: int| 0 <= i < k ==> (#[trigger] v[i]).len() == mips
        }),
    decreases k,
{
    if k > 0 {
        lemma_sides_at(s, base, p, e, mips, (k - 1) as nat);
        lemma_plane_table(s, base, p + 4 * mips * (k - 1), e, mips);
    }
}

/// A decoded array has as many sides as the second byte of its packed field
/// says, never none, and each side has the total mip count divided by the side count,
/// rounded down: a remainder is dropped without notice.
pub proof fn lemma_array_depth(s: Seq<u8>, p: int)
    requires
        array_spec(s, p) is Ok,
    ensures
        tag_at(s, p, 5) matches Some(e) && ({
            let v = array_spec(s, p)->Ok_0.1;
            let depth = depth_of(word_at(s, p + 8, e));
            let total = word_at(s, p + 4, e);
            &&& depth > 0
            &&& v.len() == depth
            &&& forall|i: int|
                0 <= i < v.len() ==> (#[trigger] v[i]).len() == mips_per_side(total, depth)
            &&& depth > 0 ==> mips_per_side(total, depth) == total as nat / depth
        }),
{
    let e = tag_at(s, p, 5)->Some_0;
    let depth = depth_of(word_at(s, p + 8, e));
    let mips = mips_per_side(word_at(s, p + 4, e), depth);
    lemma_sides_at(s, p, p + 12, e, mips, depth);
}

/// Two words hold the same bytes in opposite orders.
pub open spec fn mirrored_word(s: Seq<u8>, t: Seq<u8>, p: int) -> bool {
    readable(s, p, 4) ==> (t[p] == s[p + 3] && t[p + 1] == s[p + 2] && t[p + 2] == s[p + 1] && t[p
        + 3] == s[p])
}

/// `t` is the big-endian form of the little-endian plane at `p` in `s`: the
/// same length, each of the five words after the tag reversed, the same bytes
/// from the payload on.
pub open spec fn plane_mirrored(s: Seq<u8>, t: Seq<u8>, p: int) -> bool {
    &&& s.len() == t.len()
    &&& tag_at(s, p, PLANE_ID) == Some(Endian::Little)
    &&& tag_at(t, p, PLANE_ID) == Some(Endian::Big)
    &&& forall|i: int| 1 <= i <= 5 ==> #[trigger] mirrored_word(s, t, p + 4 * i)
    &&& readable(s, p, 24) ==> s.subrange(p + 24, s.len() as int) == t.subrange(
        p + 24,
        t.len() as int,
    )
}

/// A word read little-endian equals its mirror read big-endian.
pub proof fn lemma_mirrored_word(s: Seq<u8>, t: Seq<u8>, p: int)
    requires
        s.len() == t.len(),
        readable(s, p, 4),
        mirrored_word(s, t, p),
    ensures
        word_at(s, p, Endian::Little) == word_at(t, p, Endian::Big),
{
}

/// A plane coded little-endian and the same plane coded big-endian decode to
/// the same value, or fail the same way.
pub proof fn lemma_plane_byte_order(s: Seq<u8>, t: Seq<u8>, p: int)
    requires
        plane_mirrored(s, t, p),
    ensures
        plane_spec(s, p) == plane_spec(t, p),
{
    assert(mirrored_word(s, t, p + 4 * 1));
    assert(mirrored_word(s, t, p + 4 * 2));
    assert(mirrored_word(s, t, p + 4 * 3));
    assert(mirrored_word(s, t, p + 4 * 4));
    assert(mirrored_word(s, t, p + 4 * 5));
    if readable(s, p, 24) {
        let len = word_at(s, p + 20, Endian::Little) as int;
        if readable(s, p + 24, len) {
            let a = s.subrange(p + 24, s.len() as int);
            let b = t.subrange(p + 24, t.len() as int);
            assert(s.subrange(p + 24, p + 24 + len) =~= a.subrange(0, len));
            assert(t.subrange(p + 24, p + 24 + len) =~= b.subrange(0, len));
        }
    }
}

/// A plane decodes from the bytes at and after its own position alone.
pub proof fn lemma_plane_local(s: Seq<u8>, t: Seq<u8>, q: int)
    requires
        s.len() == t.len(),
        0 <= q <= s.len(),
        s.subrange(q, s.len() as int) == t.subrange(q, t.len() as int),
    ensures
        plane_spec(s, q) == plane_spec(t, q),
{
    assert forall|i: int| q <= i < s.len() implies s[i] == t[i] by {
        assert(s[i] == s.subrange(q, s.len() as int)[i - q]);
        assert(t[i] == t.subrange(q, t.len() as int)[i - q]);
    }
    if readable(s, q, 24) {
        let e = tag_at(s, q, PLANE_ID);
        if e is Some {
            let len = word_at(s, q + 20, e->Some_0) as int;
            if readable(s, q + 24, len) {
                assert(s.subrange(q + 24, q + 24 + len) =~= t.subrange(q + 24, q + 24 + len));
            }
        }
    }
}

/// Equal tails from `a` on are equal from any later `b` on.
proof fn lemma_tail_equal(s: Seq<u8>, t: Seq<u8>, a: int, b: int)
    requires
        s.len() == t.len(),
        0 <= a <= b <= s.len(),
        s.subrange(a, s.len() as int) == t.subrange(a, t.len() as int),
    ensures
        s.subrange(b, s.len() as int) == t.subrange(b, t.len() as int),
{
    assert(s.subrange(b, s.len() as int) =~= s.subrange(a, s.len() as int).subrange(
        b - a,
        s.len() - a,
    ));
    assert(t.subrange(b, t.len() as int) =~= t.subrange(a, t.len() as int).subrange(
        b - a,
        t.len() - a,
    ));
}

/// `t` is the big-endian form of the little-endian texture at `p` in `s`:
/// the same length, the two header words and each table offset reversed, the
/// same bytes after the table, and every plane placed after the table.
pub open spec fn texture_mirrored(s: Seq<u8>, t: Seq<u8>, p: int) -> bool {
    &&& s.len() == t.len()
    &&& tag_at(s, p, 4) == Some(Endian::Little)
    &&& tag_at(t, p, 4) == Some(Endian::Big)
    &&& mirrored_word(s, t, p + 4)
    &&& mirrored_word(s, t, p + 8)
    &&& readable(s, p, 12) ==> {
        let n = word_at(s, p + 4, Endian::Little) as int;
        &&& forall|i: int| 0 <= i < n ==> #[trigger] mirrored_word(s, t, p + 12 + 4 * i)
        &&& forall|i: int|
            0 <= i < n ==> #[trigger] word_at(s, p + 12 + 4 * i, Endian::Little) >= 12 + 4 * n
        &&& readable(s, p + 12, 4 * n) ==> s.subrange(p + 12 + 4 * n, s.len() as int)
            == t.subrange(p + 12 + 4 * n, t.len() as int)
    }
}

/// The first `k` entries of mirrored tables decode alike.
proof fn lemma_planes_mirrored(s: Seq<u8>, t: Seq<u8>, p: int, n: nat, k: nat)
    requires
        texture_mirrored(s, t, p),
        readable(s, p, 12),
        n == word_at(s, p + 4, Endian::Little),
        readable(s, p + 12, 4 * n as int),
        k <= n,
    ensures
        planes_at(s, p, p + 12, Endian::Little, k) == planes_at(t, p, p + 12, Endian::Big, k),
    decreases k,
{
    if k > 0 {
        lemma_planes_mirrored(s, t, p, n, (k - 1) as nat);
        let i = k - 1;
        let w = p + 12 + 4 * i;
        assert(mirrored_word(s, t, w));
        lemma_mirrored_word(s, t, w);
        let off = word_at(s, w, Endian::Little);
        assert(off >= 12 + 4 * n);
        if p + off <= s.len() {
            lemma_tail_equal(s, t, p + 12 + 4 * n, p + off);
            lemma_plane_local(s, t, p + off);
        }
    }
}

/// A texture coded little-endian and the same texture coded big-endian, its
/// planes placed after its table, decode to the same value or fail the same
/// way. Each plane keeps its own byte order.
pub proof fn lemma_texture_byte_order(s: Seq<u8>, t: Seq<u8>, p: int)
    requires
        texture_mirrored(s, t, p),
    ensures
        texture_spec(s, p) == texture_spec(t, p),
{
    if readable(s, p, 12) {
        lemma_mirrored_word(s, t, p + 4);
        let n = word_at(s, p + 4, Endian::Little) as nat;
        if table_readable(s, p + 12, n) {
            lemma_planes_mirrored(s, t, p, n, n);
        }
    }
}

/// The cubemap flag of a descriptor is set exactly when there are six sides.
pub proof fn lemma_cubemap_flag(first: Seq<MipmapView>, sides: nat)
    requires
        describe_spec(first, sides) is Ok,
    ensures
        describe_spec(first, sides)->Ok_0.cubemap <==> sides == 6,
        describe_spec(first, sides)->Ok_0.sides == sides as u32,
{
}

/// A container carries the cubemap capability bits exactly when there are six
/// sides, in either shape; the modern shape's cubemap flag agrees.
pub proof fn lemma_container_cubemap(first: Seq<MipmapView>, sides: nat)
    requires
        describe_spec(first, sides) is Ok,
    ensures
        ({
            let d = describe_spec(first, sides)->Ok_0;
            &&& container_shape(d).caps2 == (if sides == 6 {
                Some(CUBEMAP_CAPS)
            } else {
                None
            })
            &&& modern_shape(d).caps2 == container_shape(d).caps2
            &&& modern_shape(d).format matches ContainerFormat::Modern { cubemap, .. } && (cubemap
                <==> sides == 6)
        }),
{
}

} // verus!
