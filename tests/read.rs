use txp::model::{AtlasMap, SubTexture, Texture, TextureArray, TextureAtlas, TxpError};
use txp::TextureFormat;

const TEX_OFF: usize = 84;
const MIP_OFF: usize = 100;

fn le(v: u32) -> [u8; 4] {
    v.to_le_bytes()
}

fn be(v: u32) -> [u8; 4] {
    v.to_be_bytes()
}

fn tag_le(id: u8) -> [u8; 4] {
    [0x54, 0x58, 0x50, id]
}

fn tag_be(id: u8) -> [u8; 4] {
    [id, 0x50, 0x58, 0x54]
}

fn put(buf: &mut Vec<u8>, at: usize, bytes: &[u8]) {
    if buf.len() < at + bytes.len() {
        buf.resize(at + bytes.len(), 0);
    }
    buf[at..at + bytes.len()].copy_from_slice(bytes);
}

/// A plane section, little-endian: width, height, format code, id, payload.
fn plane_le(width: u32, height: u32, format: u32, id: u32, payload: &[u8]) -> Vec<u8> {
    let mut v = Vec::new();
    v.extend_from_slice(&tag_le(2));
    for w in [width, height, format, id, payload.len() as u32] {
        v.extend_from_slice(&le(w));
    }
    v.extend_from_slice(payload);
    v
}

/// The same plane section, big-endian.
fn plane_be(width: u32, height: u32, format: u32, id: u32, payload: &[u8]) -> Vec<u8> {
    let mut v = Vec::new();
    v.extend_from_slice(&tag_be(2));
    for w in [width, height, format, id, payload.len() as u32] {
        v.extend_from_slice(&be(w));
    }
    v.extend_from_slice(payload);
    v
}

/// An atlas with one texture at byte 84, whose single plane (256x8, RGB, id 0)
/// sits at byte 100.
fn fixture() -> Vec<u8> {
    let payload: Vec<u8> = (0..256 * 8 * 3).map(|i| (i % 251) as u8).collect();
    let mut buf = Vec::new();
    put(&mut buf, 0, &tag_le(3));
    put(&mut buf, 4, &le(1));
    put(&mut buf, 8, &le(0));
    put(&mut buf, 12, &le(TEX_OFF as u32));
    put(&mut buf, TEX_OFF, &tag_le(4));
    put(&mut buf, TEX_OFF + 4, &le(1));
    put(&mut buf, TEX_OFF + 8, &le(0x0101_0100));
    put(&mut buf, TEX_OFF + 12, &le((MIP_OFF - TEX_OFF) as u32));
    put(&mut buf, MIP_OFF, &plane_le(256, 8, 1, 0, &payload));
    buf
}

#[test]
fn read_subtexture() {
    let data = fixture();
    let input = &data[MIP_OFF..];
    let (_, mip) = SubTexture::parse(input).unwrap();
    assert_eq!(mip.id, 0);
    assert_eq!(mip.width, 256);
    assert_eq!(mip.height, 8);
    assert_eq!(mip.format, TextureFormat::RGB);
}

#[test]
fn read_texture() {
    let data = fixture();
    let input = &data[TEX_OFF..];
    let (_, tex) = Texture::parse(input).unwrap();
    println!("{:?}", tex);
    assert_eq!(tex.mipmaps.len(), 1);
}

#[test]
fn read_atlas() {
    let data = fixture();
    let (_, atlas) = TextureAtlas::parse(&data).unwrap();
}

#[test]
fn fixture_atlas_has_one_texture_with_one_plane() {
    let data = fixture();
    let (rest, atlas) = TextureAtlas::parse(&data).unwrap();
    assert_eq!(rest.len(), data.len() - 12);
    assert_eq!(atlas.0.len(), 1);
    match &atlas.0[0] {
        AtlasMap::Texture(t) => {
            assert_eq!(t.name, None);
            assert_eq!(t.mipmaps.len(), 1);
            let m = &t.mipmaps[0];
            assert_eq!((m.width, m.height, m.format, m.id), (256, 8, TextureFormat::RGB, 0));
            assert_eq!(m.data.len(), 256 * 8 * 3);
            assert_eq!(m.data, &data[MIP_OFF + 24..]);
        }
        AtlasMap::Array(_) => panic!("expected a texture"),
    }
}

#[test]
fn fields_sit_at_fixed_offsets() {
    let data = fixture();
    let (_, m) = SubTexture::parse(&data[MIP_OFF..]).unwrap();
    let word = |at: usize| u32::from_le_bytes(data[at..at + 4].try_into().unwrap());
    assert_eq!(m.width, word(MIP_OFF + 4));
    assert_eq!(m.height, word(MIP_OFF + 8));
    assert_eq!(m.format.id(), word(MIP_OFF + 12));
    assert_eq!(m.id, word(MIP_OFF + 16));
    let (_, t) = Texture::parse(&data[TEX_OFF..]).unwrap();
    assert_eq!(t.mipmaps.len() as u32, word(TEX_OFF + 4));
}

#[test]
fn plane_rest_follows_payload() {
    let mut bytes = plane_le(4, 4, 6, 9, &[1, 2, 3, 4, 5, 6, 7, 8]);
    bytes.extend_from_slice(&[0xAA, 0xBB]);
    let (rest, m) = SubTexture::parse(&bytes).unwrap();
    assert_eq!(rest, &[0xAA, 0xBB]);
    assert_eq!(m.data, &[1, 2, 3, 4, 5, 6, 7, 8]);
    assert_eq!(m.format, TextureFormat::DXT1);
    assert_eq!(m.id, 9);
}

#[test]
fn big_endian_plane_parses_like_little_endian() {
    let payload = [9u8, 8, 7, 6, 5];
    let a = plane_le(300, 70000, 11, 3, &payload);
    let b = plane_be(300, 70000, 11, 3, &payload);
    let (_, ma) = SubTexture::parse(&a).unwrap();
    let (_, mb) = SubTexture::parse(&b).unwrap();
    assert_eq!(ma, mb);
    assert_eq!((mb.width, mb.height, mb.format), (300, 70000, TextureFormat::ATI2));
}

#[test]
fn big_endian_texture_parses_like_little_endian() {
    let payload = [1u8, 2, 3];
    let mut a = Vec::new();
    put(&mut a, 0, &tag_le(4));
    put(&mut a, 4, &le(1));
    put(&mut a, 8, &le(0));
    put(&mut a, 12, &le(16));
    put(&mut a, 16, &plane_le(8, 4, 2, 0, &payload));
    let mut b = Vec::new();
    put(&mut b, 0, &tag_be(4));
    put(&mut b, 4, &be(1));
    put(&mut b, 8, &be(0));
    put(&mut b, 12, &be(16));
    put(&mut b, 16, &plane_be(8, 4, 2, 0, &payload));
    let (_, ta) = Texture::parse(&a).unwrap();
    let (_, tb) = Texture::parse(&b).unwrap();
    assert_eq!(ta, tb);
}

#[test]
fn offset_table_keeps_order_and_aliases() {
    let mut buf = Vec::new();
    put(&mut buf, 0, &tag_le(4));
    put(&mut buf, 4, &le(3));
    put(&mut buf, 8, &le(0));
    put(&mut buf, 12, &le(24));
    put(&mut buf, 16, &le(60));
    put(&mut buf, 20, &le(24));
    put(&mut buf, 24, &plane_le(16, 16, 9, 0, &[1, 2, 3, 4, 5, 6, 7, 8]));
    put(&mut buf, 60, &plane_le(8, 8, 9, 1, &[9, 10]));
    let (rest, t) = Texture::parse(&buf).unwrap();
    assert_eq!(rest.len(), buf.len() - 12);
    assert_eq!(t.mipmaps.len(), 3);
    assert_eq!(t.mipmaps[0].width, 16);
    assert_eq!(t.mipmaps[1].width, 8);
    assert_eq!(t.mipmaps[1].data, &[9, 10]);
    assert_eq!(t.mipmaps[0], t.mipmaps[2]);
}

/// An array whose packed field gives `depth` sides and whose total mip count
/// is `total`; every table entry points at the same plane.
fn array_bytes(total: u32, depth: u32) -> Vec<u8> {
    let mips = if depth == 0 { 0 } else { total / depth };
    let tables = (4 * mips * depth) as usize;
    let plane_at = 12 + tables.max(4);
    let mut buf = Vec::new();
    put(&mut buf, 0, &tag_le(5));
    put(&mut buf, 4, &le(total));
    put(&mut buf, 8, &le(depth << 8 | 0x01));
    put(&mut buf, 12, &le(plane_at as u32));
    for k in 0..(mips * depth) as usize {
        put(&mut buf, 12 + 4 * k, &le(plane_at as u32));
    }
    put(&mut buf, plane_at, &plane_le(32, 32, 8, 0, &[0; 16]));
    buf
}

#[test]
fn array_depth_divides_total_mips() {
    let buf = array_bytes(12, 6);
    let (_, a) = TextureArray::parse(&buf).unwrap();
    assert_eq!(a.name, None);
    assert_eq!(a.sides.len(), 6);
    assert!(a.sides.iter().all(|s| s.len() == 2));
}

#[test]
fn array_depth_truncates_uneven_total() {
    let buf = array_bytes(7, 2);
    let (rest, a) = TextureArray::parse(&buf).unwrap();
    assert_eq!(a.sides.len(), 2);
    assert_eq!(a.sides[0].len(), 3);
    assert_eq!(a.sides[1].len(), 3);
    assert_eq!(rest.len(), buf.len() - 12);
}

#[test]
fn array_with_zero_depth_is_refused() {
    let buf = array_bytes(5, 0);
    assert_eq!(TextureArray::parse(&buf).unwrap_err(), TxpError::NoSides);
}

#[test]
fn map_falls_back_to_array() {
    let buf = array_bytes(4, 2);
    let (_, m) = AtlasMap::parse(&buf).unwrap();
    match m {
        AtlasMap::Array(a) => assert_eq!(a.sides.len(), 2),
        AtlasMap::Texture(_) => panic!("expected an array"),
    }
    assert_eq!(
        AtlasMap::parse(&[0u8; 16]).unwrap_err(),
        TxpError::BadHeader { id: 5, offset: 0 }
    );
}

#[test]
fn bad_header_names_section_and_position() {
    let data = fixture();
    let mut broken = data.clone();
    broken[MIP_OFF] = 0;
    assert_eq!(
        TextureAtlas::parse(&broken).unwrap_err(),
        TxpError::BadHeader { id: 2, offset: MIP_OFF }
    );
    assert_eq!(
        Texture::parse(&data).unwrap_err(),
        TxpError::BadHeader { id: 4, offset: 0 }
    );
    assert_eq!(
        SubTexture::parse(&[0x54, 0x58]).unwrap_err(),
        TxpError::BadHeader { id: 2, offset: 0 }
    );
}

#[test]
fn unknown_format_code_fails() {
    let bytes = plane_le(4, 4, 12, 0, &[]);
    assert_eq!(SubTexture::parse(&bytes).unwrap_err(), TxpError::UnknownFormat(12));
    let bytes = plane_le(4, 4, 0, 0, &[]);
    assert_eq!(SubTexture::parse(&bytes).unwrap_err(), TxpError::UnknownFormat(0));
}

#[test]
fn truncated_input_fails() {
    let bytes = plane_le(4, 4, 1, 0, &[1, 2, 3, 4]);
    assert_eq!(SubTexture::parse(&bytes[..bytes.len() - 1]).unwrap_err(), TxpError::Truncated);
    assert_eq!(SubTexture::parse(&bytes[..10]).unwrap_err(), TxpError::Truncated);
    let mut data = fixture();
    let past_end = data.len() as u32 + 1;
    put(&mut data, 12, &le(past_end));
    assert_eq!(TextureAtlas::parse(&data).unwrap_err(), TxpError::Truncated);
    let mut short = Vec::new();
    put(&mut short, 0, &tag_le(4));
    put(&mut short, 4, &le(0));
    put(&mut short, 8, &le(0));
    assert_eq!(Texture::parse(&short).unwrap_err(), TxpError::Truncated);
}

#[test]
fn at_offset_checks_bounds() {
    let buf = [0u8; 10];
    assert_eq!(txp::at_offset(&buf, 4, 6), Ok(10));
    assert_eq!(txp::at_offset(&buf, 4, 7), Err(TxpError::Truncated));
    assert_eq!(txp::at_offset(&buf, 0, 3), Ok(3));
}

#[test]
fn owned_data_copies_payload() {
    let bytes = plane_le(2, 2, 4, 0, &[7, 8, 9, 10]);
    let owned = {
        let (_, m) = SubTexture::parse(&bytes).unwrap();
        m.owned_data()
    };
    drop(bytes);
    assert_eq!(owned, vec![7, 8, 9, 10]);
}
