use ddsfile::{AlphaMode, D3DFormat, DxgiFormat};
use image::dxt::DXTVariant;
use txp::codec::RawPixels;
use txp::dds::{
    describe, fits, legacy_container, modern_container, ContainerFormat, Descriptor, CUBEMAP_CAPS,
};
use txp::model::{AtlasMap, Mipmap, Texture, TextureArray, TxpError};
use txp::yuv::{chroma_plane, swap_channels};
use txp::TextureFormat;

const ALL: [TextureFormat; 11] = [
    TextureFormat::RGB,
    TextureFormat::RGBA,
    TextureFormat::RGBA4,
    TextureFormat::L8,
    TextureFormat::L8A8,
    TextureFormat::DXT1,
    TextureFormat::DXT1a,
    TextureFormat::DXT3,
    TextureFormat::DXT5,
    TextureFormat::ATI1,
    TextureFormat::ATI2,
];

fn plane(width: u32, height: u32, format: TextureFormat, data: &[u8]) -> Mipmap<'_> {
    Mipmap { id: 0, width, height, format, data }
}

#[test]
fn format_codes_round_trip() {
    for (k, f) in ALL.iter().enumerate() {
        assert_eq!(f.id(), k as u32 + 1);
        assert_eq!(TextureFormat::from_id(k as u32 + 1), Some(*f));
    }
    assert_eq!(TextureFormat::from_id(0), None);
    assert_eq!(TextureFormat::from_id(12), None);
    assert_eq!(TextureFormat::from_id(u32::MAX), None);
}

#[test]
fn legacy_table() {
    assert_eq!(TextureFormat::RGB.to_d3d(), Some(D3DFormat::R8G8B8));
    assert_eq!(TextureFormat::RGBA.to_d3d(), Some(D3DFormat::A8R8G8B8));
    assert_eq!(TextureFormat::L8.to_d3d(), Some(D3DFormat::L8));
    assert_eq!(TextureFormat::L8A8.to_d3d(), Some(D3DFormat::A8L8));
    assert_eq!(TextureFormat::DXT1.to_d3d(), Some(D3DFormat::DXT1));
    assert_eq!(TextureFormat::DXT1a.to_d3d(), Some(D3DFormat::DXT1));
    assert_eq!(TextureFormat::DXT3.to_d3d(), Some(D3DFormat::DXT3));
    assert_eq!(TextureFormat::DXT5.to_d3d(), Some(D3DFormat::DXT5));
    assert_eq!(TextureFormat::RGBA4.to_d3d(), None);
    assert_eq!(TextureFormat::ATI1.to_d3d(), None);
    assert_eq!(TextureFormat::ATI2.to_d3d(), None);
}

#[test]
fn modern_table() {
    assert_eq!(TextureFormat::RGB.to_dxgi(), DxgiFormat::R8G8B8A8_UNorm);
    assert_eq!(TextureFormat::RGBA.to_dxgi(), DxgiFormat::R8G8B8A8_UNorm);
    assert_eq!(TextureFormat::RGBA4.to_dxgi(), DxgiFormat::B4G4R4A4_UNorm);
    assert_eq!(TextureFormat::L8.to_dxgi(), DxgiFormat::A8_UNorm);
    assert_eq!(TextureFormat::L8A8.to_dxgi(), DxgiFormat::A8P8);
    assert_eq!(TextureFormat::DXT1.to_dxgi(), DxgiFormat::BC1_UNorm);
    assert_eq!(TextureFormat::DXT1a.to_dxgi(), DxgiFormat::BC1_UNorm);
    assert_eq!(TextureFormat::DXT3.to_dxgi(), DxgiFormat::BC2_UNorm);
    assert_eq!(TextureFormat::DXT5.to_dxgi(), DxgiFormat::BC3_UNorm);
    assert_eq!(TextureFormat::ATI1.to_dxgi(), DxgiFormat::BC4_UNorm);
    assert_eq!(TextureFormat::ATI2.to_dxgi(), DxgiFormat::BC5_UNorm);
}

#[test]
fn alpha_modes() {
    assert_eq!(TextureFormat::DXT1.alpha_mode(), AlphaMode::PreMultiplied);
    assert_eq!(TextureFormat::DXT1a.alpha_mode(), AlphaMode::PreMultiplied);
    assert_eq!(TextureFormat::DXT5.alpha_mode(), AlphaMode::Straight);
    assert_eq!(TextureFormat::RGB.alpha_mode(), AlphaMode::Straight);
}

#[test]
fn dxt_variants() {
    let d = [0u8; 8];
    assert!(matches!(plane(4, 4, TextureFormat::DXT1, &d).dxt_variant(), Some(DXTVariant::DXT1)));
    assert!(matches!(plane(4, 4, TextureFormat::DXT1a, &d).dxt_variant(), Some(DXTVariant::DXT1)));
    assert!(matches!(plane(4, 4, TextureFormat::DXT3, &d).dxt_variant(), Some(DXTVariant::DXT3)));
    assert!(matches!(plane(4, 4, TextureFormat::DXT5, &d).dxt_variant(), Some(DXTVariant::DXT5)));
    assert!(plane(4, 4, TextureFormat::ATI2, &d).dxt_variant().is_none());
}

#[test]
fn cubemap_flag_only_for_six_sides() {
    let d = [0u8; 4];
    let side = vec![plane(64, 32, TextureFormat::DXT5, &d), plane(32, 16, TextureFormat::DXT5, &d)];
    for (sides, cube) in [(1, false), (2, false), (5, false), (6, true), (7, false)] {
        let desc = describe(&side, sides).unwrap();
        assert_eq!(desc.cubemap, cube);
        assert_eq!(desc.sides, sides as u32);
        assert_eq!(desc.mips, 2);
        assert_eq!((desc.width, desc.height), (64, 32));
        assert_eq!(desc.format, TextureFormat::DXT5);
        assert_eq!(desc.alpha, AlphaMode::Straight);
    }
    let dxt1 = vec![plane(8, 8, TextureFormat::DXT1a, &d)];
    assert_eq!(describe(&dxt1, 1).unwrap().alpha, AlphaMode::PreMultiplied);
    assert_eq!(describe(&dxt1, 0), Err(TxpError::Empty));
}

#[test]
fn container_size_limits() {
    let d = [0u8; 4];
    let side = vec![plane(8192, 8192, TextureFormat::RGBA, &d)];
    assert!(fits(&describe(&side, 1).unwrap()));
    assert!(fits(&describe(&side, 6).unwrap()));
    assert!(!fits(&describe(&side, 8).unwrap()));
    let wide = vec![plane(1 << 27, 1, TextureFormat::RGBA, &d)];
    assert!(!fits(&describe(&wide, 1).unwrap()));
    let small = vec![plane(4, 4, TextureFormat::RGBA, &d)];
    assert!(fits(&describe(&small, 255).unwrap()));
}

#[test]
fn entries_from_and_into_sides() {
    let d = [1u8, 2];
    let one = AtlasMap::from_sides(vec![vec![plane(2, 1, TextureFormat::L8, &d)]]);
    assert!(matches!(&one, AtlasMap::Texture(t) if t.mipmaps.len() == 1 && t.name.is_none()));
    assert_eq!(one.into_sides().len(), 1);
    let two = AtlasMap::from_sides(vec![vec![plane(2, 1, TextureFormat::L8, &d)], vec![]]);
    assert!(matches!(&two, AtlasMap::Array(a) if a.sides.len() == 2));
    let sides = two.into_sides();
    assert_eq!(sides[0].len(), 1);
    assert!(sides[1].is_empty());
    assert!(matches!(AtlasMap::from_sides(vec![]), AtlasMap::Array(a) if a.sides.is_empty()));
}

#[test]
fn empty_texture_has_no_descriptor() {
    let t = Texture { mipmaps: vec![], name: None };
    assert_eq!(t.descriptor(), Err(TxpError::Empty));
    assert_eq!(t.to_dds().err(), Some(TxpError::Empty));
    let a = TextureArray { sides: vec![], name: None };
    assert_eq!(a.descriptor(), Err(TxpError::Empty));
}

#[test]
fn rgba4_falls_back_to_modern_descriptor() {
    let data = vec![7u8; 8 * 8 * 2];
    let t = Texture { mipmaps: vec![plane(8, 8, TextureFormat::RGBA4, &data)], name: None };
    assert_eq!(TextureFormat::RGBA4.to_d3d(), None);
    let desc = t.descriptor().unwrap();
    assert_eq!(legacy_container(&desc).err(), Some(TxpError::UnsupportedFormat));
    let modern = modern_container(&desc).unwrap();
    assert!(modern.data().is_empty());
    assert_eq!(modern.into_dds().get_dxgi_format(), Some(DxgiFormat::B4G4R4A4_UNorm));
    let c = t.to_dds().unwrap();
    assert_eq!(
        c.shape().format,
        ContainerFormat::Modern {
            format: DxgiFormat::B4G4R4A4_UNorm,
            alpha: AlphaMode::Straight,
            cubemap: false
        }
    );
    assert_eq!(c.data(), &data[..]);
    let dds = c.into_dds();
    assert_eq!(dds.get_dxgi_format(), Some(DxgiFormat::B4G4R4A4_UNorm));
    assert_eq!(dds.get_d3d_format(), None);
    assert_eq!(dds.data, data);
}

#[test]
fn dxt1_uses_legacy_descriptor() {
    let data = vec![1u8; 8];
    let t = Texture { mipmaps: vec![plane(4, 4, TextureFormat::DXT1, &data)], name: None };
    let c = t.to_dds().unwrap();
    let shape = c.shape();
    assert_eq!(shape.format, ContainerFormat::Legacy(D3DFormat::DXT1));
    assert_eq!((shape.width, shape.height, shape.mips, shape.layers, shape.caps2), (4, 4, 1, None, None));
    let dds = c.into_dds();
    assert_eq!(dds.get_d3d_format(), Some(D3DFormat::DXT1));
    assert_eq!(dds.data, data);
    assert_eq!(dds.header.width, 4);
    assert_eq!(dds.header.height, 4);
}

#[test]
fn dxgi_container_ignores_legacy_code() {
    let data = vec![0u8; 8];
    let t = Texture { mipmaps: vec![plane(4, 4, TextureFormat::DXT1, &data)], name: None };
    let dds = t.dxgi().unwrap().into_dds();
    assert_eq!(dds.get_dxgi_format(), Some(DxgiFormat::BC1_UNorm));
    assert_eq!(dds.header10.as_ref().map(|h| h.alpha_mode), Some(AlphaMode::PreMultiplied));
    let empty = Texture { mipmaps: vec![], name: None };
    assert_eq!(empty.dxgi().err(), Some(TxpError::Empty));
}

#[test]
fn payload_concatenates_planes_in_order() {
    let a = [1u8, 2, 3];
    let b = [4u8];
    let c = [5u8, 6];
    let t = Texture {
        mipmaps: vec![plane(2, 2, TextureFormat::RGB, &a), plane(1, 1, TextureFormat::RGB, &b)],
        name: None,
    };
    assert_eq!(t.payload(), vec![1, 2, 3, 4]);
    let arr = TextureArray {
        sides: vec![vec![plane(1, 1, TextureFormat::L8, &c)], vec![plane(1, 1, TextureFormat::L8, &a)]],
        name: None,
    };
    assert_eq!(arr.payload(), vec![5, 6, 1, 2, 3]);
    let dds = arr.to_dds().unwrap().into_dds();
    assert_eq!(dds.data, vec![5, 6, 1, 2, 3]);
}

#[test]
fn cubemap_array_container() {
    let d = vec![0u8; 16];
    let sides: Vec<Vec<Mipmap>> = (0..6).map(|_| vec![plane(4, 4, TextureFormat::ATI2, &d)]).collect();
    let arr = TextureArray { sides, name: None };
    let desc: Descriptor = arr.descriptor().unwrap();
    assert!(desc.cubemap);
    let c = arr.to_dds().unwrap();
    assert_eq!(c.shape().caps2, Some(CUBEMAP_CAPS));
    assert_eq!(c.shape().layers, Some(6));
    let dds = c.into_dds();
    assert_eq!(dds.get_dxgi_format(), Some(DxgiFormat::BC5_UNorm));
    assert_eq!(dds.get_num_array_layers(), 6);
    assert!(dds.header.caps2.contains(ddsfile::Caps2::CUBEMAP));
}

#[test]
fn container_cubemap_bits_only_for_six_sides() {
    let d = vec![0u8; 8];
    for n in [1usize, 2, 5, 6, 7] {
        let sides: Vec<Vec<Mipmap>> = (0..n).map(|_| vec![plane(4, 4, TextureFormat::DXT1, &d)]).collect();
        let arr = TextureArray { sides, name: None };
        let c = arr.to_dds().unwrap();
        assert_eq!(c.shape().caps2.is_some(), n == 6);
        let dds = c.into_dds();
        assert_eq!(dds.header.caps2.contains(ddsfile::Caps2::CUBEMAP), n == 6);
        assert!(!dds.header.caps2.contains(ddsfile::Caps2::VOLUME));
    }
}

#[test]
fn raw_pixel_layouts() {
    let d = [0u8; 4];
    assert_eq!(plane(1, 1, TextureFormat::RGB, &d).raw_pixels(), Some(RawPixels::Rgb));
    assert_eq!(plane(1, 1, TextureFormat::RGBA, &d).raw_pixels(), Some(RawPixels::Rgba));
    assert_eq!(plane(1, 1, TextureFormat::L8, &d).raw_pixels(), Some(RawPixels::Luma));
    assert_eq!(plane(1, 1, TextureFormat::L8A8, &d).raw_pixels(), Some(RawPixels::LumaAlpha));
    assert_eq!(plane(1, 1, TextureFormat::RGBA4, &d).raw_pixels(), None);
    assert_eq!(plane(4, 4, TextureFormat::DXT5, &d).raw_pixels(), None);
}

#[test]
fn dxt_decoder_records_its_inputs() {
    let d = [3u8; 16];
    let m = plane(4, 4, TextureFormat::DXT1a, &d);
    let s = m.to_dxt_decoder().unwrap().unwrap();
    assert!(matches!(s.variant(), DXTVariant::DXT1));
    assert!(plane(6, 4, TextureFormat::DXT3, &d).to_dxt_decoder().unwrap().is_err());
    assert!(plane(4, 4, TextureFormat::RGB, &d).to_dxt_decoder().is_none());
}

#[test]
fn yuv_marker_shapes() {
    let d = [0u8; 4];
    let yuv = Texture {
        mipmaps: vec![plane(4, 4, TextureFormat::ATI2, &d), plane(2, 2, TextureFormat::ATI2, &d)],
        name: None,
    };
    assert!(yuv.is_yuv());
    assert!(AtlasMap::Texture(yuv.clone()).is_yuv());
    let one = Texture { mipmaps: vec![plane(4, 4, TextureFormat::ATI2, &d)], name: None };
    assert!(!one.is_yuv());
    let three = Texture {
        mipmaps: vec![
            plane(4, 4, TextureFormat::ATI2, &d),
            plane(2, 2, TextureFormat::ATI2, &d),
            plane(1, 1, TextureFormat::ATI2, &d),
        ],
        name: None,
    };
    assert!(!three.is_yuv());
    let mixed = Texture {
        mipmaps: vec![plane(4, 4, TextureFormat::ATI2, &d), plane(2, 2, TextureFormat::ATI1, &d)],
        name: None,
    };
    assert!(!mixed.is_yuv());
    let arr = TextureArray { sides: vec![yuv.mipmaps.clone()], name: None };
    assert!(!AtlasMap::Array(arr).is_yuv());
}

#[test]
fn chroma_plane_doubles_and_pads() {
    assert_eq!(chroma_plane(&[1, 2, 3], 0), vec![1, 2, 3, 1, 2, 3]);
    assert_eq!(chroma_plane(&[1, 2], 7), vec![1, 2, 1, 2, 128, 128, 128]);
    assert_eq!(chroma_plane(&[], 2), vec![128, 128]);
}

#[test]
fn swap_channels_reorders_whole_pixels() {
    assert_eq!(swap_channels(&[1, 2, 3, 4, 5, 6, 7, 8, 9]), vec![3, 2, 1, 4, 7, 6, 5, 8, 9]);
    assert_eq!(swap_channels(&[]), Vec::<u8>::new());
}

#[test]
fn yuv_frame_converts_to_packed_pixels() {
    let luma = vec![128u8; 16];
    let chroma = vec![128u8; 4];
    let t = Texture {
        mipmaps: vec![plane(4, 4, TextureFormat::ATI2, &luma), plane(2, 2, TextureFormat::ATI2, &chroma)],
        name: None,
    };
    let bgra = t.yuv_to_bgra().unwrap();
    assert_eq!(bgra.len(), 4 * 4 * 4);
    assert!(bgra.iter().any(|&b| b != 0));
    let rgba = t.yuv_to_rgba().unwrap();
    assert_eq!(rgba, swap_channels(&bgra));
}

#[test]
fn yuv_frame_with_odd_size_fails_conversion() {
    let luma = vec![0u8; 9];
    let chroma = vec![0u8; 2];
    let t = Texture {
        mipmaps: vec![plane(3, 3, TextureFormat::ATI2, &luma), plane(1, 1, TextureFormat::ATI2, &chroma)],
        name: None,
    };
    assert_eq!(t.yuv_to_bgra(), Err(TxpError::ConversionFailed));
}

#[test]
fn yuv_frame_with_short_luma_fails_conversion() {
    let luma = vec![0u8; 8];
    let chroma = vec![0u8; 4];
    let t = Texture {
        mipmaps: vec![plane(4, 4, TextureFormat::ATI2, &luma), plane(2, 2, TextureFormat::ATI2, &chroma)],
        name: None,
    };
    assert_eq!(t.yuv_to_bgra(), Err(TxpError::ConversionFailed));
}
