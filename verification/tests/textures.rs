//! Texture container decoding and the block-linear deswizzle paths.
use tegra_swizzle::surface::{swizzle_surface, BlockDim};
use xc3_lib::convert::{create_wismt_single_tex, read_wismt_single_tex};
use xc3_lib::error::Xc3Error;
use xc3_lib::mibl::{
    deswizzled_surface_size, ImageFormat, Mibl, MiblFooter, ViewDimension,
};

fn footer_bytes(f: &MiblFooter) -> Vec<u8> {
    let mut out = Vec::new();
    f.write(&mut out);
    out
}

#[test]
fn footer_round_trip() {
    let footer = MiblFooter {
        image_size: 4096,
        unk: 4096,
        width: 256,
        height: 256,
        depth: 1,
        view_dimension: ViewDimension::D2,
        image_format: ImageFormat::BC1Unorm,
        mipmap_count: 9,
        version: 10001,
    };
    let bytes = footer_bytes(&footer);
    assert_eq!(bytes.len(), 40);
    assert_eq!(&bytes[36..40], b"LBIM");
    let back = MiblFooter::read(&bytes).unwrap();
    assert_eq!(back, footer);
}

#[test]
fn footer_magic_mismatch() {
    let bytes = vec![0u8; 40];
    match MiblFooter::read(&bytes) {
        Err(Xc3Error::MagicMismatch { .. }) => {}
        other => panic!("expected a magic mismatch, got {other:?}"),
    }
}

#[test]
fn footer_unknown_format_code() {
    let footer = MiblFooter {
        image_size: 4096,
        unk: 4096,
        width: 16,
        height: 16,
        depth: 1,
        view_dimension: ViewDimension::D2,
        image_format: ImageFormat::R8Unorm,
        mipmap_count: 1,
        version: 10001,
    };
    let mut bytes = footer_bytes(&footer);
    bytes[24..28].copy_from_slice(&999u32.to_le_bytes());
    match MiblFooter::read(&bytes) {
        Err(Xc3Error::EnumOutOfRange { value }) => assert_eq!(value, 999),
        other => panic!("expected an out-of-range code, got {other:?}"),
    }
}

#[test]
fn bytes_per_pixel_table() {
    assert_eq!(ImageFormat::R8Unorm.bytes_per_pixel(), 1);
    assert_eq!(ImageFormat::R8G8B8A8Unorm.bytes_per_pixel(), 4);
    assert_eq!(ImageFormat::R16G16B16A16Float.bytes_per_pixel(), 8);
    assert_eq!(ImageFormat::R4G4B4A4.bytes_per_pixel(), 2);
    assert_eq!(ImageFormat::BC1Unorm.bytes_per_pixel(), 8);
    assert_eq!(ImageFormat::BC7Unorm.bytes_per_pixel(), 16);
    assert_eq!(ImageFormat::B8G8R8A8Unorm.bytes_per_pixel(), 4);
    assert_eq!(ImageFormat::BC1Unorm.block_dim(), (4, 4));
    assert_eq!(ImageFormat::R8G8B8A8Unorm.block_dim(), (1, 1));
}

#[test]
fn cube_texture_six_layers() {
    // A cube texture with one mip level and depth one yields six layers
    // of output: 8x8 pixels at one byte each, per layer.
    let footer = MiblFooter {
        image_size: 16384,
        unk: 4096,
        width: 8,
        height: 8,
        depth: 1,
        view_dimension: ViewDimension::Cube,
        image_format: ImageFormat::R8Unorm,
        mipmap_count: 1,
        version: 10001,
    };
    let mibl = Mibl { image_data: vec![0u8; 16384], footer };
    assert_eq!(mibl.layer_count(), 6);
    let out = mibl.deswizzled_image_data().unwrap();
    assert_eq!(out.len(), 8 * 8 * 6);
    assert_eq!(
        deswizzled_surface_size(8, 8, 1, 1, 1, 1, 1, 6).unwrap(),
        (8 * 8 * 6) as u64
    );
}

#[test]
fn swizzled_texture_round_trip() {
    // A 256x256 BC1 texture with 9 mip levels deswizzles to exactly the
    // sum of its mip sizes, and deswizzling the swizzled form gives the
    // image back byte for byte.
    let expected: u64 = (0..9u32)
        .map(|mip| {
            let w = (256u32 >> mip).max(1).div_ceil(4).max(1) as u64;
            let h = (256u32 >> mip).max(1).div_ceil(4).max(1) as u64;
            w * h * 8
        })
        .sum();
    assert_eq!(deswizzled_surface_size(256, 256, 1, 4, 4, 8, 9, 1).unwrap(), expected);

    let image: Vec<u8> = (0..expected).map(|v| (v * 31 % 256) as u8).collect();
    let swizzled = swizzle_surface(
        256,
        256,
        1,
        &image,
        BlockDim::block_4x4(),
        None,
        8,
        9,
        1,
    )
    .unwrap();

    // Pad the tiled form to the 4096-byte alignment the container uses.
    let padded_len = swizzled.len().next_multiple_of(4096);
    let mut image_data = swizzled.clone();
    image_data.resize(padded_len, 0);

    let footer = MiblFooter {
        image_size: padded_len as u32,
        unk: 4096,
        width: 256,
        height: 256,
        depth: 1,
        view_dimension: ViewDimension::D2,
        image_format: ImageFormat::BC1Unorm,
        mipmap_count: 9,
        version: 10001,
    };
    let mibl = Mibl { image_data, footer };
    let deswizzled = mibl.deswizzled_image_data().unwrap();
    assert_eq!(deswizzled.len() as u64, expected);
    assert_eq!(deswizzled, image);

    // Re-tiling the untiled surface reproduces the original payload up
    // to the trailing page alignment.
    let again = Mibl::from_surface(&deswizzled, mibl.footer).unwrap();
    assert_eq!(&again.image_data[..swizzled.len()], &swizzled[..]);
}

#[test]
fn base_mip_merge_concatenates_surfaces() {
    // An 8x8 chain plus a separately streamed 16x16 base mip: the merged
    // output is the double-size base mip followed by the chain.
    let base_image: Vec<u8> = (0..16 * 16u32).map(|v| (v % 256) as u8).collect();
    let base_swizzled =
        swizzle_surface(16, 16, 1, &base_image, BlockDim::uncompressed(), None, 1, 1, 1).unwrap();

    let chain_image: Vec<u8> = (0..8 * 8u32).map(|v| (v * 3 % 256) as u8).collect();
    let chain_swizzled =
        swizzle_surface(8, 8, 1, &chain_image, BlockDim::uncompressed(), None, 1, 1, 1).unwrap();

    let footer = MiblFooter {
        image_size: chain_swizzled.len() as u32,
        unk: 4096,
        width: 8,
        height: 8,
        depth: 1,
        view_dimension: ViewDimension::D2,
        image_format: ImageFormat::R8Unorm,
        mipmap_count: 1,
        version: 10001,
    };
    let mibl = Mibl { image_data: chain_swizzled, footer };
    let merged = mibl.deswizzle_image_data_base_mip(&base_swizzled).unwrap();
    assert_eq!(merged.len(), base_image.len() + chain_image.len());
    assert_eq!(&merged[..base_image.len()], &base_image[..]);
    assert_eq!(&merged[base_image.len()..], &chain_image[..]);
}

#[test]
fn wismt_single_tex_round_trip() {
    let footer = MiblFooter {
        image_size: 4096,
        unk: 4096,
        width: 16,
        height: 16,
        depth: 1,
        view_dimension: ViewDimension::D2,
        image_format: ImageFormat::R8G8B8A8Unorm,
        mipmap_count: 1,
        version: 10001,
    };
    let mibl = Mibl { image_data: vec![0x5a; 4096], footer };

    let chunk = create_wismt_single_tex(&mibl).unwrap();
    let mut stream = Vec::new();
    chunk.write_to(&mut stream);

    let back = read_wismt_single_tex(&stream).unwrap();
    assert_eq!(back.footer, mibl.footer);
    // The original payload is already page aligned, so the footer fits
    // in its trailing padding and the payload bytes survive unchanged.
    assert_eq!(back.image_data.len(), mibl.image_data.len());
}

#[test]
fn reswizzle_builds_page_aligned_container() {
    // The write path: tiling a row-major surface pads the payload to a
    // whole page, and untiling the result gives the surface back.
    let size = deswizzled_surface_size(32, 32, 1, 4, 4, 8, 4, 1).unwrap();
    let image: Vec<u8> = (0..size).map(|v| (v * 13 % 256) as u8).collect();
    let footer = MiblFooter {
        image_size: 0,
        unk: 4096,
        width: 32,
        height: 32,
        depth: 1,
        view_dimension: ViewDimension::D2,
        image_format: ImageFormat::BC1Unorm,
        mipmap_count: 4,
        version: 10001,
    };
    let mibl = Mibl::from_surface(&image, footer).unwrap();
    assert_eq!(mibl.image_data.len() % 4096, 0);
    assert_eq!(mibl.footer.image_size as usize, mibl.image_data.len());
    assert_eq!(mibl.deswizzled_image_data().unwrap(), image);
}

#[test]
fn mibl_file_write_byte_identity() {
    // A canonical 1x1 R8 texture file: the payload page holds the tiled
    // surface and zero padding, and the footer occupies the page's last
    // 40 bytes while image_size covers the whole page.
    let mut file = vec![0u8; 4056];
    let footer = MiblFooter {
        image_size: 4096,
        unk: 0,
        width: 1,
        height: 1,
        depth: 1,
        view_dimension: ViewDimension::D2,
        image_format: ImageFormat::R8Unorm,
        mipmap_count: 1,
        version: 10001,
    };
    file.extend_from_slice(&footer_bytes(&footer));
    assert_eq!(file.len(), 4096);

    let mibl = Mibl::from_bytes(&file).unwrap();
    assert_eq!(mibl.footer, footer);
    assert_eq!(mibl.image_data.len(), 4096);

    let written = mibl.write().unwrap();
    assert_eq!(written, file);
}
