//! The swizzled texture container: a surface payload followed by a 40-byte
//! footer whose magic sits at the end of the file, plus the block-linear
//! deswizzle and re-swizzle paths.
use vstd::prelude::*;

use crate::cursor::{enc32, u32_at, Endian, push_u32};
use crate::error::Xc3Error;

verus! {

/// How the surface is viewed: flat, volume, or six-layer cube.
#[derive(Clone, Copy, Debug, PartialEq, Eq, Structural)]
pub enum ViewDimension {
    D2,
    D3,
    Cube,
}

/// The image format codes the container uses.
#[derive(Clone, Copy, Debug, PartialEq, Eq, Structural)]
pub enum ImageFormat {
    R8Unorm,
    R8G8B8A8Unorm,
    R16G16B16A16Float,
    R4G4B4A4,
    BC1Unorm,
    BC2Unorm,
    BC3Unorm,
    BC4Unorm,
    BC5Unorm,
    BC7Unorm,
    BC6UFloat,
    B8G8R8A8Unorm,
}

/// The stored code of a view dimension.
pub open spec fn spec_view_dimension_code(v: ViewDimension) -> int {
    match v {
        ViewDimension::D2 => 1,
        ViewDimension::D3 => 2,
        ViewDimension::Cube => 8,
    }
}

/// The stored code of an image format.
pub open spec fn spec_image_format_code(f: ImageFormat) -> int {
    match f {
        ImageFormat::R8Unorm => 1,
        ImageFormat::R8G8B8A8Unorm => 37,
        ImageFormat::R16G16B16A16Float => 41,
        ImageFormat::R4G4B4A4 => 57,
        ImageFormat::BC1Unorm => 66,
        ImageFormat::BC2Unorm => 67,
        ImageFormat::BC3Unorm => 68,
        ImageFormat::BC4Unorm => 73,
        ImageFormat::BC5Unorm => 75,
        ImageFormat::BC7Unorm => 77,
        ImageFormat::BC6UFloat => 80,
        ImageFormat::B8G8R8A8Unorm => 109,
    }
}

impl ViewDimension {
    /// The stored code of this view dimension.
    pub fn code(&self) -> (r: u32)
        ensures
            r == spec_view_dimension_code(*self),
    {
        match self {
            ViewDimension::D2 => 1,
            ViewDimension::D3 => 2,
            ViewDimension::Cube => 8,
        }
    }

    /// Decodes a stored view dimension code.
    pub fn from_code(v: u32) -> (r: Result<ViewDimension, Xc3Error>)
        ensures
            r matches Ok(d) ==> spec_view_dimension_code(d) == v,
            r matches Err(er) ==> er == (Xc3Error::EnumOutOfRange { value: v }),
            r is Ok <==> view_code_valid(v as int),
    {
        match v {
            1u32 => Ok(ViewDimension::D2),
            2u32 => Ok(ViewDimension::D3),
            8u32 => Ok(ViewDimension::Cube),
            _ => Err(Xc3Error::EnumOutOfRange { value: v }),
        }
    }
}

impl ImageFormat {
    /// The stored code of this format.
    pub fn code(&self) -> (r: u32)
        ensures
            r == spec_image_format_code(*self),
    {
        match self {
            ImageFormat::R8Unorm => 1,
            ImageFormat::R8G8B8A8Unorm => 37,
            ImageFormat::R16G16B16A16Float => 41,
            ImageFormat::R4G4B4A4 => 57,
            ImageFormat::BC1Unorm => 66,
            ImageFormat::BC2Unorm => 67,
            ImageFormat::BC3Unorm => 68,
            ImageFormat::BC4Unorm => 73,
            ImageFormat::BC5Unorm => 75,
            ImageFormat::BC7Unorm => 77,
            ImageFormat::BC6UFloat => 80,
            ImageFormat::B8G8R8A8Unorm => 109,
        }
    }

    /// Decodes a stored format code, rejecting unknown codes.
    pub fn from_code(v: u32) -> (r: Result<ImageFormat, Xc3Error>)
        ensures
            r matches Ok(f) ==> spec_image_format_code(f) == v,
            r matches Err(er) ==> er == (Xc3Error::EnumOutOfRange { value: v }),
            r is Ok <==> format_code_valid(v as int),
    {
        match v {
            1u32 => Ok(ImageFormat::R8Unorm),
            37u32 => Ok(ImageFormat::R8G8B8A8Unorm),
            41u32 => Ok(ImageFormat::R16G16B16A16Float),
            57u32 => Ok(ImageFormat::R4G4B4A4),
            66u32 => Ok(ImageFormat::BC1Unorm),
            67u32 => Ok(ImageFormat::BC2Unorm),
            68u32 => Ok(ImageFormat::BC3Unorm),
            73u32 => Ok(ImageFormat::BC4Unorm),
            75u32 => Ok(ImageFormat::BC5Unorm),
            77u32 => Ok(ImageFormat::BC7Unorm),
            80u32 => Ok(ImageFormat::BC6UFloat),
            109u32 => Ok(ImageFormat::B8G8R8A8Unorm),
            _ => Err(Xc3Error::EnumOutOfRange { value: v }),
        }
    }

    /// The block edge length in pixels: four for the block-compressed
    /// formats, one otherwise.
    pub open spec fn spec_block_dim(self) -> int {
        match self {
            ImageFormat::BC1Unorm => 4,
            ImageFormat::BC2Unorm => 4,
            ImageFormat::BC3Unorm => 4,
            ImageFormat::BC4Unorm => 4,
            ImageFormat::BC5Unorm => 4,
            ImageFormat::BC7Unorm => 4,
            ImageFormat::BC6UFloat => 4,
            _ => 1,
        }
    }

    /// The square block dimensions of this format in pixels.
    pub fn block_dim(&self) -> (r: (u32, u32))
        ensures
            r.0 == self.spec_block_dim(),
            r.1 == self.spec_block_dim(),
    {
        match self {
            ImageFormat::BC1Unorm => (4, 4),
            ImageFormat::BC2Unorm => (4, 4),
            ImageFormat::BC3Unorm => (4, 4),
            ImageFormat::BC4Unorm => (4, 4),
            ImageFormat::BC5Unorm => (4, 4),
            ImageFormat::BC7Unorm => (4, 4),
            ImageFormat::BC6UFloat => (4, 4),
            _ => (1, 1),
        }
    }

    /// The bytes one block of this format occupies.
    pub open spec fn spec_bytes_per_pixel(self) -> int {
        match self {
            ImageFormat::R8Unorm => 1,
            ImageFormat::R8G8B8A8Unorm => 4,
            ImageFormat::R16G16B16A16Float => 8,
            ImageFormat::R4G4B4A4 => 2,
            ImageFormat::BC1Unorm => 8,
            ImageFormat::BC2Unorm => 16,
            ImageFormat::BC3Unorm => 16,
            ImageFormat::BC4Unorm => 8,
            ImageFormat::BC5Unorm => 16,
            ImageFormat::BC7Unorm => 16,
            ImageFormat::BC6UFloat => 16,
            ImageFormat::B8G8R8A8Unorm => 4,
        }
    }

    /// The bytes one block of this format occupies.
    pub fn bytes_per_pixel(&self) -> (r: usize)
        ensures
            r == self.spec_bytes_per_pixel(),
    {
        match self {
            ImageFormat::R8Unorm => 1,
            ImageFormat::R8G8B8A8Unorm => 4,
            ImageFormat::R16G16B16A16Float => 8,
            ImageFormat::R4G4B4A4 => 2,
            ImageFormat::BC1Unorm => 8,
            ImageFormat::BC2Unorm => 16,
            ImageFormat::BC3Unorm => 16,
            ImageFormat::BC4Unorm => 8,
            ImageFormat::BC5Unorm => 16,
            ImageFormat::BC7Unorm => 16,
            ImageFormat::BC6UFloat => 16,
            ImageFormat::B8G8R8A8Unorm => 4,
        }
    }
}

/// The 40-byte footer that closes a swizzled texture file.
#[derive(Clone, Copy, Debug, PartialEq, Eq, Structural)]
pub struct MiblFooter {
    /// Swizzled surface size aligned to 4096 bytes.
    pub image_size: u32,
    pub unk: u32,
    /// Width of the base mip level in pixels.
    pub width: u32,
    /// Height of the base mip level in pixels.
    pub height: u32,
    /// Depth of the base mip level in pixels.
    pub depth: u32,
    pub view_dimension: ViewDimension,
    pub image_format: ImageFormat,
    /// The number of mip levels, or 1 without mipmaps.
    pub mipmap_count: u32,
    pub version: u32,
}

/// The byte encoding of a footer: nine little-endian scalars and the
/// magic.
pub open spec fn footer_bytes(f: MiblFooter) -> Seq<u8> {
    enc32(f.image_size as int, Endian::Little) + enc32(f.unk as int, Endian::Little) + enc32(
        f.width as int, Endian::Little) + enc32(f.height as int, Endian::Little) + enc32(
        f.depth as int, Endian::Little) + enc32(spec_view_dimension_code(f.view_dimension),
        Endian::Little) + enc32(spec_image_format_code(f.image_format), Endian::Little) + enc32(
        f.mipmap_count as int, Endian::Little) + enc32(f.version as int, Endian::Little) + seq![
        76u8,
        66u8,
        73u8,
        77u8,
    ]
}

/// The magic `LBIM` is present at byte offset `i`.
pub open spec fn lbim_magic_at(data: Seq<u8>, i: int) -> bool {
    data[i] == 76 && data[i + 1] == 66 && data[i + 2] == 73 && data[i + 3] == 77
}

/// The stored scalar is one of the view dimension codes.
pub open spec fn view_code_valid(v: int) -> bool {
    v == 1 || v == 2 || v == 8
}

/// The stored scalar is one of the image format codes.
pub open spec fn format_code_valid(v: int) -> bool {
    v == 1 || v == 37 || v == 41 || v == 57 || v == 66 || v == 67 || v == 68 || v == 73 || v == 75
        || v == 77 || v == 80 || v == 109
}

/// The trailing 40 bytes decode as a footer: long enough, the trailing
/// magic present, and both enum codes in range.
pub open spec fn footer_wf(data: Seq<u8>) -> bool {
    &&& data.len() >= 40
    &&& lbim_magic_at(data, data.len() - 4)
    &&& view_code_valid(u32_at(data, data.len() - 20, Endian::Little))
    &&& format_code_valid(u32_at(data, data.len() - 16, Endian::Little))
}

impl MiblFooter {
    /// Decodes the 40-byte footer that ends at `data.len()`.
    ///
    /// Fails with the missing byte count on short input, with a magic
    /// mismatch if the trailing magic is absent, and with the offending
    /// value on an unknown view dimension or format code.
    pub fn read(data: &Vec<u8>) -> (r: Result<MiblFooter, Xc3Error>)
        ensures
            r matches Ok(f) ==> {
                let base = data.len() - 40;
                &&& data.len() >= 40
                &&& lbim_magic_at(data@, base + 36)
                &&& f.image_size == u32_at(data@, base, Endian::Little)
                &&& f.unk == u32_at(data@, base + 4, Endian::Little)
                &&& f.width == u32_at(data@, base + 8, Endian::Little)
                &&& f.height == u32_at(data@, base + 12, Endian::Little)
                &&& f.depth == u32_at(data@, base + 16, Endian::Little)
                &&& spec_view_dimension_code(f.view_dimension) == u32_at(data@, base + 20,
                    Endian::Little)
                &&& spec_image_format_code(f.image_format) == u32_at(data@, base + 24,
                    Endian::Little)
                &&& f.mipmap_count == u32_at(data@, base + 28, Endian::Little)
                &&& f.version == u32_at(data@, base + 32, Endian::Little)
            },
            data.len() < 40 ==> (r matches Err(er) && er matches Xc3Error::UnexpectedEof { .. }),
            data.len() >= 40 && !lbim_magic_at(data@, data.len() - 4) ==> (r matches Err(er)
                && er matches Xc3Error::MagicMismatch { .. }),
            r is Ok <==> footer_wf(data@),
    {
        let e = Endian::Little;
        if data.len() < 40 {
            return Err(Xc3Error::UnexpectedEof { requested: 40, available: data.len() });
        }
        let base = data.len() - 40;
        let m0 = data[base + 36];
        let m1 = data[base + 37];
        let m2 = data[base + 38];
        let m3 = data[base + 39];
        if m0 != 76 || m1 != 66 || m2 != 73 || m3 != 77 {
            let actual = m0 as u32 + (m1 as u32) * 0x100 + (m2 as u32) * 0x10000 + (m3 as u32)
                * 0x1000000;
            return Err(Xc3Error::MagicMismatch {
                expected: 0x4d49424c,
                actual,
                offset: base + 36,
            });
        }
        let image_size = crate::vertex::read_u32_in_pub(data, base, e);
        let unk = crate::vertex::read_u32_in_pub(data, base + 4, e);
        let width = crate::vertex::read_u32_in_pub(data, base + 8, e);
        let height = crate::vertex::read_u32_in_pub(data, base + 12, e);
        let depth = crate::vertex::read_u32_in_pub(data, base + 16, e);
        let view_code = crate::vertex::read_u32_in_pub(data, base + 20, e);
        let format_code = crate::vertex::read_u32_in_pub(data, base + 24, e);
        let mipmap_count = crate::vertex::read_u32_in_pub(data, base + 28, e);
        let version = crate::vertex::read_u32_in_pub(data, base + 32, e);
        let view_dimension = match ViewDimension::from_code(view_code) {
            Ok(v) => v,
            Err(er) => {
                return Err(er);
            }
        };
        let image_format = match ImageFormat::from_code(format_code) {
            Ok(v) => v,
            Err(er) => {
                return Err(er);
            }
        };
        Ok(MiblFooter {
            image_size,
            unk,
            width,
            height,
            depth,
            view_dimension,
            image_format,
            mipmap_count,
            version,
        })
    }

    /// Appends the 40-byte encoding of the footer.
    #[verifier::rlimit(100)]
    pub fn write(&self, out: &mut Vec<u8>)
        ensures
            final(out)@ =~= old(out)@ + footer_bytes(*self),
    {
        let e = Endian::Little;
        push_u32(out, self.image_size, e);
        push_u32(out, self.unk, e);
        push_u32(out, self.width, e);
        push_u32(out, self.height, e);
        push_u32(out, self.depth, e);
        push_u32(out, self.view_dimension.code(), e);
        push_u32(out, self.image_format.code(), e);
        push_u32(out, self.mipmap_count, e);
        push_u32(out, self.version, e);
        out.push(76);
        out.push(66);
        out.push(73);
        out.push(77);
    }
}

/// Decoding the footer written for `f` gives every field of `f` back.
#[verifier::rlimit(100)]
pub proof fn lemma_footer_round_trip(f: MiblFooter)
    ensures
        footer_bytes(f).len() == 40,
        lbim_magic_at(footer_bytes(f), 36),
        u32_at(footer_bytes(f), 0, Endian::Little) == f.image_size,
        u32_at(footer_bytes(f), 4, Endian::Little) == f.unk,
        u32_at(footer_bytes(f), 8, Endian::Little) == f.width,
        u32_at(footer_bytes(f), 12, Endian::Little) == f.height,
        u32_at(footer_bytes(f), 16, Endian::Little) == f.depth,
        u32_at(footer_bytes(f), 20, Endian::Little) == spec_view_dimension_code(
            f.view_dimension),
        u32_at(footer_bytes(f), 24, Endian::Little) == spec_image_format_code(f.image_format),
        u32_at(footer_bytes(f), 28, Endian::Little) == f.mipmap_count,
        u32_at(footer_bytes(f), 32, Endian::Little) == f.version,
{
    crate::cursor::lemma_enc32_dec(f.image_size, Endian::Little);
    crate::cursor::lemma_enc32_dec(f.unk, Endian::Little);
    crate::cursor::lemma_enc32_dec(f.width, Endian::Little);
    crate::cursor::lemma_enc32_dec(f.height, Endian::Little);
    crate::cursor::lemma_enc32_dec(f.depth, Endian::Little);
    crate::cursor::lemma_enc32_dec(spec_view_dimension_code(f.view_dimension) as u32,
        Endian::Little);
    crate::cursor::lemma_enc32_dec(spec_image_format_code(f.image_format) as u32,
        Endian::Little);
    crate::cursor::lemma_enc32_dec(f.mipmap_count, Endian::Little);
    crate::cursor::lemma_enc32_dec(f.version, Endian::Little);
}

/// A swizzled texture: the combined surface payload and its footer.
#[derive(Clone, Debug, PartialEq, Eq)]
pub struct Mibl {
    /// The swizzled surface bytes, layer-major then mip-major.
    pub image_data: Vec<u8>,
    pub footer: MiblFooter,
}

/// The number of surface layers a footer describes: six for a cube view,
/// one otherwise.
pub open spec fn spec_layer_count(f: MiblFooter) -> int {
    if f.view_dimension is Cube {
        6
    } else {
        1
    }
}

impl Mibl {
    /// Decodes a whole texture file: the footer from the trailing 40
    /// bytes, then the leading `image_size` bytes of payload.
    ///
    /// Succeeds exactly when the trailing footer decodes and its declared
    /// payload size fits in the file.
    pub fn from_bytes(data: &Vec<u8>) -> (r: Result<Mibl, Xc3Error>)
        ensures
            r matches Ok(m) ==> {
                let base = data.len() - 40;
                &&& data.len() >= 40
                &&& m.footer.image_size <= data.len()
                &&& m.image_data@ == data@.subrange(0, m.footer.image_size as int)
                &&& m.footer.image_size == u32_at(data@, base, Endian::Little)
                &&& m.footer.unk == u32_at(data@, base + 4, Endian::Little)
                &&& m.footer.width == u32_at(data@, base + 8, Endian::Little)
                &&& m.footer.height == u32_at(data@, base + 12, Endian::Little)
                &&& m.footer.depth == u32_at(data@, base + 16, Endian::Little)
                &&& spec_view_dimension_code(m.footer.view_dimension) == u32_at(data@, base + 20,
                    Endian::Little)
                &&& spec_image_format_code(m.footer.image_format) == u32_at(data@, base + 24,
                    Endian::Little)
                &&& m.footer.mipmap_count == u32_at(data@, base + 28, Endian::Little)
                &&& m.footer.version == u32_at(data@, base + 32, Endian::Little)
            },
            r is Ok <==> (footer_wf(data@) && u32_at(data@, data.len() - 40, Endian::Little)
                <= data.len()),
    {
        let footer = match MiblFooter::read(data) {
            Ok(f) => f,
            Err(er) => {
                return Err(er);
            }
        };
        if footer.image_size as u64 > data.len() as u64 {
            return Err(Xc3Error::OffsetOutOfBounds { offset: footer.image_size as usize,
                file_size: data.len() });
        }
        let mut image_data: Vec<u8> = Vec::new();
        let size = footer.image_size as usize;
        let mut i: usize = 0;
        while i < size
            invariant
                i <= size,
                size <= data@.len(),
                image_data@ =~= data@.subrange(0, i as int),
            decreases size - i,
        {
            image_data.push(data[i]);
            i += 1;
        }
        Ok(Mibl { image_data, footer })
    }

    /// The number of surface layers: six for a cube view, one otherwise.
    pub fn layer_count(&self) -> (r: u32)
        ensures
            r == spec_layer_count(self.footer),
    {
        match self.footer.view_dimension {
            ViewDimension::Cube => 6,
            _ => 1,
        }
    }
}

/// Division rounding up.
pub open spec fn ceil_div(x: int, d: int) -> int
    recommends
        d > 0,
{
    (x + d - 1) / d
}

/// At least one: mip dimensions never shrink below a single block.
pub open spec fn max1(x: int) -> int {
    if x < 1 {
        1
    } else {
        x
    }
}

/// The unpadded row-major size of one mip level, in bytes: blocks across
/// times blocks down times depth times bytes per block.
pub open spec fn mip_size(w: int, h: int, d: int, bw: int, bh: int, bpp: int) -> int {
    max1(ceil_div(w, bw)) * max1(ceil_div(h, bh)) * max1(d) * bpp
}

/// The unpadded row-major size of one layer's mip chain, each mip halving
/// every dimension.
pub open spec fn layer_size(w: int, h: int, d: int, bw: int, bh: int, bpp: int, mips: int)
    -> int
    decreases mips,
{
    if mips <= 0 {
        0
    } else {
        mip_size(w, h, d, bw, bh, bpp) + layer_size(w / 2, h / 2, d / 2, bw, bh, bpp, mips - 1)
    }
}

/// The unpadded row-major size of a whole surface.
pub open spec fn deswizzled_size(
    w: int,
    h: int,
    d: int,
    bw: int,
    bh: int,
    bpp: int,
    mips: int,
    layers: int,
) -> int {
    layer_size(w, h, d, bw, bh, bpp, mips) * layers
}

/// Computes the unpadded row-major size of a surface: per mip level the
/// block counts round up and clamp to one, every dimension halves per
/// level, and the per-layer sum scales by the layer count.
///
/// Rejects a shape outside the supported ranges (more than 32 mips, zero
/// or oversized blocks, more than 16 bytes per block, more than six
/// layers) or whose size exceeds the 64-bit range.
pub fn deswizzled_surface_size(width: u32, height: u32, depth: u32, blk_w: u32, blk_h: u32, bpp:
    u32, mips: u32, layers: u32) -> (r: Result<u64, Xc3Error>)
    ensures
        r matches Ok(v) ==> v == deswizzled_size(width as int, height as int, depth as int,
            blk_w as int, blk_h as int, bpp as int, mips as int, layers as int),
        r matches Err(er) ==> er matches Xc3Error::InvariantViolation,
{
    if mips > 32 || bpp == 0 || bpp > 16 || blk_w == 0 || blk_w > 4 || blk_h == 0 || blk_h > 4
        || layers > 6 {
        return Err(Xc3Error::InvariantViolation);
    }
    let mut acc: u128 = 0;
    let mut cur_w: u64 = width as u64;
    let mut cur_h: u64 = height as u64;
    let mut cur_d: u64 = depth as u64;
    let mut k: u32 = 0;
    while k < mips
        invariant
            k <= mips,
            mips <= 32,
            1 <= bpp <= 16,
            1 <= blk_w <= 4,
            1 <= blk_h <= 4,
            cur_w <= u32::MAX,
            cur_h <= u32::MAX,
            cur_d <= u32::MAX,
            acc <= k * 0x20_0000_0000_0000_0000_0000_0000,
            layer_size(width as int, height as int, depth as int, blk_w as int, blk_h as int,
                bpp as int, mips as int) == acc + layer_size(cur_w as int, cur_h as int,
                cur_d as int, blk_w as int, blk_h as int, bpp as int, mips - k),
        decreases mips - k,
    {
        let tw: u128 = if cur_w == 0 {
            1
        } else {
            ((cur_w as u128 + blk_w as u128 - 1) / blk_w as u128)
        };
        let th: u128 = if cur_h == 0 {
            1
        } else {
            ((cur_h as u128 + blk_h as u128 - 1) / blk_h as u128)
        };
        let td: u128 = if cur_d == 0 {
            1
        } else {
            cur_d as u128
        };
        proof {
            let cw = cur_w as int;
            let bw = blk_w as int;
            let ch = cur_h as int;
            let bh = blk_h as int;
            vstd::arithmetic::div_mod::lemma_div_basics(bw);
            vstd::arithmetic::div_mod::lemma_div_basics(bh);
            if cur_w != 0 {
                vstd::arithmetic::div_mod::lemma_div_is_ordered(bw, cw + bw - 1, bw);
                vstd::arithmetic::div_mod::lemma_div_is_ordered_by_denominator(cw + bw - 1, 1,
                    bw);
            } else {
                vstd::arithmetic::div_mod::lemma_basic_div(bw - 1, bw);
            }
            if cur_h != 0 {
                vstd::arithmetic::div_mod::lemma_div_is_ordered(bh, ch + bh - 1, bh);
                vstd::arithmetic::div_mod::lemma_div_is_ordered_by_denominator(ch + bh - 1, 1,
                    bh);
            } else {
                vstd::arithmetic::div_mod::lemma_basic_div(bh - 1, bh);
            }
            assert(1 <= tw <= 0x1_0000_0003);
            assert(1 <= th <= 0x1_0000_0003);
            assert(1 <= td <= 0x1_0000_0000);
            vstd::arithmetic::mul::lemma_mul_upper_bound(tw as int, 0x1_0000_0003, th as int,
                0x1_0000_0003);
            vstd::arithmetic::mul::lemma_mul_upper_bound(tw as int * th as int,
                0x1_0000_0006_0000_0009, td as int, 0x1_0000_0000);
            vstd::arithmetic::mul::lemma_mul_upper_bound(tw as int * th as int * td as int,
                0x1_0000_0006_0000_0009_0000_0000, bpp as int, 16);
            vstd::arithmetic::mul::lemma_mul_nonnegative(tw as int, th as int);
            vstd::arithmetic::mul::lemma_mul_nonnegative(tw as int * th as int, td as int);
        }
        let mip: u128 = tw * th * td * (bpp as u128);
        proof {
            assert(mip_size(cur_w as int, cur_h as int, cur_d as int, blk_w as int, blk_h as int,
                bpp as int) == mip);
        }
        acc = acc + mip;
        cur_w = cur_w / 2;
        cur_h = cur_h / 2;
        cur_d = cur_d / 2;
        k += 1;
    }
    proof {
        vstd::arithmetic::mul::lemma_mul_upper_bound(acc as int,
            0x400_0000_0000_0000_0000_0000_0000, layers as int, 6);
    }
    let total: u128 = acc * (layers as u128);
    if total > u64::MAX as u128 {
        return Err(Xc3Error::InvariantViolation);
    }
    Ok(total as u64)
}

/// The size in bytes of the block-linear tiled form of a surface,
/// including GOB padding and layer alignment.
pub uninterp spec fn swizzled_size_of(
    width: u32,
    height: u32,
    depth: u32,
    block_width: u32,
    block_height: u32,
    bytes_per_pixel: u32,
    mipmap_count: u32,
    layer_count: u32,
) -> usize;

/// The row-major bytes that block-linear untiling produces from a tiled
/// surface.
pub uninterp spec fn deswizzle_of(
    width: u32,
    height: u32,
    depth: u32,
    block_width: u32,
    block_height: u32,
    bytes_per_pixel: u32,
    mipmap_count: u32,
    layer_count: u32,
    source: Seq<u8>,
) -> Seq<u8>;

/// The block-linear tiled bytes that swizzling produces from a row-major
/// surface.
pub uninterp spec fn swizzle_of(
    width: u32,
    height: u32,
    depth: u32,
    block_width: u32,
    block_height: u32,
    bytes_per_pixel: u32,
    mipmap_count: u32,
    layer_count: u32,
    source: Seq<u8>,
) -> Seq<u8>;

/// The surface dimensions overflow the 32-bit size computations.
pub open spec fn surface_overflows(width: u32, height: u32, depth: u32, bytes_per_pixel: u32,
    mipmap_count: u32) -> bool {
    width * height * depth * bytes_per_pixel > u32::MAX || width * bytes_per_pixel > u32::MAX
        || depth + depth / 2 > u32::MAX || mipmap_count > 32
}

/// Every dimension of the surface is non-zero.
pub open spec fn surface_nonzero(width: u32, height: u32, depth: u32, bytes_per_pixel: u32,
    mipmap_count: u32, layer_count: u32) -> bool {
    width > 0 && height > 0 && depth > 0 && bytes_per_pixel > 0 && mipmap_count > 0
        && layer_count > 0
}

/// The surface has work to do and its size computations stay in range.
pub open spec fn surface_valid(width: u32, height: u32, depth: u32, bytes_per_pixel: u32,
    mipmap_count: u32, layer_count: u32) -> bool {
    surface_nonzero(width, height, depth, bytes_per_pixel, mipmap_count, layer_count)
        && !surface_overflows(width, height, depth, bytes_per_pixel, mipmap_count)
}

/// A valid surface is rejected for overflowing size computations.
pub open spec fn surface_rejected(width: u32, height: u32, depth: u32, bytes_per_pixel: u32,
    mipmap_count: u32, layer_count: u32) -> bool {
    surface_nonzero(width, height, depth, bytes_per_pixel, mipmap_count, layer_count)
        && surface_overflows(width, height, depth, bytes_per_pixel, mipmap_count)
}

/// The payload's trailing padding cannot absorb the 40-byte footer, so
/// re-encoding inserts one extra 4096-byte page before it.
pub open spec fn mibl_pad_needed(m: Mibl) -> bool {
    m.image_data@.len() < swizzled_size_of(m.footer.width, m.footer.height, m.footer.depth,
        m.footer.image_format.spec_block_dim() as u32, m.footer.image_format.spec_block_dim() as u32,
        m.footer.image_format.spec_bytes_per_pixel() as u32, m.footer.mipmap_count,
        spec_layer_count(m.footer) as u32) + 40
}

/// The re-encoded texture file: the payload verbatim followed by the
/// footer, the footer replacing the last 40 padding bytes when they are
/// free, and one extra zero page inserted when they are not.
pub open spec fn mibl_file_bytes(m: Mibl) -> Seq<u8> {
    if mibl_pad_needed(m) {
        m.image_data@ + Seq::new(4056, |i: int| 0u8) + footer_bytes(m.footer)
    } else {
        m.image_data@.take(m.image_data@.len() - 40) + footer_bytes(m.footer)
    }
}

/// Relies on `tegra_swizzle::surface::swizzled_surface_size`: the result
/// depends on the arguments alone.
#[verifier::external_body]
fn swizzled_surface_size(width: u32, height: u32, depth: u32, block_width: u32, block_height:
    u32, bytes_per_pixel: u32, mipmap_count: u32, layer_count: u32) -> (r: usize)
    requires
        block_width > 0,
        block_height > 0,
        !surface_overflows(width, height, depth, bytes_per_pixel, mipmap_count),
        layer_count <= 6,
    ensures
        r == swizzled_size_of(width, height, depth, block_width, block_height, bytes_per_pixel,
            mipmap_count, layer_count),
{
    let dim = tegra_swizzle::surface::BlockDim {
        width: core::num::NonZeroU32::new(block_width).unwrap(),
        height: core::num::NonZeroU32::new(block_height).unwrap(),
        depth: core::num::NonZeroU32::new(1).unwrap(),
    };
    tegra_swizzle::surface::swizzled_surface_size(width, height, depth, dim, None, bytes_per_pixel, mipmap_count, layer_count)
}

/// Relies on `tegra_swizzle::surface::deswizzle_surface`: zero-sized
/// surfaces untile to nothing; otherwise, with enough tiled bytes, the
/// result is the row-major form of the source with the unpadded length,
/// a too-short source is rejected with the required size, and dimensions
/// whose size computation overflows are rejected.
#[verifier::external_body]
fn deswizzle_surface(
    width: u32,
    height: u32,
    depth: u32,
    source: &Vec<u8>,
    block_width: u32,
    block_height: u32,
    bytes_per_pixel: u32,
    mipmap_count: u32,
    layer_count: u32,
) -> (r: Result<Vec<u8>, Xc3Error>)
    requires
        block_width > 0,
        block_height > 0,
        layer_count <= 6,
        bytes_per_pixel <= 16,
    ensures
        r matches Ok(v) ==> (!surface_nonzero(width, height, depth, bytes_per_pixel, mipmap_count, layer_count) ==> v@ == Seq::<u8>::empty()),
        r matches Ok(v) ==> (surface_nonzero(width, height, depth, bytes_per_pixel, mipmap_count, layer_count) ==> v@ == deswizzle_of(width, height, depth, block_width, block_height, bytes_per_pixel, mipmap_count, layer_count, source@) && v@.len() == deswizzled_size(width as int, height as int, depth as int, block_width as int, block_height as int, bytes_per_pixel as int, mipmap_count as int, layer_count as int)),
        r is Err ==> surface_nonzero(width, height, depth, bytes_per_pixel, mipmap_count, layer_count) && (surface_overflows(width, height, depth, bytes_per_pixel, mipmap_count) || source@.len() < swizzled_size_of(width, height, depth, block_width, block_height, bytes_per_pixel, mipmap_count, layer_count)),
        r matches Err(er) ==> er matches Xc3Error::InvariantViolation || er == (Xc3Error::SwizzleSizeMismatch { expected_size: swizzled_size_of(width, height, depth, block_width, block_height, bytes_per_pixel, mipmap_count, layer_count), actual_size: source@.len() as usize }),
{
    let dim = tegra_swizzle::surface::BlockDim {
        width: core::num::NonZeroU32::new(block_width).unwrap(),
        height: core::num::NonZeroU32::new(block_height).unwrap(),
        depth: core::num::NonZeroU32::new(1).unwrap(),
    };
    match tegra_swizzle::surface::deswizzle_surface(width, height, depth, source, dim, None, bytes_per_pixel, mipmap_count, layer_count) {
        Ok(v) => Ok(v),
        Err(tegra_swizzle::SwizzleError::NotEnoughData { expected_size, actual_size }) => Err(Xc3Error::SwizzleSizeMismatch { expected_size, actual_size }),
        Err(tegra_swizzle::SwizzleError::InvalidSurface { .. }) => Err(Xc3Error::InvariantViolation),
    }
}

/// Relies on `tegra_swizzle::surface::swizzle_surface`: zero-sized
/// surfaces tile to nothing; otherwise, with enough row-major bytes, the
/// result is the tiled form of the source with the padded tiled length, a
/// too-short source is rejected with the required size, and dimensions
/// whose size computation overflows are rejected.
#[verifier::external_body]
fn swizzle_surface(
    width: u32,
    height: u32,
    depth: u32,
    source: &Vec<u8>,
    block_width: u32,
    block_height: u32,
    bytes_per_pixel: u32,
    mipmap_count: u32,
    layer_count: u32,
) -> (r: Result<Vec<u8>, Xc3Error>)
    requires
        block_width > 0,
        block_height > 0,
        layer_count <= 6,
        bytes_per_pixel <= 16,
    ensures
        r matches Ok(v) ==> (!surface_nonzero(width, height, depth, bytes_per_pixel, mipmap_count, layer_count) ==> v@ == Seq::<u8>::empty()),
        r matches Ok(v) ==> (surface_nonzero(width, height, depth, bytes_per_pixel, mipmap_count, layer_count) ==> v@ == swizzle_of(width, height, depth, block_width, block_height, bytes_per_pixel, mipmap_count, layer_count, source@) && v@.len() == swizzled_size_of(width, height, depth, block_width, block_height, bytes_per_pixel, mipmap_count, layer_count)),
        r is Err ==> surface_nonzero(width, height, depth, bytes_per_pixel, mipmap_count, layer_count) && (surface_overflows(width, height, depth, bytes_per_pixel, mipmap_count) || source@.len() < deswizzled_size(width as int, height as int, depth as int, block_width as int, block_height as int, bytes_per_pixel as int, mipmap_count as int, layer_count as int)),
        r matches Err(er) ==> er matches Xc3Error::InvariantViolation || er matches Xc3Error::SwizzleSizeMismatch { .. },
{
    let dim = tegra_swizzle::surface::BlockDim {
        width: core::num::NonZeroU32::new(block_width).unwrap(),
        height: core::num::NonZeroU32::new(block_height).unwrap(),
        depth: core::num::NonZeroU32::new(1).unwrap(),
    };
    match tegra_swizzle::surface::swizzle_surface(width, height, depth, source, dim, None, bytes_per_pixel, mipmap_count, layer_count) {
        Ok(v) => Ok(v),
        Err(tegra_swizzle::SwizzleError::NotEnoughData { expected_size, actual_size }) => Err(Xc3Error::SwizzleSizeMismatch { expected_size, actual_size }),
        Err(tegra_swizzle::SwizzleError::InvalidSurface { .. }) => Err(Xc3Error::InvariantViolation),
    }
}

impl Mibl {
    /// Tiles a dense row-major surface into a fresh texture container.
    ///
    /// The payload is the block-linear form of the surface padded to a
    /// whole 4096-byte page, and the footer records the padded size.
    pub fn from_surface(deswizzled: &Vec<u8>, footer: MiblFooter) -> (r: Result<Mibl, Xc3Error>)
        ensures
            r matches Ok(m) ==> {
                &&& m.footer.width == footer.width
                &&& m.footer.height == footer.height
                &&& m.footer.depth == footer.depth
                &&& m.footer.view_dimension == footer.view_dimension
                &&& m.footer.image_format == footer.image_format
                &&& m.footer.mipmap_count == footer.mipmap_count
                &&& m.footer.image_size == m.image_data@.len()
                &&& m.image_data@.len() as int % 4096 == 0
                &&& (surface_nonzero(footer.width, footer.height, footer.depth,
                    footer.image_format.spec_bytes_per_pixel() as u32, footer.mipmap_count,
                    spec_layer_count(footer) as u32) ==> m.image_data@.subrange(0,
                    swizzled_size_of(footer.width, footer.height, footer.depth,
                    footer.image_format.spec_block_dim() as u32,
                    footer.image_format.spec_block_dim() as u32,
                    footer.image_format.spec_bytes_per_pixel() as u32, footer.mipmap_count,
                    spec_layer_count(footer) as u32) as int) == swizzle_of(footer.width,
                    footer.height, footer.depth, footer.image_format.spec_block_dim() as u32,
                    footer.image_format.spec_block_dim() as u32,
                    footer.image_format.spec_bytes_per_pixel() as u32, footer.mipmap_count,
                    spec_layer_count(footer) as u32, deswizzled@))
            },
            ({
                let bpp = footer.image_format.spec_bytes_per_pixel() as u32;
                let blk = footer.image_format.spec_block_dim() as u32;
                let layers = spec_layer_count(footer) as u32;
                &&& surface_valid(footer.width, footer.height, footer.depth, bpp,
                    footer.mipmap_count, layers)
                &&& deswizzled@.len() >= deswizzled_size(footer.width as int, footer.height as int,
                    footer.depth as int, blk as int, blk as int, bpp as int,
                    footer.mipmap_count as int, layers as int)
                &&& swizzled_size_of(footer.width, footer.height, footer.depth, blk, blk, bpp,
                    footer.mipmap_count, layers) + 4096 < u32::MAX
            }) ==> r is Ok,
            !surface_nonzero(footer.width, footer.height, footer.depth,
                footer.image_format.spec_bytes_per_pixel() as u32, footer.mipmap_count,
                spec_layer_count(footer) as u32) ==> r is Ok,
    {
        let (blk_w, blk_h) = footer.image_format.block_dim();
        let bpp = footer.image_format.bytes_per_pixel() as u32;
        let layers: u32 = match footer.view_dimension {
            ViewDimension::Cube => 6,
            _ => 1,
        };
        let mut image_data = match swizzle_surface(footer.width, footer.height, footer.depth,
            deswizzled, blk_w, blk_h, bpp, footer.mipmap_count, layers) {
            Ok(v) => v,
            Err(er) => {
                return Err(er);
            }
        };
        let ghost tiled = image_data@;
        if image_data.len() >= usize::MAX - 4096 {
            return Err(Xc3Error::InvariantViolation);
        }
        crate::cursor::align_to(&mut image_data, 4096);
        if image_data.len() as u64 > u32::MAX as u64 {
            return Err(Xc3Error::InvariantViolation);
        }
        proof {
            assert(image_data@.subrange(0, tiled.len() as int) =~= tiled);
        }
        let mut new_footer = footer;
        new_footer.image_size = image_data.len() as u32;
        Ok(Mibl { image_data, footer: new_footer })
    }

    /// Untiles every layer and mip level into a dense row-major surface.
    ///
    /// A cube view yields six layers. On success the output is the
    /// untiled form of the payload and its length is the unpadded
    /// row-major surface size.
    pub fn deswizzled_image_data(&self) -> (r: Result<Vec<u8>, Xc3Error>)
        ensures
            r matches Ok(v) ==> {
                let f = self.footer;
                let blk = f.image_format.spec_block_dim() as u32;
                let bpp = f.image_format.spec_bytes_per_pixel() as u32;
                let layers = spec_layer_count(f) as u32;
                surface_nonzero(f.width, f.height, f.depth, bpp, f.mipmap_count, layers) ==> (
                v@ == deswizzle_of(f.width, f.height, f.depth, blk, blk, bpp, f.mipmap_count,
                    layers, self.image_data@) && v@.len() == deswizzled_size(f.width as int,
                    f.height as int, f.depth as int, blk as int, blk as int, bpp as int,
                    f.mipmap_count as int, layers as int))
            },
            ({
                let f = self.footer;
                let blk = f.image_format.spec_block_dim() as u32;
                let bpp = f.image_format.spec_bytes_per_pixel() as u32;
                let layers = spec_layer_count(f) as u32;
                surface_valid(f.width, f.height, f.depth, bpp, f.mipmap_count, layers)
                    && self.image_data@.len() >= swizzled_size_of(f.width, f.height, f.depth, blk,
                    blk, bpp, f.mipmap_count, layers)
            }) ==> r is Ok,
            !surface_nonzero(self.footer.width, self.footer.height, self.footer.depth,
                self.footer.image_format.spec_bytes_per_pixel() as u32, self.footer.mipmap_count,
                spec_layer_count(self.footer) as u32) ==> r is Ok,
    {
        let (blk_w, blk_h) = self.footer.image_format.block_dim();
        let bpp = self.footer.image_format.bytes_per_pixel() as u32;
        let layers = self.layer_count();
        deswizzle_surface(self.footer.width, self.footer.height, self.footer.depth,
            &self.image_data, blk_w, blk_h, bpp, self.footer.mipmap_count, layers)
    }

    /// Untiles a separately streamed base mip at double this texture's
    /// size, then appends this texture's untiled mip chain; row-major
    /// surfaces concatenate with no alignment between them.
    pub fn deswizzle_image_data_base_mip(&self, base_mip_level: &Vec<u8>) -> (r: Result<Vec<u8>,
        Xc3Error>)
        ensures
            r matches Ok(v) ==> {
                let f = self.footer;
                let blk = f.image_format.spec_block_dim() as u32;
                let bpp = f.image_format.spec_bytes_per_pixel() as u32;
                let layers = spec_layer_count(f) as u32;
                (surface_nonzero(f.width, f.height, f.depth, bpp, f.mipmap_count, layers)
                    && f.width * 2 <= u32::MAX && f.height * 2 <= u32::MAX) ==> v@
                    == deswizzle_of((f.width * 2) as u32, (f.height * 2) as u32, f.depth, blk,
                    blk, bpp, 1, layers, base_mip_level@) + deswizzle_of(f.width, f.height,
                    f.depth, blk, blk, bpp, f.mipmap_count, layers, self.image_data@)
                    && v@.len() == deswizzled_size((f.width * 2) as int, (f.height * 2) as int,
                    f.depth as int, blk as int, blk as int, bpp as int, 1, layers as int)
                    + deswizzled_size(f.width as int, f.height as int, f.depth as int, blk as int,
                    blk as int, bpp as int, f.mipmap_count as int, layers as int)
            },
            ({
                let f = self.footer;
                let blk = f.image_format.spec_block_dim() as u32;
                let bpp = f.image_format.spec_bytes_per_pixel() as u32;
                let layers = spec_layer_count(f) as u32;
                &&& f.width * 2 <= u32::MAX
                &&& f.height * 2 <= u32::MAX
                &&& surface_valid((f.width * 2) as u32, (f.height * 2) as u32, f.depth, bpp, 1,
                    layers)
                &&& base_mip_level@.len() >= swizzled_size_of((f.width * 2) as u32, (f.height
                    * 2) as u32, f.depth, blk, blk, bpp, 1, layers)
                &&& surface_valid(f.width, f.height, f.depth, bpp, f.mipmap_count, layers)
                &&& self.image_data@.len() >= swizzled_size_of(f.width, f.height, f.depth, blk,
                    blk, bpp, f.mipmap_count, layers)
            }) ==> r is Ok,
    {
        if self.footer.width as u64 * 2 > u32::MAX as u64 || self.footer.height as u64 * 2
            > u32::MAX as u64 {
            return Err(Xc3Error::InvariantViolation);
        }
        let (blk_w, blk_h) = self.footer.image_format.block_dim();
        let bpp = self.footer.image_format.bytes_per_pixel() as u32;
        let layers = self.layer_count();
        let mut base = match deswizzle_surface(self.footer.width * 2, self.footer.height * 2,
            self.footer.depth, base_mip_level, blk_w, blk_h, bpp, 1, layers) {
            Ok(v) => v,
            Err(er) => {
                return Err(er);
            }
        };
        let rest = match self.deswizzled_image_data() {
            Ok(v) => v,
            Err(er) => {
                return Err(er);
            }
        };
        let mut i: usize = 0;
        let ghost base0 = base@;
        while i < rest.len()
            invariant
                i <= rest@.len(),
                base@ =~= base0 + rest@.take(i as int),
            decreases rest@.len() - i,
        {
            base.push(rest[i]);
            i += 1;
        }
        proof {
            assert(rest@.take(rest@.len() as int) =~= rest@);
        }
        Ok(base)
    }

    /// Re-encodes the texture file: the tiled payload, extra padding when
    /// the footer cannot fit in the payload's trailing padding, and the
    /// 40-byte footer over the final bytes.
    ///
    /// Succeeds whenever the footer's size computations stay in range; the
    /// output is pinned byte for byte by `mibl_file_bytes`.
    #[verifier::rlimit(100)]
    pub fn write(&self) -> (r: Result<Vec<u8>, Xc3Error>)
        ensures
            r matches Ok(v) ==> v@ == mibl_file_bytes(*self),
            r matches Ok(v) ==> v@.len() >= 40 && v@.subrange(v@.len() - 40, v@.len() as int)
                =~= footer_bytes(self.footer),
            (!surface_overflows(self.footer.width, self.footer.height, self.footer.depth,
                self.footer.image_format.spec_bytes_per_pixel() as u32, self.footer.mipmap_count)
                && self.image_data@.len() + 4096 < usize::MAX) ==> r is Ok,
    {
        let f = &self.footer;
        let (blk_w, blk_h) = f.image_format.block_dim();
        let bpp = f.image_format.bytes_per_pixel() as u32;
        let layers = self.layer_count();
        proof {
            assert(bpp <= 16);
        }
        proof {
            vstd::arithmetic::mul::lemma_mul_upper_bound(f.width as int, 0xffff_ffff,
                f.height as int, 0xffff_ffff);
            vstd::arithmetic::mul::lemma_mul_nonnegative(f.width as int, f.height as int);
        }
        let wh: u128 = (f.width as u128) * (f.height as u128);
        proof {
            vstd::arithmetic::mul::lemma_mul_upper_bound(wh as int, 0xffff_fffe_0000_0001,
                f.depth as int, 0xffff_ffff);
            vstd::arithmetic::mul::lemma_mul_nonnegative(wh as int, f.depth as int);
        }
        let whd: u128 = wh * (f.depth as u128);
        proof {
            assert(0xffff_fffe_0000_0001int * 0xffff_ffffint == 0xffff_fffd_0000_0002_ffff_ffffint)
                by (nonlinear_arith);
            vstd::arithmetic::mul::lemma_mul_upper_bound(whd as int,
                0xffff_fffd_0000_0002_ffff_ffff, bpp as int, 16);
        }
        let whdb: u128 = whd * (bpp as u128);
        proof {
            vstd::arithmetic::mul::lemma_mul_upper_bound(f.width as int, 0xffff_ffff, bpp as int,
                16);
            vstd::arithmetic::mul::lemma_mul_nonnegative(f.width as int, bpp as int);
        }
        let wb: u128 = (f.width as u128) * (bpp as u128);
        if whdb > u32::MAX as u128 || wb > u32::MAX as u128 || (f.depth as u64) + (f.depth
            as u64) / 2 > u32::MAX as u64 || f.mipmap_count > 32 {
            return Err(Xc3Error::InvariantViolation);
        }
        let unaligned_size = swizzled_surface_size(f.width, f.height, f.depth, blk_w, blk_h, bpp,
            f.mipmap_count, layers);

        let mut out: Vec<u8> = Vec::new();
        let mut i: usize = 0;
        while i < self.image_data.len()
            invariant
                i <= self.image_data@.len(),
                out@ =~= self.image_data@.take(i as int),
            decreases self.image_data@.len() - i,
        {
            out.push(self.image_data[i]);
            i += 1;
        }

        proof {
            assert(out@ =~= self.image_data@);
        }

        // Fit the footer inside the trailing padding when possible;
        // otherwise add one more page of padding.
        let ghost padded = mibl_pad_needed(*self);
        if self.image_data.len() < unaligned_size || self.image_data.len() - unaligned_size < 40
         {
            proof {
                assert(padded);
            }
            if out.len() >= usize::MAX - 4096 {
                return Err(Xc3Error::InvariantViolation);
            }
            let mut p: usize = 0;
            while p < 4096
                invariant
                    p <= 4096,
                    out@.len() == self.image_data@.len() + p,
                    out@ =~= self.image_data@ + Seq::new(p as nat, |j: int| 0u8),
                decreases 4096 - p,
            {
                out.push(0);
                proof {
                    assert(out@ =~= self.image_data@ + Seq::new((p + 1) as nat, |j: int| 0u8));
                }
                p += 1;
            }
        } else {
            proof {
                assert(!padded);
            }
        }
        if out.len() < 40 {
            return Err(Xc3Error::InvariantViolation);
        }
        let keep = out.len() - 40;
        let mut result: Vec<u8> = Vec::new();
        let mut q: usize = 0;
        while q < keep
            invariant
                q <= keep,
                keep + 40 == out@.len(),
                result@ =~= out@.take(q as int),
            decreases keep - q,
        {
            result.push(out[q]);
            q += 1;
        }
        self.footer.write(&mut result);
        proof {
            lemma_footer_round_trip(self.footer);
            assert(result@ =~= out@.take(keep as int) + footer_bytes(self.footer));
            if padded {
                assert(out@.take(keep as int) =~= self.image_data@ + Seq::new(4056,
                    |i: int| 0u8));
            } else {
                assert(out@.take(keep as int) =~= self.image_data@.take(
                    self.image_data@.len() - 40));
            }
            assert(result@ =~= mibl_file_bytes(*self));
            assert(result@.subrange(result@.len() - 40, result@.len() as int) =~= footer_bytes(
                self.footer));
        }
        Ok(result)
    }
}

} // verus!
