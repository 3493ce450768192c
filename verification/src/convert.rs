//! Single-texture stream conversion: unwrapping a texture from its
//! compressed chunk and packing one back up.
use vstd::prelude::*;

use crate::cursor::{u32_at, Endian};
use crate::error::Xc3Error;
use crate::mibl::{
    mibl_file_bytes, spec_image_format_code, spec_view_dimension_code, surface_overflows, Mibl,
};
use crate::xbc1::{xbc1_magic_at, zlib_deflate, zlib_inflate, Xbc1};

verus! {

/// The texture value decodes from the file bytes `d`: the payload is the
/// leading `image_size` bytes and every footer field matches the trailing
/// 40 bytes.
pub open spec fn mibl_parsed_from(d: Seq<u8>, m: Mibl) -> bool {
    &&& d.len() >= 40
    &&& crate::mibl::lbim_magic_at(d, d.len() - 4)
    &&& m.footer.image_size == u32_at(d, d.len() - 40, Endian::Little)
    &&& m.footer.image_size <= d.len()
    &&& m.image_data@ == d.subrange(0, m.footer.image_size as int)
    &&& m.footer.unk == u32_at(d, d.len() - 36, Endian::Little)
    &&& m.footer.width == u32_at(d, d.len() - 32, Endian::Little)
    &&& m.footer.height == u32_at(d, d.len() - 28, Endian::Little)
    &&& m.footer.depth == u32_at(d, d.len() - 24, Endian::Little)
    &&& spec_view_dimension_code(m.footer.view_dimension) == u32_at(d, d.len() - 20,
        Endian::Little)
    &&& spec_image_format_code(m.footer.image_format) == u32_at(d, d.len() - 16, Endian::Little)
    &&& m.footer.mipmap_count == u32_at(d, d.len() - 12, Endian::Little)
    &&& m.footer.version == u32_at(d, d.len() - 8, Endian::Little)
}

/// Re-encoding a texture decoded from a canonical file reproduces the
/// file byte for byte: when the payload covers the whole file and its
/// trailing padding absorbs the footer, the re-encoded bytes equal the
/// input, so packing the texture back into a chunk yields a stream that
/// decompresses to the original file.
pub proof fn lemma_mibl_write_identity(data: Seq<u8>, m: Mibl)
    requires
        mibl_parsed_from(data, m),
        m.footer.image_size == data.len(),
        !crate::mibl::mibl_pad_needed(m),
    ensures
        crate::mibl::mibl_file_bytes(m) == data,
{
    let n = data.len() as int;
    let base = n - 40;
    assert(m.image_data@ =~= data);
    crate::cursor::lemma_dec32_enc(data, base, Endian::Little);
    crate::cursor::lemma_dec32_enc(data, base + 4, Endian::Little);
    crate::cursor::lemma_dec32_enc(data, base + 8, Endian::Little);
    crate::cursor::lemma_dec32_enc(data, base + 12, Endian::Little);
    crate::cursor::lemma_dec32_enc(data, base + 16, Endian::Little);
    crate::cursor::lemma_dec32_enc(data, base + 20, Endian::Little);
    crate::cursor::lemma_dec32_enc(data, base + 24, Endian::Little);
    crate::cursor::lemma_dec32_enc(data, base + 28, Endian::Little);
    crate::cursor::lemma_dec32_enc(data, base + 32, Endian::Little);
    assert(crate::cursor::enc32(m.footer.image_size as int, Endian::Little) == data.subrange(
        base, base + 4));
    assert(crate::cursor::enc32(m.footer.unk as int, Endian::Little) == data.subrange(base + 4,
        base + 8));
    assert(crate::cursor::enc32(m.footer.width as int, Endian::Little) == data.subrange(base + 8,
        base + 12));
    assert(crate::cursor::enc32(m.footer.height as int, Endian::Little) == data.subrange(base
        + 12, base + 16));
    assert(crate::cursor::enc32(m.footer.depth as int, Endian::Little) == data.subrange(base
        + 16, base + 20));
    assert(crate::cursor::enc32(spec_view_dimension_code(m.footer.view_dimension),
        Endian::Little) == data.subrange(base + 20, base + 24));
    assert(crate::cursor::enc32(spec_image_format_code(m.footer.image_format), Endian::Little)
        == data.subrange(base + 24, base + 28));
    assert(crate::cursor::enc32(m.footer.mipmap_count as int, Endian::Little) == data.subrange(
        base + 28, base + 32));
    assert(crate::cursor::enc32(m.footer.version as int, Endian::Little) == data.subrange(base
        + 32, base + 36));
    assert(seq![76u8, 66u8, 73u8, 77u8] =~= data.subrange(base + 36, n));
    assert(crate::mibl::footer_bytes(m.footer) =~= data.subrange(base, n));
    assert(crate::mibl::mibl_file_bytes(m) =~= m.image_data@.take(m.image_data@.len() - 40)
        + crate::mibl::footer_bytes(m.footer));
    assert(crate::mibl::mibl_file_bytes(m) =~= data);
}

/// Unwraps the single texture stored in a compressed chunk: the chunk is
/// decompressed to its declared size and the payload decoded as a texture
/// file.
///
/// On success the chunk's stream decompresses to a texture file whose
/// bytes the result decodes exactly.
pub fn read_wismt_single_tex(data: &Vec<u8>) -> (r: Result<Mibl, Xc3Error>)
    ensures
        r matches Ok(m) ==> {
            let csize = u32_at(data@, 12, Endian::Little);
            let dsize = u32_at(data@, 8, Endian::Little);
            let stream = data@.subrange(48, 48 + csize);
            &&& data@.len() >= 48
            &&& xbc1_magic_at(data@, 0)
            &&& 48 + csize <= data@.len()
            &&& dsize > 0
            &&& zlib_inflate(stream) matches Some(d) && d.len() == dsize && mibl_parsed_from(d,
                m)
        },
{
    let xbc1 = match Xbc1::from_bytes(data) {
        Ok(x) => x,
        Err(er) => {
            return Err(er);
        }
    };
    let bytes = match xbc1.decompress() {
        Ok(b) => b,
        Err(er) => {
            return Err(er);
        }
    };
    Mibl::from_bytes(&bytes)
}

/// Packs a texture into a compressed chunk under the stream's
/// conventional name.
///
/// The chunk's stream decompresses back to exactly the texture file
/// bytes, so unwrapping the chunk recovers the texture.
pub fn create_wismt_single_tex(mibl: &Mibl) -> (r: Result<Xbc1, Xc3Error>)
    ensures
        r matches Ok(x) ==> {
            &&& x.decompressed_size == mibl_file_bytes(*mibl).len()
            &&& x.compressed_stream@ == zlib_deflate(mibl_file_bytes(*mibl))
            &&& zlib_inflate(x.compressed_stream@) == Some(mibl_file_bytes(*mibl))
            &&& x.unk1 == 1u32
        },
        (!surface_overflows(mibl.footer.width, mibl.footer.height, mibl.footer.depth,
            mibl.footer.image_format.spec_bytes_per_pixel() as u32, mibl.footer.mipmap_count)
            && mibl.image_data@.len() + 4096 < usize::MAX && mibl_file_bytes(*mibl).len()
            <= u32::MAX) ==> r is Ok,
{
    let bytes = match mibl.write() {
        Ok(b) => b,
        Err(er) => {
            return Err(er);
        }
    };
    let mut name: Vec<u8> = Vec::new();
    name.push(98);
    name.push(50);
    name.push(48);
    name.push(54);
    name.push(50);
    name.push(51);
    name.push(54);
    name.push(55);
    name.push(95);
    name.push(109);
    name.push(105);
    name.push(100);
    name.push(100);
    name.push(108);
    name.push(101);
    name.push(46);
    name.push(119);
    name.push(105);
    name.push(116);
    name.push(120);
    Xbc1::from_decompressed(name, &bytes)
}

} // verus!
