//! The self-describing compressed chunk that wraps most streamed
//! sub-resources: a little-endian magic, the decompressed and compressed
//! sizes, an opportunistic checksum, a fixed-size name, and a
//! zlib-compressed payload.
use std::io::Read;

use vstd::prelude::*;

use crate::cursor::{enc32, u32_at, Endian};
use crate::error::Xc3Error;

verus! {

/// What decompressing a zlib stream produces, or nothing when the stream
/// is malformed.
pub uninterp spec fn zlib_inflate(data: Seq<u8>) -> Option<Seq<u8>>;

/// The zlib stream this crate's compressor produces for a payload.
pub uninterp spec fn zlib_deflate(data: Seq<u8>) -> Seq<u8>;

/// Relies on `flate2::bufread::ZlibDecoder`: the decompressed bytes
/// depend on the input stream alone, and a malformed stream is reported
/// rather than decoded.
#[verifier::external_body]
fn inflate(data: &Vec<u8>) -> (r: Option<Vec<u8>>)
    ensures
        r matches Some(v) ==> zlib_inflate(data@) == Some(v@),
        r is None ==> zlib_inflate(data@) is None,
{
    let mut out = Vec::new();
    match flate2::bufread::ZlibDecoder::new(&data[..]).read_to_end(&mut out) {
        Ok(_) => Some(out),
        Err(_) => None,
    }
}

/// Relies on `flate2::bufread::ZlibEncoder`: compression always succeeds,
/// depends on the payload alone, and decompressing the produced stream
/// gives the payload back.
#[verifier::external_body]
fn deflate(data: &Vec<u8>) -> (r: Vec<u8>)
    ensures
        r@ == zlib_deflate(data@),
        zlib_inflate(r@) == Some(data@),
{
    let mut out = Vec::new();
    let mut encoder = flate2::bufread::ZlibEncoder::new(&data[..],
        flate2::Compression::default());
    match encoder.read_to_end(&mut out) {
        Ok(_) => out,
        Err(_) => out,
    }
}

/// A compressed chunk: header fields plus the compressed payload kept
/// verbatim.
#[derive(Clone, Debug, PartialEq, Eq)]
pub struct Xbc1 {
    pub unk1: u32,
    /// The exact byte count the payload decompresses to.
    pub decompressed_size: u32,
    /// Checksum of the decompressed bytes; validated opportunistically,
    /// never recomputed.
    pub decompressed_hash: u32,
    /// The chunk's name, NUL padded into 28 bytes on disk.
    pub name: Vec<u8>,
    /// The zlib stream, kept verbatim for byte-exact re-encoding.
    pub compressed_stream: Vec<u8>,
}

/// The first 28 bytes of a name, NUL padded.
pub open spec fn name28(s: Seq<u8>) -> Seq<u8> {
    Seq::new(28, |i: int| if i < s.len() {
        s[i]
    } else {
        0u8
    })
}

/// The byte encoding of a chunk: magic, three scalars, hash, padded name,
/// then the compressed stream.
pub open spec fn xbc1_bytes(x: Xbc1) -> Seq<u8> {
    seq![120u8, 98u8, 99u8, 49u8] + enc32(x.unk1 as int, Endian::Little) + enc32(
        x.decompressed_size as int, Endian::Little) + enc32(x.compressed_stream@.len() as int,
        Endian::Little) + enc32(x.decompressed_hash as int, Endian::Little) + name28(x.name@)
        + x.compressed_stream@
}

/// The magic `xbc1` is present at byte offset `i`.
pub open spec fn xbc1_magic_at(data: Seq<u8>, i: int) -> bool {
    data[i] == 120 && data[i + 1] == 98 && data[i + 2] == 99 && data[i + 3] == 49
}

impl Xbc1 {
    /// Decodes a chunk that starts at `offset`.
    ///
    /// Fails with the available byte count when the header or payload
    /// runs past the end, and with a magic mismatch when the leading
    /// magic is absent.
    pub fn from_bytes_at(data: &Vec<u8>, offset: usize) -> (r: Result<Xbc1, Xc3Error>)
        ensures
            r matches Ok(x) ==> {
                &&& offset + 48 <= data.len()
                &&& offset + 48 + u32_at(data@, offset + 12, Endian::Little) <= data.len()
                &&& xbc1_magic_at(data@, offset as int)
                &&& x.unk1 == u32_at(data@, offset + 4, Endian::Little)
                &&& x.decompressed_size == u32_at(data@, offset + 8, Endian::Little)
                &&& x.compressed_stream@.len() == u32_at(data@, offset + 12, Endian::Little)
                &&& x.decompressed_hash == u32_at(data@, offset + 16, Endian::Little)
                &&& x.name@ == data@.subrange(offset + 20, offset + 48)
                &&& x.compressed_stream@ == data@.subrange(offset + 48, offset + 48 + u32_at(
                    data@, offset + 12, Endian::Little))
            },
            (offset + 48 <= data.len() && xbc1_magic_at(data@, offset as int) && offset + 48
                + u32_at(data@, offset + 12, Endian::Little) <= data.len()) ==> r is Ok,
    {
        let e = Endian::Little;
        if offset >= data.len() || data.len() - offset < 48 {
            return Err(Xc3Error::UnexpectedEof { requested: 48, available: data.len() });
        }
        let m0 = data[offset];
        let m1 = data[offset + 1];
        let m2 = data[offset + 2];
        let m3 = data[offset + 3];
        if m0 != 120 || m1 != 98 || m2 != 99 || m3 != 49 {
            let actual = m0 as u32 + (m1 as u32) * 0x100 + (m2 as u32) * 0x10000 + (m3 as u32)
                * 0x1000000;
            return Err(Xc3Error::MagicMismatch { expected: 0x31636278, actual, offset });
        }
        let unk1 = crate::vertex::read_u32_in_pub(data, offset + 4, e);
        let decompressed_size = crate::vertex::read_u32_in_pub(data, offset + 8, e);
        let compressed_size = crate::vertex::read_u32_in_pub(data, offset + 12, e);
        let decompressed_hash = crate::vertex::read_u32_in_pub(data, offset + 16, e);
        let mut name: Vec<u8> = Vec::new();
        let mut i: usize = 0;
        while i < 28
            invariant
                i <= 28,
                offset + 48 <= data@.len(),
                data@.len() <= usize::MAX,
                name@ =~= data@.subrange(offset + 20, offset + 20 + i),
            decreases 28 - i,
        {
            proof {
                assert(data@.subrange(offset + 20, offset + 20 + i + 1) =~= data@.subrange(
                    offset + 20, offset + 20 + i) + seq![data@[offset + 20 + i]]);
            }
            name.push(data[offset + 20 + i]);
            i += 1;
        }
        if (compressed_size as u64) > (data.len() - offset - 48) as u64 {
            return Err(Xc3Error::UnexpectedEof {
                requested: compressed_size as usize,
                available: data.len() - offset - 48,
            });
        }
        let mut compressed_stream: Vec<u8> = Vec::new();
        let mut j: usize = 0;
        let csize = compressed_size as usize;
        while j < csize
            invariant
                j <= csize,
                offset + 48 + csize <= data@.len(),
                data@.len() <= usize::MAX,
                compressed_stream@ =~= data@.subrange(offset + 48, offset + 48 + j),
            decreases csize - j,
        {
            proof {
                assert(data@.subrange(offset + 48, offset + 48 + j + 1) =~= data@.subrange(
                    offset + 48, offset + 48 + j) + seq![data@[offset + 48 + j]]);
            }
            compressed_stream.push(data[offset + 48 + j]);
            j += 1;
        }
        Ok(Xbc1 { unk1, decompressed_size, decompressed_hash, name, compressed_stream })
    }

    /// Decodes a chunk that fills the input from its first byte.
    pub fn from_bytes(data: &Vec<u8>) -> (r: Result<Xbc1, Xc3Error>)
        ensures
            r matches Ok(x) ==> {
                &&& data.len() >= 48
                &&& 48 + u32_at(data@, 12, Endian::Little) <= data.len()
                &&& xbc1_magic_at(data@, 0)
                &&& x.unk1 == u32_at(data@, 4, Endian::Little)
                &&& x.decompressed_size == u32_at(data@, 8, Endian::Little)
                &&& x.compressed_stream@.len() == u32_at(data@, 12, Endian::Little)
                &&& x.decompressed_hash == u32_at(data@, 16, Endian::Little)
                &&& x.name@ == data@.subrange(20, 48)
                &&& x.compressed_stream@ == data@.subrange(48, 48 + u32_at(data@, 12,
                    Endian::Little))
            },
            (data.len() >= 48 && xbc1_magic_at(data@, 0) && 48 + u32_at(data@, 12,
                Endian::Little) <= data.len()) ==> r is Ok,
    {
        Self::from_bytes_at(data, 0)
    }

    /// Appends the byte encoding of the chunk.
    pub fn write_to(&self, out: &mut Vec<u8>)
        requires
            self.compressed_stream@.len() <= u32::MAX,
        ensures
            final(out)@ =~= old(out)@ + xbc1_bytes(*self),
    {
        let e = Endian::Little;
        out.push(120);
        out.push(98);
        out.push(99);
        out.push(49);
        crate::cursor::push_u32(out, self.unk1, e);
        crate::cursor::push_u32(out, self.decompressed_size, e);
        crate::cursor::push_u32(out, self.compressed_stream.len() as u32, e);
        crate::cursor::push_u32(out, self.decompressed_hash, e);
        let mut i: usize = 0;
        let ghost before_name = out@;
        while i < 28
            invariant
                i <= 28,
                out@ =~= before_name + name28(self.name@).take(i as int),
            decreases 28 - i,
        {
            proof {
                assert(name28(self.name@).take(i as int + 1) =~= name28(self.name@).take(
                    i as int) + seq![name28(self.name@)[i as int]]);
            }
            if i < self.name.len() {
                out.push(self.name[i]);
            } else {
                out.push(0);
            }
            i += 1;
        }
        proof {
            assert(name28(self.name@).take(28) =~= name28(self.name@));
        }
        let mut j: usize = 0;
        let ghost before_stream = out@;
        while j < self.compressed_stream.len()
            invariant
                j <= self.compressed_stream@.len(),
                out@ =~= before_stream + self.compressed_stream@.take(j as int),
            decreases self.compressed_stream@.len() - j,
        {
            out.push(self.compressed_stream[j]);
            j += 1;
        }
        proof {
            assert(self.compressed_stream@.take(self.compressed_stream@.len() as int)
                =~= self.compressed_stream@);
        }
    }

    /// Decompresses the payload to exactly the declared byte count.
    ///
    /// A declared size of zero yields an empty buffer without touching
    /// the stream. A stream that is malformed or produces a different
    /// byte count fails with the declared and produced counts.
    pub fn decompress(&self) -> (r: Result<Vec<u8>, Xc3Error>)
        ensures
            self.decompressed_size == 0 ==> (r matches Ok(v) && v@ == Seq::<u8>::empty()),
            r matches Ok(v) ==> v@.len() == self.decompressed_size,
            r matches Ok(v) ==> (self.decompressed_size > 0 ==> zlib_inflate(
                self.compressed_stream@) == Some(v@)),
            r matches Err(er) ==> er matches Xc3Error::DecompressionFailure { .. },
            (zlib_inflate(self.compressed_stream@) matches Some(d) && d.len()
                == self.decompressed_size) ==> r is Ok,
    {
        if self.decompressed_size == 0 {
            return Ok(Vec::new());
        }
        match inflate(&self.compressed_stream) {
            Some(v) => {
                if v.len() as u64 == self.decompressed_size as u64 {
                    Ok(v)
                } else {
                    Err(Xc3Error::DecompressionFailure {
                        declared: self.decompressed_size as usize,
                        produced: v.len(),
                    })
                }
            }
            None => Err(Xc3Error::DecompressionFailure {
                declared: self.decompressed_size as usize,
                produced: 0,
            }),
        }
    }

    /// Compresses a payload into a fresh chunk.
    ///
    /// The compressed stream decompresses back to exactly the payload;
    /// the checksum field is left at zero rather than recomputed.
    pub fn from_decompressed(name: Vec<u8>, data: &Vec<u8>) -> (r: Result<Xbc1, Xc3Error>)
        ensures
            r matches Ok(x) ==> {
                &&& x.decompressed_size == data@.len()
                &&& x.compressed_stream@ == zlib_deflate(data@)
                &&& zlib_inflate(x.compressed_stream@) == Some(data@)
                &&& x.unk1 == 1u32
            },
            r is Err <==> data@.len() > u32::MAX,
    {
        if data.len() as u64 > u32::MAX as u64 {
            return Err(Xc3Error::InvariantViolation);
        }
        let compressed_stream = deflate(data);
        Ok(Xbc1 {
            unk1: 1,
            decompressed_size: data.len() as u32,
            decompressed_hash: 0,
            name,
            compressed_stream,
        })
    }
}

} // verus!
