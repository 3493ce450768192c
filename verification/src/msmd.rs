//! Records of the map container and the streaming entries that point into
//! its companion data file, together with the lazy extraction protocol.
use vstd::prelude::*;

use crate::cursor::{enc32, u16_at, u32_at, Endian, push_u32};
use crate::error::Xc3Error;
use crate::xbc1::Xbc1;

verus! {

/// A reference to a compressed chunk or raw byte range inside the
/// companion data file.
#[derive(Clone, Copy, Debug, PartialEq, Eq, Structural)]
pub struct StreamEntry {
    /// The offset of the chunk in the companion file.
    pub offset: u32,
    pub decompressed_size: u32,
}

/// The byte encoding of a stream entry.
pub open spec fn stream_entry_bytes(s: StreamEntry) -> Seq<u8> {
    enc32(s.offset as int, Endian::Little) + enc32(s.decompressed_size as int, Endian::Little)
}

impl StreamEntry {
    /// Decodes a stream entry at `pos`.
    pub fn read(data: &Vec<u8>, pos: usize) -> (r: Result<StreamEntry, Xc3Error>)
        ensures
            pos + 8 <= data.len() ==> (r matches Ok(s) && s.offset == u32_at(data@, pos as int,
                Endian::Little) && s.decompressed_size == u32_at(data@, pos + 4,
                Endian::Little)),
            pos + 8 > data.len() ==> (r matches Err(er) && er matches Xc3Error::UnexpectedEof {
                ..
            }),
    {
        let offset = match crate::cursor::read_u32(data, pos, Endian::Little) {
            Ok(v) => v,
            Err(er) => {
                return Err(er);
            }
        };
        let decompressed_size = match crate::cursor::read_u32(data, pos + 4, Endian::Little) {
            Ok(v) => v,
            Err(er) => {
                return Err(er);
            }
        };
        Ok(StreamEntry { offset, decompressed_size })
    }

    /// Appends the byte encoding of the entry.
    pub fn write_to(&self, out: &mut Vec<u8>)
        ensures
            final(out)@ =~= old(out)@ + stream_entry_bytes(*self),
    {
        push_u32(out, self.offset, Endian::Little);
        push_u32(out, self.decompressed_size, Endian::Little);
    }

    /// Extracts the referenced bytes from an in-memory companion file.
    ///
    /// A compressed container wraps every entry in a compressed chunk at
    /// the entry offset, which must decompress to exactly the declared
    /// size; an uncompressed one stores the declared byte count directly
    /// at the offset. A declared size of zero yields an empty buffer.
    pub fn decompress(&self, wismda: &Vec<u8>, is_compressed: bool) -> (r: Result<Vec<u8>,
        Xc3Error>)
        ensures
            is_compressed ==> (r matches Ok(v) ==> {
                let csize = crate::cursor::u32_at(wismda@, self.offset + 12, Endian::Little);
                let stream = wismda@.subrange(self.offset + 48, self.offset + 48 + csize);
                &&& self.offset + 48 + csize <= wismda@.len()
                &&& crate::xbc1::xbc1_magic_at(wismda@, self.offset as int)
                &&& v@.len() == self.decompressed_size
                &&& (self.decompressed_size > 0 ==> crate::xbc1::zlib_inflate(stream) == Some(
                    v@))
            }),
            (is_compressed && {
                let csize = crate::cursor::u32_at(wismda@, self.offset + 12, Endian::Little);
                let stream = wismda@.subrange(self.offset + 48, self.offset + 48 + csize);
                &&& self.offset + 48 + csize <= wismda@.len()
                &&& crate::xbc1::xbc1_magic_at(wismda@, self.offset as int)
                &&& crate::cursor::u32_at(wismda@, self.offset + 8, Endian::Little)
                    == self.decompressed_size
                &&& (self.decompressed_size == 0 || (crate::xbc1::zlib_inflate(stream) matches
                    Some(d) && d.len() == self.decompressed_size))
            }) ==> r is Ok,
            !is_compressed && self.offset + self.decompressed_size <= wismda.len() ==> (r
            matches Ok(v) && v@ == wismda@.subrange(self.offset as int, self.offset
                + self.decompressed_size)),
            !is_compressed && self.offset + self.decompressed_size > wismda.len() ==> (r matches
                Err(er) && er matches Xc3Error::UnexpectedEof { .. }),
    {
        if is_compressed {
            let chunk = match Xbc1::from_bytes_at(wismda, self.offset as usize) {
                Ok(c) => c,
                Err(er) => {
                    return Err(er);
                }
            };
            let bytes = match chunk.decompress() {
                Ok(b) => b,
                Err(er) => {
                    return Err(er);
                }
            };
            if bytes.len() as u64 != self.decompressed_size as u64 {
                return Err(Xc3Error::DecompressionFailure {
                    declared: self.decompressed_size as usize,
                    produced: bytes.len(),
                });
            }
            Ok(bytes)
        } else {
            let end = self.offset as u64 + self.decompressed_size as u64;
            if end > wismda.len() as u64 {
                return Err(Xc3Error::UnexpectedEof {
                    requested: self.decompressed_size as usize,
                    available: wismda.len(),
                });
            }
            let mut bytes: Vec<u8> = Vec::new();
            let start = self.offset as usize;
            let size = self.decompressed_size as usize;
            let mut i: usize = 0;
            while i < size
                invariant
                    i <= size,
                    start + size <= wismda@.len(),
                    wismda@.len() <= usize::MAX,
                    bytes@ =~= wismda@.subrange(start as int, start + i),
                decreases size - i,
            {
                proof {
                    assert(wismda@.subrange(start as int, start + i + 1) =~= wismda@.subrange(
                        start as int, start + i) + seq![wismda@[start + i]]);
                }
                bytes.push(wismda[start + i]);
                i += 1;
            }
            Ok(bytes)
        }
    }
}

/// Reads `count` consecutive little-endian scalars.
pub fn read_u32s(data: &Vec<u8>, pos: usize, count: usize) -> (r: Result<Vec<u32>, Xc3Error>)
    ensures
        pos + 4 * count <= data.len() ==> (r matches Ok(v) && v@.len() == count && forall|m: int|
            0 <= m < count ==> (#[trigger] v@[m]) == u32_at(data@, pos + 4 * m, Endian::Little)),
        pos + 4 * count > data.len() ==> (r matches Err(er) && er matches
            Xc3Error::UnexpectedEof { .. }),
{
    if pos as u128 + 4 * (count as u128) > data.len() as u128 {
        return Err(Xc3Error::UnexpectedEof { requested: count, available: data.len() });
    }
    let mut v: Vec<u32> = Vec::new();
    let mut m: usize = 0;
    while m < count
        invariant
            m <= count,
            pos + 4 * count <= data@.len(),
            data@.len() <= usize::MAX,
            v@.len() == m,
            forall|q: int| 0 <= q < m ==> (#[trigger] v@[q]) == u32_at(data@, pos + 4 * q,
                Endian::Little),
        decreases count - m,
    {
        v.push(crate::vertex::read_u32_in_pub(data, pos + 4 * m, Endian::Little));
        m += 1;
    }
    Ok(v)
}

/// The byte encoding of consecutive little-endian scalars.
pub open spec fn enc_u32s(v: Seq<u32>) -> Seq<u8>
    decreases v.len(),
{
    if v.len() == 0 {
        Seq::empty()
    } else {
        enc32(v[0] as int, Endian::Little) + enc_u32s(v.drop_first())
    }
}

/// Appends consecutive little-endian scalars.
pub fn push_u32s(out: &mut Vec<u8>, v: &Vec<u32>)
    ensures
        final(out)@ =~= old(out)@ + enc_u32s(v@),
{
    let mut m: usize = 0;
    while m < v.len()
        invariant
            m <= v@.len(),
            out@ =~= old(out)@ + enc_u32s(v@.take(m as int)),
        decreases v@.len() - m,
    {
        proof {
            lemma_enc_u32s_take(v@, m as int);
        }
        push_u32(out, v[m], Endian::Little);
        m += 1;
    }
    proof {
        assert(v@.take(v@.len() as int) =~= v@);
    }
}

/// Appending one more scalar extends the encoding by its four bytes.
proof fn lemma_enc_u32s_take(v: Seq<u32>, m: int)
    requires
        0 <= m < v.len(),
    ensures
        enc_u32s(v.take(m + 1)) =~= enc_u32s(v.take(m)) + enc32(v[m] as int, Endian::Little),
    decreases m,
{
    if m == 0 {
        assert(v.take(1).drop_first() =~= Seq::<u32>::empty());
        assert(v.take(0) =~= Seq::<u32>::empty());
    } else {
        lemma_enc_u32s_take(v.drop_first(), m - 1);
        assert(v.take(m + 1).drop_first() =~= v.drop_first().take(m));
        assert(v.take(m).drop_first() =~= v.drop_first().take(m - 1));
        assert(v.take(m + 1)[0] == v[0]);
        assert(v.take(m)[0] == v[0]);
        assert(v.drop_first()[m - 1] == v[m]);
    }
}

/// Checks a four-byte magic at `pos`, reporting expected against actual.
pub fn check_magic(data: &Vec<u8>, pos: usize, m0: u8, m1: u8, m2: u8, m3: u8) -> (r: Result<(),
    Xc3Error>)
    ensures
        r is Ok <==> pos + 4 <= data.len() && data@[pos as int] == m0 && data@[pos + 1] == m1
            && data@[pos + 2] == m2 && data@[pos + 3] == m3,
        pos + 4 > data.len() ==> (r matches Err(er) && er matches Xc3Error::UnexpectedEof {
            ..
        }),
{
    if pos >= data.len() || data.len() - pos < 4 {
        return Err(Xc3Error::UnexpectedEof { requested: 4, available: data.len() });
    }
    let b0 = data[pos];
    let b1 = data[pos + 1];
    let b2 = data[pos + 2];
    let b3 = data[pos + 3];
    if b0 != m0 || b1 != m1 || b2 != m2 || b3 != m3 {
        let actual = b0 as u32 + (b1 as u32) * 0x100 + (b2 as u32) * 0x10000 + (b3 as u32)
            * 0x1000000;
        let expected = m0 as u32 + (m1 as u32) * 0x100 + (m2 as u32) * 0x10000 + (m3 as u32)
            * 0x1000000;
        return Err(Xc3Error::MagicMismatch { expected, actual, offset: pos });
    }
    Ok(())
}

/// The environment record of a map, tagged `DREN`.
#[derive(Clone, Debug, PartialEq, Eq)]
pub struct Nerd {
    pub version: u32,
    pub unk1: u32,
    pub unk2: u32,
    pub unk3: u32,
    pub unk4: u32,
    pub unk5: u32,
    pub unk6: Vec<u32>,
}

impl Nerd {
    /// Decodes the record at `pos`: the magic, six scalars, six opaque
    /// scalars kept verbatim.
    pub fn read(data: &Vec<u8>, pos: usize) -> (r: Result<Nerd, Xc3Error>)
        ensures
            r matches Ok(n) ==> pos + 52 <= data.len() && n.version == u32_at(data@, pos + 4,
                Endian::Little) && n.unk6@.len() == 6,
    {
        match check_magic(data, pos, 68, 82, 69, 78) {
            Ok(_) => {}
            Err(er) => {
                return Err(er);
            }
        }
        let body = match read_u32s(data, pos + 4, 6) {
            Ok(v) => v,
            Err(er) => {
                return Err(er);
            }
        };
        let unk6 = match read_u32s(data, pos + 28, 6) {
            Ok(v) => v,
            Err(er) => {
                return Err(er);
            }
        };
        Ok(Nerd {
            version: body[0],
            unk1: body[1],
            unk2: body[2],
            unk3: body[3],
            unk4: body[4],
            unk5: body[5],
            unk6,
        })
    }

    /// Appends the record's byte encoding.
    pub fn write_to(&self, out: &mut Vec<u8>)
        ensures
            final(out)@.len() == old(out)@.len() + 28 + 4 * self.unk6@.len(),
            final(out)@.subrange(0, old(out)@.len() as int) =~= old(out)@,
    {
        out.push(68);
        out.push(82);
        out.push(69);
        out.push(78);
        push_u32(out, self.version, Endian::Little);
        push_u32(out, self.unk1, Endian::Little);
        push_u32(out, self.unk2, Endian::Little);
        push_u32(out, self.unk3, Endian::Little);
        push_u32(out, self.unk4, Endian::Little);
        push_u32(out, self.unk5, Endian::Little);
        push_u32s(out, &self.unk6);
        proof {
            lemma_enc_u32s_len(self.unk6@);
            assert(out@.subrange(0, old(out)@.len() as int) =~= old(out)@);
        }
    }
}

/// Consecutive scalars occupy four bytes each.
pub proof fn lemma_enc_u32s_len(v: Seq<u32>)
    ensures
        enc_u32s(v).len() == 4 * v.len(),
    decreases v.len(),
{
    if v.len() > 0 {
        lemma_enc_u32s_len(v.drop_first());
    }
}

/// The alternate environment record of a map, tagged `SMEC`.
#[derive(Clone, Debug, PartialEq, Eq)]
pub struct Cems {
    pub unk1: Vec<u32>,
    pub offset: u32,
}

impl Cems {
    /// Decodes the record at `pos`: the magic, ten opaque scalars, an
    /// offset.
    pub fn read(data: &Vec<u8>, pos: usize) -> (r: Result<Cems, Xc3Error>)
        ensures
            r matches Ok(c) ==> pos + 48 <= data.len() && c.unk1@.len() == 10 && c.offset
                == u32_at(data@, pos + 44, Endian::Little),
    {
        match check_magic(data, pos, 83, 77, 69, 67) {
            Ok(_) => {}
            Err(er) => {
                return Err(er);
            }
        }
        let unk1 = match read_u32s(data, pos + 4, 10) {
            Ok(v) => v,
            Err(er) => {
                return Err(er);
            }
        };
        let offset = match crate::cursor::read_u32(data, pos + 44, Endian::Little) {
            Ok(v) => v,
            Err(er) => {
                return Err(er);
            }
        };
        Ok(Cems { unk1, offset })
    }
}

/// The cloud data record, tagged `CMLD`.
#[derive(Clone, Copy, Debug, PartialEq, Eq, Structural)]
pub struct Cmld {
    pub version: u32,
}

impl Cmld {
    /// Decodes the record at `pos`: the magic and a version.
    pub fn read(data: &Vec<u8>, pos: usize) -> (r: Result<Cmld, Xc3Error>)
        ensures
            r matches Ok(c) ==> pos + 8 <= data.len() && c.version == u32_at(data@, pos + 4,
                Endian::Little),
    {
        match check_magic(data, pos, 67, 77, 76, 68) {
            Ok(_) => {}
            Err(er) => {
                return Err(er);
            }
        }
        let version = match crate::cursor::read_u32(data, pos + 4, Endian::Little) {
            Ok(v) => v,
            Err(er) => {
                return Err(er);
            }
        };
        Ok(Cmld { version })
    }
}

/// The lighting record, tagged `DLGT`.
#[derive(Clone, Copy, Debug, PartialEq, Eq, Structural)]
pub struct Dlgt {
    pub version: u32,
    pub unk1: u32,
    pub unk2: u32,
}

impl Dlgt {
    /// Decodes the record at `pos`: the magic and three scalars.
    pub fn read(data: &Vec<u8>, pos: usize) -> (r: Result<Dlgt, Xc3Error>)
        ensures
            r matches Ok(d) ==> pos + 16 <= data.len() && d.version == u32_at(data@, pos + 4,
                Endian::Little) && d.unk1 == u32_at(data@, pos + 8, Endian::Little) && d.unk2
                == u32_at(data@, pos + 12, Endian::Little),
    {
        match check_magic(data, pos, 68, 76, 71, 84) {
            Ok(_) => {}
            Err(er) => {
                return Err(er);
            }
        }
        let body = match read_u32s(data, pos + 4, 3) {
            Ok(v) => v,
            Err(er) => {
                return Err(er);
            }
        };
        Ok(Dlgt { version: body[0], unk1: body[1], unk2: body[2] })
    }

    /// Appends the record's byte encoding.
    pub fn write_to(&self, out: &mut Vec<u8>)
        ensures
            final(out)@ =~= old(out)@ + seq![68u8, 76u8, 71u8, 84u8] + enc32(self.version as int,
                Endian::Little) + enc32(self.unk1 as int, Endian::Little) + enc32(
                self.unk2 as int, Endian::Little),
    {
        out.push(68);
        out.push(76);
        out.push(71);
        out.push(84);
        push_u32(out, self.version, Endian::Little);
        push_u32(out, self.unk1, Endian::Little);
        push_u32(out, self.unk2, Endian::Little);
    }
}

/// The global illumination record, tagged `GIBL`.
#[derive(Clone, Debug, PartialEq, Eq)]
pub struct Gibl {
    pub unk1: u32,
    pub unk2: u32,
    pub unk3: u32,
    /// Offset of the embedded texture.
    pub unk4: u32,
    pub unk5: u32,
    pub unk6: Vec<u32>,
}

impl Gibl {
    /// Decodes the record at `pos`: the magic, five scalars, six opaque
    /// scalars kept verbatim.
    pub fn read(data: &Vec<u8>, pos: usize) -> (r: Result<Gibl, Xc3Error>)
        ensures
            r matches Ok(g) ==> pos + 48 <= data.len() && g.unk4 == u32_at(data@, pos + 16,
                Endian::Little) && g.unk6@.len() == 6,
    {
        match check_magic(data, pos, 71, 73, 66, 76) {
            Ok(_) => {}
            Err(er) => {
                return Err(er);
            }
        }
        let body = match read_u32s(data, pos + 4, 5) {
            Ok(v) => v,
            Err(er) => {
                return Err(er);
            }
        };
        let unk6 = match read_u32s(data, pos + 24, 6) {
            Ok(v) => v,
            Err(er) => {
                return Err(er);
            }
        };
        Ok(Gibl { unk1: body[0], unk2: body[1], unk3: body[2], unk4: body[3], unk5: body[4],
            unk6 })
    }
}

/// The collision record, tagged `DOCE`.
#[derive(Clone, Copy, Debug, PartialEq, Eq, Structural)]
pub struct Doce {
    pub version: u32,
    pub offset: u32,
    pub count: u32,
}

impl Doce {
    /// Decodes the record at `pos`: the magic, a version, an offset and a
    /// count.
    pub fn read(data: &Vec<u8>, pos: usize) -> (r: Result<Doce, Xc3Error>)
        ensures
            r matches Ok(d) ==> pos + 16 <= data.len() && d.version == u32_at(data@, pos + 4,
                Endian::Little) && d.offset == u32_at(data@, pos + 8, Endian::Little) && d.count
                == u32_at(data@, pos + 12, Endian::Little),
    {
        match check_magic(data, pos, 68, 79, 67, 69) {
            Ok(_) => {}
            Err(er) => {
                return Err(er);
            }
        }
        let body = match read_u32s(data, pos + 4, 3) {
            Ok(v) => v,
            Err(er) => {
                return Err(er);
            }
        };
        Ok(Doce { version: body[0], offset: body[1], count: body[2] })
    }
}

/// Sizes of the companion streaming file.
#[derive(Clone, Debug, PartialEq, Eq)]
pub struct WismdaInfo {
    pub compressed_length: u32,
    pub unk1: u32,
    pub decompressed_length: u32,
    pub streaming_buffer_length: u32,
    pub unks: Vec<u32>,
}

impl WismdaInfo {
    /// Decodes the record at `pos`: four scalars and fifteen opaque
    /// scalars kept verbatim.
    pub fn read(data: &Vec<u8>, pos: usize) -> (r: Result<WismdaInfo, Xc3Error>)
        ensures
            r matches Ok(w) ==> pos + 76 <= data.len() && w.compressed_length == u32_at(data@,
                pos as int, Endian::Little) && w.decompressed_length == u32_at(data@, pos + 8,
                Endian::Little) && w.unks@.len() == 15,
    {
        let body = match read_u32s(data, pos, 4) {
            Ok(v) => v,
            Err(er) => {
                return Err(er);
            }
        };
        let unks = match read_u32s(data, pos + 16, 15) {
            Ok(v) => v,
            Err(er) => {
                return Err(er);
            }
        };
        Ok(WismdaInfo {
            compressed_length: body[0],
            unk1: body[1],
            decompressed_length: body[2],
            streaming_buffer_length: body[3],
            unks,
        })
    }
}

/// The animated channel of a map part instance.
#[derive(Clone, Copy, Debug, PartialEq, Eq, Structural)]
pub enum ChannelType {
    TranslationX,
    TranslationY,
    TranslationZ,
    RotationX,
    RotationY,
    RotationZ,
    ScaleX,
    ScaleY,
    ScaleZ,
}

/// The stored code of a channel type.
pub open spec fn spec_channel_code(c: ChannelType) -> int {
    match c {
        ChannelType::TranslationX => 0,
        ChannelType::TranslationY => 1,
        ChannelType::TranslationZ => 2,
        ChannelType::RotationX => 3,
        ChannelType::RotationY => 4,
        ChannelType::RotationZ => 5,
        ChannelType::ScaleX => 6,
        ChannelType::ScaleY => 7,
        ChannelType::ScaleZ => 8,
    }
}

impl ChannelType {
    /// The stored code of this channel type.
    pub fn code(&self) -> (r: u16)
        ensures
            r == spec_channel_code(*self),
    {
        match self {
            ChannelType::TranslationX => 0,
            ChannelType::TranslationY => 1,
            ChannelType::TranslationZ => 2,
            ChannelType::RotationX => 3,
            ChannelType::RotationY => 4,
            ChannelType::RotationZ => 5,
            ChannelType::ScaleX => 6,
            ChannelType::ScaleY => 7,
            ChannelType::ScaleZ => 8,
        }
    }

    /// Decodes a stored channel code, rejecting values outside the set.
    pub fn from_code(v: u16) -> (r: Result<ChannelType, Xc3Error>)
        ensures
            r matches Ok(c) ==> spec_channel_code(c) == v,
            r matches Err(er) ==> er == (Xc3Error::EnumOutOfRange { value: v as u32 }),
    {
        match v {
            0u16 => Ok(ChannelType::TranslationX),
            1u16 => Ok(ChannelType::TranslationY),
            2u16 => Ok(ChannelType::TranslationZ),
            3u16 => Ok(ChannelType::RotationX),
            4u16 => Ok(ChannelType::RotationY),
            5u16 => Ok(ChannelType::RotationZ),
            6u16 => Ok(ChannelType::ScaleX),
            7u16 => Ok(ChannelType::ScaleY),
            8u16 => Ok(ChannelType::ScaleZ),
            _ => Err(Xc3Error::EnumOutOfRange { value: v as u32 }),
        }
    }
}

/// One named, animated part of a map model.
#[derive(Clone, Copy, Debug, PartialEq, Eq, Structural)]
pub struct MapPart {
    /// Offset of the NUL-terminated name, relative to the part table's
    /// base.
    pub name_offset: u32,
    pub instance_index: u32,
    pub part_id: u16,
    pub flags: u16,
    pub animation_start: u8,
    pub animation_speed: u8,
    pub transform_index: u16,
    pub node_animation_index: u16,
    pub instance_animation_index: u16,
    pub switch_group_index: u16,
    pub unk: u16,
}

impl MapPart {
    /// Decodes the 24-byte record at `pos`.
    pub fn read(data: &Vec<u8>, pos: usize) -> (r: Result<MapPart, Xc3Error>)
        ensures
            r matches Ok(p) ==> pos + 24 <= data.len() && p.name_offset == u32_at(data@,
                pos as int, Endian::Little) && p.instance_index == u32_at(data@, pos + 4,
                Endian::Little) && p.part_id == u16_at(data@, pos + 8, Endian::Little)
                && p.transform_index == u16_at(data@, pos + 14, Endian::Little),
            pos + 24 > data.len() ==> (r matches Err(er) && er matches Xc3Error::UnexpectedEof {
                ..
            }),
    {
        if pos > data.len() || data.len() - pos < 24 {
            return Err(Xc3Error::UnexpectedEof { requested: 24, available: data.len() });
        }
        let e = Endian::Little;
        let name_offset = crate::vertex::read_u32_in_pub(data, pos, e);
        let instance_index = crate::vertex::read_u32_in_pub(data, pos + 4, e);
        let part_id = crate::vertex::read_u16_in_pub(data, pos + 8, e);
        let flags = crate::vertex::read_u16_in_pub(data, pos + 10, e);
        let animation_start = data[pos + 12];
        let animation_speed = data[pos + 13];
        let transform_index = crate::vertex::read_u16_in_pub(data, pos + 14, e);
        let node_animation_index = crate::vertex::read_u16_in_pub(data, pos + 16, e);
        let instance_animation_index = crate::vertex::read_u16_in_pub(data, pos + 18, e);
        let switch_group_index = crate::vertex::read_u16_in_pub(data, pos + 20, e);
        let unk = crate::vertex::read_u16_in_pub(data, pos + 22, e);
        Ok(MapPart {
            name_offset,
            instance_index,
            part_id,
            flags,
            animation_start,
            animation_speed,
            transform_index,
            node_animation_index,
            instance_animation_index,
            switch_group_index,
            unk,
        })
    }
}

/// A low-resolution packed texture: an opaque tag and the embedded
/// texture file bytes.
#[derive(Clone, Debug, PartialEq, Eq)]
pub struct LowTexture {
    pub unk1: u32,
    /// The embedded texture file, copied out of the heap.
    pub mibl_data: Vec<u8>,
    pub unk2: i32,
}

/// A table of low-resolution textures.
#[derive(Clone, Debug, PartialEq, Eq)]
pub struct LowTextures {
    pub textures: Vec<LowTexture>,
    pub unk: Vec<u32>,
}

/// The table header of a low-resolution texture table lies in the file,
/// the 16-byte record table does too, and so does every record's byte
/// range.
pub open spec fn low_textures_wf(data: Seq<u8>) -> bool {
    let count = u32_at(data, 0, Endian::Little);
    let offset = u32_at(data, 4, Endian::Little);
    &&& data.len() >= 28
    &&& crate::cursor::region_in_bounds(offset, count, 16, data.len() as int)
    &&& forall|i: int| 0 <= i < count ==> crate::cursor::region_in_bounds(u32_at(data,
        offset + 16 * i + 8, Endian::Little), #[trigger] u32_at(data, offset + 16 * i + 4,
        Endian::Little), 1, data.len() as int)
}

/// Record `i` of the decoded table matches its 16 bytes: an opaque
/// scalar, a count-then-offset pair naming the texture bytes, and an
/// opaque trailing scalar.
pub open spec fn low_texture_decoded(t: LowTexture, data: Seq<u8>, rec: int) -> bool {
    let cnt = u32_at(data, rec + 4, Endian::Little);
    let off = u32_at(data, rec + 8, Endian::Little);
    &&& t.unk1 == u32_at(data, rec, Endian::Little)
    &&& (cnt > 0 ==> t.mibl_data@ == data.subrange(off, off + cnt))
    &&& (cnt == 0 ==> t.mibl_data@ == Seq::<u8>::empty())
    &&& t.unk2 == u32_at(data, rec + 12, Endian::Little) as u32 as i32
}

impl LowTextures {
    /// Decodes a texture table at the start of `data`: a count and offset
    /// of 16-byte records, each holding an opaque scalar, a count and
    /// offset of raw texture bytes and an opaque trailing scalar, plus
    /// five opaque scalars after the table header.
    ///
    /// Succeeds exactly when the header, the record table and every
    /// record's byte range lie inside the file.
    #[verifier::rlimit(100)]
    pub fn read(data: &Vec<u8>) -> (r: Result<LowTextures, Xc3Error>)
        ensures
            r is Ok <==> low_textures_wf(data@),
            r matches Ok(t) ==> {
                let count = u32_at(data@, 0, Endian::Little);
                let offset = u32_at(data@, 4, Endian::Little);
                &&& t.unk@.len() == 5
                &&& t.textures@.len() == count
                &&& forall|i: int| 0 <= i < count ==> low_texture_decoded(
                    #[trigger] t.textures@[i], data@, offset + 16 * i)
            },
    {
        let e = Endian::Little;
        let count = match crate::cursor::read_u32(data, 0, e) {
            Ok(v) => v,
            Err(er) => {
                return Err(er);
            }
        };
        let offset = match crate::cursor::read_u32(data, 4, e) {
            Ok(v) => v,
            Err(er) => {
                return Err(er);
            }
        };
        let unk = match read_u32s(data, 8, 5) {
            Ok(v) => v,
            Err(er) => {
                return Err(er);
            }
        };
        match crate::cursor::check_region(data.len(), offset, count, 16) {
            Ok(_) => {}
            Err(er) => {
                return Err(er);
            }
        }
        let mut textures: Vec<LowTexture> = Vec::new();
        let mut i: u32 = 0;
        while i < count
            invariant
                i <= count,
                data@.len() >= 28,
                count == u32_at(data@, 0, Endian::Little),
                offset == u32_at(data@, 4, Endian::Little),
                textures@.len() == i,
                crate::cursor::region_in_bounds(offset as int, count as int, 16,
                    data@.len() as int),
                data@.len() <= usize::MAX,
                forall|m: int| 0 <= m < i ==> low_texture_decoded(#[trigger] textures@[m], data@,
                    offset + 16 * m),
                forall|m: int| 0 <= m < i ==> crate::cursor::region_in_bounds(u32_at(data@,
                    offset + 16 * m + 8, Endian::Little), #[trigger] u32_at(data@, offset + 16 * m
                    + 4, Endian::Little), 1, data@.len() as int),
            decreases count - i,
        {
            proof {
                vstd::arithmetic::mul::lemma_mul_inequality(i as int + 1, count as int, 16);
                assert((i as int + 1) * 16 == i as int * 16 + 16) by (nonlinear_arith);
                vstd::arithmetic::mul::lemma_mul_is_commutative(count as int, 16);
                vstd::arithmetic::mul::lemma_mul_is_commutative(i as int + 1, 16);
            }
            let rec = offset as usize + 16 * i as usize;
            let ghost rec0: int = offset + 16 * (i as int);
            proof {
                assert(rec == rec0);
            }
            let unk1 = crate::vertex::read_u32_in_pub(data, rec, Endian::Little);
            let data_count = crate::vertex::read_u32_in_pub(data, rec + 4, Endian::Little);
            let data_offset = crate::vertex::read_u32_in_pub(data, rec + 8, Endian::Little);
            let unk2 = crate::vertex::read_u32_in_pub(data, rec + 12, Endian::Little);
            proof {
                assert(u32_at(data@, rec0 + 4, Endian::Little) == data_count);
                assert(u32_at(data@, rec0 + 8, Endian::Little) == data_offset);
            }
            match crate::cursor::check_region(data.len(), data_offset, data_count, 1) {
                Ok(_) => {}
                Err(er) => {
                    proof {
                        assert(!crate::cursor::region_in_bounds(data_offset as int,
                            data_count as int, 1, data@.len() as int));
                        assert(!low_textures_wf(data@));
                    }
                    return Err(er);
                }
            }
            let mut mibl_data: Vec<u8> = Vec::new();
            let start = data_offset as usize;
            let size = data_count as usize;
            if size > 0 {
                let mut b: usize = 0;
                while b < size
                    invariant
                        b <= size,
                        start + size <= data@.len(),
                        data@.len() <= usize::MAX,
                        mibl_data@ =~= data@.subrange(start as int, start + b),
                    decreases size - b,
                {
                    proof {
                        assert(data@.subrange(start as int, start + b + 1) =~= data@.subrange(
                            start as int, start + b) + seq![data@[start + b]]);
                    }
                    mibl_data.push(data[start + b]);
                    b += 1;
                }
            }
            let t = LowTexture { unk1, mibl_data, unk2: #[verifier::truncate] (unk2 as i32) };
            proof {
                if data_count > 0 {
                    assert(t.mibl_data@ =~= data@.subrange(data_offset as int, data_offset
                        + data_count));
                } else {
                    assert(t.mibl_data@ =~= Seq::<u8>::empty());
                }
                assert(low_texture_decoded(t, data@, rec0));
            }
            textures.push(t);
            i += 1;
        }
        Ok(LowTextures { textures, unk })
    }
}

/// The environment data of a map: the record kind is selected by the
/// container's environment flags.
#[derive(Clone, Debug, PartialEq, Eq)]
pub enum EnvironmentData {
    Cems(Cems),
    Nerd(Nerd),
}

impl EnvironmentData {
    /// Decodes the record selected by `flags`: `SMEC` for zero, `DREN`
    /// for two, anything else is out of range.
    pub fn read(data: &Vec<u8>, pos: usize, flags: u32) -> (r: Result<EnvironmentData,
        Xc3Error>)
        ensures
            r matches Ok(ed) ==> (flags == 0 && ed is Cems) || (flags == 2 && ed is Nerd),
            flags != 0 && flags != 2 ==> r == Err::<EnvironmentData, Xc3Error>(
                Xc3Error::EnumOutOfRange { value: flags },
            ),
    {
        if flags == 0 {
            match Cems::read(data, pos) {
                Ok(c) => Ok(EnvironmentData::Cems(c)),
                Err(er) => Err(er),
            }
        } else if flags == 2 {
            match Nerd::read(data, pos) {
                Ok(n) => Ok(EnvironmentData::Nerd(n)),
                Err(er) => Err(er),
            }
        } else {
            Err(Xc3Error::EnumOutOfRange { value: flags })
        }
    }
}

/// An image-based-lighting entry: a map name and a `GIBL` record, offsets
/// relative to the table's base.
#[derive(Clone, Copy, Debug, PartialEq, Eq, Structural)]
pub struct IblInner {
    pub unk1: u32,
    /// Offset of the NUL-terminated map name, relative to the table base.
    pub map_name_offset: u32,
    /// Offset of the `GIBL` record, relative to the table base.
    pub gibl_offset: u32,
    pub unk4: u32,
}

impl IblInner {
    /// Decodes the 40-byte entry at `pos`, skipping six opaque trailing
    /// scalars.
    pub fn read(data: &Vec<u8>, pos: usize) -> (r: Result<IblInner, Xc3Error>)
        ensures
            r matches Ok(x) ==> pos + 40 <= data.len() && x.unk1 == u32_at(data@, pos as int,
                Endian::Little) && x.map_name_offset == u32_at(data@, pos + 4, Endian::Little)
                && x.gibl_offset == u32_at(data@, pos + 8, Endian::Little) && x.unk4 == u32_at(
                data@, pos + 12, Endian::Little),
    {
        if pos > data.len() || data.len() - pos < 40 {
            return Err(Xc3Error::UnexpectedEof { requested: 40, available: data.len() });
        }
        let e = Endian::Little;
        Ok(IblInner {
            unk1: crate::vertex::read_u32_in_pub(data, pos, e),
            map_name_offset: crate::vertex::read_u32_in_pub(data, pos + 4, e),
            gibl_offset: crate::vertex::read_u32_in_pub(data, pos + 8, e),
            unk4: crate::vertex::read_u32_in_pub(data, pos + 12, e),
        })
    }
}

/// The image-based-lighting table: entries plus four scalars.
#[derive(Clone, Debug, PartialEq, Eq)]
pub struct Ibl {
    pub unk1: Vec<IblInner>,
    pub unk3: u32,
    pub unk4: u32,
    pub unk5: u32,
    pub unk6: u32,
}

impl Ibl {
    /// Decodes the table whose base is `pos`: a count and offset of
    /// entries relative to the base, then four scalars.
    pub fn read(data: &Vec<u8>, pos: usize) -> (r: Result<Ibl, Xc3Error>)
        ensures
            r matches Ok(x) ==> x.unk1@.len() == u32_at(data@, pos as int, Endian::Little),
    {
        let e = Endian::Little;
        let count = match crate::cursor::read_u32(data, pos, e) {
            Ok(v) => v,
            Err(er) => {
                return Err(er);
            }
        };
        let offset = match crate::cursor::read_u32(data, pos + 4, e) {
            Ok(v) => v,
            Err(er) => {
                return Err(er);
            }
        };
        let tail = match read_u32s(data, pos + 8, 4) {
            Ok(v) => v,
            Err(er) => {
                return Err(er);
            }
        };
        if (pos as u128) + (offset as u128) > u32::MAX as u128 {
            return Err(Xc3Error::OffsetOutOfBounds { offset: offset as usize,
                file_size: data.len() });
        }
        let base = pos as u32 + offset;
        match crate::cursor::check_region(data.len(), base, count, 40) {
            Ok(_) => {}
            Err(er) => {
                return Err(er);
            }
        }
        let mut unk1: Vec<IblInner> = Vec::new();
        let mut i: u32 = 0;
        while i < count
            invariant
                i <= count,
                unk1@.len() == i,
                crate::cursor::region_in_bounds(base as int, count as int, 40,
                    data@.len() as int),
                data@.len() <= usize::MAX,
            decreases count - i,
        {
            proof {
                vstd::arithmetic::mul::lemma_mul_inequality(i as int + 1, count as int, 40);
                assert((i as int + 1) * 40 == i as int * 40 + 40) by (nonlinear_arith);
                vstd::arithmetic::mul::lemma_mul_is_commutative(count as int, 40);
                vstd::arithmetic::mul::lemma_mul_is_commutative(i as int + 1, 40);
            }
            match IblInner::read(data, base as usize + 40 * i as usize) {
                Ok(x) => {
                    unk1.push(x);
                }
                Err(er) => {
                    return Err(er);
                }
            }
            i += 1;
        }
        Ok(Ibl { unk1, unk3: tail[0], unk4: tail[1], unk5: tail[2], unk6: tail[3] })
    }
}

} // verus!
