//! Records of the shader container: program names, shader stage metadata,
//! and the per-program uniform, sampler and attribute tables.
use vstd::prelude::*;

use crate::cursor::{read_cstring, u16_at, u32_at, Endian};
use crate::error::Xc3Error;
use crate::msmd::{check_magic, read_u32s};

verus! {

/// The name is the NUL-terminated byte string stored at `at`, without its
/// terminator.
pub open spec fn cstring_at(name: Seq<u8>, data: Seq<u8>, at: int) -> bool {
    &&& at + name.len() < data.len()
    &&& name == data.subrange(at, at + name.len() as int)
    &&& data[at + name.len() as int] == 0
    &&& forall|m: int| at <= m < at + name.len() ==> data[m] != 0
}

/// The program names of a shader container, each resolved from a string
/// pointer.
#[derive(Clone, Debug, PartialEq, Eq)]
pub struct StringSection {
    pub program_names: Vec<Vec<u8>>,
}

impl StringSection {
    /// Decodes `count` string pointers at `pos`, each relative to
    /// `base`.
    pub fn read(data: &Vec<u8>, pos: usize, count: usize, base: usize) -> (r: Result<
        StringSection, Xc3Error>)
        ensures
            r matches Ok(s) ==> s.program_names@.len() == count && forall|i: int|
                0 <= i < count ==> cstring_at((#[trigger] s.program_names@[i])@, data@, base
                + u32_at(data@, pos + 4 * i, Endian::Little)),
            (pos + 4 * count <= data@.len() && (forall|i: int| 0 <= i < count ==> base + (
            #[trigger] u32_at(data@, pos + 4 * i, Endian::Little)) < data@.len()) && (forall|
            i: int| 0 <= i < count ==> exists|t: int| base + (#[trigger] u32_at(data@, pos + 4
                * i, Endian::Little)) <= t < data@.len() && data@[t] == 0)) ==> r is Ok,
    {
        let mut program_names: Vec<Vec<u8>> = Vec::new();
        let dlen: usize = data.len();
        let mut i: usize = 0;
        while i < count
            invariant
                i <= count,
                program_names@.len() == i,
                data@.len() == dlen,
                forall|m: int| 0 <= m < i ==> cstring_at((#[trigger] program_names@[m])@, data@,
                    base + u32_at(data@, pos + 4 * m, Endian::Little)),
            decreases count - i,
        {
            if (pos as u128) + 4 * (i as u128) + 4 > usize::MAX as u128 {
                return Err(Xc3Error::OffsetOutOfBounds { offset: pos, file_size: data.len() });
            }
            let ptr = match crate::cursor::read_u32(data, pos + 4 * i, Endian::Little) {
                Ok(v) => v,
                Err(er) => {
                    return Err(er);
                }
            };
            proof {
                assert(ptr == u32_at(data@, pos + 4 * (i as int), Endian::Little));
            }
            if (base as u128) + (ptr as u128) > usize::MAX as u128 {
                return Err(Xc3Error::OffsetOutOfBounds { offset: ptr as usize,
                    file_size: data.len() });
            }
            let name = match read_cstring(data, base + ptr as usize) {
                Ok(v) => v,
                Err(er) => {
                    return Err(er);
                }
            };
            proof {
                assert(cstring_at(name@, data@, base + ptr));
            }
            program_names.push(name);
            i += 1;
        }
        Ok(StringSection { program_names })
    }
}

/// The shader stage record, tagged `NVSD`: sizes of the vertex and
/// fragment binaries plus opaque scalars kept verbatim.
#[derive(Clone, Debug, PartialEq, Eq)]
pub struct Nvsd {
    pub version: u32,
    pub unk1: u32,
    pub unk2: u32,
    pub unk3: u32,
    pub unk4: u32,
    pub unk5: u32,
    pub unk6: u32,
    /// The size of the vertex shader binary.
    pub vertex_xv4_size: u32,
    /// The size of the fragment shader binary.
    pub fragment_xv4_size: u32,
    pub unk_size1: u32,
    pub unk_size2: u32,
    pub unks4: Vec<u16>,
}

impl Nvsd {
    /// Decodes the record at `pos`: the magic, eleven scalars, and eight
    /// packed half-words.
    pub fn read(data: &Vec<u8>, pos: usize) -> (r: Result<Nvsd, Xc3Error>)
        ensures
            r matches Ok(n) ==> {
                &&& pos + 64 <= data.len()
                &&& n.version == u32_at(data@, pos + 4, Endian::Little)
                &&& n.vertex_xv4_size == u32_at(data@, pos + 32, Endian::Little)
                &&& n.fragment_xv4_size == u32_at(data@, pos + 36, Endian::Little)
                &&& n.unks4@.len() == 8
            },
    {
        match check_magic(data, pos, 78, 86, 83, 68) {
            Ok(_) => {}
            Err(er) => {
                return Err(er);
            }
        }
        let body = match read_u32s(data, pos + 4, 11) {
            Ok(v) => v,
            Err(er) => {
                return Err(er);
            }
        };
        if pos > data.len() || data.len() - pos < 64 {
            return Err(Xc3Error::UnexpectedEof { requested: 64, available: data.len() });
        }
        let mut unks4: Vec<u16> = Vec::new();
        let mut m: usize = 0;
        while m < 8
            invariant
                m <= 8,
                pos + 64 <= data@.len(),
                data@.len() <= usize::MAX,
                unks4@.len() == m,
            decreases 8 - m,
        {
            unks4.push(crate::vertex::read_u16_in_pub(data, pos + 48 + 2 * m, Endian::Little));
            m += 1;
        }
        Ok(Nvsd {
            version: body[0],
            unk1: body[1],
            unk2: body[2],
            unk3: body[3],
            unk4: body[4],
            unk5: body[5],
            unk6: body[6],
            vertex_xv4_size: body[7],
            fragment_xv4_size: body[8],
            unk_size1: body[9],
            unk_size2: body[10],
            unks4,
        })
    }
}

/// One uniform buffer of a shader program.
#[derive(Clone, Debug, PartialEq, Eq)]
pub struct UniformBuffer {
    /// The buffer name, resolved from its string pointer.
    pub name: Vec<u8>,
    pub uniform_count: u16,
    pub uniform_start_index: u16,
    pub unk3: u32,
    pub unk4: u16,
    pub unk5: u16,
}

impl UniformBuffer {
    /// Decodes the sixteen-byte record at `pos`, resolving its name
    /// relative to `base`.
    pub fn read(data: &Vec<u8>, pos: usize, base: usize) -> (r: Result<UniformBuffer, Xc3Error>)
        ensures
            r matches Ok(u) ==> {
                &&& pos + 16 <= data.len()
                &&& cstring_at(u.name@, data@, base + u32_at(data@, pos as int, Endian::Little))
                &&& u.uniform_count == u16_at(data@, pos + 4, Endian::Little)
                &&& u.uniform_start_index == u16_at(data@, pos + 6, Endian::Little)
                &&& u.unk3 == u32_at(data@, pos + 8, Endian::Little)
                &&& u.unk4 == u16_at(data@, pos + 12, Endian::Little)
                &&& u.unk5 == u16_at(data@, pos + 14, Endian::Little)
            },
            (pos + 16 <= data.len() && base + u32_at(data@, pos as int, Endian::Little)
                < data@.len() && (exists|t: int| base + u32_at(data@, pos as int,
                Endian::Little) <= t < data@.len() && data@[t] == 0)) ==> r is Ok,
    {
        if pos > data.len() || data.len() - pos < 16 {
            return Err(Xc3Error::UnexpectedEof { requested: 16, available: data.len() });
        }
        let e = Endian::Little;
        let name_ptr = crate::vertex::read_u32_in_pub(data, pos, e);
        if (base as u128) + (name_ptr as u128) > usize::MAX as u128 {
            return Err(Xc3Error::OffsetOutOfBounds { offset: name_ptr as usize,
                file_size: data.len() });
        }
        let name = match read_cstring(data, base + name_ptr as usize) {
            Ok(v) => v,
            Err(er) => {
                return Err(er);
            }
        };
        Ok(UniformBuffer {
            name,
            uniform_count: crate::vertex::read_u16_in_pub(data, pos + 4, e),
            uniform_start_index: crate::vertex::read_u16_in_pub(data, pos + 6, e),
            unk3: crate::vertex::read_u32_in_pub(data, pos + 8, e),
            unk4: crate::vertex::read_u16_in_pub(data, pos + 12, e),
            unk5: crate::vertex::read_u16_in_pub(data, pos + 14, e),
        })
    }
}

/// One `vec4` parameter of a uniform buffer.
#[derive(Clone, Debug, PartialEq, Eq)]
pub struct Uniform {
    /// The parameter name, resolved from its string pointer.
    pub name: Vec<u8>,
    /// The byte offset of the parameter inside its buffer.
    pub buffer_offset: u32,
}

impl Uniform {
    /// Decodes the eight-byte record at `pos`, resolving its name
    /// relative to `base`.
    pub fn read(data: &Vec<u8>, pos: usize, base: usize) -> (r: Result<Uniform, Xc3Error>)
        ensures
            r matches Ok(u) ==> pos + 8 <= data.len() && cstring_at(u.name@, data@, base
                + u32_at(data@, pos as int, Endian::Little)) && u.buffer_offset == u32_at(data@,
                pos + 4, Endian::Little),
            (pos + 8 <= data.len() && base + u32_at(data@, pos as int, Endian::Little)
                < data@.len() && (exists|t: int| base + u32_at(data@, pos as int,
                Endian::Little) <= t < data@.len() && data@[t] == 0)) ==> r is Ok,
    {
        if pos > data.len() || data.len() - pos < 8 {
            return Err(Xc3Error::UnexpectedEof { requested: 8, available: data.len() });
        }
        let e = Endian::Little;
        let name_ptr = crate::vertex::read_u32_in_pub(data, pos, e);
        if (base as u128) + (name_ptr as u128) > usize::MAX as u128 {
            return Err(Xc3Error::OffsetOutOfBounds { offset: name_ptr as usize,
                file_size: data.len() });
        }
        let name = match read_cstring(data, base + name_ptr as usize) {
            Ok(v) => v,
            Err(er) => {
                return Err(er);
            }
        };
        Ok(Uniform { name, buffer_offset: crate::vertex::read_u32_in_pub(data, pos + 4, e) })
    }
}

/// One vertex input attribute of a shader program.
#[derive(Clone, Debug, PartialEq, Eq)]
pub struct InputAttribute {
    /// The attribute name, resolved from its string pointer.
    pub name: Vec<u8>,
    pub location: u32,
}

impl InputAttribute {
    /// Decodes the eight-byte record at `pos`, resolving its name
    /// relative to `base`.
    pub fn read(data: &Vec<u8>, pos: usize, base: usize) -> (r: Result<InputAttribute,
        Xc3Error>)
        ensures
            r matches Ok(a) ==> pos + 8 <= data.len() && cstring_at(a.name@, data@, base
                + u32_at(data@, pos as int, Endian::Little)) && a.location == u32_at(data@, pos
                + 4, Endian::Little),
            (pos + 8 <= data.len() && base + u32_at(data@, pos as int, Endian::Little)
                < data@.len() && (exists|t: int| base + u32_at(data@, pos as int,
                Endian::Little) <= t < data@.len() && data@[t] == 0)) ==> r is Ok,
    {
        if pos > data.len() || data.len() - pos < 8 {
            return Err(Xc3Error::UnexpectedEof { requested: 8, available: data.len() });
        }
        let e = Endian::Little;
        let name_ptr = crate::vertex::read_u32_in_pub(data, pos, e);
        if (base as u128) + (name_ptr as u128) > usize::MAX as u128 {
            return Err(Xc3Error::OffsetOutOfBounds { offset: name_ptr as usize,
                file_size: data.len() });
        }
        let name = match read_cstring(data, base + name_ptr as usize) {
            Ok(v) => v,
            Err(er) => {
                return Err(er);
            }
        };
        Ok(InputAttribute { name, location: crate::vertex::read_u32_in_pub(data, pos + 4, e) })
    }
}

} // verus!
