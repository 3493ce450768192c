//! Vertex, index and morph buffer codecs: decoding interleaved vertex
//! attributes into a struct-of-arrays form and re-encoding them byte for
//! byte.
//!
//! Attribute values are kept in their raw storage form: floating-point
//! components are carried as IEEE-754 bit patterns and normalized integer
//! components as the stored integers. Consumers divide by the quantization
//! constant (127, 255 or 65535) when they need real-valued vectors, which
//! keeps every decode/encode pair exact.
use vstd::prelude::*;

use crate::cursor::{enc16, enc32, u16_at, u32_at, Endian, push_u16, push_u32};
use crate::error::Xc3Error;

verus! {

/// Two 32-bit float components stored as IEEE-754 bit patterns.
#[derive(Clone, Copy, Debug, PartialEq, Eq, Structural)]
pub struct F32x2 {
    pub x: u32,
    pub y: u32,
}

/// Three 32-bit float components stored as IEEE-754 bit patterns.
#[derive(Clone, Copy, Debug, PartialEq, Eq, Structural)]
pub struct F32x3 {
    pub x: u32,
    pub y: u32,
    pub z: u32,
}

/// Four byte components.
///
/// Signed kinds (normals, tangents) reinterpret each byte as two's
/// complement; normalized kinds divide by 255 (or re-bias as
/// `v / 255 * 2 - 1` for morph directions).
#[derive(Clone, Copy, Debug, PartialEq, Eq, Structural)]
pub struct U8x4 {
    pub x: u8,
    pub y: u8,
    pub z: u8,
    pub w: u8,
}

/// Two 16-bit components.
#[derive(Clone, Copy, Debug, PartialEq, Eq, Structural)]
pub struct U16x2 {
    pub x: u16,
    pub y: u16,
}

/// Four 16-bit components. Skin weights divide each by 65535.
#[derive(Clone, Copy, Debug, PartialEq, Eq, Structural)]
pub struct U16x4 {
    pub x: u16,
    pub y: u16,
    pub z: u16,
    pub w: u16,
}

/// The type code of a vertex attribute.
#[derive(Clone, Copy, Debug, PartialEq, Eq, Structural)]
pub enum DataType {
    Position,
    SkinWeights2,
    BoneIndices2,
    WeightIndex,
    WeightIndex2,
    TexCoord0,
    TexCoord1,
    TexCoord2,
    TexCoord3,
    TexCoord4,
    TexCoord5,
    TexCoord6,
    TexCoord7,
    TexCoord8,
    Blend,
    Unk15,
    Unk16,
    VertexColor,
    Unk18,
    Unk24,
    Unk25,
    Unk26,
    Normal,
    Tangent,
    Unk30,
    Unk31,
    Normal2,
    Unk33,
    Normal3,
    VertexColor3,
    Position2,
    Normal4,
    OldPosition,
    Tangent2,
    SkinWeights,
    BoneIndices,
    Flow,
}

/// One attribute of an interleaved vertex buffer: its type code and the
/// number of bytes it occupies in each vertex.
#[derive(Clone, Copy, Debug, PartialEq, Eq, Structural)]
pub struct VertexAttribute {
    pub data_type: DataType,
    pub data_size: u16,
}

/// Describes one interleaved vertex buffer inside the vertex data section.
#[derive(Clone, Debug, PartialEq)]
pub struct VertexBufferDescriptor {
    pub data_offset: u32,
    pub vertex_count: u32,
    /// The stride of one vertex in bytes.
    pub vertex_size: u32,
    pub attributes: Vec<VertexAttribute>,
    pub unk1: u32,
    pub unk2: u32,
    pub unk3: u32,
}

/// The primitive topology of an index buffer.
#[derive(Clone, Copy, Debug, PartialEq, Eq, Structural)]
pub enum PrimitiveType {
    TriangleList,
}

/// The storage width of one index.
#[derive(Clone, Copy, Debug, PartialEq, Eq, Structural)]
pub enum IndexFormat {
    Uint16,
    Uint32,
}

/// Describes one index buffer inside the vertex data section.
#[derive(Clone, Copy, Debug, PartialEq, Eq, Structural)]
pub struct IndexBufferDescriptor {
    pub data_offset: u32,
    pub index_count: u32,
    pub primitive_type: PrimitiveType,
    pub index_format: IndexFormat,
    pub unk3: u16,
    pub unk4: u16,
}

/// Per vertex values for one vertex attribute, stored as an array per
/// attribute rather than interleaved.
#[derive(Clone, Debug, PartialEq)]
pub enum AttributeData {
    /// Three float bit patterns per vertex.
    Position(Vec<F32x3>),
    /// Four signed normalized bytes per vertex (divide by 127).
    Normal(Vec<U8x4>),
    /// Four signed normalized bytes per vertex (divide by 127).
    Tangent(Vec<U8x4>),
    /// Two float bit patterns per vertex.
    TexCoord0(Vec<F32x2>),
    TexCoord1(Vec<F32x2>),
    TexCoord2(Vec<F32x2>),
    TexCoord3(Vec<F32x2>),
    TexCoord4(Vec<F32x2>),
    TexCoord5(Vec<F32x2>),
    TexCoord6(Vec<F32x2>),
    TexCoord7(Vec<F32x2>),
    TexCoord8(Vec<F32x2>),
    /// Four unsigned normalized bytes per vertex (divide by 255).
    VertexColor(Vec<U8x4>),
    /// Four unsigned normalized bytes per vertex (divide by 255).
    Blend(Vec<U8x4>),
    /// Two 16-bit indices per vertex.
    WeightIndex(Vec<U16x2>),
    /// Three float bit patterns per vertex (morph base positions).
    Position2(Vec<F32x3>),
    /// Four re-biased direction bytes per vertex (`v / 255 * 2 - 1`).
    Normal4(Vec<U8x4>),
    /// Three float bit patterns per vertex.
    OldPosition(Vec<F32x3>),
    /// Four re-biased direction bytes per vertex (`v / 255 * 2 - 1`).
    Tangent2(Vec<U8x4>),
    /// Four unsigned normalized 16-bit weights per vertex (divide by 65535).
    SkinWeights(Vec<U16x4>),
    /// Three float bit patterns per vertex (the fourth weight is implied).
    SkinWeights2(Vec<F32x3>),
    /// Four bone indices per vertex.
    BoneIndices(Vec<U8x4>),
    /// Four bone indices per vertex.
    BoneIndices2(Vec<U8x4>),
}

/// The number of vertices an attribute array holds.
pub open spec fn spec_attr_len(a: AttributeData) -> int {
    match a {
        AttributeData::Position(v) => v.len() as int,
        AttributeData::Normal(v) => v.len() as int,
        AttributeData::Tangent(v) => v.len() as int,
        AttributeData::TexCoord0(v) => v.len() as int,
        AttributeData::TexCoord1(v) => v.len() as int,
        AttributeData::TexCoord2(v) => v.len() as int,
        AttributeData::TexCoord3(v) => v.len() as int,
        AttributeData::TexCoord4(v) => v.len() as int,
        AttributeData::TexCoord5(v) => v.len() as int,
        AttributeData::TexCoord6(v) => v.len() as int,
        AttributeData::TexCoord7(v) => v.len() as int,
        AttributeData::TexCoord8(v) => v.len() as int,
        AttributeData::VertexColor(v) => v.len() as int,
        AttributeData::Blend(v) => v.len() as int,
        AttributeData::WeightIndex(v) => v.len() as int,
        AttributeData::Position2(v) => v.len() as int,
        AttributeData::Normal4(v) => v.len() as int,
        AttributeData::OldPosition(v) => v.len() as int,
        AttributeData::Tangent2(v) => v.len() as int,
        AttributeData::SkinWeights(v) => v.len() as int,
        AttributeData::SkinWeights2(v) => v.len() as int,
        AttributeData::BoneIndices(v) => v.len() as int,
        AttributeData::BoneIndices2(v) => v.len() as int,
    }
}

impl AttributeData {
    /// The number of vertices this attribute array holds.
    pub fn len(&self) -> (r: usize)
        ensures
            r == spec_attr_len(*self),
    {
        match self {
            AttributeData::Position(v) => v.len(),
            AttributeData::Normal(v) => v.len(),
            AttributeData::Tangent(v) => v.len(),
            AttributeData::TexCoord0(v) => v.len(),
            AttributeData::TexCoord1(v) => v.len(),
            AttributeData::TexCoord2(v) => v.len(),
            AttributeData::TexCoord3(v) => v.len(),
            AttributeData::TexCoord4(v) => v.len(),
            AttributeData::TexCoord5(v) => v.len(),
            AttributeData::TexCoord6(v) => v.len(),
            AttributeData::TexCoord7(v) => v.len(),
            AttributeData::TexCoord8(v) => v.len(),
            AttributeData::VertexColor(v) => v.len(),
            AttributeData::Blend(v) => v.len(),
            AttributeData::WeightIndex(v) => v.len(),
            AttributeData::Position2(v) => v.len(),
            AttributeData::Normal4(v) => v.len(),
            AttributeData::OldPosition(v) => v.len(),
            AttributeData::Tangent2(v) => v.len(),
            AttributeData::SkinWeights(v) => v.len(),
            AttributeData::SkinWeights2(v) => v.len(),
            AttributeData::BoneIndices(v) => v.len(),
            AttributeData::BoneIndices2(v) => v.len(),
        }
    }

    /// Whether this attribute array holds no vertices.
    pub fn is_empty(&self) -> (r: bool)
        ensures
            r == (spec_attr_len(*self) == 0),
    {
        self.len() == 0
    }

    /// The type code this attribute is written back under.
    pub fn data_type(&self) -> (r: DataType)
        ensures
            r == spec_attr_data_type(*self),
    {
        match self {
            AttributeData::Position(_) => DataType::Position,
            AttributeData::Normal(_) => DataType::Normal,
            AttributeData::Tangent(_) => DataType::Tangent,
            AttributeData::TexCoord0(_) => DataType::TexCoord0,
            AttributeData::TexCoord1(_) => DataType::TexCoord1,
            AttributeData::TexCoord2(_) => DataType::TexCoord2,
            AttributeData::TexCoord3(_) => DataType::TexCoord3,
            AttributeData::TexCoord4(_) => DataType::TexCoord4,
            AttributeData::TexCoord5(_) => DataType::TexCoord5,
            AttributeData::TexCoord6(_) => DataType::TexCoord6,
            AttributeData::TexCoord7(_) => DataType::TexCoord7,
            AttributeData::TexCoord8(_) => DataType::TexCoord8,
            AttributeData::VertexColor(_) => DataType::VertexColor,
            AttributeData::Blend(_) => DataType::Blend,
            AttributeData::WeightIndex(_) => DataType::WeightIndex,
            AttributeData::Position2(_) => DataType::Position2,
            AttributeData::Normal4(_) => DataType::Normal4,
            AttributeData::OldPosition(_) => DataType::OldPosition,
            AttributeData::Tangent2(_) => DataType::Tangent2,
            AttributeData::SkinWeights(_) => DataType::SkinWeights,
            AttributeData::SkinWeights2(_) => DataType::SkinWeights2,
            AttributeData::BoneIndices(_) => DataType::BoneIndices,
            AttributeData::BoneIndices2(_) => DataType::BoneIndices2,
        }
    }
}

/// The type code an attribute array is written back under.
pub open spec fn spec_attr_data_type(a: AttributeData) -> DataType {
    match a {
        AttributeData::Position(_) => DataType::Position,
        AttributeData::Normal(_) => DataType::Normal,
        AttributeData::Tangent(_) => DataType::Tangent,
        AttributeData::TexCoord0(_) => DataType::TexCoord0,
        AttributeData::TexCoord1(_) => DataType::TexCoord1,
        AttributeData::TexCoord2(_) => DataType::TexCoord2,
        AttributeData::TexCoord3(_) => DataType::TexCoord3,
        AttributeData::TexCoord4(_) => DataType::TexCoord4,
        AttributeData::TexCoord5(_) => DataType::TexCoord5,
        AttributeData::TexCoord6(_) => DataType::TexCoord6,
        AttributeData::TexCoord7(_) => DataType::TexCoord7,
        AttributeData::TexCoord8(_) => DataType::TexCoord8,
        AttributeData::VertexColor(_) => DataType::VertexColor,
        AttributeData::Blend(_) => DataType::Blend,
        AttributeData::WeightIndex(_) => DataType::WeightIndex,
        AttributeData::Position2(_) => DataType::Position2,
        AttributeData::Normal4(_) => DataType::Normal4,
        AttributeData::OldPosition(_) => DataType::OldPosition,
        AttributeData::Tangent2(_) => DataType::Tangent2,
        AttributeData::SkinWeights(_) => DataType::SkinWeights,
        AttributeData::SkinWeights2(_) => DataType::SkinWeights2,
        AttributeData::BoneIndices(_) => DataType::BoneIndices,
        AttributeData::BoneIndices2(_) => DataType::BoneIndices2,
    }
}

/// The canonical per-vertex byte size an attribute type occupies when the
/// crate writes it.
pub open spec fn spec_data_size(dt: DataType) -> int {
    match dt {
        DataType::Position => 12,
        DataType::SkinWeights2 => 12,
        DataType::BoneIndices2 => 4,
        DataType::WeightIndex => 4,
        DataType::WeightIndex2 => 4,
        DataType::TexCoord0 => 8,
        DataType::TexCoord1 => 8,
        DataType::TexCoord2 => 8,
        DataType::TexCoord3 => 8,
        DataType::TexCoord4 => 8,
        DataType::TexCoord5 => 8,
        DataType::TexCoord6 => 8,
        DataType::TexCoord7 => 8,
        DataType::TexCoord8 => 8,
        DataType::Blend => 4,
        DataType::VertexColor => 4,
        DataType::Normal => 4,
        DataType::Tangent => 4,
        DataType::Normal2 => 4,
        DataType::Position2 => 12,
        DataType::Normal4 => 4,
        DataType::OldPosition => 12,
        DataType::Tangent2 => 4,
        DataType::SkinWeights => 8,
        DataType::BoneIndices => 4,
        DataType::Unk15 => 4,
        DataType::Unk16 => 4,
        DataType::Unk18 => 4,
        DataType::Unk24 => 4,
        DataType::Unk25 => 4,
        DataType::Unk26 => 4,
        DataType::Unk30 => 4,
        DataType::Unk31 => 4,
        DataType::Unk33 => 4,
        DataType::Normal3 => 4,
        DataType::VertexColor3 => 4,
        DataType::Flow => 4,
    }
}

impl DataType {
    /// The canonical per-vertex byte size of this attribute type.
    pub fn data_size(&self) -> (r: u16)
        ensures
            r == spec_data_size(*self),
    {
        match self {
            DataType::Position => 12,
            DataType::SkinWeights2 => 12,
            DataType::Position2 => 12,
            DataType::OldPosition => 12,
            DataType::TexCoord0 => 8,
            DataType::TexCoord1 => 8,
            DataType::TexCoord2 => 8,
            DataType::TexCoord3 => 8,
            DataType::TexCoord4 => 8,
            DataType::TexCoord5 => 8,
            DataType::TexCoord6 => 8,
            DataType::TexCoord7 => 8,
            DataType::TexCoord8 => 8,
            DataType::SkinWeights => 8,
            _ => 4,
        }
    }

    /// The attribute descriptor this type code produces on write.
    pub fn to_attribute(&self) -> (r: VertexAttribute)
        ensures
            r.data_type == *self,
            r.data_size == spec_data_size(*self),
    {
        VertexAttribute { data_type: *self, data_size: self.data_size() }
    }
}

/// The sequence of 16-bit indices in `data` starting at `offset`, `count`
/// of them, in byte order `e`.
pub open spec fn indices_at(data: Seq<u8>, offset: int, count: int, e: Endian) -> Seq<u16> {
    Seq::new(count as nat, |j: int| u16_at(data, offset + 2 * j, e) as u16)
}

/// The byte encoding of a sequence of 16-bit indices in byte order `e`.
pub open spec fn enc_indices(ix: Seq<u16>, e: Endian) -> Seq<u8>
    decreases ix.len(),
{
    if ix.len() == 0 {
        Seq::empty()
    } else {
        enc16(ix[0] as int, e) + enc_indices(ix.drop_first(), e)
    }
}

/// The encoding of `count` indices occupies `2 * count` bytes.
pub proof fn lemma_enc_indices_len(ix: Seq<u16>, e: Endian)
    ensures
        enc_indices(ix, e).len() == 2 * ix.len(),
    decreases ix.len(),
{
    if ix.len() > 0 {
        lemma_enc_indices_len(ix.drop_first(), e);
    }
}

/// Decodes the 16-bit index list a descriptor points at.
///
/// Succeeds exactly when the indexed region lies inside `buffer`; the
/// decoded list holds the scalar at `data_offset + 2 * j` for each `j`.
pub fn read_indices(descriptor: &IndexBufferDescriptor, buffer: &Vec<u8>, endian: Endian) -> (r:
    Result<Vec<u16>, Xc3Error>)
    ensures
        descriptor.data_offset + 2 * descriptor.index_count <= buffer.len() ==> (r matches Ok(v)
            && v@ =~= indices_at(buffer@, descriptor.data_offset as int,
            descriptor.index_count as int, endian)),
        descriptor.data_offset + 2 * descriptor.index_count > buffer.len() ==> (r matches Err(er)
            && er matches Xc3Error::UnexpectedEof { .. }),
{
    let count = descriptor.index_count;
    let offset = descriptor.data_offset;
    if (offset as u64) + 2 * (count as u64) > buffer.len() as u64 {
        let requested: u64 = 2 * (count as u64);
        return Err(Xc3Error::UnexpectedEof {
            requested: requested as usize,
            available: buffer.len(),
        });
    }
    let mut indices: Vec<u16> = Vec::new();
    let mut j: u32 = 0;
    while j < count
        invariant
            j <= count,
            offset + 2 * count <= buffer.len(),
            indices@ =~= indices_at(buffer@, offset as int, j as int, endian),
        decreases count - j,
    {
        let pos = offset as usize + 2 * j as usize;
        let b0 = buffer[pos];
        let b1 = buffer[pos + 1];
        let v: u16 = match endian {
            Endian::Little => b0 as u16 + (b1 as u16) * 256,
            Endian::Big => (b0 as u16) * 256 + b1 as u16,
        };
        indices.push(v);
        j += 1;
    }
    Ok(indices)
}

/// Appends the 16-bit encoding of `indices` and returns the descriptor of
/// the written buffer.
pub fn write_index_buffer(out: &mut Vec<u8>, indices: &Vec<u16>, endian: Endian) -> (r:
    IndexBufferDescriptor)
    requires
        old(out)@.len() + 2 * indices@.len() <= u32::MAX,
    ensures
        final(out)@ =~= old(out)@ + enc_indices(indices@, endian),
        r.data_offset == old(out)@.len(),
        r.index_count == indices@.len(),
        r.primitive_type == PrimitiveType::TriangleList,
        r.index_format == IndexFormat::Uint16,
        r.unk3 == 0u16,
        r.unk4 == 0u16,
{
    let data_offset = out.len() as u32;
    let mut j: usize = 0;
    proof {
        lemma_enc_indices_len(indices@, endian);
    }
    while j < indices.len()
        invariant
            j <= indices@.len(),
            out@ =~= old(out)@ + enc_indices(indices@.take(j as int), endian),
        decreases indices@.len() - j,
    {
        proof {
            lemma_enc_indices_take(indices@, j as int, endian);
        }
        push_u16(out, indices[j], endian);
        j += 1;
    }
    proof {
        assert(indices@.take(indices@.len() as int) =~= indices@);
    }
    IndexBufferDescriptor {
        data_offset,
        index_count: indices.len() as u32,
        primitive_type: PrimitiveType::TriangleList,
        index_format: IndexFormat::Uint16,
        unk3: 0,
        unk4: 0,
    }
}

/// Appending one more index extends the encoding by its two bytes.
proof fn lemma_enc_indices_take(ix: Seq<u16>, j: int, e: Endian)
    requires
        0 <= j < ix.len(),
    ensures
        enc_indices(ix.take(j + 1), e) =~= enc_indices(ix.take(j), e) + enc16(ix[j] as int, e),
    decreases j,
{
    if j == 0 {
        assert(ix.take(1).drop_first() =~= Seq::<u16>::empty());
        assert(ix.take(0) =~= Seq::<u16>::empty());
    } else {
        lemma_enc_indices_take(ix.drop_first(), j - 1, e);
        assert(ix.take(j + 1).drop_first() =~= ix.drop_first().take(j));
        assert(ix.take(j).drop_first() =~= ix.drop_first().take(j - 1));
        assert(ix.take(j + 1)[0] == ix[0]);
        assert(ix.take(j)[0] == ix[0]);
        assert(ix.drop_first()[j - 1] == ix[j]);
    }
}

/// The numeric code of an attribute type as stored in a buffer descriptor.
pub open spec fn spec_type_code(dt: DataType) -> int {
    match dt {
        DataType::Position => 0,
        DataType::SkinWeights2 => 1,
        DataType::BoneIndices2 => 2,
        DataType::WeightIndex => 3,
        DataType::WeightIndex2 => 4,
        DataType::TexCoord0 => 5,
        DataType::TexCoord1 => 6,
        DataType::TexCoord2 => 7,
        DataType::TexCoord3 => 8,
        DataType::TexCoord4 => 9,
        DataType::TexCoord5 => 10,
        DataType::TexCoord6 => 11,
        DataType::TexCoord7 => 12,
        DataType::TexCoord8 => 13,
        DataType::Blend => 14,
        DataType::Unk15 => 15,
        DataType::Unk16 => 16,
        DataType::VertexColor => 17,
        DataType::Unk18 => 18,
        DataType::Unk24 => 24,
        DataType::Unk25 => 25,
        DataType::Unk26 => 26,
        DataType::Normal => 28,
        DataType::Tangent => 29,
        DataType::Unk30 => 30,
        DataType::Unk31 => 31,
        DataType::Normal2 => 32,
        DataType::Unk33 => 33,
        DataType::Normal3 => 34,
        DataType::VertexColor3 => 35,
        DataType::Position2 => 36,
        DataType::Normal4 => 37,
        DataType::OldPosition => 38,
        DataType::Tangent2 => 39,
        DataType::SkinWeights => 40,
        DataType::BoneIndices => 41,
        DataType::Flow => 52,
    }
}

impl DataType {
    /// The numeric code this type is stored under in a descriptor.
    pub fn code(&self) -> (r: u16)
        ensures
            r == spec_type_code(*self),
    {
        match self {
            DataType::Position => 0,
            DataType::SkinWeights2 => 1,
            DataType::BoneIndices2 => 2,
            DataType::WeightIndex => 3,
            DataType::WeightIndex2 => 4,
            DataType::TexCoord0 => 5,
            DataType::TexCoord1 => 6,
            DataType::TexCoord2 => 7,
            DataType::TexCoord3 => 8,
            DataType::TexCoord4 => 9,
            DataType::TexCoord5 => 10,
            DataType::TexCoord6 => 11,
            DataType::TexCoord7 => 12,
            DataType::TexCoord8 => 13,
            DataType::Blend => 14,
            DataType::Unk15 => 15,
            DataType::Unk16 => 16,
            DataType::VertexColor => 17,
            DataType::Unk18 => 18,
            DataType::Unk24 => 24,
            DataType::Unk25 => 25,
            DataType::Unk26 => 26,
            DataType::Normal => 28,
            DataType::Tangent => 29,
            DataType::Unk30 => 30,
            DataType::Unk31 => 31,
            DataType::Normal2 => 32,
            DataType::Unk33 => 33,
            DataType::Normal3 => 34,
            DataType::VertexColor3 => 35,
            DataType::Position2 => 36,
            DataType::Normal4 => 37,
            DataType::OldPosition => 38,
            DataType::Tangent2 => 39,
            DataType::SkinWeights => 40,
            DataType::BoneIndices => 41,
            DataType::Flow => 52,
        }
    }

    /// Decodes a numeric type code, rejecting codes outside the
    /// enumerated set.
    pub fn from_code(v: u16) -> (r: Result<DataType, Xc3Error>)
        ensures
            r matches Ok(dt) ==> spec_type_code(dt) == v,
            r matches Err(er) ==> (er == (Xc3Error::AttributeUnsupported { type_code: v as u32 })
                && forall|dt: DataType| #[trigger] spec_type_code(dt) != v),
    {
        let r = match v {
            0u16 => Some(DataType::Position),
            1u16 => Some(DataType::SkinWeights2),
            2u16 => Some(DataType::BoneIndices2),
            3u16 => Some(DataType::WeightIndex),
            4u16 => Some(DataType::WeightIndex2),
            5u16 => Some(DataType::TexCoord0),
            6u16 => Some(DataType::TexCoord1),
            7u16 => Some(DataType::TexCoord2),
            8u16 => Some(DataType::TexCoord3),
            9u16 => Some(DataType::TexCoord4),
            10u16 => Some(DataType::TexCoord5),
            11u16 => Some(DataType::TexCoord6),
            12u16 => Some(DataType::TexCoord7),
            13u16 => Some(DataType::TexCoord8),
            14u16 => Some(DataType::Blend),
            15u16 => Some(DataType::Unk15),
            16u16 => Some(DataType::Unk16),
            17u16 => Some(DataType::VertexColor),
            18u16 => Some(DataType::Unk18),
            24u16 => Some(DataType::Unk24),
            25u16 => Some(DataType::Unk25),
            26u16 => Some(DataType::Unk26),
            28u16 => Some(DataType::Normal),
            29u16 => Some(DataType::Tangent),
            30u16 => Some(DataType::Unk30),
            31u16 => Some(DataType::Unk31),
            32u16 => Some(DataType::Normal2),
            33u16 => Some(DataType::Unk33),
            34u16 => Some(DataType::Normal3),
            35u16 => Some(DataType::VertexColor3),
            36u16 => Some(DataType::Position2),
            37u16 => Some(DataType::Normal4),
            38u16 => Some(DataType::OldPosition),
            39u16 => Some(DataType::Tangent2),
            40u16 => Some(DataType::SkinWeights),
            41u16 => Some(DataType::BoneIndices),
            52u16 => Some(DataType::Flow),
            _ => None,
        };
        match r {
            Some(dt) => Ok(dt),
            None => Err(Xc3Error::AttributeUnsupported { type_code: v as u32 }),
        }
    }
}

/// Two float bit patterns stored at byte offset `i`.
pub open spec fn f32x2_at(data: Seq<u8>, i: int, e: Endian) -> F32x2 {
    F32x2 { x: u32_at(data, i, e) as u32, y: u32_at(data, i + 4, e) as u32 }
}

/// Three float bit patterns stored at byte offset `i`.
pub open spec fn f32x3_at(data: Seq<u8>, i: int, e: Endian) -> F32x3 {
    F32x3 {
        x: u32_at(data, i, e) as u32,
        y: u32_at(data, i + 4, e) as u32,
        z: u32_at(data, i + 8, e) as u32,
    }
}

/// Four bytes stored at byte offset `i`.
pub open spec fn u8x4_at(data: Seq<u8>, i: int) -> U8x4 {
    U8x4 { x: data[i], y: data[i + 1], z: data[i + 2], w: data[i + 3] }
}

/// Two 16-bit scalars stored at byte offset `i`.
pub open spec fn u16x2_at(data: Seq<u8>, i: int, e: Endian) -> U16x2 {
    U16x2 { x: u16_at(data, i, e) as u16, y: u16_at(data, i + 2, e) as u16 }
}

/// Four 16-bit scalars stored at byte offset `i`.
pub open spec fn u16x4_at(data: Seq<u8>, i: int, e: Endian) -> U16x4 {
    U16x4 {
        x: u16_at(data, i, e) as u16,
        y: u16_at(data, i + 2, e) as u16,
        z: u16_at(data, i + 4, e) as u16,
        w: u16_at(data, i + 6, e) as u16,
    }
}

/// The end of the window of vertex `j`: `base + j * stride + rel + size`.
pub open spec fn window_end(base: int, stride: int, rel: int, size: int, j: int) -> int {
    base + j * stride + rel + size
}

/// Every per-vertex window of `size` bytes at `base + j * stride + rel`
/// lies inside a buffer of `len` bytes.
pub open spec fn windows_ok(base: int, count: int, stride: int, rel: int, size: int, len: int)
    -> bool {
    forall|j: int| 0 <= j < count ==> #[trigger] window_end(base, stride, rel, size, j) <= len
}

/// Checks `windows_ok` by testing the last window.
fn check_windows(base: u32, count: u32, stride: u32, rel: u32, size: u32, len: usize) -> (r: bool)
    ensures
        r == windows_ok(base as int, count as int, stride as int, rel as int, size as int,
            len as int),
{
    if count == 0 {
        return true;
    }
    proof {
        vstd::arithmetic::mul::lemma_mul_upper_bound(count - 1, 0xffff_ffff, stride as int,
            0xffff_ffff);
    }
    let last: u128 = base as u128 + (count as u128 - 1) * stride as u128 + rel as u128
        + size as u128;
    let r = last <= len as u128;
    proof {
        if r {
            assert forall|j: int| 0 <= j < count implies #[trigger] window_end(base as int,
                stride as int, rel as int, size as int, j) <= len by {
                vstd::arithmetic::mul::lemma_mul_inequality(j, count - 1, stride as int);
            }
        } else {
            assert(window_end(base as int, stride as int, rel as int, size as int, count - 1)
                > len);
        }
    }
    r
}

/// The decoded float pair array of `count` vertices.
pub open spec fn dec_f32x2(data: Seq<u8>, base: int, stride: int, rel: int, count: int, e: Endian)
    -> Seq<F32x2> {
    Seq::new(count as nat, |j: int| f32x2_at(data, base + j * stride + rel, e))
}

/// The decoded float triple array of `count` vertices.
pub open spec fn dec_f32x3(data: Seq<u8>, base: int, stride: int, rel: int, count: int, e: Endian)
    -> Seq<F32x3> {
    Seq::new(count as nat, |j: int| f32x3_at(data, base + j * stride + rel, e))
}

/// The decoded byte quadruple array of `count` vertices.
pub open spec fn dec_u8x4(data: Seq<u8>, base: int, stride: int, rel: int, count: int)
    -> Seq<U8x4> {
    Seq::new(count as nat, |j: int| u8x4_at(data, base + j * stride + rel))
}

/// The decoded 16-bit pair array of `count` vertices.
pub open spec fn dec_u16x2(data: Seq<u8>, base: int, stride: int, rel: int, count: int, e: Endian)
    -> Seq<U16x2> {
    Seq::new(count as nat, |j: int| u16x2_at(data, base + j * stride + rel, e))
}

/// The decoded 16-bit quadruple array of `count` vertices.
pub open spec fn dec_u16x4(data: Seq<u8>, base: int, stride: int, rel: int, count: int, e: Endian)
    -> Seq<U16x4> {
    Seq::new(count as nat, |j: int| u16x4_at(data, base + j * stride + rel, e))
}

/// The decoded 32-bit scalar array of `count` vertices.
pub open spec fn dec_u32(data: Seq<u8>, base: int, stride: int, rel: int, count: int, e: Endian)
    -> Seq<u32> {
    Seq::new(count as nat, |j: int| u32_at(data, base + j * stride + rel, e) as u32)
}

/// Reads `count` 32-bit scalars at stride `stride` from the buffer.
pub fn read_u32_array(buffer: &Vec<u8>, base: u32, count: u32, stride: u32, rel: u32, e: Endian)
    -> (r: Result<Vec<u32>, Xc3Error>)
    ensures
        windows_ok(base as int, count as int, stride as int, rel as int, 4, buffer.len() as int)
            ==> (r matches Ok(v) && v@ =~= dec_u32(buffer@, base as int, stride as int,
            rel as int, count as int, e)),
        !windows_ok(base as int, count as int, stride as int, rel as int, 4,
            buffer.len() as int) ==> (r matches Err(er) && er matches Xc3Error::UnexpectedEof {
            ..
        }),
{
    if !check_windows(base, count, stride, rel, 4, buffer.len()) {
        return Err(Xc3Error::UnexpectedEof { requested: 4, available: buffer.len() });
    }
    let mut values: Vec<u32> = Vec::new();
    let mut j: u32 = 0;
    while j < count
        invariant
            j <= count,
            windows_ok(base as int, count as int, stride as int, rel as int, 4,
                buffer@.len() as int),
            buffer@.len() <= usize::MAX,
            values@ =~= dec_u32(buffer@, base as int, stride as int, rel as int, j as int, e),
        decreases count - j,
    {
        proof {
            assert(window_end(base as int, stride as int, rel as int, 4, j as int)
                <= buffer@.len());
            vstd::arithmetic::mul::lemma_mul_is_commutative(j as int, stride as int);
        }
        let pos: usize = base as usize + j as usize * stride as usize + rel as usize;
        let x = read_u32_in(buffer, pos, e);
        values.push(x);
        j += 1;
    }
    Ok(values)
}

/// Reads `count` float triples at stride `stride` from the buffer.
pub fn read_f32x3_array(buffer: &Vec<u8>, base: u32, count: u32, stride: u32, rel: u32, e: Endian)
    -> (r: Result<Vec<F32x3>, Xc3Error>)
    ensures
        windows_ok(base as int, count as int, stride as int, rel as int, 12, buffer.len() as int)
            ==> (r matches Ok(v) && v@ =~= dec_f32x3(buffer@, base as int, stride as int,
            rel as int, count as int, e)),
        !windows_ok(base as int, count as int, stride as int, rel as int, 12,
            buffer.len() as int) ==> (r matches Err(er) && er matches Xc3Error::UnexpectedEof {
            ..
        }),
{
    if !check_windows(base, count, stride, rel, 12, buffer.len()) {
        return Err(Xc3Error::UnexpectedEof { requested: 12, available: buffer.len() });
    }
    let mut values: Vec<F32x3> = Vec::new();
    let mut j: u32 = 0;
    while j < count
        invariant
            j <= count,
            windows_ok(base as int, count as int, stride as int, rel as int, 12,
                buffer@.len() as int),
            buffer@.len() <= usize::MAX,
            values@ =~= dec_f32x3(buffer@, base as int, stride as int, rel as int, j as int, e),
        decreases count - j,
    {
        proof {
            assert(window_end(base as int, stride as int, rel as int, 12, j as int)
                <= buffer@.len());
            vstd::arithmetic::mul::lemma_mul_is_commutative(j as int, stride as int);
        }
        let pos: usize = base as usize + j as usize * stride as usize + rel as usize;
        let x = read_u32_in(buffer, pos, e);
        let y = read_u32_in(buffer, pos + 4, e);
        let z = read_u32_in(buffer, pos + 8, e);
        values.push(F32x3 { x, y, z });
        j += 1;
    }
    Ok(values)
}

/// Reads `count` float pairs at stride `stride` from the buffer.
pub fn read_f32x2_array(buffer: &Vec<u8>, base: u32, count: u32, stride: u32, rel: u32, e: Endian)
    -> (r: Result<Vec<F32x2>, Xc3Error>)
    ensures
        windows_ok(base as int, count as int, stride as int, rel as int, 8, buffer.len() as int)
            ==> (r matches Ok(v) && v@ =~= dec_f32x2(buffer@, base as int, stride as int,
            rel as int, count as int, e)),
        !windows_ok(base as int, count as int, stride as int, rel as int, 8,
            buffer.len() as int) ==> (r matches Err(er) && er matches Xc3Error::UnexpectedEof {
            ..
        }),
{
    if !check_windows(base, count, stride, rel, 8, buffer.len()) {
        return Err(Xc3Error::UnexpectedEof { requested: 8, available: buffer.len() });
    }
    let mut values: Vec<F32x2> = Vec::new();
    let mut j: u32 = 0;
    while j < count
        invariant
            j <= count,
            windows_ok(base as int, count as int, stride as int, rel as int, 8,
                buffer@.len() as int),
            buffer@.len() <= usize::MAX,
            values@ =~= dec_f32x2(buffer@, base as int, stride as int, rel as int, j as int, e),
        decreases count - j,
    {
        proof {
            assert(window_end(base as int, stride as int, rel as int, 8, j as int)
                <= buffer@.len());
            vstd::arithmetic::mul::lemma_mul_is_commutative(j as int, stride as int);
        }
        let pos: usize = base as usize + j as usize * stride as usize + rel as usize;
        let x = read_u32_in(buffer, pos, e);
        let y = read_u32_in(buffer, pos + 4, e);
        values.push(F32x2 { x, y });
        j += 1;
    }
    Ok(values)
}

/// Reads `count` byte quadruples at stride `stride` from the buffer.
pub fn read_u8x4_array(buffer: &Vec<u8>, base: u32, count: u32, stride: u32, rel: u32) -> (r:
    Result<Vec<U8x4>, Xc3Error>)
    ensures
        windows_ok(base as int, count as int, stride as int, rel as int, 4, buffer.len() as int)
            ==> (r matches Ok(v) && v@ =~= dec_u8x4(buffer@, base as int, stride as int,
            rel as int, count as int)),
        !windows_ok(base as int, count as int, stride as int, rel as int, 4,
            buffer.len() as int) ==> (r matches Err(er) && er matches Xc3Error::UnexpectedEof {
            ..
        }),
{
    if !check_windows(base, count, stride, rel, 4, buffer.len()) {
        return Err(Xc3Error::UnexpectedEof { requested: 4, available: buffer.len() });
    }
    let mut values: Vec<U8x4> = Vec::new();
    let mut j: u32 = 0;
    while j < count
        invariant
            j <= count,
            windows_ok(base as int, count as int, stride as int, rel as int, 4,
                buffer@.len() as int),
            buffer@.len() <= usize::MAX,
            values@ =~= dec_u8x4(buffer@, base as int, stride as int, rel as int, j as int),
        decreases count - j,
    {
        proof {
            assert(window_end(base as int, stride as int, rel as int, 4, j as int)
                <= buffer@.len());
            vstd::arithmetic::mul::lemma_mul_is_commutative(j as int, stride as int);
        }
        let pos: usize = base as usize + j as usize * stride as usize + rel as usize;
        values.push(U8x4 { x: buffer[pos], y: buffer[pos + 1], z: buffer[pos + 2], w: buffer[pos
            + 3] });
        j += 1;
    }
    Ok(values)
}

/// Reads `count` 16-bit pairs at stride `stride` from the buffer.
pub fn read_u16x2_array(buffer: &Vec<u8>, base: u32, count: u32, stride: u32, rel: u32, e: Endian)
    -> (r: Result<Vec<U16x2>, Xc3Error>)
    ensures
        windows_ok(base as int, count as int, stride as int, rel as int, 4, buffer.len() as int)
            ==> (r matches Ok(v) && v@ =~= dec_u16x2(buffer@, base as int, stride as int,
            rel as int, count as int, e)),
        !windows_ok(base as int, count as int, stride as int, rel as int, 4,
            buffer.len() as int) ==> (r matches Err(er) && er matches Xc3Error::UnexpectedEof {
            ..
        }),
{
    if !check_windows(base, count, stride, rel, 4, buffer.len()) {
        return Err(Xc3Error::UnexpectedEof { requested: 4, available: buffer.len() });
    }
    let mut values: Vec<U16x2> = Vec::new();
    let mut j: u32 = 0;
    while j < count
        invariant
            j <= count,
            windows_ok(base as int, count as int, stride as int, rel as int, 4,
                buffer@.len() as int),
            buffer@.len() <= usize::MAX,
            values@ =~= dec_u16x2(buffer@, base as int, stride as int, rel as int, j as int, e),
        decreases count - j,
    {
        proof {
            assert(window_end(base as int, stride as int, rel as int, 4, j as int)
                <= buffer@.len());
            vstd::arithmetic::mul::lemma_mul_is_commutative(j as int, stride as int);
        }
        let pos: usize = base as usize + j as usize * stride as usize + rel as usize;
        let x = read_u16_in(buffer, pos, e);
        let y = read_u16_in(buffer, pos + 2, e);
        values.push(U16x2 { x, y });
        j += 1;
    }
    Ok(values)
}

/// Reads `count` 16-bit quadruples at stride `stride` from the buffer.
pub fn read_u16x4_array(buffer: &Vec<u8>, base: u32, count: u32, stride: u32, rel: u32, e: Endian)
    -> (r: Result<Vec<U16x4>, Xc3Error>)
    ensures
        windows_ok(base as int, count as int, stride as int, rel as int, 8, buffer.len() as int)
            ==> (r matches Ok(v) && v@ =~= dec_u16x4(buffer@, base as int, stride as int,
            rel as int, count as int, e)),
        !windows_ok(base as int, count as int, stride as int, rel as int, 8,
            buffer.len() as int) ==> (r matches Err(er) && er matches Xc3Error::UnexpectedEof {
            ..
        }),
{
    if !check_windows(base, count, stride, rel, 8, buffer.len()) {
        return Err(Xc3Error::UnexpectedEof { requested: 8, available: buffer.len() });
    }
    let mut values: Vec<U16x4> = Vec::new();
    let mut j: u32 = 0;
    while j < count
        invariant
            j <= count,
            windows_ok(base as int, count as int, stride as int, rel as int, 8,
                buffer@.len() as int),
            buffer@.len() <= usize::MAX,
            values@ =~= dec_u16x4(buffer@, base as int, stride as int, rel as int, j as int, e),
        decreases count - j,
    {
        proof {
            assert(window_end(base as int, stride as int, rel as int, 8, j as int)
                <= buffer@.len());
            vstd::arithmetic::mul::lemma_mul_is_commutative(j as int, stride as int);
        }
        let pos: usize = base as usize + j as usize * stride as usize + rel as usize;
        let x = read_u16_in(buffer, pos, e);
        let y = read_u16_in(buffer, pos + 2, e);
        let z = read_u16_in(buffer, pos + 4, e);
        let w = read_u16_in(buffer, pos + 6, e);
        values.push(U16x4 { x, y, z, w });
        j += 1;
    }
    Ok(values)
}

/// Reads the 32-bit scalar at an in-bounds position.
pub fn read_u32_in_pub(buffer: &Vec<u8>, pos: usize, e: Endian) -> (r: u32)
    requires
        pos + 4 <= buffer@.len(),
    ensures
        r == u32_at(buffer@, pos as int, e),
{
    read_u32_in(buffer, pos, e)
}

/// Reads the 32-bit scalar at an in-bounds position.
fn read_u32_in(buffer: &Vec<u8>, pos: usize, e: Endian) -> (r: u32)
    requires
        pos + 4 <= buffer@.len(),
    ensures
        r == u32_at(buffer@, pos as int, e),
{
    let n: usize = buffer.len();
    assert(pos + 4 <= n);
    let b0 = buffer[pos] as u32;
    let b1 = buffer[pos + 1] as u32;
    let b2 = buffer[pos + 2] as u32;
    let b3 = buffer[pos + 3] as u32;
    match e {
        Endian::Little => b0 + b1 * 0x100 + b2 * 0x10000 + b3 * 0x1000000,
        Endian::Big => b0 * 0x1000000 + b1 * 0x10000 + b2 * 0x100 + b3,
    }
}

/// Reads the 16-bit scalar at an in-bounds position.
pub fn read_u16_in_pub(buffer: &Vec<u8>, pos: usize, e: Endian) -> (r: u16)
    requires
        pos + 2 <= buffer@.len(),
    ensures
        r == u16_at(buffer@, pos as int, e),
{
    read_u16_in(buffer, pos, e)
}

/// Reads the 16-bit scalar at an in-bounds position.
fn read_u16_in(buffer: &Vec<u8>, pos: usize, e: Endian) -> (r: u16)
    requires
        pos + 2 <= buffer@.len(),
    ensures
        r == u16_at(buffer@, pos as int, e),
{
    let n: usize = buffer.len();
    assert(pos + 2 <= n);
    let b0 = buffer[pos];
    let b1 = buffer[pos + 1];
    match e {
        Endian::Little => b0 as u16 + (b1 as u16) * 256,
        Endian::Big => (b0 as u16) * 256 + b1 as u16,
    }
}

/// Whether the crate has a decoder for this attribute type.
pub open spec fn spec_supported(dt: DataType) -> bool {
    match dt {
        DataType::Position => true,
        DataType::SkinWeights2 => true,
        DataType::BoneIndices2 => true,
        DataType::WeightIndex => true,
        DataType::TexCoord0 => true,
        DataType::TexCoord1 => true,
        DataType::TexCoord2 => true,
        DataType::TexCoord3 => true,
        DataType::TexCoord4 => true,
        DataType::TexCoord5 => true,
        DataType::TexCoord6 => true,
        DataType::TexCoord7 => true,
        DataType::TexCoord8 => true,
        DataType::Blend => true,
        DataType::VertexColor => true,
        DataType::Normal => true,
        DataType::Tangent => true,
        DataType::Normal2 => true,
        DataType::Position2 => true,
        DataType::Normal4 => true,
        DataType::OldPosition => true,
        DataType::Tangent2 => true,
        DataType::SkinWeights => true,
        DataType::BoneIndices => true,
        _ => false,
    }
}

/// The decoded array for one attribute matches the bytes of its windows.
pub open spec fn attr_decoded(
    a: AttributeData,
    dt: DataType,
    data: Seq<u8>,
    base: int,
    stride: int,
    rel: int,
    count: int,
    e: Endian,
) -> bool {
    match dt {
        DataType::Position => a matches AttributeData::Position(v) && v@ == dec_f32x3(data, base,
            stride, rel, count, e),
        DataType::SkinWeights2 => a matches AttributeData::SkinWeights2(v) && v@ == dec_f32x3(
            data, base, stride, rel, count, e),
        DataType::BoneIndices2 => a matches AttributeData::BoneIndices2(v) && v@ == dec_u8x4(data,
            base, stride, rel, count),
        DataType::WeightIndex => a matches AttributeData::WeightIndex(v) && v@ == dec_u16x2(data,
            base, stride, rel, count, e),
        DataType::TexCoord0 => a matches AttributeData::TexCoord0(v) && v@ == dec_f32x2(data,
            base, stride, rel, count, e),
        DataType::TexCoord1 => a matches AttributeData::TexCoord1(v) && v@ == dec_f32x2(data,
            base, stride, rel, count, e),
        DataType::TexCoord2 => a matches AttributeData::TexCoord2(v) && v@ == dec_f32x2(data,
            base, stride, rel, count, e),
        DataType::TexCoord3 => a matches AttributeData::TexCoord3(v) && v@ == dec_f32x2(data,
            base, stride, rel, count, e),
        DataType::TexCoord4 => a matches AttributeData::TexCoord4(v) && v@ == dec_f32x2(data,
            base, stride, rel, count, e),
        DataType::TexCoord5 => a matches AttributeData::TexCoord5(v) && v@ == dec_f32x2(data,
            base, stride, rel, count, e),
        DataType::TexCoord6 => a matches AttributeData::TexCoord6(v) && v@ == dec_f32x2(data,
            base, stride, rel, count, e),
        DataType::TexCoord7 => a matches AttributeData::TexCoord7(v) && v@ == dec_f32x2(data,
            base, stride, rel, count, e),
        DataType::TexCoord8 => a matches AttributeData::TexCoord8(v) && v@ == dec_f32x2(data,
            base, stride, rel, count, e),
        DataType::Blend => a matches AttributeData::Blend(v) && v@ == dec_u8x4(data, base, stride,
            rel, count),
        DataType::VertexColor => a matches AttributeData::VertexColor(v) && v@ == dec_u8x4(data,
            base, stride, rel, count),
        DataType::Normal => a matches AttributeData::Normal(v) && v@ == dec_u8x4(data, base,
            stride, rel, count),
        DataType::Tangent => a matches AttributeData::Tangent(v) && v@ == dec_u8x4(data, base,
            stride, rel, count),
        DataType::Normal2 => a matches AttributeData::Normal(v) && v@ == dec_u8x4(data, base,
            stride, rel, count),
        DataType::Position2 => a matches AttributeData::Position2(v) && v@ == dec_f32x3(data,
            base, stride, rel, count, e),
        DataType::Normal4 => a matches AttributeData::Normal4(v) && v@ == dec_u8x4(data, base,
            stride, rel, count),
        DataType::OldPosition => a matches AttributeData::OldPosition(v) && v@ == dec_f32x3(data,
            base, stride, rel, count, e),
        DataType::Tangent2 => a matches AttributeData::Tangent2(v) && v@ == dec_u8x4(data, base,
            stride, rel, count),
        DataType::SkinWeights => a matches AttributeData::SkinWeights(v) && v@ == dec_u16x4(data,
            base, stride, rel, count, e),
        DataType::BoneIndices => a matches AttributeData::BoneIndices(v) && v@ == dec_u8x4(data,
            base, stride, rel, count),
        _ => false,
    }
}

/// Decodes one attribute of an interleaved vertex buffer.
///
/// Reads `vertex_count` elements whose window for vertex `j` starts at
/// `data_offset + j * vertex_size + relative_offset`. Types without a
/// decoder are rejected with `AttributeUnsupported`; short buffers with
/// `UnexpectedEof`.
pub fn read_attribute(
    a: &VertexAttribute,
    data_offset: u32,
    vertex_count: u32,
    vertex_size: u32,
    relative_offset: u32,
    buffer: &Vec<u8>,
    endian: Endian,
) -> (r: Result<AttributeData, Xc3Error>)
    ensures
        spec_supported(a.data_type) && windows_ok(data_offset as int, vertex_count as int,
            vertex_size as int, relative_offset as int, spec_data_size(a.data_type),
            buffer.len() as int) ==> (r matches Ok(ad) && attr_decoded(ad, a.data_type, buffer@,
            data_offset as int, vertex_size as int, relative_offset as int, vertex_count as int,
            endian)),
        !spec_supported(a.data_type) ==> r == Err::<AttributeData, Xc3Error>(
            Xc3Error::AttributeUnsupported { type_code: spec_type_code(a.data_type) as u32 },
        ),
        spec_supported(a.data_type) && !windows_ok(data_offset as int, vertex_count as int,
            vertex_size as int, relative_offset as int, spec_data_size(a.data_type),
            buffer.len() as int) ==> (r matches Err(er) && er matches Xc3Error::UnexpectedEof {
            ..
        }),
{
    match a.data_type {
        DataType::Position => match read_f32x3_array(buffer, data_offset, vertex_count,
            vertex_size, relative_offset, endian) {
            Ok(v) => Ok(AttributeData::Position(v)),
            Err(er) => Err(er),
        },
        DataType::SkinWeights2 => match read_f32x3_array(buffer, data_offset, vertex_count,
            vertex_size, relative_offset, endian) {
            Ok(v) => Ok(AttributeData::SkinWeights2(v)),
            Err(er) => Err(er),
        },
        DataType::BoneIndices2 => match read_u8x4_array(buffer, data_offset, vertex_count,
            vertex_size, relative_offset) {
            Ok(v) => Ok(AttributeData::BoneIndices2(v)),
            Err(er) => Err(er),
        },
        DataType::WeightIndex => match read_u16x2_array(buffer, data_offset, vertex_count,
            vertex_size, relative_offset, endian) {
            Ok(v) => Ok(AttributeData::WeightIndex(v)),
            Err(er) => Err(er),
        },
        DataType::TexCoord0 => match read_f32x2_array(buffer, data_offset, vertex_count,
            vertex_size, relative_offset, endian) {
            Ok(v) => Ok(AttributeData::TexCoord0(v)),
            Err(er) => Err(er),
        },
        DataType::TexCoord1 => match read_f32x2_array(buffer, data_offset, vertex_count,
            vertex_size, relative_offset, endian) {
            Ok(v) => Ok(AttributeData::TexCoord1(v)),
            Err(er) => Err(er),
        },
        DataType::TexCoord2 => match read_f32x2_array(buffer, data_offset, vertex_count,
            vertex_size, relative_offset, endian) {
            Ok(v) => Ok(AttributeData::TexCoord2(v)),
            Err(er) => Err(er),
        },
        DataType::TexCoord3 => match read_f32x2_array(buffer, data_offset, vertex_count,
            vertex_size, relative_offset, endian) {
            Ok(v) => Ok(AttributeData::TexCoord3(v)),
            Err(er) => Err(er),
        },
        DataType::TexCoord4 => match read_f32x2_array(buffer, data_offset, vertex_count,
            vertex_size, relative_offset, endian) {
            Ok(v) => Ok(AttributeData::TexCoord4(v)),
            Err(er) => Err(er),
        },
        DataType::TexCoord5 => match read_f32x2_array(buffer, data_offset, vertex_count,
            vertex_size, relative_offset, endian) {
            Ok(v) => Ok(AttributeData::TexCoord5(v)),
            Err(er) => Err(er),
        },
        DataType::TexCoord6 => match read_f32x2_array(buffer, data_offset, vertex_count,
            vertex_size, relative_offset, endian) {
            Ok(v) => Ok(AttributeData::TexCoord6(v)),
            Err(er) => Err(er),
        },
        DataType::TexCoord7 => match read_f32x2_array(buffer, data_offset, vertex_count,
            vertex_size, relative_offset, endian) {
            Ok(v) => Ok(AttributeData::TexCoord7(v)),
            Err(er) => Err(er),
        },
        DataType::TexCoord8 => match read_f32x2_array(buffer, data_offset, vertex_count,
            vertex_size, relative_offset, endian) {
            Ok(v) => Ok(AttributeData::TexCoord8(v)),
            Err(er) => Err(er),
        },
        DataType::Blend => match read_u8x4_array(buffer, data_offset, vertex_count, vertex_size,
            relative_offset) {
            Ok(v) => Ok(AttributeData::Blend(v)),
            Err(er) => Err(er),
        },
        DataType::VertexColor => match read_u8x4_array(buffer, data_offset, vertex_count,
            vertex_size, relative_offset) {
            Ok(v) => Ok(AttributeData::VertexColor(v)),
            Err(er) => Err(er),
        },
        DataType::Normal => match read_u8x4_array(buffer, data_offset, vertex_count, vertex_size,
            relative_offset) {
            Ok(v) => Ok(AttributeData::Normal(v)),
            Err(er) => Err(er),
        },
        DataType::Tangent => match read_u8x4_array(buffer, data_offset, vertex_count, vertex_size,
            relative_offset) {
            Ok(v) => Ok(AttributeData::Tangent(v)),
            Err(er) => Err(er),
        },
        DataType::Normal2 => match read_u8x4_array(buffer, data_offset, vertex_count, vertex_size,
            relative_offset) {
            Ok(v) => Ok(AttributeData::Normal(v)),
            Err(er) => Err(er),
        },
        DataType::Position2 => match read_f32x3_array(buffer, data_offset, vertex_count,
            vertex_size, relative_offset, endian) {
            Ok(v) => Ok(AttributeData::Position2(v)),
            Err(er) => Err(er),
        },
        DataType::Normal4 => match read_u8x4_array(buffer, data_offset, vertex_count, vertex_size,
            relative_offset) {
            Ok(v) => Ok(AttributeData::Normal4(v)),
            Err(er) => Err(er),
        },
        DataType::OldPosition => match read_f32x3_array(buffer, data_offset, vertex_count,
            vertex_size, relative_offset, endian) {
            Ok(v) => Ok(AttributeData::OldPosition(v)),
            Err(er) => Err(er),
        },
        DataType::Tangent2 => match read_u8x4_array(buffer, data_offset, vertex_count,
            vertex_size, relative_offset) {
            Ok(v) => Ok(AttributeData::Tangent2(v)),
            Err(er) => Err(er),
        },
        DataType::SkinWeights => match read_u16x4_array(buffer, data_offset, vertex_count,
            vertex_size, relative_offset, endian) {
            Ok(v) => Ok(AttributeData::SkinWeights(v)),
            Err(er) => Err(er),
        },
        DataType::BoneIndices => match read_u8x4_array(buffer, data_offset, vertex_count,
            vertex_size, relative_offset) {
            Ok(v) => Ok(AttributeData::BoneIndices(v)),
            Err(er) => Err(er),
        },
        _ => Err(Xc3Error::AttributeUnsupported { type_code: a.data_type.code() as u32 }),
    }
}

/// The byte offset of attribute `k` inside one interleaved vertex: the sum
/// of the declared sizes of the attributes before it.
pub open spec fn cum_offset(descs: Seq<VertexAttribute>, k: int) -> int
    decreases k,
{
    if k <= 0 {
        0
    } else {
        cum_offset(descs, k - 1) + descs[k - 1].data_size
    }
}

/// Attribute offsets stay below `0x10000 * k`.
proof fn lemma_cum_offset_bound(descs: Seq<VertexAttribute>, k: int)
    requires
        0 <= k,
    ensures
        0 <= cum_offset(descs, k) <= k * 0x10000,
    decreases k,
{
    if k > 0 {
        lemma_cum_offset_bound(descs, k - 1);
    }
}

/// Every attribute of the descriptor list is supported and its windows lie
/// inside the buffer.
pub open spec fn attrs_readable(
    descs: Seq<VertexAttribute>,
    base: int,
    stride: int,
    count: int,
    len: int,
) -> bool {
    forall|k: int| 0 <= k < descs.len() ==> spec_supported(#[trigger] descs[k].data_type)
        && windows_ok(base, count, stride, cum_offset(descs, k), spec_data_size(descs[k].data_type),
        len)
}

/// Decodes every attribute of an interleaved vertex buffer.
///
/// Succeeds exactly when every attribute type is supported and every
/// per-vertex window lies inside the buffer; the decoded arrays then hold
/// the bytes of their windows, attribute `k` starting at the sum of the
/// declared sizes before it.
pub fn read_vertex_attributes(
    data_offset: u32,
    vertex_count: u32,
    vertex_size: u32,
    attributes: &Vec<VertexAttribute>,
    buffer: &Vec<u8>,
    endian: Endian,
) -> (r: Result<Vec<AttributeData>, Xc3Error>)
    requires
        attributes@.len() <= 0xffff,
    ensures
        r.is_ok() <==> attrs_readable(attributes@, data_offset as int, vertex_size as int,
            vertex_count as int, buffer.len() as int),
        r matches Ok(v) ==> v@.len() == attributes@.len() && forall|k: int|
            0 <= k < attributes@.len() ==> attr_decoded(#[trigger] v@[k],
            attributes@[k].data_type, buffer@, data_offset as int, vertex_size as int, cum_offset(
            attributes@, k), vertex_count as int, endian),
{
    let mut values: Vec<AttributeData> = Vec::new();
    let mut offset: u32 = 0;
    let mut k: usize = 0;
    while k < attributes.len()
        invariant
            k <= attributes@.len(),
            attributes@.len() <= 0xffff,
            offset == cum_offset(attributes@, k as int),
            values@.len() == k,
            forall|m: int| 0 <= m < k ==> spec_supported(#[trigger] attributes@[m].data_type)
                && windows_ok(data_offset as int, vertex_count as int, vertex_size as int,
                cum_offset(attributes@, m), spec_data_size(attributes@[m].data_type),
                buffer@.len() as int),
            forall|m: int| 0 <= m < k ==> attr_decoded(#[trigger] values@[m],
                attributes@[m].data_type, buffer@, data_offset as int, vertex_size as int,
                cum_offset(attributes@, m), vertex_count as int, endian),
        decreases attributes@.len() - k,
    {
        proof {
            lemma_cum_offset_bound(attributes@, k as int);
        }
        let a = attributes[k];
        match read_attribute(&a, data_offset, vertex_count, vertex_size, offset, buffer, endian) {
            Ok(ad) => {
                values.push(ad);
            }
            Err(er) => {
                proof {
                    if spec_supported(a.data_type) {
                        assert(!windows_ok(data_offset as int, vertex_count as int,
                            vertex_size as int, cum_offset(attributes@, k as int), spec_data_size(
                            a.data_type), buffer@.len() as int));
                    }
                    assert(!attrs_readable(attributes@, data_offset as int, vertex_size as int,
                        vertex_count as int, buffer@.len() as int));
                }
                return Err(er);
            }
        }
        offset = offset + a.data_size as u32;
        proof {
            assert(cum_offset(attributes@, k + 1) == cum_offset(attributes@, k as int)
                + attributes@[k as int].data_size);
        }
        k += 1;
    }
    Ok(values)
}

/// The role flags of one morph target, stored in sixteen bits: four
/// unknown low bits, one bit each for the blend, default and parameter
/// roles, and nine unknown high bits.
#[derive(Clone, Copy, Debug, PartialEq, Eq, Structural)]
pub struct MorphTargetFlags {
    /// The low four bits.
    pub unk1: u8,
    /// Set on the full-size blend target.
    pub blend_target_buffer: bool,
    /// Set on the sparse default target.
    pub default_buffer: bool,
    /// Set on each sparse parameter target.
    pub param_buffer: bool,
    /// The high nine bits.
    pub unk: u16,
}

impl MorphTargetFlags {
    /// The bit fields are within their widths.
    pub open spec fn wf(self) -> bool {
        self.unk1 < 16 && self.unk < 512
    }

    /// Packs the fields into their sixteen-bit storage form.
    pub open spec fn spec_to_bits(self) -> int {
        self.unk1 + (if self.blend_target_buffer {
            16int
        } else {
            0int
        }) + (if self.default_buffer {
            32int
        } else {
            0int
        }) + (if self.param_buffer {
            64int
        } else {
            0int
        }) + self.unk * 128
    }

    /// Builds the flags from their parts.
    pub fn new(unk1: u8, blend_target_buffer: bool, default_buffer: bool, param_buffer: bool,
        unk: u16) -> (r: MorphTargetFlags)
        requires
            unk1 < 16,
            unk < 512,
        ensures
            r == (MorphTargetFlags { unk1, blend_target_buffer, default_buffer, param_buffer,
                unk }),
            r.wf(),
    {
        MorphTargetFlags { unk1, blend_target_buffer, default_buffer, param_buffer, unk }
    }

    /// Packs the fields into their sixteen-bit storage form.
    pub fn to_bits(&self) -> (r: u16)
        requires
            self.wf(),
        ensures
            r == self.spec_to_bits(),
    {
        self.unk1 as u16 + (if self.blend_target_buffer {
            16u16
        } else {
            0u16
        }) + (if self.default_buffer {
            32u16
        } else {
            0u16
        }) + (if self.param_buffer {
            64u16
        } else {
            0u16
        }) + self.unk * 128
    }

    /// Unpacks the sixteen-bit storage form. Unknown regions round-trip
    /// verbatim.
    pub fn from_bits(v: u16) -> (r: MorphTargetFlags)
        ensures
            r.wf(),
            r.spec_to_bits() == v,
    {
        let r = MorphTargetFlags {
            unk1: (v % 16) as u8,
            blend_target_buffer: (v / 16) % 2 == 1,
            default_buffer: (v / 32) % 2 == 1,
            param_buffer: (v / 64) % 2 == 1,
            unk: v / 128,
        };
        proof {
            let x = v as int;
            vstd::arithmetic::div_mod::lemma_fundamental_div_mod(x, 16);
            vstd::arithmetic::div_mod::lemma_mod_bound(x, 16);
            vstd::arithmetic::div_mod::lemma_fundamental_div_mod(x / 16, 2);
            vstd::arithmetic::div_mod::lemma_mod_bound(x / 16, 2);
            vstd::arithmetic::div_mod::lemma_div_denominator(x, 16, 2);
            vstd::arithmetic::div_mod::lemma_fundamental_div_mod(x / 32, 2);
            vstd::arithmetic::div_mod::lemma_mod_bound(x / 32, 2);
            vstd::arithmetic::div_mod::lemma_div_denominator(x, 32, 2);
            vstd::arithmetic::div_mod::lemma_fundamental_div_mod(x / 64, 2);
            vstd::arithmetic::div_mod::lemma_mod_bound(x / 64, 2);
            vstd::arithmetic::div_mod::lemma_div_denominator(x, 64, 2);
            vstd::arithmetic::div_mod::lemma_fundamental_div_mod(x, 128);
            vstd::arithmetic::div_mod::lemma_mod_bound(x, 128);
        }
        r
    }
}

/// Describes one morph target's rows inside the vertex data section.
#[derive(Clone, Copy, Debug, PartialEq, Eq, Structural)]
pub struct MorphTarget {
    pub data_offset: u32,
    pub vertex_count: u32,
    /// The stride of one row in bytes.
    pub vertex_size: u32,
    pub flags: MorphTargetFlags,
}

/// Ties one vertex buffer to its run of morph targets: a blend target, a
/// default target, then one parameter target per entry of
/// `param_indices`.
#[derive(Clone, Debug, PartialEq)]
pub struct MorphDescriptor {
    pub vertex_buffer_index: u32,
    pub target_start_index: u32,
    /// Morph controller index of each parameter target.
    pub param_indices: Vec<u16>,
    pub unk2: u32,
}

/// All morph descriptors and targets of a vertex data section.
#[derive(Clone, Debug, PartialEq)]
pub struct VertexMorphs {
    pub descriptors: Vec<MorphDescriptor>,
    pub targets: Vec<MorphTarget>,
    pub unks: [u32; 4],
}

/// Describes one outline buffer inside the vertex data section.
#[derive(Clone, Copy, Debug, PartialEq, Eq, Structural)]
pub struct OutlineBufferDescriptor {
    pub data_offset: u32,
    pub vertex_count: u32,
    pub vertex_size: u32,
    pub unk: u32,
}

/// Describes one auxiliary buffer inside the vertex data section; rows are
/// sixteen bytes when `unk1` is zero and twenty-four otherwise.
#[derive(Clone, Copy, Debug, PartialEq, Eq, Structural)]
pub struct UnkBufferDescriptor {
    pub unk1: u16,
    pub unk2: u16,
    pub count: u32,
    /// Relative to the start of the auxiliary section.
    pub offset: u32,
    pub unk5: u32,
    pub start_index: u32,
}

/// The auxiliary buffer section of a vertex data section.
#[derive(Clone, Debug, PartialEq)]
pub struct Unk {
    pub buffers: Vec<UnkBufferDescriptor>,
    pub data_length: u32,
    pub data_offset: u32,
    pub unks: [u32; 8],
}

/// Packed presence bits of a vertex buffer's extra information.
#[derive(Clone, Copy, Debug, PartialEq, Eq, Structural)]
pub struct VertexBufferExtInfoFlags {
    pub has_outline_buffer: bool,
    pub has_morph_targets: bool,
    /// The remaining fourteen bits.
    pub unk: u16,
}

impl VertexBufferExtInfoFlags {
    /// Builds the flags from their parts.
    pub fn new(has_outline_buffer: bool, has_morph_targets: bool, unk: u16) -> (r:
        VertexBufferExtInfoFlags)
        ensures
            r == (VertexBufferExtInfoFlags { has_outline_buffer, has_morph_targets, unk }),
    {
        VertexBufferExtInfoFlags { has_outline_buffer, has_morph_targets, unk }
    }
}

/// Extra per-vertex-buffer information: outline buffer and morph target
/// assignment.
#[derive(Clone, Copy, Debug, PartialEq, Eq, Structural)]
pub struct VertexBufferExtInfo {
    pub flags: VertexBufferExtInfoFlags,
    pub outline_buffer_index: u16,
    pub morph_target_start_index: u16,
    pub morph_target_count: u16,
    pub unk: u32,
}

/// One skinning weight group; the fields are carried through unchanged.
#[derive(Clone, Copy, Debug, PartialEq, Eq, Structural)]
pub struct WeightGroup {
    pub input_start_index: u32,
    pub output_start_index: u32,
    pub count: u32,
    pub unk1: u32,
    pub unk2: u32,
    pub unk3: u32,
    pub unk4: u32,
    pub lod: u8,
    pub max_influences: u8,
    pub unk5: u16,
}

/// Weight group selection per level of detail; carried through unchanged.
#[derive(Clone, Copy, Debug, PartialEq, Eq, Structural)]
pub struct WeightLod {
    pub group_index_plus_one: u16,
    pub unk1: u16,
    pub unk2: u16,
    pub unk3: u16,
}

/// The skinning section of a vertex data section.
#[derive(Clone, Debug, PartialEq)]
pub struct Weights {
    pub groups: Vec<WeightGroup>,
    /// The index of the vertex buffer holding skin weights and bone
    /// indices.
    pub vertex_buffer_index: u16,
    pub weight_lods: Vec<WeightLod>,
    pub unk4: u32,
    pub unks5: [u32; 4],
}

/// A decoded vertex data section: every descriptor plus the shared byte
/// buffer they point into.
#[derive(Clone, Debug, PartialEq)]
pub struct VertexData {
    pub vertex_buffers: Vec<VertexBufferDescriptor>,
    pub index_buffers: Vec<IndexBufferDescriptor>,
    pub unk0: u32,
    pub unk1: u32,
    pub unk2: u32,
    pub vertex_buffer_info: Vec<VertexBufferExtInfo>,
    pub outline_buffers: Vec<OutlineBufferDescriptor>,
    pub vertex_morphs: Option<VertexMorphs>,
    /// The shared byte buffer every descriptor points into.
    pub buffer: Vec<u8>,
    pub weights: Option<Weights>,
    pub unk7: Option<Unk>,
    pub unks: [u32; 5],
}

/// The byte encoding of one float pair.
pub open spec fn enc_f32x2(v: F32x2, e: Endian) -> Seq<u8> {
    enc32(v.x as int, e) + enc32(v.y as int, e)
}

/// The byte encoding of one float triple.
pub open spec fn enc_f32x3(v: F32x3, e: Endian) -> Seq<u8> {
    enc32(v.x as int, e) + enc32(v.y as int, e) + enc32(v.z as int, e)
}

/// The byte encoding of one byte quadruple.
pub open spec fn enc_u8x4(v: U8x4) -> Seq<u8> {
    seq![v.x, v.y, v.z, v.w]
}

/// The byte encoding of one 16-bit pair.
pub open spec fn enc_u16x2(v: U16x2, e: Endian) -> Seq<u8> {
    enc16(v.x as int, e) + enc16(v.y as int, e)
}

/// The byte encoding of one 16-bit quadruple.
pub open spec fn enc_u16x4(v: U16x4, e: Endian) -> Seq<u8> {
    enc16(v.x as int, e) + enc16(v.y as int, e) + enc16(v.z as int, e) + enc16(v.w as int, e)
}

/// The byte encoding of vertex `i` of one attribute array.
pub open spec fn elem_bytes(a: AttributeData, i: int, e: Endian) -> Seq<u8> {
    match a {
        AttributeData::Position(v) => enc_f32x3(v@[i], e),
        AttributeData::Normal(v) => enc_u8x4(v@[i]),
        AttributeData::Tangent(v) => enc_u8x4(v@[i]),
        AttributeData::TexCoord0(v) => enc_f32x2(v@[i], e),
        AttributeData::TexCoord1(v) => enc_f32x2(v@[i], e),
        AttributeData::TexCoord2(v) => enc_f32x2(v@[i], e),
        AttributeData::TexCoord3(v) => enc_f32x2(v@[i], e),
        AttributeData::TexCoord4(v) => enc_f32x2(v@[i], e),
        AttributeData::TexCoord5(v) => enc_f32x2(v@[i], e),
        AttributeData::TexCoord6(v) => enc_f32x2(v@[i], e),
        AttributeData::TexCoord7(v) => enc_f32x2(v@[i], e),
        AttributeData::TexCoord8(v) => enc_f32x2(v@[i], e),
        AttributeData::VertexColor(v) => enc_u8x4(v@[i]),
        AttributeData::Blend(v) => enc_u8x4(v@[i]),
        AttributeData::WeightIndex(v) => enc_u16x2(v@[i], e),
        AttributeData::Position2(v) => enc_f32x3(v@[i], e),
        AttributeData::Normal4(v) => enc_u8x4(v@[i]),
        AttributeData::OldPosition(v) => enc_f32x3(v@[i], e),
        AttributeData::Tangent2(v) => enc_u8x4(v@[i]),
        AttributeData::SkinWeights(v) => enc_u16x4(v@[i], e),
        AttributeData::SkinWeights2(v) => enc_f32x3(v@[i], e),
        AttributeData::BoneIndices(v) => enc_u8x4(v@[i]),
        AttributeData::BoneIndices2(v) => enc_u8x4(v@[i]),
    }
}

/// One encoded element occupies exactly the canonical size of its type.
pub proof fn lemma_elem_bytes_len(a: AttributeData, i: int, e: Endian)
    ensures
        elem_bytes(a, i, e).len() == spec_data_size(spec_attr_data_type(a)),
{
}

/// The bytes of the first `k` attributes of vertex `i`, in attribute order.
pub open spec fn vertex_bytes_upto(attrs: Seq<AttributeData>, k: int, i: int, e: Endian)
    -> Seq<u8>
    decreases k,
{
    if k <= 0 {
        Seq::empty()
    } else {
        vertex_bytes_upto(attrs, k - 1, i, e) + elem_bytes(attrs[k - 1], i, e)
    }
}

/// The interleaved encoding of vertex `i`: every attribute's element in
/// attribute order.
pub open spec fn vertex_bytes(attrs: Seq<AttributeData>, i: int, e: Endian) -> Seq<u8> {
    vertex_bytes_upto(attrs, attrs.len() as int, i, e)
}

/// The byte offset of attribute `k` inside one written vertex: the sum of
/// the canonical sizes of the attributes before it.
pub open spec fn canon_cum(attrs: Seq<AttributeData>, k: int) -> int
    decreases k,
{
    if k <= 0 {
        0
    } else {
        canon_cum(attrs, k - 1) + spec_data_size(spec_attr_data_type(attrs[k - 1]))
    }
}

/// The stride of one written vertex.
pub open spec fn canon_stride(attrs: Seq<AttributeData>) -> int {
    canon_cum(attrs, attrs.len() as int)
}

/// The first `k` attribute elements of a vertex occupy `canon_cum(k)` bytes.
pub proof fn lemma_vertex_bytes_len(attrs: Seq<AttributeData>, k: int, i: int, e: Endian)
    requires
        k <= attrs.len(),
    ensures
        vertex_bytes_upto(attrs, k, i, e).len() == canon_cum(attrs, k),
    decreases k,
{
    if k > 0 {
        lemma_vertex_bytes_len(attrs, k - 1, i, e);
        lemma_elem_bytes_len(attrs[k - 1], i, e);
    }
}

/// The interleaved encoding of the first `count` vertices.
pub open spec fn buffer_bytes(attrs: Seq<AttributeData>, count: int, e: Endian) -> Seq<u8>
    decreases count,
{
    if count <= 0 {
        Seq::empty()
    } else {
        buffer_bytes(attrs, count - 1, e) + vertex_bytes(attrs, count - 1, e)
    }
}

/// `count` encoded vertices occupy `count * stride` bytes.
pub proof fn lemma_buffer_bytes_len(attrs: Seq<AttributeData>, count: int, e: Endian)
    requires
        0 <= count,
    ensures
        buffer_bytes(attrs, count, e).len() == count * canon_stride(attrs),
    decreases count,
{
    if count > 0 {
        lemma_buffer_bytes_len(attrs, count - 1, e);
        lemma_vertex_bytes_len(attrs, attrs.len() as int, count - 1, e);
        let cs = canon_stride(attrs);
        assert(buffer_bytes(attrs, count, e).len() == buffer_bytes(attrs, count - 1, e).len()
            + vertex_bytes(attrs, count - 1, e).len());
        assert(vertex_bytes(attrs, count - 1, e).len() == cs);
        assert((count - 1) * cs + cs == count * cs) by (nonlinear_arith);
        assert(buffer_bytes(attrs, count, e).len() == count * cs);
    } else {
        assert(buffer_bytes(attrs, count, e).len() == 0);
        assert(count * canon_stride(attrs) == 0) by (nonlinear_arith)
            requires
                count == 0,
        ;
    }
    assert(buffer_bytes(attrs, count, e).len() == count * canon_stride(attrs));
}

/// Canonical offsets are non-negative and grow by at most 12 per
/// attribute.
proof fn lemma_canon_cum_bound(attrs: Seq<AttributeData>, k: int)
    requires
        0 <= k,
    ensures
        0 <= canon_cum(attrs, k) <= k * 12,
    decreases k,
{
    if k > 0 {
        lemma_canon_cum_bound(attrs, k - 1);
    }
}

/// Appends the encoding of vertex `i` of one attribute array.
#[verifier::rlimit(100)]
fn push_attr_elem(out: &mut Vec<u8>, a: &AttributeData, i: usize, e: Endian)
    requires
        i < spec_attr_len(*a),
        old(out)@.len() + spec_data_size(spec_attr_data_type(*a)) <= usize::MAX,
    ensures
        final(out)@ =~= old(out)@ + elem_bytes(*a, i as int, e),
{
    match a {
        AttributeData::Position(v) => {
            let q = v[i];
            push_u32(out, q.x, e);
            push_u32(out, q.y, e);
            push_u32(out, q.z, e);
        }
        AttributeData::Position2(v) => {
            let q = v[i];
            push_u32(out, q.x, e);
            push_u32(out, q.y, e);
            push_u32(out, q.z, e);
        }
        AttributeData::OldPosition(v) => {
            let q = v[i];
            push_u32(out, q.x, e);
            push_u32(out, q.y, e);
            push_u32(out, q.z, e);
        }
        AttributeData::SkinWeights2(v) => {
            let q = v[i];
            push_u32(out, q.x, e);
            push_u32(out, q.y, e);
            push_u32(out, q.z, e);
        }
        AttributeData::TexCoord0(v) => {
            let q = v[i];
            push_u32(out, q.x, e);
            push_u32(out, q.y, e);
        }
        AttributeData::TexCoord1(v) => {
            let q = v[i];
            push_u32(out, q.x, e);
            push_u32(out, q.y, e);
        }
        AttributeData::TexCoord2(v) => {
            let q = v[i];
            push_u32(out, q.x, e);
            push_u32(out, q.y, e);
        }
        AttributeData::TexCoord3(v) => {
            let q = v[i];
            push_u32(out, q.x, e);
            push_u32(out, q.y, e);
        }
        AttributeData::TexCoord4(v) => {
            let q = v[i];
            push_u32(out, q.x, e);
            push_u32(out, q.y, e);
        }
        AttributeData::TexCoord5(v) => {
            let q = v[i];
            push_u32(out, q.x, e);
            push_u32(out, q.y, e);
        }
        AttributeData::TexCoord6(v) => {
            let q = v[i];
            push_u32(out, q.x, e);
            push_u32(out, q.y, e);
        }
        AttributeData::TexCoord7(v) => {
            let q = v[i];
            push_u32(out, q.x, e);
            push_u32(out, q.y, e);
        }
        AttributeData::TexCoord8(v) => {
            let q = v[i];
            push_u32(out, q.x, e);
            push_u32(out, q.y, e);
        }
        AttributeData::Normal(v) => {
            let q = v[i];
            out.push(q.x);
            out.push(q.y);
            out.push(q.z);
            out.push(q.w);
        }
        AttributeData::Tangent(v) => {
            let q = v[i];
            out.push(q.x);
            out.push(q.y);
            out.push(q.z);
            out.push(q.w);
        }
        AttributeData::VertexColor(v) => {
            let q = v[i];
            out.push(q.x);
            out.push(q.y);
            out.push(q.z);
            out.push(q.w);
        }
        AttributeData::Blend(v) => {
            let q = v[i];
            out.push(q.x);
            out.push(q.y);
            out.push(q.z);
            out.push(q.w);
        }
        AttributeData::Normal4(v) => {
            let q = v[i];
            out.push(q.x);
            out.push(q.y);
            out.push(q.z);
            out.push(q.w);
        }
        AttributeData::Tangent2(v) => {
            let q = v[i];
            out.push(q.x);
            out.push(q.y);
            out.push(q.z);
            out.push(q.w);
        }
        AttributeData::BoneIndices(v) => {
            let q = v[i];
            out.push(q.x);
            out.push(q.y);
            out.push(q.z);
            out.push(q.w);
        }
        AttributeData::BoneIndices2(v) => {
            let q = v[i];
            out.push(q.x);
            out.push(q.y);
            out.push(q.z);
            out.push(q.w);
        }
        AttributeData::WeightIndex(v) => {
            let q = v[i];
            push_u16(out, q.x, e);
            push_u16(out, q.y, e);
        }
        AttributeData::SkinWeights(v) => {
            let q = v[i];
            push_u16(out, q.x, e);
            push_u16(out, q.y, e);
            push_u16(out, q.z, e);
            push_u16(out, q.w, e);
        }
    }
}

/// Every attribute array holds exactly `count` vertices.
pub open spec fn attrs_same_len(attrs: Seq<AttributeData>, count: int) -> bool {
    forall|k: int| 0 <= k < attrs.len() ==> spec_attr_len(#[trigger] attrs[k]) == count
}

/// Appends the interleaved encoding of a struct-of-arrays attribute list
/// and returns the descriptor of the written buffer.
///
/// The descriptor's attribute list carries the canonical type codes and
/// sizes, its stride is their sum, and the buffer grows by exactly
/// `vertex_count * stride` bytes holding each vertex's attributes in order.
pub fn write_vertex_buffer(out: &mut Vec<u8>, attribute_data: &Vec<AttributeData>, endian: Endian)
    -> (r: VertexBufferDescriptor)
    requires
        attribute_data@.len() > 0,
        attribute_data@.len() <= 0xffff,
        attrs_same_len(attribute_data@, spec_attr_len(attribute_data@[0])),
        old(out)@.len() + spec_attr_len(attribute_data@[0]) * canon_stride(attribute_data@)
            <= u32::MAX,
    ensures
        final(out)@ =~= old(out)@ + buffer_bytes(attribute_data@, spec_attr_len(
            attribute_data@[0]), endian),
        r.data_offset == old(out)@.len(),
        r.vertex_count == spec_attr_len(attribute_data@[0]),
        r.vertex_size == canon_stride(attribute_data@),
        r.attributes@.len() == attribute_data@.len(),
        forall|k: int| 0 <= k < attribute_data@.len() ==> (#[trigger] r.attributes@[k]).data_type
            == spec_attr_data_type(attribute_data@[k]) && r.attributes@[k].data_size
            == spec_data_size(spec_attr_data_type(attribute_data@[k])),
        r.unk1 == 0u32,
        r.unk2 == 0u32,
        r.unk3 == 0u32,
{
    let data_offset = out.len() as u32;
    let vertex_count = attribute_data[0].len();

    let mut attributes: Vec<VertexAttribute> = Vec::new();
    let mut vertex_size: u32 = 0;
    let mut k: usize = 0;
    while k < attribute_data.len()
        invariant
            k <= attribute_data@.len(),
            attribute_data@.len() <= 0xffff,
            attributes@.len() == k,
            vertex_size == canon_cum(attribute_data@, k as int),
            forall|m: int| 0 <= m < k ==> (#[trigger] attributes@[m]).data_type
                == spec_attr_data_type(attribute_data@[m]) && attributes@[m].data_size
                == spec_data_size(spec_attr_data_type(attribute_data@[m])),
        decreases attribute_data@.len() - k,
    {
        proof {
            lemma_canon_cum_bound(attribute_data@, k as int);
        }
        let dt = attribute_data[k].data_type();
        attributes.push(dt.to_attribute());
        vertex_size = vertex_size + dt.data_size() as u32;
        k += 1;
    }

    proof {
        lemma_buffer_bytes_len(attribute_data@, 0, endian);
    }
    let ghost count = spec_attr_len(attribute_data@[0]);
    let mut i: usize = 0;
    while i < vertex_count
        invariant
            i <= count,
            vertex_count == count,
            attribute_data@.len() > 0,
            attribute_data@.len() <= 0xffff,
            attrs_same_len(attribute_data@, count),
            old(out)@.len() + count * canon_stride(attribute_data@) <= u32::MAX,
            out@ =~= old(out)@ + buffer_bytes(attribute_data@, i as int, endian),
        decreases count - i,
    {
        let ghost before_vertex = out@;
        let mut k2: usize = 0;
        while k2 < attribute_data.len()
            invariant
                k2 <= attribute_data@.len(),
                i < count,
                vertex_count == count,
                attribute_data@.len() > 0,
                attribute_data@.len() <= 0xffff,
                attrs_same_len(attribute_data@, count),
                old(out)@.len() + count * canon_stride(attribute_data@) <= u32::MAX,
                before_vertex =~= old(out)@ + buffer_bytes(attribute_data@, i as int, endian),
                out@ =~= before_vertex + vertex_bytes_upto(attribute_data@, k2 as int, i as int,
                    endian),
            decreases attribute_data@.len() - k2,
        {
            proof {
                let n = attribute_data@.len() as int;
                let cs = canon_stride(attribute_data@);
                lemma_buffer_bytes_len(attribute_data@, i as int, endian);
                lemma_vertex_bytes_len(attribute_data@, k2 as int, i as int, endian);
                lemma_canon_cum_nonneg(attribute_data@, k2 as int);
                assert(canon_cum(attribute_data@, k2 as int + 1) == canon_cum(attribute_data@,
                    k2 as int) + spec_data_size(spec_attr_data_type(
                    attribute_data@[k2 as int])));
                lemma_canon_cum_mono(attribute_data@, k2 as int + 1, n);
                lemma_canon_cum_nonneg(attribute_data@, n);
                vstd::arithmetic::mul::lemma_mul_inequality(i as int + 1, count, cs);
                assert((i as int + 1) * cs == i as int * cs + cs) by (nonlinear_arith);
            }
            push_attr_elem(out, &attribute_data[k2], i, endian);
            k2 += 1;
        }
        proof {
            assert(vertex_bytes_upto(attribute_data@, attribute_data@.len() as int, i as int,
                endian) =~= vertex_bytes(attribute_data@, i as int, endian));
            assert(buffer_bytes(attribute_data@, i as int + 1, endian) =~= buffer_bytes(
                attribute_data@, i as int, endian) + vertex_bytes(attribute_data@, i as int,
                endian));
        }
        i += 1;
    }

    proof {
        lemma_canon_cum_lower(attribute_data@, attribute_data@.len() as int);
        let cs = canon_stride(attribute_data@);
        assert(count * 4 <= count * cs) by (nonlinear_arith)
            requires
                cs >= 4,
                count >= 0,
        ;
    }
    VertexBufferDescriptor {
        data_offset,
        vertex_count: vertex_count as u32,
        vertex_size,
        attributes,
        unk1: 0,
        unk2: 0,
        unk3: 0,
    }
}

/// Every attribute occupies at least four bytes, so offsets grow by at
/// least four per attribute.
proof fn lemma_canon_cum_lower(attrs: Seq<AttributeData>, k: int)
    requires
        0 <= k,
    ensures
        canon_cum(attrs, k) >= 4 * k,
    decreases k,
{
    if k > 0 {
        lemma_canon_cum_lower(attrs, k - 1);
    }
}

/// Every attribute occupies between four and twelve bytes, so the offset
/// of attribute `k` lies between `4 * k` and `12 * k`.
pub proof fn lemma_canon_cum_range(attrs: Seq<AttributeData>, k: int)
    requires
        0 <= k,
    ensures
        4 * k <= canon_cum(attrs, k) <= 12 * k,
    decreases k,
{
    if k > 0 {
        lemma_canon_cum_range(attrs, k - 1);
    }
}

/// Canonical offsets never decrease along the attribute list.
proof fn lemma_canon_cum_mono(attrs: Seq<AttributeData>, k: int, n: int)
    requires
        0 <= k <= n,
    ensures
        canon_cum(attrs, k) <= canon_cum(attrs, n),
    decreases n,
{
    if k < n {
        lemma_canon_cum_mono(attrs, k, n - 1);
    }
}

/// Canonical offsets are non-negative.
proof fn lemma_canon_cum_nonneg(attrs: Seq<AttributeData>, k: int)
    requires
        0 <= k,
    ensures
        0 <= canon_cum(attrs, k),
    decreases k,
{
    if k > 0 {
        lemma_canon_cum_nonneg(attrs, k - 1);
    }
}

/// Inside one encoded vertex, attribute `k` occupies exactly the bytes
/// from `canon_cum(k)` to `canon_cum(k + 1)`.
proof fn lemma_vertex_window(attrs: Seq<AttributeData>, k: int, cap: int, i: int, e: Endian)
    requires
        0 <= k < cap <= attrs.len(),
    ensures
        vertex_bytes_upto(attrs, cap, i, e).subrange(canon_cum(attrs, k), canon_cum(attrs, k)
            + spec_data_size(spec_attr_data_type(attrs[k]))) =~= elem_bytes(attrs[k], i, e),
    decreases cap,
{
    lemma_vertex_bytes_len(attrs, cap - 1, i, e);
    lemma_elem_bytes_len(attrs[cap - 1], i, e);
    lemma_canon_cum_nonneg(attrs, k);
    if k == cap - 1 {
        assert(vertex_bytes_upto(attrs, cap, i, e).subrange(canon_cum(attrs, k), canon_cum(attrs,
            k) + spec_data_size(spec_attr_data_type(attrs[k]))) =~= elem_bytes(attrs[k], i, e));
    } else {
        lemma_vertex_window(attrs, k, cap - 1, i, e);
        lemma_canon_cum_mono_local(attrs, k + 1, cap - 1);
        assert(canon_cum(attrs, k) + spec_data_size(spec_attr_data_type(attrs[k])) == canon_cum(
            attrs, k + 1));
        lemma_elem_bytes_len(attrs[k], i, e);
        assert(vertex_bytes_upto(attrs, cap, i, e).subrange(canon_cum(attrs, k), canon_cum(attrs,
            k) + spec_data_size(spec_attr_data_type(attrs[k]))) =~= vertex_bytes_upto(attrs, cap
            - 1, i, e).subrange(canon_cum(attrs, k), canon_cum(attrs, k) + spec_data_size(
            spec_attr_data_type(attrs[k]))));
    }
}

/// Canonical offsets never decrease (local duplicate used by the window
/// proofs).
proof fn lemma_canon_cum_mono_local(attrs: Seq<AttributeData>, k: int, n: int)
    requires
        0 <= k <= n,
    ensures
        canon_cum(attrs, k) <= canon_cum(attrs, n),
    decreases n,
{
    if k < n {
        lemma_canon_cum_mono_local(attrs, k, n - 1);
    }
}

/// Inside the whole encoded buffer, vertex `j`'s attribute `k` occupies
/// exactly the bytes at `j * stride + canon_cum(k)`.
proof fn lemma_buffer_window(attrs: Seq<AttributeData>, count: int, j: int, k: int, e: Endian)
    requires
        0 <= j < count,
        0 <= k < attrs.len(),
    ensures
        buffer_bytes(attrs, count, e).subrange(j * canon_stride(attrs) + canon_cum(attrs, k), j
            * canon_stride(attrs) + canon_cum(attrs, k) + spec_data_size(spec_attr_data_type(
            attrs[k]))) =~= elem_bytes(attrs[k], j, e),
    decreases count,
{
    let cs = canon_stride(attrs);
    let start = j * cs + canon_cum(attrs, k);
    let size = spec_data_size(spec_attr_data_type(attrs[k]));
    lemma_buffer_bytes_len(attrs, count - 1, e);
    lemma_vertex_bytes_len(attrs, attrs.len() as int, j, e);
    lemma_canon_cum_nonneg(attrs, k);
    lemma_canon_cum_mono_local(attrs, k + 1, attrs.len() as int);
    assert(canon_cum(attrs, k) + size == canon_cum(attrs, k + 1));
    if j == count - 1 {
        lemma_vertex_window(attrs, k, attrs.len() as int, j, e);
        assert(j * cs == buffer_bytes(attrs, count - 1, e).len());
        assert(buffer_bytes(attrs, count, e).subrange(start, start + size) =~= vertex_bytes(
            attrs, j, e).subrange(canon_cum(attrs, k), canon_cum(attrs, k) + size));
    } else {
        lemma_buffer_window(attrs, count - 1, j, k, e);
        assert((j + 1) * cs <= (count - 1) * cs) by (nonlinear_arith)
            requires
                j + 1 <= count - 1,
                cs >= 0,
        ;
        assert((j + 1) * cs == j * cs + cs) by (nonlinear_arith);
        assert(start + size <= buffer_bytes(attrs, count - 1, e).len());
        assert(buffer_bytes(attrs, count, e).subrange(start, start + size) =~= buffer_bytes(
            attrs, count - 1, e).subrange(start, start + size));
    }
}

/// One byte of a window equality, picked out by hand.
proof fn lemma_seq_eq_index(data: Seq<u8>, pos: int, w: Seq<u8>, m: int)
    requires
        0 <= pos,
        0 <= m < w.len(),
        pos + w.len() <= data.len(),
        data.subrange(pos, pos + w.len() as int) =~= w,
    ensures
        data[pos + m] == w[m],
{
    assert(data.subrange(pos, pos + w.len() as int)[m] == data[pos + m]);
}

/// Reading four bytes that hold `enc32(x)` gives back `x`.
proof fn lemma_u32_window(data: Seq<u8>, pos: int, x: u32, e: Endian)
    requires
        0 <= pos,
        pos + 4 <= data.len(),
        data.subrange(pos, pos + 4) =~= enc32(x as int, e),
    ensures
        u32_at(data, pos, e) == x,
{
    crate::cursor::lemma_enc32_dec(x, e);
    assert(data[pos] == data.subrange(pos, pos + 4)[0]);
    assert(data[pos + 1] == data.subrange(pos, pos + 4)[1]);
    assert(data[pos + 2] == data.subrange(pos, pos + 4)[2]);
    assert(data[pos + 3] == data.subrange(pos, pos + 4)[3]);
}

/// Reading two bytes that hold `enc16(x)` gives back `x`.
proof fn lemma_u16_window(data: Seq<u8>, pos: int, x: u16, e: Endian)
    requires
        0 <= pos,
        pos + 2 <= data.len(),
        data.subrange(pos, pos + 2) =~= enc16(x as int, e),
    ensures
        u16_at(data, pos, e) == x,
{
    crate::cursor::lemma_enc16_dec(x, e);
    assert(data[pos] == data.subrange(pos, pos + 2)[0]);
    assert(data[pos + 1] == data.subrange(pos, pos + 2)[1]);
}

/// Decoding any window whose bytes are the encoding of a float pair gives
/// the pair back.
proof fn lemma_dec_enc_f32x2(data: Seq<u8>, pos: int, v: F32x2, e: Endian)
    requires
        0 <= pos,
        pos + 8 <= data.len(),
        data.subrange(pos, pos + 8) =~= enc_f32x2(v, e),
    ensures
        f32x2_at(data, pos, e) == v,
{
    let w = enc_f32x2(v, e);
    assert(w.len() == 8);
    assert forall|m: int| 0 <= m < 4 implies data.subrange(pos + 0, pos + 0 + 4)[m]
        == enc32(v.x as int, e)[m] by {
        lemma_seq_eq_index(data, pos, w, 0 + m);
        assert(data.subrange(pos + 0, pos + 0 + 4)[m] == data[pos + (0 + m)]);
    }
    assert(data.subrange(pos + 0, pos + 0 + 4) =~= enc32(v.x as int, e));
    lemma_u32_window(data, pos + 0, v.x, e);
    assert forall|m: int| 0 <= m < 4 implies data.subrange(pos + 4, pos + 4 + 4)[m]
        == enc32(v.y as int, e)[m] by {
        lemma_seq_eq_index(data, pos, w, 4 + m);
        assert(data.subrange(pos + 4, pos + 4 + 4)[m] == data[pos + (4 + m)]);
    }
    assert(data.subrange(pos + 4, pos + 4 + 4) =~= enc32(v.y as int, e));
    lemma_u32_window(data, pos + 4, v.y, e);
}

/// Decoding any window whose bytes are the encoding of a float triple
/// gives the triple back.
proof fn lemma_dec_enc_f32x3(data: Seq<u8>, pos: int, v: F32x3, e: Endian)
    requires
        0 <= pos,
        pos + 12 <= data.len(),
        data.subrange(pos, pos + 12) =~= enc_f32x3(v, e),
    ensures
        f32x3_at(data, pos, e) == v,
{
    let w = enc_f32x3(v, e);
    assert(w.len() == 12);
    assert forall|m: int| 0 <= m < 4 implies data.subrange(pos + 0, pos + 0 + 4)[m]
        == enc32(v.x as int, e)[m] by {
        lemma_seq_eq_index(data, pos, w, 0 + m);
        assert(data.subrange(pos + 0, pos + 0 + 4)[m] == data[pos + (0 + m)]);
    }
    assert(data.subrange(pos + 0, pos + 0 + 4) =~= enc32(v.x as int, e));
    lemma_u32_window(data, pos + 0, v.x, e);
    assert forall|m: int| 0 <= m < 4 implies data.subrange(pos + 4, pos + 4 + 4)[m]
        == enc32(v.y as int, e)[m] by {
        lemma_seq_eq_index(data, pos, w, 4 + m);
        assert(data.subrange(pos + 4, pos + 4 + 4)[m] == data[pos + (4 + m)]);
    }
    assert(data.subrange(pos + 4, pos + 4 + 4) =~= enc32(v.y as int, e));
    lemma_u32_window(data, pos + 4, v.y, e);
    assert forall|m: int| 0 <= m < 4 implies data.subrange(pos + 8, pos + 8 + 4)[m]
        == enc32(v.z as int, e)[m] by {
        lemma_seq_eq_index(data, pos, w, 8 + m);
        assert(data.subrange(pos + 8, pos + 8 + 4)[m] == data[pos + (8 + m)]);
    }
    assert(data.subrange(pos + 8, pos + 8 + 4) =~= enc32(v.z as int, e));
    lemma_u32_window(data, pos + 8, v.z, e);
}

/// Decoding any window whose bytes are a byte quadruple gives it back.
proof fn lemma_dec_enc_u8x4(data: Seq<u8>, pos: int, v: U8x4)
    requires
        0 <= pos,
        pos + 4 <= data.len(),
        data.subrange(pos, pos + 4) =~= enc_u8x4(v),
    ensures
        u8x4_at(data, pos) == v,
{
    assert forall|m: int| 0 <= m < 4 implies data[pos + m] == enc_u8x4(v)[m] by {
        assert(data.subrange(pos, pos + 4)[m] == data[pos + m]);
    }
}

/// Decoding any window whose bytes are the encoding of a 16-bit pair
/// gives the pair back.
proof fn lemma_dec_enc_u16x2(data: Seq<u8>, pos: int, v: U16x2, e: Endian)
    requires
        0 <= pos,
        pos + 4 <= data.len(),
        data.subrange(pos, pos + 4) =~= enc_u16x2(v, e),
    ensures
        u16x2_at(data, pos, e) == v,
{
    let w = enc_u16x2(v, e);
    assert(w.len() == 4);
    assert forall|m: int| 0 <= m < 2 implies data.subrange(pos + 0, pos + 0 + 2)[m]
        == enc16(v.x as int, e)[m] by {
        lemma_seq_eq_index(data, pos, w, 0 + m);
        assert(data.subrange(pos + 0, pos + 0 + 2)[m] == data[pos + (0 + m)]);
    }
    assert(data.subrange(pos + 0, pos + 0 + 2) =~= enc16(v.x as int, e));
    lemma_u16_window(data, pos + 0, v.x, e);
    assert forall|m: int| 0 <= m < 2 implies data.subrange(pos + 2, pos + 2 + 2)[m]
        == enc16(v.y as int, e)[m] by {
        lemma_seq_eq_index(data, pos, w, 2 + m);
        assert(data.subrange(pos + 2, pos + 2 + 2)[m] == data[pos + (2 + m)]);
    }
    assert(data.subrange(pos + 2, pos + 2 + 2) =~= enc16(v.y as int, e));
    lemma_u16_window(data, pos + 2, v.y, e);
}

/// Decoding any window whose bytes are the encoding of a 16-bit quadruple
/// gives the quadruple back.
proof fn lemma_dec_enc_u16x4(data: Seq<u8>, pos: int, v: U16x4, e: Endian)
    requires
        0 <= pos,
        pos + 8 <= data.len(),
        data.subrange(pos, pos + 8) =~= enc_u16x4(v, e),
    ensures
        u16x4_at(data, pos, e) == v,
{
    let w = enc_u16x4(v, e);
    assert(w.len() == 8);
    assert forall|m: int| 0 <= m < 2 implies data.subrange(pos + 0, pos + 0 + 2)[m]
        == enc16(v.x as int, e)[m] by {
        lemma_seq_eq_index(data, pos, w, 0 + m);
        assert(data.subrange(pos + 0, pos + 0 + 2)[m] == data[pos + (0 + m)]);
    }
    assert(data.subrange(pos + 0, pos + 0 + 2) =~= enc16(v.x as int, e));
    lemma_u16_window(data, pos + 0, v.x, e);
    assert forall|m: int| 0 <= m < 2 implies data.subrange(pos + 2, pos + 2 + 2)[m]
        == enc16(v.y as int, e)[m] by {
        lemma_seq_eq_index(data, pos, w, 2 + m);
        assert(data.subrange(pos + 2, pos + 2 + 2)[m] == data[pos + (2 + m)]);
    }
    assert(data.subrange(pos + 2, pos + 2 + 2) =~= enc16(v.y as int, e));
    lemma_u16_window(data, pos + 2, v.y, e);
    assert forall|m: int| 0 <= m < 2 implies data.subrange(pos + 4, pos + 4 + 2)[m]
        == enc16(v.z as int, e)[m] by {
        lemma_seq_eq_index(data, pos, w, 4 + m);
        assert(data.subrange(pos + 4, pos + 4 + 2)[m] == data[pos + (4 + m)]);
    }
    assert(data.subrange(pos + 4, pos + 4 + 2) =~= enc16(v.z as int, e));
    lemma_u16_window(data, pos + 4, v.z, e);
    assert forall|m: int| 0 <= m < 2 implies data.subrange(pos + 6, pos + 6 + 2)[m]
        == enc16(v.w as int, e)[m] by {
        lemma_seq_eq_index(data, pos, w, 6 + m);
        assert(data.subrange(pos + 6, pos + 6 + 2)[m] == data[pos + (6 + m)]);
    }
    assert(data.subrange(pos + 6, pos + 6 + 2) =~= enc16(v.w as int, e));
    lemma_u16_window(data, pos + 6, v.w, e);
}

/// Attribute codec round trip: decoding the interleaved encoding of a
/// struct-of-arrays attribute list gives every array back unchanged.
///
/// The decoded view of the written buffer — offset `0`, the canonical
/// stride, attribute `k` at its canonical offset — equals the source
/// arrays for every attribute kind.
pub proof fn lemma_vertex_buffer_round_trip(attrs: Seq<AttributeData>, count: int, e: Endian)
    requires
        0 <= count,
        attrs_same_len(attrs, count),
    ensures
        forall|k: int| 0 <= k < attrs.len() ==> attr_decoded(#[trigger] attrs[k],
            spec_attr_data_type(attrs[k]), buffer_bytes(attrs, count, e), 0, canon_stride(attrs),
            canon_cum(attrs, k), count, e),
{
    let data = buffer_bytes(attrs, count, e);
    let cs = canon_stride(attrs);
    lemma_buffer_bytes_len(attrs, count, e);
    assert forall|k: int| 0 <= k < attrs.len() implies attr_decoded(#[trigger] attrs[k],
        spec_attr_data_type(attrs[k]), data, 0, cs, canon_cum(attrs, k), count, e) by {
        let size = spec_data_size(spec_attr_data_type(attrs[k]));
        let rel = canon_cum(attrs, k);
        lemma_canon_cum_nonneg(attrs, k);
        lemma_canon_cum_mono_local(attrs, k + 1, attrs.len() as int);
        assert(rel + size == canon_cum(attrs, k + 1));
        assert forall|j: int| 0 <= j < count implies data.subrange(j * cs + rel, j * cs + rel
            + size) =~= elem_bytes(attrs[k], j, e) && j * cs + rel + size <= data.len() by {
            lemma_buffer_window(attrs, count, j, k, e);
            assert((j + 1) * cs <= count * cs) by (nonlinear_arith)
                requires
                    j + 1 <= count,
                    cs >= 0,
            ;
            assert((j + 1) * cs == j * cs + cs) by (nonlinear_arith);
        }
        lemma_attr_decoded_from_windows(attrs[k], data, cs, rel, count, e);
    }
}

/// If every window of an attribute holds the encoding of its element, the
/// decoded view equals the source array.
proof fn lemma_attr_decoded_from_windows(
    a: AttributeData,
    data: Seq<u8>,
    stride: int,
    rel: int,
    count: int,
    e: Endian,
)
    requires
        0 <= count,
        0 <= rel,
        stride >= 0,
        spec_attr_len(a) == count,
        forall|j: int| 0 <= j < count ==> (#[trigger] data.subrange(j * stride + rel, j * stride
            + rel + spec_data_size(spec_attr_data_type(a))) =~= elem_bytes(a, j, e) && j * stride
            + rel + spec_data_size(spec_attr_data_type(a)) <= data.len() && 0 <= j * stride),
    ensures
        attr_decoded(a, spec_attr_data_type(a), data, 0, stride, rel, count, e),
{
    match a {
        AttributeData::Position(v) => {
            assert forall|j: int| 0 <= j < count implies dec_f32x3(data, 0, stride, rel, count,
                e)[j] == v@[j] by {
                assert(data.subrange(j * stride + rel, j * stride + rel + spec_data_size(
                    spec_attr_data_type(a))) =~= elem_bytes(a, j, e));
                assert(j * stride + rel + spec_data_size(spec_attr_data_type(a)) <= data.len());
                assert(0 <= j * stride);
                lemma_dec_enc_f32x3(data, j * stride + rel, v@[j], e);
            }
            assert(v@ =~= dec_f32x3(data, 0, stride, rel, count, e));
        }
        AttributeData::Position2(v) => {
            assert forall|j: int| 0 <= j < count implies dec_f32x3(data, 0, stride, rel, count,
                e)[j] == v@[j] by {
                assert(data.subrange(j * stride + rel, j * stride + rel + spec_data_size(
                    spec_attr_data_type(a))) =~= elem_bytes(a, j, e));
                assert(j * stride + rel + spec_data_size(spec_attr_data_type(a)) <= data.len());
                assert(0 <= j * stride);
                lemma_dec_enc_f32x3(data, j * stride + rel, v@[j], e);
            }
            assert(v@ =~= dec_f32x3(data, 0, stride, rel, count, e));
        }
        AttributeData::OldPosition(v) => {
            assert forall|j: int| 0 <= j < count implies dec_f32x3(data, 0, stride, rel, count,
                e)[j] == v@[j] by {
                assert(data.subrange(j * stride + rel, j * stride + rel + spec_data_size(
                    spec_attr_data_type(a))) =~= elem_bytes(a, j, e));
                assert(j * stride + rel + spec_data_size(spec_attr_data_type(a)) <= data.len());
                assert(0 <= j * stride);
                lemma_dec_enc_f32x3(data, j * stride + rel, v@[j], e);
            }
            assert(v@ =~= dec_f32x3(data, 0, stride, rel, count, e));
        }
        AttributeData::SkinWeights2(v) => {
            assert forall|j: int| 0 <= j < count implies dec_f32x3(data, 0, stride, rel, count,
                e)[j] == v@[j] by {
                assert(data.subrange(j * stride + rel, j * stride + rel + spec_data_size(
                    spec_attr_data_type(a))) =~= elem_bytes(a, j, e));
                assert(j * stride + rel + spec_data_size(spec_attr_data_type(a)) <= data.len());
                assert(0 <= j * stride);
                lemma_dec_enc_f32x3(data, j * stride + rel, v@[j], e);
            }
            assert(v@ =~= dec_f32x3(data, 0, stride, rel, count, e));
        }
        AttributeData::TexCoord0(v) => {
            assert forall|j: int| 0 <= j < count implies dec_f32x2(data, 0, stride, rel, count,
                e)[j] == v@[j] by {
                assert(data.subrange(j * stride + rel, j * stride + rel + spec_data_size(
                    spec_attr_data_type(a))) =~= elem_bytes(a, j, e));
                assert(j * stride + rel + spec_data_size(spec_attr_data_type(a)) <= data.len());
                assert(0 <= j * stride);
                lemma_dec_enc_f32x2(data, j * stride + rel, v@[j], e);
            }
            assert(v@ =~= dec_f32x2(data, 0, stride, rel, count, e));
        }
        AttributeData::TexCoord1(v) => {
            assert forall|j: int| 0 <= j < count implies dec_f32x2(data, 0, stride, rel, count,
                e)[j] == v@[j] by {
                assert(data.subrange(j * stride + rel, j * stride + rel + spec_data_size(
                    spec_attr_data_type(a))) =~= elem_bytes(a, j, e));
                assert(j * stride + rel + spec_data_size(spec_attr_data_type(a)) <= data.len());
                assert(0 <= j * stride);
                lemma_dec_enc_f32x2(data, j * stride + rel, v@[j], e);
            }
            assert(v@ =~= dec_f32x2(data, 0, stride, rel, count, e));
        }
        AttributeData::TexCoord2(v) => {
            assert forall|j: int| 0 <= j < count implies dec_f32x2(data, 0, stride, rel, count,
                e)[j] == v@[j] by {
                assert(data.subrange(j * stride + rel, j * stride + rel + spec_data_size(
                    spec_attr_data_type(a))) =~= elem_bytes(a, j, e));
                assert(j * stride + rel + spec_data_size(spec_attr_data_type(a)) <= data.len());
                assert(0 <= j * stride);
                lemma_dec_enc_f32x2(data, j * stride + rel, v@[j], e);
            }
            assert(v@ =~= dec_f32x2(data, 0, stride, rel, count, e));
        }
        AttributeData::TexCoord3(v) => {
            assert forall|j: int| 0 <= j < count implies dec_f32x2(data, 0, stride, rel, count,
                e)[j] == v@[j] by {
                assert(data.subrange(j * stride + rel, j * stride + rel + spec_data_size(
                    spec_attr_data_type(a))) =~= elem_bytes(a, j, e));
                assert(j * stride + rel + spec_data_size(spec_attr_data_type(a)) <= data.len());
                assert(0 <= j * stride);
                lemma_dec_enc_f32x2(data, j * stride + rel, v@[j], e);
            }
            assert(v@ =~= dec_f32x2(data, 0, stride, rel, count, e));
        }
        AttributeData::TexCoord4(v) => {
            assert forall|j: int| 0 <= j < count implies dec_f32x2(data, 0, stride, rel, count,
                e)[j] == v@[j] by {
                assert(data.subrange(j * stride + rel, j * stride + rel + spec_data_size(
                    spec_attr_data_type(a))) =~= elem_bytes(a, j, e));
                assert(j * stride + rel + spec_data_size(spec_attr_data_type(a)) <= data.len());
                assert(0 <= j * stride);
                lemma_dec_enc_f32x2(data, j * stride + rel, v@[j], e);
            }
            assert(v@ =~= dec_f32x2(data, 0, stride, rel, count, e));
        }
        AttributeData::TexCoord5(v) => {
            assert forall|j: int| 0 <= j < count implies dec_f32x2(data, 0, stride, rel, count,
                e)[j] == v@[j] by {
                assert(data.subrange(j * stride + rel, j * stride + rel + spec_data_size(
                    spec_attr_data_type(a))) =~= elem_bytes(a, j, e));
                assert(j * stride + rel + spec_data_size(spec_attr_data_type(a)) <= data.len());
                assert(0 <= j * stride);
                lemma_dec_enc_f32x2(data, j * stride + rel, v@[j], e);
            }
            assert(v@ =~= dec_f32x2(data, 0, stride, rel, count, e));
        }
        AttributeData::TexCoord6(v) => {
            assert forall|j: int| 0 <= j < count implies dec_f32x2(data, 0, stride, rel, count,
                e)[j] == v@[j] by {
                assert(data.subrange(j * stride + rel, j * stride + rel + spec_data_size(
                    spec_attr_data_type(a))) =~= elem_bytes(a, j, e));
                assert(j * stride + rel + spec_data_size(spec_attr_data_type(a)) <= data.len());
                assert(0 <= j * stride);
                lemma_dec_enc_f32x2(data, j * stride + rel, v@[j], e);
            }
            assert(v@ =~= dec_f32x2(data, 0, stride, rel, count, e));
        }
        AttributeData::TexCoord7(v) => {
            assert forall|j: int| 0 <= j < count implies dec_f32x2(data, 0, stride, rel, count,
                e)[j] == v@[j] by {
                assert(data.subrange(j * stride + rel, j * stride + rel + spec_data_size(
                    spec_attr_data_type(a))) =~= elem_bytes(a, j, e));
                assert(j * stride + rel + spec_data_size(spec_attr_data_type(a)) <= data.len());
                assert(0 <= j * stride);
                lemma_dec_enc_f32x2(data, j * stride + rel, v@[j], e);
            }
            assert(v@ =~= dec_f32x2(data, 0, stride, rel, count, e));
        }
        AttributeData::TexCoord8(v) => {
            assert forall|j: int| 0 <= j < count implies dec_f32x2(data, 0, stride, rel, count,
                e)[j] == v@[j] by {
                assert(data.subrange(j * stride + rel, j * stride + rel + spec_data_size(
                    spec_attr_data_type(a))) =~= elem_bytes(a, j, e));
                assert(j * stride + rel + spec_data_size(spec_attr_data_type(a)) <= data.len());
                assert(0 <= j * stride);
                lemma_dec_enc_f32x2(data, j * stride + rel, v@[j], e);
            }
            assert(v@ =~= dec_f32x2(data, 0, stride, rel, count, e));
        }
        AttributeData::Normal(v) => {
            assert forall|j: int| 0 <= j < count implies dec_u8x4(data, 0, stride, rel, count)[j]
                == v@[j] by {
                assert(data.subrange(j * stride + rel, j * stride + rel + spec_data_size(
                    spec_attr_data_type(a))) =~= elem_bytes(a, j, e));
                assert(j * stride + rel + spec_data_size(spec_attr_data_type(a)) <= data.len());
                assert(0 <= j * stride);
                lemma_dec_enc_u8x4(data, j * stride + rel, v@[j]);
            }
            assert(v@ =~= dec_u8x4(data, 0, stride, rel, count));
        }
        AttributeData::Tangent(v) => {
            assert forall|j: int| 0 <= j < count implies dec_u8x4(data, 0, stride, rel, count)[j]
                == v@[j] by {
                assert(data.subrange(j * stride + rel, j * stride + rel + spec_data_size(
                    spec_attr_data_type(a))) =~= elem_bytes(a, j, e));
                assert(j * stride + rel + spec_data_size(spec_attr_data_type(a)) <= data.len());
                assert(0 <= j * stride);
                lemma_dec_enc_u8x4(data, j * stride + rel, v@[j]);
            }
            assert(v@ =~= dec_u8x4(data, 0, stride, rel, count));
        }
        AttributeData::VertexColor(v) => {
            assert forall|j: int| 0 <= j < count implies dec_u8x4(data, 0, stride, rel, count)[j]
                == v@[j] by {
                assert(data.subrange(j * stride + rel, j * stride + rel + spec_data_size(
                    spec_attr_data_type(a))) =~= elem_bytes(a, j, e));
                assert(j * stride + rel + spec_data_size(spec_attr_data_type(a)) <= data.len());
                assert(0 <= j * stride);
                lemma_dec_enc_u8x4(data, j * stride + rel, v@[j]);
            }
            assert(v@ =~= dec_u8x4(data, 0, stride, rel, count));
        }
        AttributeData::Blend(v) => {
            assert forall|j: int| 0 <= j < count implies dec_u8x4(data, 0, stride, rel, count)[j]
                == v@[j] by {
                assert(data.subrange(j * stride + rel, j * stride + rel + spec_data_size(
                    spec_attr_data_type(a))) =~= elem_bytes(a, j, e));
                assert(j * stride + rel + spec_data_size(spec_attr_data_type(a)) <= data.len());
                assert(0 <= j * stride);
                lemma_dec_enc_u8x4(data, j * stride + rel, v@[j]);
            }
            assert(v@ =~= dec_u8x4(data, 0, stride, rel, count));
        }
        AttributeData::Normal4(v) => {
            assert forall|j: int| 0 <= j < count implies dec_u8x4(data, 0, stride, rel, count)[j]
                == v@[j] by {
                assert(data.subrange(j * stride + rel, j * stride + rel + spec_data_size(
                    spec_attr_data_type(a))) =~= elem_bytes(a, j, e));
                assert(j * stride + rel + spec_data_size(spec_attr_data_type(a)) <= data.len());
                assert(0 <= j * stride);
                lemma_dec_enc_u8x4(data, j * stride + rel, v@[j]);
            }
            assert(v@ =~= dec_u8x4(data, 0, stride, rel, count));
        }
        AttributeData::Tangent2(v) => {
            assert forall|j: int| 0 <= j < count implies dec_u8x4(data, 0, stride, rel, count)[j]
                == v@[j] by {
                assert(data.subrange(j * stride + rel, j * stride + rel + spec_data_size(
                    spec_attr_data_type(a))) =~= elem_bytes(a, j, e));
                assert(j * stride + rel + spec_data_size(spec_attr_data_type(a)) <= data.len());
                assert(0 <= j * stride);
                lemma_dec_enc_u8x4(data, j * stride + rel, v@[j]);
            }
            assert(v@ =~= dec_u8x4(data, 0, stride, rel, count));
        }
        AttributeData::BoneIndices(v) => {
            assert forall|j: int| 0 <= j < count implies dec_u8x4(data, 0, stride, rel, count)[j]
                == v@[j] by {
                assert(data.subrange(j * stride + rel, j * stride + rel + spec_data_size(
                    spec_attr_data_type(a))) =~= elem_bytes(a, j, e));
                assert(j * stride + rel + spec_data_size(spec_attr_data_type(a)) <= data.len());
                assert(0 <= j * stride);
                lemma_dec_enc_u8x4(data, j * stride + rel, v@[j]);
            }
            assert(v@ =~= dec_u8x4(data, 0, stride, rel, count));
        }
        AttributeData::BoneIndices2(v) => {
            assert forall|j: int| 0 <= j < count implies dec_u8x4(data, 0, stride, rel, count)[j]
                == v@[j] by {
                assert(data.subrange(j * stride + rel, j * stride + rel + spec_data_size(
                    spec_attr_data_type(a))) =~= elem_bytes(a, j, e));
                assert(j * stride + rel + spec_data_size(spec_attr_data_type(a)) <= data.len());
                assert(0 <= j * stride);
                lemma_dec_enc_u8x4(data, j * stride + rel, v@[j]);
            }
            assert(v@ =~= dec_u8x4(data, 0, stride, rel, count));
        }
        AttributeData::WeightIndex(v) => {
            assert forall|j: int| 0 <= j < count implies dec_u16x2(data, 0, stride, rel, count,
                e)[j] == v@[j] by {
                assert(data.subrange(j * stride + rel, j * stride + rel + spec_data_size(
                    spec_attr_data_type(a))) =~= elem_bytes(a, j, e));
                assert(j * stride + rel + spec_data_size(spec_attr_data_type(a)) <= data.len());
                assert(0 <= j * stride);
                lemma_dec_enc_u16x2(data, j * stride + rel, v@[j], e);
            }
            assert(v@ =~= dec_u16x2(data, 0, stride, rel, count, e));
        }
        AttributeData::SkinWeights(v) => {
            assert forall|j: int| 0 <= j < count implies dec_u16x4(data, 0, stride, rel, count,
                e)[j] == v@[j] by {
                assert(data.subrange(j * stride + rel, j * stride + rel + spec_data_size(
                    spec_attr_data_type(a))) =~= elem_bytes(a, j, e));
                assert(j * stride + rel + spec_data_size(spec_attr_data_type(a)) <= data.len());
                assert(0 <= j * stride);
                lemma_dec_enc_u16x4(data, j * stride + rel, v@[j], e);
            }
            assert(v@ =~= dec_u16x4(data, 0, stride, rel, count, e));
        }
    }
}

/// Re-encoding a decoded index list reproduces exactly the bytes it was
/// decoded from.
pub proof fn lemma_index_round_trip(data: Seq<u8>, offset: int, count: int, e: Endian)
    requires
        0 <= offset,
        0 <= count,
        offset + 2 * count <= data.len(),
    ensures
        enc_indices(indices_at(data, offset, count, e), e) =~= data.subrange(offset, offset + 2
            * count),
    decreases count,
{
    let ix = indices_at(data, offset, count, e);
    if count > 0 {
        lemma_index_round_trip(data, offset + 2, count - 1, e);
        crate::cursor::lemma_dec16_enc(data, offset, e);
        assert(ix.drop_first() =~= indices_at(data, offset + 2, count - 1, e));
        assert(enc_indices(ix, e) =~= enc16(ix[0] as int, e) + enc_indices(ix.drop_first(), e));
        assert(data.subrange(offset, offset + 2 * count) =~= data.subrange(offset, offset + 2)
            + data.subrange(offset + 2, offset + 2 * count));
    }
}

} // verus!
