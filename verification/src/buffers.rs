//! The struct-of-arrays form of vertex data: decoding every buffer of a
//! vertex data section into per-attribute arrays, reconstructing morph
//! targets from their blend/default/parameter triple, and re-encoding the
//! whole section.
use vstd::prelude::*;

use crate::cursor::Endian;
use crate::error::Xc3Error;
use crate::vertex::{
    attr_decoded, cum_offset, dec_f32x3, dec_u8x4, f32x3_at, read_indices, read_u8x4_array,
    read_f32x3_array, read_vertex_attributes, u8x4_at, window_end, windows_ok, AttributeData,
    F32x3,
    IndexBufferDescriptor, MorphDescriptor, MorphTargetFlags, OutlineBufferDescriptor, U16x4,
    U8x4, UnkBufferDescriptor, VertexBufferDescriptor, VertexData, VertexMorphs, WeightGroup,
    WeightLod, DataType, VertexAttribute, spec_attr_len,
};

verus! {

/// One decoded vertex buffer: its attributes, its morph targets and its
/// outline buffer assignment.
#[derive(Clone, Debug, PartialEq)]
pub struct VertexBuffer {
    pub attributes: Vec<AttributeData>,
    /// Base positions, normals and tangents used when morph targets are
    /// present.
    pub morph_blend_target: Vec<AttributeData>,
    /// Sparse per-controller deformations applied on top of the blend
    /// target.
    pub morph_targets: Vec<MorphTarget>,
    pub outline_buffer_index: Option<usize>,
}

/// A sparse morph target: deltas and re-biased directions for the vertices
/// it affects.
#[derive(Clone, Debug, PartialEq)]
pub struct MorphTarget {
    /// The controller this target animates.
    pub morph_controller_index: usize,
    /// Position deltas relative to the blend target, as float bit
    /// patterns.
    pub position_deltas: Vec<F32x3>,
    /// Directions stored re-biased (`v / 255 * 2 - 1`).
    pub normals: Vec<U8x4>,
    /// Directions stored re-biased (`v / 255 * 2 - 1`).
    pub tangents: Vec<U8x4>,
    /// The vertices the deltas apply to.
    pub vertex_indices: Vec<u32>,
}

/// One decoded outline buffer.
#[derive(Clone, Debug, PartialEq)]
pub struct OutlineBuffer {
    pub attributes: Vec<AttributeData>,
}

/// One decoded auxiliary buffer.
#[derive(Clone, Debug, PartialEq)]
pub struct UnkBuffer {
    pub attributes: Vec<AttributeData>,
}

/// One decoded index buffer.
#[derive(Clone, Debug, PartialEq)]
pub struct IndexBuffer {
    pub indices: Vec<u16>,
}

/// One decoded row of a sparse morph target.
#[derive(Clone, Copy, Debug, PartialEq, Eq, Structural)]
pub struct MorphTargetVertex {
    pub position_delta: F32x3,
    /// Stored re-biased (`v / 255 * 2 - 1`).
    pub normal: U8x4,
    /// Stored re-biased (`v / 255 * 2 - 1`).
    pub tangent: U8x4,
    pub vertex_index: u32,
}

/// The weight values of one weight buffer, in whichever stored form the
/// buffer uses.
#[derive(Clone, Debug, PartialEq)]
pub enum WeightValues {
    /// Normalized 16-bit quadruples; divide by 65535 for real values.
    Normalized(Vec<U16x4>),
    /// Float bit-pattern triples; the fourth weight is one minus their
    /// sum.
    Triples(Vec<F32x3>),
}

/// Skin weights and bone indices for one weight buffer, kept in their
/// stored form.
#[derive(Clone, Debug, PartialEq)]
pub struct SkinWeights {
    pub bone_indices: Vec<U8x4>,
    pub weights: WeightValues,
    /// The name of the bone each index selects.
    pub bone_names: Vec<String>,
}

/// How weight buffers are selected per level of detail.
#[derive(Clone, Debug, PartialEq)]
pub enum WeightGroups {
    Groups { weight_groups: Vec<WeightGroup>, weight_lods: Vec<WeightLod> },
    Legacy { weight_buffer_indices: [usize; 6] },
}

/// All skinning data decoded from a vertex data section.
#[derive(Clone, Debug, PartialEq)]
pub struct Weights {
    pub weight_buffers: Vec<SkinWeights>,
    pub weight_groups: WeightGroups,
}

/// Every buffer of a vertex data section in struct-of-arrays form.
#[derive(Clone, Debug, PartialEq)]
pub struct ModelBuffers {
    pub vertex_buffers: Vec<VertexBuffer>,
    pub outline_buffers: Vec<OutlineBuffer>,
    pub index_buffers: Vec<IndexBuffer>,
    pub unk_buffers: Vec<UnkBuffer>,
    pub weights: Option<Weights>,
}

/// The attributes of one decoded buffer match the descriptor's windows.
pub open spec fn buffer_decoded(
    attrs: Seq<AttributeData>,
    d: VertexBufferDescriptor,
    data: Seq<u8>,
    e: Endian,
) -> bool {
    attrs.len() == d.attributes@.len() && forall|k: int| 0 <= k < d.attributes@.len()
        ==> attr_decoded(#[trigger] attrs[k], d.attributes@[k].data_type, data,
        d.data_offset as int, d.vertex_size as int, cum_offset(d.attributes@, k),
        d.vertex_count as int, e)
}

/// Decodes every index buffer of a vertex data section.
pub fn read_index_buffers(vertex_data: &VertexData, endian: Endian) -> (r: Result<
    Vec<IndexBuffer>, Xc3Error>)
    ensures
        r matches Ok(v) ==> v@.len() == vertex_data.index_buffers@.len() && forall|i: int|
            0 <= i < v@.len() ==> (#[trigger] v@[i].indices@) == crate::vertex::indices_at(
            vertex_data.buffer@, vertex_data.index_buffers@[i].data_offset as int,
            vertex_data.index_buffers@[i].index_count as int, endian),
{
    let mut out: Vec<IndexBuffer> = Vec::new();
    let mut i: usize = 0;
    while i < vertex_data.index_buffers.len()
        invariant
            i <= vertex_data.index_buffers@.len(),
            out@.len() == i,
            forall|m: int| 0 <= m < i ==> (#[trigger] out@[m].indices@)
                == crate::vertex::indices_at(vertex_data.buffer@,
                vertex_data.index_buffers@[m].data_offset as int,
                vertex_data.index_buffers@[m].index_count as int, endian),
        decreases vertex_data.index_buffers@.len() - i,
    {
        let descriptor = &vertex_data.index_buffers[i];
        match read_indices(descriptor, &vertex_data.buffer, endian) {
            Ok(indices) => {
                out.push(IndexBuffer { indices });
            }
            Err(er) => {
                return Err(er);
            }
        }
        i += 1;
    }
    Ok(out)
}

/// Copies a vector of plain values.
fn copy_vec<T: Copy>(v: &Vec<T>) -> (r: Vec<T>)
    ensures
        r@ =~= v@,
{
    let mut out: Vec<T> = Vec::new();
    let mut i: usize = 0;
    while i < v.len()
        invariant
            i <= v@.len(),
            out@ =~= v@.take(i as int),
        decreases v@.len() - i,
    {
        out.push(v[i]);
        i += 1;
    }
    proof {
        assert(v@.take(v@.len() as int) =~= v@);
    }
    out
}

/// An attribute carries weight values in either stored form.
pub open spec fn is_weights_attr(a: AttributeData) -> bool {
    a is SkinWeights || a is SkinWeights2
}

/// An attribute carries bone indices.
pub open spec fn is_bone_indices_attr(a: AttributeData) -> bool {
    a is BoneIndices || a is BoneIndices2
}

/// An attribute holds exactly these weight values, in the matching form.
pub open spec fn holds_weight_values(a: AttributeData, w: WeightValues) -> bool {
    ||| (a matches AttributeData::SkinWeights(v) && w matches WeightValues::Normalized(x) && x@
        == v@)
    ||| (a matches AttributeData::SkinWeights2(v) && w matches WeightValues::Triples(x) && x@
        == v@)
}

/// An attribute holds exactly these bone indices.
pub open spec fn holds_bone_indices(a: AttributeData, w: Seq<U8x4>) -> bool {
    (a matches AttributeData::BoneIndices(v) && v@ == w) || (a matches
        AttributeData::BoneIndices2(v) && v@ == w)
}

/// Finds the skin weights and bone indices among a buffer's attributes.
///
/// Returns the first weight array, in either of its stored forms, together
/// with the first bone index array; `None` exactly when either is missing.
pub fn skin_weights_bone_indices(attributes: &Vec<AttributeData>) -> (r: Option<(WeightValues,
    Vec<U8x4>)>)
    ensures
        r matches Some(p) ==> (exists|k: int| 0 <= k < attributes@.len() && holds_weight_values(
            #[trigger] attributes@[k], p.0)) && (exists|k: int| 0 <= k < attributes@.len()
            && holds_bone_indices(#[trigger] attributes@[k], p.1@)),
        r is None <==> ((forall|k: int| 0 <= k < attributes@.len() ==> !is_weights_attr(
            #[trigger] attributes@[k])) || (forall|k: int| 0 <= k < attributes@.len()
            ==> !is_bone_indices_attr(#[trigger] attributes@[k]))),
{
    let mut weights: Option<WeightValues> = None;
    let mut k: usize = 0;
    while k < attributes.len()
        invariant
            k <= attributes@.len(),
            weights matches Some(w) ==> exists|m: int| 0 <= m < attributes@.len()
                && holds_weight_values(#[trigger] attributes@[m], w),
            weights is None ==> forall|m: int| 0 <= m < k ==> !is_weights_attr(
                #[trigger] attributes@[m]),
        decreases attributes@.len() - k,
    {
        if weights.is_none() {
            match &attributes[k] {
                AttributeData::SkinWeights(v) => {
                    let c = WeightValues::Normalized(copy_vec(v));
                    proof {
                        assert(holds_weight_values(attributes@[k as int], c));
                    }
                    weights = Some(c);
                }
                AttributeData::SkinWeights2(v) => {
                    let c = WeightValues::Triples(copy_vec(v));
                    proof {
                        assert(holds_weight_values(attributes@[k as int], c));
                    }
                    weights = Some(c);
                }
                _ => {}
            }
        }
        k += 1;
    }
    let mut indices: Option<Vec<U8x4>> = None;
    let mut k2: usize = 0;
    while k2 < attributes.len()
        invariant
            k2 <= attributes@.len(),
            indices matches Some(w) ==> exists|m: int| 0 <= m < attributes@.len()
                && holds_bone_indices(#[trigger] attributes@[m], w@),
            indices is None ==> forall|m: int| 0 <= m < k2 ==> !is_bone_indices_attr(
                #[trigger] attributes@[m]),
        decreases attributes@.len() - k2,
    {
        if indices.is_none() {
            match &attributes[k2] {
                AttributeData::BoneIndices(v) => {
                    let c = copy_vec(v);
                    proof {
                        assert(holds_bone_indices(attributes@[k2 as int], c@));
                    }
                    indices = Some(c);
                }
                AttributeData::BoneIndices2(v) => {
                    let c = copy_vec(v);
                    proof {
                        assert(holds_bone_indices(attributes@[k2 as int], c@));
                    }
                    indices = Some(c);
                }
                _ => {}
            }
        }
        k2 += 1;
    }
    proof {
        if weights is Some {
            let w = weights->Some_0;
            let m = choose|m: int| 0 <= m < attributes@.len() && holds_weight_values(
                #[trigger] attributes@[m], w);
            assert(is_weights_attr(attributes@[m]));
        }
        if indices is Some {
            let ix = indices->Some_0;
            let m = choose|m: int| 0 <= m < attributes@.len() && holds_bone_indices(
                #[trigger] attributes@[m], ix@);
            assert(is_bone_indices_attr(attributes@[m]));
        }
    }
    match (weights, indices) {
        (Some(w), Some(ix)) => Some((w, ix)),
        _ => None,
    }
}

/// Picks the run of morph targets a descriptor names: the blend target,
/// the default target, then its parameter targets.
pub fn split_targets(descriptor: &MorphDescriptor, vertex_morphs: &VertexMorphs) -> (r: Option<(
    crate::vertex::MorphTarget, crate::vertex::MorphTarget, Vec<crate::vertex::MorphTarget>)>)
    ensures
        descriptor.target_start_index + descriptor.param_indices@.len() + 2
            <= vertex_morphs.targets@.len() ==> (r matches Some(t)
            && t.0 == vertex_morphs.targets@[descriptor.target_start_index as int]
            && t.1 == vertex_morphs.targets@[descriptor.target_start_index as int + 1]
            && t.2@.len() == descriptor.param_indices@.len() && forall|p: int|
            0 <= p < t.2@.len() ==> (#[trigger] t.2@[p])
            == vertex_morphs.targets@[descriptor.target_start_index + 2 + p]),
        descriptor.target_start_index + descriptor.param_indices@.len() + 2
            > vertex_morphs.targets@.len() ==> r is None,
{
    let start = descriptor.target_start_index as usize;
    let param_count = descriptor.param_indices.len();
    let tlen = vertex_morphs.targets.len();
    if start >= tlen || tlen - start < 2 || param_count > tlen - start - 2 {
        return None;
    }
    let blend = vertex_morphs.targets[start];
    let default = vertex_morphs.targets[start + 1];
    let mut params: Vec<crate::vertex::MorphTarget> = Vec::new();
    let mut p: usize = 0;
    while p < param_count
        invariant
            p <= param_count,
            start + param_count + 2 <= vertex_morphs.targets@.len(),
            vertex_morphs.targets@.len() <= usize::MAX,
            params@.len() == p,
            forall|m: int| 0 <= m < p ==> (#[trigger] params@[m])
                == vertex_morphs.targets@[start + 2 + m],
        decreases param_count - p,
    {
        params.push(vertex_morphs.targets[start + 2 + p]);
        p += 1;
    }
    Some((blend, default, params))
}

/// The rows of one sparse morph target match the bytes of their windows:
/// the position delta at the row start, the direction pair at offsets 16
/// and 20, and the vertex index at offset 28.
pub open spec fn morph_rows_decoded(
    rows: Seq<MorphTargetVertex>,
    t: crate::vertex::MorphTarget,
    data: Seq<u8>,
    e: Endian,
) -> bool {
    rows.len() == t.vertex_count && forall|j: int| 0 <= j < rows.len() ==> {
        let base = t.data_offset + j * t.vertex_size;
        (#[trigger] rows[j]) == (MorphTargetVertex {
            position_delta: f32x3_at(data, base, e),
            normal: u8x4_at(data, base + 16),
            tangent: u8x4_at(data, base + 20),
            vertex_index: crate::cursor::u32_at(data, base + 28, e) as u32,
        })
    }
}

/// Decodes the rows of one sparse morph target.
pub fn read_morph_buffer_target(morph_target: &crate::vertex::MorphTarget, model_bytes: &Vec<u8>)
    -> (r: Result<Vec<MorphTargetVertex>, Xc3Error>)
    ensures
        r matches Ok(rows) ==> morph_rows_decoded(rows@, *morph_target, model_bytes@,
            Endian::Little),
        windows_ok(morph_target.data_offset as int, morph_target.vertex_count as int,
            morph_target.vertex_size as int, 0, 32, model_bytes@.len() as int) ==> r.is_ok(),
{
    let e = Endian::Little;
    proof {
        let base = morph_target.data_offset as int;
        let cnt = morph_target.vertex_count as int;
        let st = morph_target.vertex_size as int;
        let len = model_bytes@.len() as int;
        if windows_ok(base, cnt, st, 0, 32, len) {
            assert forall|j: int| 0 <= j < cnt implies #[trigger] window_end(base, st, 0, 12, j)
                <= len by {
                assert(window_end(base, st, 0, 32, j) <= len);
            }
            assert forall|j: int| 0 <= j < cnt implies #[trigger] window_end(base, st, 16, 4, j)
                <= len by {
                assert(window_end(base, st, 0, 32, j) <= len);
            }
            assert forall|j: int| 0 <= j < cnt implies #[trigger] window_end(base, st, 20, 4, j)
                <= len by {
                assert(window_end(base, st, 0, 32, j) <= len);
            }
            assert forall|j: int| 0 <= j < cnt implies #[trigger] window_end(base, st, 28, 4, j)
                <= len by {
                assert(window_end(base, st, 0, 32, j) <= len);
            }
            assert(windows_ok(base, cnt, st, 0, 12, len));
            assert(windows_ok(base, cnt, st, 16, 4, len));
            assert(windows_ok(base, cnt, st, 20, 4, len));
            assert(windows_ok(base, cnt, st, 28, 4, len));
        }
    }
    let positions = match read_f32x3_array(model_bytes, morph_target.data_offset,
        morph_target.vertex_count, morph_target.vertex_size, 0, e) {
        Ok(v) => v,
        Err(er) => {
            return Err(er);
        }
    };
    let normals = match read_u8x4_array(model_bytes, morph_target.data_offset,
        morph_target.vertex_count, morph_target.vertex_size, 16) {
        Ok(v) => v,
        Err(er) => {
            return Err(er);
        }
    };
    let tangents = match read_u8x4_array(model_bytes, morph_target.data_offset,
        morph_target.vertex_count, morph_target.vertex_size, 20) {
        Ok(v) => v,
        Err(er) => {
            return Err(er);
        }
    };
    let indices = match crate::vertex::read_u32_array(model_bytes, morph_target.data_offset,
        morph_target.vertex_count, morph_target.vertex_size, 28, e) {
        Ok(v) => v,
        Err(er) => {
            return Err(er);
        }
    };
    let count = morph_target.vertex_count as usize;
    let mut rows: Vec<MorphTargetVertex> = Vec::new();
    let mut j: usize = 0;
    while j < count
        invariant
            j <= count,
            count == morph_target.vertex_count,
            positions@ == dec_f32x3(model_bytes@, morph_target.data_offset as int,
                morph_target.vertex_size as int, 0, count as int, e),
            normals@ == dec_u8x4(model_bytes@, morph_target.data_offset as int,
                morph_target.vertex_size as int, 16, count as int),
            tangents@ == dec_u8x4(model_bytes@, morph_target.data_offset as int,
                morph_target.vertex_size as int, 20, count as int),
            indices@ == crate::vertex::dec_u32(model_bytes@, morph_target.data_offset as int,
                morph_target.vertex_size as int, 28, count as int, e),
            rows@.len() == j,
            forall|m: int| 0 <= m < j ==> {
                let base = morph_target.data_offset + m * morph_target.vertex_size;
                (#[trigger] rows@[m]) == (MorphTargetVertex {
                    position_delta: f32x3_at(model_bytes@, base, e),
                    normal: u8x4_at(model_bytes@, base + 16),
                    tangent: u8x4_at(model_bytes@, base + 20),
                    vertex_index: crate::cursor::u32_at(model_bytes@, base + 28, e) as u32,
                })
            },
        decreases count - j,
    {
        rows.push(MorphTargetVertex {
            position_delta: positions[j],
            normal: normals[j],
            tangent: tangents[j],
            vertex_index: indices[j],
        });
        j += 1;
    }
    Ok(rows)
}

/// Decodes the full-size blend target: base positions, re-biased normals,
/// old positions and re-biased tangents for every vertex.
///
/// On success the four arrays hold exactly the bytes of their windows at
/// offsets 0, 12, 16 and 28 of each row; success is owed whenever every
/// 32-byte row lies inside the buffer.
pub fn read_morph_blend_target(base_target: &crate::vertex::MorphTarget, model_bytes: &Vec<u8>)
    -> (r: Result<Vec<AttributeData>, Xc3Error>)
    ensures
        r matches Ok(attrs) ==> attrs@.len() == 4 && (attrs@[0] matches
            AttributeData::Position2(_)) && (attrs@[1] matches AttributeData::Normal4(_)) && (
        attrs@[2] matches AttributeData::OldPosition(_)) && (attrs@[3] matches
            AttributeData::Tangent2(_)) && forall|k: int| 0 <= k < 4 ==> spec_attr_len(
            #[trigger] attrs@[k]) == base_target.vertex_count,
        r matches Ok(attrs) ==> {
            let base = base_target.data_offset as int;
            let st = base_target.vertex_size as int;
            let cnt = base_target.vertex_count as int;
            &&& attr_decoded(attrs@[0], DataType::Position2, model_bytes@, base, st, 0, cnt,
                Endian::Little)
            &&& attr_decoded(attrs@[1], DataType::Normal4, model_bytes@, base, st, 12, cnt,
                Endian::Little)
            &&& attr_decoded(attrs@[2], DataType::OldPosition, model_bytes@, base, st, 16, cnt,
                Endian::Little)
            &&& attr_decoded(attrs@[3], DataType::Tangent2, model_bytes@, base, st, 28, cnt,
                Endian::Little)
        },
        windows_ok(base_target.data_offset as int, base_target.vertex_count as int,
            base_target.vertex_size as int, 0, 32, model_bytes@.len() as int) ==> r is Ok,
{
    let mut descs: Vec<VertexAttribute> = Vec::new();
    descs.push(DataType::Position2.to_attribute());
    descs.push(DataType::Normal4.to_attribute());
    descs.push(DataType::OldPosition.to_attribute());
    descs.push(DataType::Tangent2.to_attribute());
    proof {
        let base = base_target.data_offset as int;
        let cnt = base_target.vertex_count as int;
        let st = base_target.vertex_size as int;
        let len = model_bytes@.len() as int;
        assert(cum_offset(descs@, 0) == 0);
        assert(cum_offset(descs@, 1) == 12);
        assert(cum_offset(descs@, 2) == 16);
        assert(cum_offset(descs@, 3) == 28);
        if windows_ok(base, cnt, st, 0, 32, len) {
            assert forall|j: int| 0 <= j < cnt implies #[trigger] window_end(base, st, 0, 12, j)
                <= len by {
                assert(window_end(base, st, 0, 32, j) <= len);
            }
            assert forall|j: int| 0 <= j < cnt implies #[trigger] window_end(base, st, 12, 4, j)
                <= len by {
                assert(window_end(base, st, 0, 32, j) <= len);
            }
            assert forall|j: int| 0 <= j < cnt implies #[trigger] window_end(base, st, 16, 12, j)
                <= len by {
                assert(window_end(base, st, 0, 32, j) <= len);
            }
            assert forall|j: int| 0 <= j < cnt implies #[trigger] window_end(base, st, 28, 4, j)
                <= len by {
                assert(window_end(base, st, 0, 32, j) <= len);
            }
            assert(windows_ok(base, cnt, st, 0, 12, len));
            assert(windows_ok(base, cnt, st, 12, 4, len));
            assert(windows_ok(base, cnt, st, 16, 12, len));
            assert(windows_ok(base, cnt, st, 28, 4, len));
            assert(crate::vertex::attrs_readable(descs@, base, st, cnt, len));
        }
    }
    let attrs = match read_vertex_attributes(base_target.data_offset, base_target.vertex_count,
        base_target.vertex_size, &descs, model_bytes, Endian::Little) {
        Ok(v) => v,
        Err(er) => {
            return Err(er);
        }
    };
    proof {
        assert(attrs@.len() == 4);
        assert(attr_decoded(attrs@[0], DataType::Position2, model_bytes@,
            base_target.data_offset as int, base_target.vertex_size as int, cum_offset(descs@, 0),
            base_target.vertex_count as int, Endian::Little));
        assert(attr_decoded(attrs@[1], DataType::Normal4, model_bytes@,
            base_target.data_offset as int, base_target.vertex_size as int, cum_offset(descs@, 1),
            base_target.vertex_count as int, Endian::Little));
        assert(attr_decoded(attrs@[2], DataType::OldPosition, model_bytes@,
            base_target.data_offset as int, base_target.vertex_size as int, cum_offset(descs@, 2),
            base_target.vertex_count as int, Endian::Little));
        assert(attr_decoded(attrs@[3], DataType::Tangent2, model_bytes@,
            base_target.data_offset as int, base_target.vertex_size as int, cum_offset(descs@, 3),
            base_target.vertex_count as int, Endian::Little));
    }
    Ok(attrs)
}

/// Decodes one parameter target into its sparse form: each column holds,
/// row by row, the bytes of its window, and success is owed whenever every
/// 32-byte row lies inside the buffer.
pub fn read_morph_target(target: &crate::vertex::MorphTarget, model_bytes: &Vec<u8>, param_index:
    u16) -> (r: Result<MorphTarget, Xc3Error>)
    ensures
        r matches Ok(mt) ==> mt.morph_controller_index == param_index
            && mt.position_deltas@.len() == target.vertex_count && mt.normals@.len()
            == target.vertex_count && mt.tangents@.len() == target.vertex_count
            && mt.vertex_indices@.len() == target.vertex_count,
        r matches Ok(mt) ==> forall|m: int| 0 <= m < target.vertex_count ==> {
            let base = target.data_offset + m * target.vertex_size;
            &&& (#[trigger] mt.position_deltas@[m]) == f32x3_at(model_bytes@, base,
                Endian::Little)
            &&& mt.normals@[m] == u8x4_at(model_bytes@, base + 16)
            &&& mt.tangents@[m] == u8x4_at(model_bytes@, base + 20)
            &&& mt.vertex_indices@[m] == crate::cursor::u32_at(model_bytes@, base + 28,
                Endian::Little) as u32
        },
        windows_ok(target.data_offset as int, target.vertex_count as int,
            target.vertex_size as int, 0, 32, model_bytes@.len() as int) ==> r is Ok,
{
    let vertices = match read_morph_buffer_target(target, model_bytes) {
        Ok(v) => v,
        Err(er) => {
            return Err(er);
        }
    };
    let mut position_deltas: Vec<F32x3> = Vec::new();
    let mut normals: Vec<U8x4> = Vec::new();
    let mut tangents: Vec<U8x4> = Vec::new();
    let mut vertex_indices: Vec<u32> = Vec::new();
    let mut j: usize = 0;
    while j < vertices.len()
        invariant
            j <= vertices@.len(),
            morph_rows_decoded(vertices@, *target, model_bytes@, Endian::Little),
            position_deltas@.len() == j,
            normals@.len() == j,
            tangents@.len() == j,
            vertex_indices@.len() == j,
            forall|m: int| 0 <= m < j ==> (#[trigger] position_deltas@[m])
                == vertices@[m].position_delta && normals@[m] == vertices@[m].normal
                && tangents@[m] == vertices@[m].tangent && vertex_indices@[m]
                == vertices@[m].vertex_index,
        decreases vertices@.len() - j,
    {
        let v = vertices[j];
        position_deltas.push(v.position_delta);
        normals.push(v.normal);
        tangents.push(v.tangent);
        vertex_indices.push(v.vertex_index);
        j += 1;
    }
    proof {
        assert forall|m: int| 0 <= m < target.vertex_count implies {
            let base = target.data_offset + m * target.vertex_size;
            &&& (#[trigger] position_deltas@[m]) == f32x3_at(model_bytes@, base, Endian::Little)
            &&& normals@[m] == u8x4_at(model_bytes@, base + 16)
            &&& tangents@[m] == u8x4_at(model_bytes@, base + 20)
            &&& vertex_indices@[m] == crate::cursor::u32_at(model_bytes@, base + 28,
                Endian::Little) as u32
        } by {
            assert(position_deltas@[m] == vertices@[m].position_delta);
            let base = target.data_offset + m * target.vertex_size;
            assert(vertices@[m] == (MorphTargetVertex {
                position_delta: f32x3_at(model_bytes@, base, Endian::Little),
                normal: u8x4_at(model_bytes@, base + 16),
                tangent: u8x4_at(model_bytes@, base + 20),
                vertex_index: crate::cursor::u32_at(model_bytes@, base + 28,
                    Endian::Little) as u32,
            }));
        }
    }
    Ok(MorphTarget {
        morph_controller_index: param_index as usize,
        position_deltas,
        normals,
        tangents,
        vertex_indices,
    })
}

/// Decodes one outline buffer: one color attribute for four-byte rows,
/// two for eight-byte rows.
pub fn read_outline_buffer(descriptor: &OutlineBufferDescriptor, buffer: &Vec<u8>) -> (r: Result<
    Vec<AttributeData>, Xc3Error>)
    ensures
        r matches Ok(attrs) ==> (attrs@.len() == if descriptor.vertex_size == 8 {
            2int
        } else {
            1int
        }) && forall|k: int| 0 <= k < attrs@.len() ==> ((#[trigger] attrs@[k]) matches
            AttributeData::VertexColor(v) && v@ == dec_u8x4(buffer@,
            descriptor.data_offset as int, descriptor.vertex_size as int, 4 * k,
            descriptor.vertex_count as int)),
        (windows_ok(descriptor.data_offset as int, descriptor.vertex_count as int,
            descriptor.vertex_size as int, 0, 4, buffer@.len() as int) && (descriptor.vertex_size
            == 8 ==> windows_ok(descriptor.data_offset as int, descriptor.vertex_count as int,
            descriptor.vertex_size as int, 4, 4, buffer@.len() as int))) ==> r is Ok,
{
    let first = match read_u8x4_array(buffer, descriptor.data_offset, descriptor.vertex_count,
        descriptor.vertex_size, 0) {
        Ok(v) => v,
        Err(er) => {
            return Err(er);
        }
    };
    let mut attrs: Vec<AttributeData> = Vec::new();
    attrs.push(AttributeData::VertexColor(first));
    if descriptor.vertex_size == 8 {
        let second = match read_u8x4_array(buffer, descriptor.data_offset,
            descriptor.vertex_count, descriptor.vertex_size, 4) {
            Ok(v) => v,
            Err(er) => {
                return Err(er);
            }
        };
        attrs.push(AttributeData::VertexColor(second));
    }
    Ok(attrs)
}

/// Decodes one outline buffer into its wrapper type.
pub fn outline_buffer(descriptor: &OutlineBufferDescriptor, buffer: &Vec<u8>) -> (r: Result<
    OutlineBuffer, Xc3Error>)
    ensures
        r matches Ok(ob) ==> (ob.attributes@.len() == if descriptor.vertex_size == 8 {
            2int
        } else {
            1int
        }) && forall|k: int| 0 <= k < ob.attributes@.len() ==> ((#[trigger] ob.attributes@[
        k]) matches AttributeData::VertexColor(v) && v@ == dec_u8x4(buffer@,
            descriptor.data_offset as int, descriptor.vertex_size as int, 4 * k,
            descriptor.vertex_count as int)),
        (windows_ok(descriptor.data_offset as int, descriptor.vertex_count as int,
            descriptor.vertex_size as int, 0, 4, buffer@.len() as int) && (descriptor.vertex_size
            == 8 ==> windows_ok(descriptor.data_offset as int, descriptor.vertex_count as int,
            descriptor.vertex_size as int, 4, 4, buffer@.len() as int))) ==> r is Ok,
{
    match read_outline_buffer(descriptor, buffer) {
        Ok(attributes) => Ok(OutlineBuffer { attributes }),
        Err(er) => Err(er),
    }
}

/// Decodes one auxiliary buffer: a position and one color at byte offset
/// 12 for sixteen-byte rows, a position and three colors at byte offsets
/// 12, 16 and 20 for twenty-four-byte rows, reading `descriptor.count`
/// rows from `data_offset + descriptor.offset`.
pub fn read_unk_buffer(descriptor: &UnkBufferDescriptor, data_offset: u32, buffer: &Vec<u8>)
    -> (r: Result<UnkBuffer, Xc3Error>)
    ensures
        r matches Ok(ub) ==> {
            let base = data_offset + descriptor.offset;
            let stride: int = if descriptor.unk1 == 0 {
                16
            } else {
                24
            };
            let cnt = descriptor.count as int;
            &&& ub.attributes@.len() == (if descriptor.unk1 == 0 {
                2int
            } else {
                4int
            })
            &&& (ub.attributes@[0] matches AttributeData::Position(p) && p@ == dec_f32x3(buffer@,
                base, stride, 0, cnt, Endian::Little))
            &&& (ub.attributes@[1] matches AttributeData::VertexColor(c) && c@ == dec_u8x4(
                buffer@, base, stride, 12, cnt))
            &&& (descriptor.unk1 != 0 ==> (ub.attributes@[2] matches AttributeData::VertexColor(
                c) && c@ == dec_u8x4(buffer@, base, stride, 16, cnt)))
            &&& (descriptor.unk1 != 0 ==> (ub.attributes@[3] matches AttributeData::VertexColor(
                c) && c@ == dec_u8x4(buffer@, base, stride, 20, cnt)))
        },
        ({
            let base = data_offset + descriptor.offset;
            let stride: int = if descriptor.unk1 == 0 {
                16
            } else {
                24
            };
            let cnt = descriptor.count as int;
            &&& data_offset + descriptor.offset <= u32::MAX
            &&& windows_ok(base, cnt, stride, 0, stride, buffer@.len() as int)
        }) ==> r is Ok,
{
    if (data_offset as u64) + (descriptor.offset as u64) > u32::MAX as u64 {
        return Err(Xc3Error::OffsetOutOfBounds { offset: descriptor.offset as usize,
            file_size: buffer.len() });
    }
    let base = data_offset + descriptor.offset;
    let stride: u32 = if descriptor.unk1 == 0 {
        16
    } else {
        24
    };
    proof {
        let b = base as int;
        let st = stride as int;
        let cnt = descriptor.count as int;
        let len = buffer@.len() as int;
        if windows_ok(b, cnt, st, 0, st, len) {
            assert forall|j: int| 0 <= j < cnt implies #[trigger] window_end(b, st, 0, 12, j)
                <= len by {
                assert(window_end(b, st, 0, st, j) <= len);
            }
            assert forall|j: int| 0 <= j < cnt implies #[trigger] window_end(b, st, 12, 4, j)
                <= len by {
                assert(window_end(b, st, 0, st, j) <= len);
            }
            assert(windows_ok(b, cnt, st, 0, 12, len));
            assert(windows_ok(b, cnt, st, 12, 4, len));
            if st == 24 {
                assert forall|j: int| 0 <= j < cnt implies #[trigger] window_end(b, st, 16, 4, j)
                    <= len by {
                    assert(window_end(b, st, 0, st, j) <= len);
                }
                assert forall|j: int| 0 <= j < cnt implies #[trigger] window_end(b, st, 20, 4, j)
                    <= len by {
                    assert(window_end(b, st, 0, st, j) <= len);
                }
                assert(windows_ok(b, cnt, st, 16, 4, len));
                assert(windows_ok(b, cnt, st, 20, 4, len));
            }
        }
    }
    let positions = match read_f32x3_array(buffer, base, descriptor.count, stride, 0,
        Endian::Little) {
        Ok(v) => v,
        Err(er) => {
            return Err(er);
        }
    };
    let color0 = match read_u8x4_array(buffer, base, descriptor.count, stride, 12) {
        Ok(v) => v,
        Err(er) => {
            return Err(er);
        }
    };
    let mut attributes: Vec<AttributeData> = Vec::new();
    attributes.push(AttributeData::Position(positions));
    attributes.push(AttributeData::VertexColor(color0));
    if descriptor.unk1 != 0 {
        let color1 = match read_u8x4_array(buffer, base, descriptor.count, stride, 16) {
            Ok(v) => v,
            Err(er) => {
                return Err(er);
            }
        };
        let color2 = match read_u8x4_array(buffer, base, descriptor.count, stride, 20) {
            Ok(v) => v,
            Err(er) => {
                return Err(er);
            }
        };
        attributes.push(AttributeData::VertexColor(color1));
        attributes.push(AttributeData::VertexColor(color2));
    }
    Ok(UnkBuffer { attributes })
}

/// A strictly increasing sequence.
pub open spec fn sorted_strict(s: Seq<u32>) -> bool {
    forall|a: int, b: int| 0 <= a < b < s.len() ==> s[a] < s[b]
}

/// Inserts a value into a strictly sorted vector, keeping it sorted and
/// duplicate free.
fn insert_sorted_unique(v: &mut Vec<u32>, x: u32)
    requires
        sorted_strict(old(v)@),
    ensures
        sorted_strict(final(v)@),
        forall|y: u32| final(v)@.contains(y) <==> (old(v)@.contains(y) || y == x),
        final(v)@.len() <= old(v)@.len() + 1,
{
    let ghost orig = v@;
    let mut out: Vec<u32> = Vec::new();
    let n = v.len();
    let mut i: usize = 0;
    while i < n && v[i] < x
        invariant
            i <= n,
            n == v@.len(),
            v@ == orig,
            sorted_strict(orig),
            out@ =~= orig.take(i as int),
            forall|m: int| 0 <= m < i ==> orig[m] < x,
        decreases n - i,
    {
        out.push(v[i]);
        i += 1;
    }
    out.push(x);
    let mut j: usize = i;
    if j < n && v[j] == x {
        j += 1;
    }
    let ghost mid = j as int;
    while j < n
        invariant
            i <= j <= n,
            i as int <= mid <= j,
            n == v@.len(),
            v@ == orig,
            sorted_strict(orig),
            mid <= j,
            out@ =~= orig.take(i as int) + seq![x] + orig.subrange(mid, j as int),
        decreases n - j,
    {
        proof {
            assert(orig.subrange(mid, j as int + 1) =~= orig.subrange(mid, j as int) + seq![
                orig[j as int]]);
        }
        out.push(v[j]);
        j += 1;
    }
    proof {
        let fin = orig.take(i as int) + seq![x] + orig.subrange(mid, n as int);
        assert(out@ =~= fin);
        // Every element before the insertion point is below `x`, every
        // element after it is above `x`.
        assert forall|m: int| mid <= m < n implies orig[m] > x by {
            if i < n {
                assert(orig[i as int] >= x);
                if mid > i {
                    assert(orig[i as int] == x);
                }
            }
        }
        assert(sorted_strict(fin));
        assert forall|y: u32| fin.contains(y) implies (orig.contains(y) || y == x) by {
            let w = choose|w: int| 0 <= w < fin.len() && fin[w] == y;
            if w < i {
                assert(orig[w] == y);
            } else if w > i {
                assert(orig[mid + (w - i - 1)] == y);
            }
        }
        assert forall|y: u32| orig.contains(y) || y == x implies fin.contains(y) by {
            if y == x {
                assert(fin[i as int] == x);
            } else {
                let w = choose|w: int| 0 <= w < orig.len() && orig[w] == y;
                if w < i {
                    assert(fin[w] == y);
                } else if w >= mid {
                    assert(fin[w - mid + i + 1] == y);
                } else {
                    assert(orig[w] == x);
                }
            }
        }
    }
    *v = out;
}

/// A vertex index is affected by one of the parameter targets.
pub open spec fn in_param_targets(targets: Seq<MorphTarget>, x: u32) -> bool {
    exists|t: int| 0 <= t < targets.len() && (#[trigger] targets[t]).vertex_indices@.contains(x)
}

/// The sorted union of the affected-vertex indices of all parameter
/// targets.
///
/// The morph default target carries base values for exactly these
/// vertices: its index set equals the union of the parameter targets'
/// index sets.
pub fn union_indices(targets: &Vec<MorphTarget>) -> (r: Vec<u32>)
    ensures
        sorted_strict(r@),
        forall|x: u32| r@.contains(x) <==> in_param_targets(targets@, x),
{
    let mut r: Vec<u32> = Vec::new();
    let mut t: usize = 0;
    while t < targets.len()
        invariant
            t <= targets@.len(),
            sorted_strict(r@),
            forall|x: u32| r@.contains(x) <==> in_param_targets(targets@.take(t as int), x),
        decreases targets@.len() - t,
    {
        let indices = &targets[t].vertex_indices;
        let mut j: usize = 0;
        while j < indices.len()
            invariant
                t < targets@.len(),
                j <= indices@.len(),
                indices@ == targets@[t as int].vertex_indices@,
                sorted_strict(r@),
                forall|x: u32| r@.contains(x) <==> (in_param_targets(targets@.take(t as int), x)
                    || indices@.take(j as int).contains(x)),
            decreases indices@.len() - j,
        {
            let x = indices[j];
            proof {
                assert(indices@.take(j as int + 1) =~= indices@.take(j as int) + seq![x]);
                assert forall|y: u32| indices@.take(j as int + 1).contains(y) implies (
                indices@.take(j as int).contains(y) || y == x) by {
                    let w = choose|w: int| 0 <= w < j + 1 && #[trigger] indices@.take(j as int + 1)[w] == y;
                    if w < j {
                        assert(indices@.take(j as int)[w] == y);
                    }
                }
                assert forall|y: u32| indices@.take(j as int).contains(y) || y == x implies
                    indices@.take(j as int + 1).contains(y) by {
                    if y == x {
                        assert(indices@.take(j as int + 1)[j as int] == x);
                    } else {
                        let w = choose|w: int| 0 <= w < j && #[trigger] indices@.take(
                            j as int)[w] == y;
                        assert(indices@.take(j as int + 1)[w] == y);
                    }
                }
            }
            let ghost prev = r@;
            insert_sorted_unique(&mut r, x);
            proof {
                assert forall|y: u32| #[trigger] r@.contains(y) implies (in_param_targets(
                targets@.take(t as int), y) || indices@.take(j as int + 1).contains(y)) by {
                    assert(prev.contains(y) || y == x);
                    if y == x {
                        assert(indices@.take(j as int + 1)[j as int] == x);
                        assert(indices@.take(j as int + 1).contains(y));
                    } else {
                        assert(prev.contains(y));
                        assert(in_param_targets(targets@.take(t as int), y) || indices@.take(
                            j as int).contains(y));
                    }
                }
                assert forall|y: u32| in_param_targets(targets@.take(t as int), y) || indices@
                    .take(j as int + 1).contains(y) implies #[trigger] r@.contains(y) by {
                    if in_param_targets(targets@.take(t as int), y) {
                        assert(prev.contains(y));
                    } else {
                        assert(indices@.take(j as int).contains(y) || y == x);
                        if y != x {
                            assert(prev.contains(y));
                        }
                    }
                }
            }
            j += 1;
        }
        proof {
            assert(indices@.take(indices@.len() as int) =~= indices@);
            assert(targets@.take(t as int + 1) =~= targets@.take(t as int) + seq![
                targets@[t as int]]);
            assert forall|x: u32| in_param_targets(targets@.take(t as int + 1), x) implies (
            in_param_targets(targets@.take(t as int), x) || indices@.contains(x)) by {
                let w = choose|w: int| 0 <= w < t + 1 && (#[trigger] targets@.take(t as int
                    + 1)[w]).vertex_indices@.contains(x);
                if w < t {
                    assert(targets@.take(t as int)[w].vertex_indices@.contains(x));
                }
            }
            assert forall|x: u32| in_param_targets(targets@.take(t as int), x) || indices@
                .contains(x) implies in_param_targets(targets@.take(t as int + 1), x) by {
                if in_param_targets(targets@.take(t as int), x) {
                    let w = choose|w: int| 0 <= w < t && (#[trigger] targets@.take(
                        t as int)[w]).vertex_indices@.contains(x);
                    assert(targets@.take(t as int + 1)[w].vertex_indices@.contains(x));
                } else {
                    assert(targets@.take(t as int + 1)[t as int].vertex_indices@.contains(x));
                }
            }
        }
        t += 1;
    }
    proof {
        assert(targets@.take(targets@.len() as int) =~= targets@);
    }
    r
}

/// Decodes every auxiliary buffer of the section.
pub fn read_unk_buffers(unk: &crate::vertex::Unk, vertex_data: &VertexData) -> (r: Result<Vec<
    UnkBuffer>, Xc3Error>)
    ensures
        r matches Ok(v) ==> v@.len() == unk.buffers@.len(),
{
    let mut out: Vec<UnkBuffer> = Vec::new();
    let mut i: usize = 0;
    while i < unk.buffers.len()
        invariant
            i <= unk.buffers@.len(),
            out@.len() == i,
        decreases unk.buffers@.len() - i,
    {
        match read_unk_buffer(&unk.buffers[i], unk.data_offset, &vertex_data.buffer) {
            Ok(b) => {
                out.push(b);
            }
            Err(er) => {
                return Err(er);
            }
        }
        i += 1;
    }
    Ok(out)
}

/// The byte encoding of one 32-byte morph row: position, four zero bytes,
/// normal, tangent, four zero bytes, vertex index.
pub open spec fn morph_row_bytes(p: F32x3, n: U8x4, t: U8x4, ix: u32, e: Endian) -> Seq<u8> {
    crate::vertex::enc_f32x3(p, e) + crate::cursor::enc32(0, e) + crate::vertex::enc_u8x4(n)
        + crate::vertex::enc_u8x4(t) + crate::cursor::enc32(0, e) + crate::cursor::enc32(
        ix as int, e)
}

/// The byte encoding of `count` morph rows.
pub open spec fn morph_rows_bytes(
    pos: Seq<F32x3>,
    nor: Seq<U8x4>,
    tan: Seq<U8x4>,
    ixs: Seq<u32>,
    count: int,
    e: Endian,
) -> Seq<u8>
    decreases count,
{
    if count <= 0 {
        Seq::empty()
    } else {
        morph_rows_bytes(pos, nor, tan, ixs, count - 1, e) + morph_row_bytes(pos[count - 1],
            nor[count - 1], tan[count - 1], ixs[count - 1], e)
    }
}

/// `count` encoded morph rows occupy `32 * count` bytes.
pub proof fn lemma_morph_rows_len(
    pos: Seq<F32x3>,
    nor: Seq<U8x4>,
    tan: Seq<U8x4>,
    ixs: Seq<u32>,
    count: int,
    e: Endian,
)
    requires
        0 <= count,
    ensures
        morph_rows_bytes(pos, nor, tan, ixs, count, e).len() == 32 * count,
    decreases count,
{
    if count > 0 {
        lemma_morph_rows_len(pos, nor, tan, ixs, count - 1, e);
    }
}

/// Appends `count` 32-byte morph rows.
#[verifier::rlimit(100)]
fn write_morph_rows(out: &mut Vec<u8>, pos: &Vec<F32x3>, nor: &Vec<U8x4>, tan: &Vec<U8x4>, ixs:
    &Vec<u32>, e: Endian)
    requires
        pos@.len() == nor@.len(),
        pos@.len() == tan@.len(),
        pos@.len() == ixs@.len(),
        old(out)@.len() + 32 * pos@.len() <= u32::MAX,
    ensures
        final(out)@ =~= old(out)@ + morph_rows_bytes(pos@, nor@, tan@, ixs@, pos@.len() as int,
            e),
{
    let count = pos.len();
    let mut i: usize = 0;
    proof {
        lemma_morph_rows_len(pos@, nor@, tan@, ixs@, 0, e);
    }
    while i < count
        invariant
            i <= count,
            count == pos@.len(),
            pos@.len() == nor@.len(),
            pos@.len() == tan@.len(),
            pos@.len() == ixs@.len(),
            old(out)@.len() + 32 * count <= u32::MAX,
            out@ =~= old(out)@ + morph_rows_bytes(pos@, nor@, tan@, ixs@, i as int, e),
        decreases count - i,
    {
        proof {
            lemma_morph_rows_len(pos@, nor@, tan@, ixs@, i as int, e);
        }
        let p = pos[i];
        let n = nor[i];
        let t = tan[i];
        let ix = ixs[i];
        crate::cursor::push_u32(out, p.x, e);
        crate::cursor::push_u32(out, p.y, e);
        crate::cursor::push_u32(out, p.z, e);
        crate::cursor::push_u32(out, 0, e);
        out.push(n.x);
        out.push(n.y);
        out.push(n.z);
        out.push(n.w);
        out.push(t.x);
        out.push(t.y);
        out.push(t.z);
        out.push(t.w);
        crate::cursor::push_u32(out, 0, e);
        crate::cursor::push_u32(out, ix, e);
        i += 1;
    }
}

/// Appends one sparse parameter target and returns its descriptor.
pub fn write_morph_param_target(out: &mut Vec<u8>, morph_target: &MorphTarget) -> (r: Result<
    crate::vertex::MorphTarget, Xc3Error>)
    ensures
        r matches Ok(t) ==> {
            &&& final(out)@ =~= old(out)@ + morph_rows_bytes(morph_target.position_deltas@,
                morph_target.normals@, morph_target.tangents@, morph_target.vertex_indices@,
                morph_target.position_deltas@.len() as int, Endian::Little)
            &&& t.data_offset == old(out)@.len()
            &&& t.vertex_count == morph_target.position_deltas@.len()
            &&& t.vertex_size == 32
            &&& t.flags == (MorphTargetFlags { unk1: 0u8, blend_target_buffer: false,
                default_buffer: false, param_buffer: true, unk: 0u16 })
        },
        r is Err ==> final(out)@ =~= old(out)@,
        (morph_target.position_deltas@.len() == morph_target.normals@.len()
            && morph_target.position_deltas@.len() == morph_target.tangents@.len()
            && morph_target.position_deltas@.len() == morph_target.vertex_indices@.len() && old(
        out)@.len() + 32 * morph_target.position_deltas@.len() <= u32::MAX) ==> r.is_ok(),
{
    let count = morph_target.position_deltas.len();
    if morph_target.normals.len() != count || morph_target.tangents.len() != count
        || morph_target.vertex_indices.len() != count {
        return Err(Xc3Error::InvariantViolation);
    }
    if (out.len() as u128) + 32 * (count as u128) > u32::MAX as u128 {
        return Err(Xc3Error::InvariantViolation);
    }
    let data_offset = out.len() as u32;
    write_morph_rows(out, &morph_target.position_deltas, &morph_target.normals,
        &morph_target.tangents, &morph_target.vertex_indices, Endian::Little);
    Ok(crate::vertex::MorphTarget {
        data_offset,
        vertex_count: count as u32,
        vertex_size: 32,
        flags: MorphTargetFlags::new(0, false, false, true, 0),
    })
}

/// The values of `s` at each listed index.
pub open spec fn gather_spec<T>(s: Seq<T>, ix: Seq<u32>) -> Seq<T> {
    Seq::new(ix.len(), |i: int| s[ix[i] as int])
}

/// Copies the values at each listed index, rejecting an index outside the
/// array.
fn gather<T: Copy>(values: &Vec<T>, ix: &Vec<u32>) -> (r: Result<Vec<T>, Xc3Error>)
    ensures
        r.is_ok() <==> forall|i: int| 0 <= i < ix@.len() ==> (#[trigger] ix@[i])
            < values@.len(),
        r matches Ok(g) ==> g@ =~= gather_spec(values@, ix@),
        r matches Err(er) ==> er matches Xc3Error::OffsetOutOfBounds { .. },
{
    let mut g: Vec<T> = Vec::new();
    let mut i: usize = 0;
    while i < ix.len()
        invariant
            i <= ix@.len(),
            forall|m: int| 0 <= m < i ==> (#[trigger] ix@[m]) < values@.len(),
            g@ =~= gather_spec(values@, ix@.take(i as int)),
        decreases ix@.len() - i,
    {
        let idx = ix[i];
        if idx as usize >= values.len() {
            return Err(Xc3Error::OffsetOutOfBounds { offset: idx as usize,
                file_size: values.len() });
        }
        proof {
            assert(gather_spec(values@, ix@.take(i as int + 1)) =~= gather_spec(values@,
                ix@.take(i as int)) + seq![values@[ix@[i as int] as int]]);
        }
        g.push(values[idx as usize]);
        i += 1;
    }
    proof {
        assert(ix@.take(ix@.len() as int) =~= ix@);
    }
    Ok(g)
}

/// The first morph base position array among a blend target's attributes.
pub open spec fn first_position2(attrs: Seq<AttributeData>) -> Option<Seq<F32x3>>
    decreases attrs.len(),
{
    if attrs.len() == 0 {
        None
    } else {
        match attrs[0] {
            AttributeData::Position2(v) => Some(v@),
            _ => first_position2(attrs.drop_first()),
        }
    }
}

/// The first re-biased normal array among a blend target's attributes.
pub open spec fn first_normal4(attrs: Seq<AttributeData>) -> Option<Seq<U8x4>>
    decreases attrs.len(),
{
    if attrs.len() == 0 {
        None
    } else {
        match attrs[0] {
            AttributeData::Normal4(v) => Some(v@),
            _ => first_normal4(attrs.drop_first()),
        }
    }
}

/// The first re-biased tangent array among a blend target's attributes.
pub open spec fn first_tangent2(attrs: Seq<AttributeData>) -> Option<Seq<U8x4>>
    decreases attrs.len(),
{
    if attrs.len() == 0 {
        None
    } else {
        match attrs[0] {
            AttributeData::Tangent2(v) => Some(v@),
            _ => first_tangent2(attrs.drop_first()),
        }
    }
}

/// Finds the first morph base position array.
fn find_position2(attrs: &Vec<AttributeData>) -> (r: Option<Vec<F32x3>>)
    ensures
        r matches Some(v) ==> first_position2(attrs@) == Some(v@),
        r is None ==> first_position2(attrs@) is None,
{
    let mut k: usize = 0;
    proof {
        assert(attrs@.skip(0) =~= attrs@);
    }
    while k < attrs.len()
        invariant
            k <= attrs@.len(),
            first_position2(attrs@) == first_position2(attrs@.skip(k as int)),
            forall|m: int| 0 <= m < k ==> !((#[trigger] attrs@[m]) matches
                AttributeData::Position2(_)),
        decreases attrs@.len() - k,
    {
        proof {
            assert(attrs@.skip(k as int).drop_first() =~= attrs@.skip(k as int + 1));
            assert(attrs@.skip(k as int)[0] == attrs@[k as int]);
        }
        match &attrs[k] {
            AttributeData::Position2(v) => {
                let c = copy_vec(v);
                return Some(c);
            }
            _ => {}
        }
        k += 1;
    }
    proof {
        assert(attrs@.skip(attrs@.len() as int) =~= Seq::<AttributeData>::empty());
    }
    None
}

/// Finds the first re-biased normal array.
fn find_normal4(attrs: &Vec<AttributeData>) -> (r: Option<Vec<U8x4>>)
    ensures
        r matches Some(v) ==> first_normal4(attrs@) == Some(v@),
        r is None ==> first_normal4(attrs@) is None,
{
    let mut k: usize = 0;
    proof {
        assert(attrs@.skip(0) =~= attrs@);
    }
    while k < attrs.len()
        invariant
            k <= attrs@.len(),
            first_normal4(attrs@) == first_normal4(attrs@.skip(k as int)),
        decreases attrs@.len() - k,
    {
        proof {
            assert(attrs@.skip(k as int).drop_first() =~= attrs@.skip(k as int + 1));
            assert(attrs@.skip(k as int)[0] == attrs@[k as int]);
        }
        match &attrs[k] {
            AttributeData::Normal4(v) => {
                let c = copy_vec(v);
                return Some(c);
            }
            _ => {}
        }
        k += 1;
    }
    proof {
        assert(attrs@.skip(attrs@.len() as int) =~= Seq::<AttributeData>::empty());
    }
    None
}

/// Finds the first re-biased tangent array.
fn find_tangent2(attrs: &Vec<AttributeData>) -> (r: Option<Vec<U8x4>>)
    ensures
        r matches Some(v) ==> first_tangent2(attrs@) == Some(v@),
        r is None ==> first_tangent2(attrs@) is None,
{
    let mut k: usize = 0;
    proof {
        assert(attrs@.skip(0) =~= attrs@);
    }
    while k < attrs.len()
        invariant
            k <= attrs@.len(),
            first_tangent2(attrs@) == first_tangent2(attrs@.skip(k as int)),
        decreases attrs@.len() - k,
    {
        proof {
            assert(attrs@.skip(k as int).drop_first() =~= attrs@.skip(k as int + 1));
            assert(attrs@.skip(k as int)[0] == attrs@[k as int]);
        }
        match &attrs[k] {
            AttributeData::Tangent2(v) => {
                let c = copy_vec(v);
                return Some(c);
            }
            _ => {}
        }
        k += 1;
    }
    proof {
        assert(attrs@.skip(attrs@.len() as int) =~= Seq::<AttributeData>::empty());
    }
    None
}

/// Reconstructs and appends the sparse default target: the blend target's
/// base values at exactly the given vertex indices.
///
/// With `modified_indices` the union of the parameter targets' indices,
/// the written default target's index set equals that union.
pub fn write_morph_default_target(out: &mut Vec<u8>, modified_indices: &Vec<u32>, buffer:
    &VertexBuffer) -> (r: Result<crate::vertex::MorphTarget, Xc3Error>)
    ensures
        r matches Ok(t) ==> {
            &&& first_position2(buffer.morph_blend_target@) matches Some(pos)
            &&& first_normal4(buffer.morph_blend_target@) matches Some(nor)
            &&& first_tangent2(buffer.morph_blend_target@) matches Some(tan)
            &&& final(out)@ =~= old(out)@ + morph_rows_bytes(gather_spec(pos,
                modified_indices@), gather_spec(nor, modified_indices@), gather_spec(tan,
                modified_indices@), modified_indices@, modified_indices@.len() as int,
                Endian::Little)
            &&& t.data_offset == old(out)@.len()
            &&& t.vertex_count == modified_indices@.len()
            &&& t.vertex_size == 32
            &&& t.flags == (MorphTargetFlags { unk1: 0u8, blend_target_buffer: false,
                default_buffer: true, param_buffer: false, unk: 0u16 })
        },
        r is Err ==> final(out)@ =~= old(out)@,
        (first_position2(buffer.morph_blend_target@) matches Some(pos) && first_normal4(
            buffer.morph_blend_target@) matches Some(nor) && first_tangent2(
            buffer.morph_blend_target@) matches Some(tan) && (forall|i: int|
            0 <= i < modified_indices@.len() ==> (#[trigger] modified_indices@[i]) < pos.len()
            && modified_indices@[i] < nor.len() && modified_indices@[i] < tan.len()) && old(
        out)@.len() + 32 * modified_indices@.len() <= u32::MAX) ==> r is Ok,
{
    let positions = match find_position2(&buffer.morph_blend_target) {
        Some(v) => v,
        None => {
            return Err(Xc3Error::InvariantViolation);
        }
    };
    let normals = match find_normal4(&buffer.morph_blend_target) {
        Some(v) => v,
        None => {
            return Err(Xc3Error::InvariantViolation);
        }
    };
    let tangents = match find_tangent2(&buffer.morph_blend_target) {
        Some(v) => v,
        None => {
            return Err(Xc3Error::InvariantViolation);
        }
    };
    let pos = match gather(&positions, modified_indices) {
        Ok(v) => v,
        Err(er) => {
            return Err(er);
        }
    };
    let nor = match gather(&normals, modified_indices) {
        Ok(v) => v,
        Err(er) => {
            return Err(er);
        }
    };
    let tan = match gather(&tangents, modified_indices) {
        Ok(v) => v,
        Err(er) => {
            return Err(er);
        }
    };
    if (out.len() as u128) + 32 * (modified_indices.len() as u128) > u32::MAX as u128 {
        return Err(Xc3Error::InvariantViolation);
    }
    let data_offset = out.len() as u32;
    write_morph_rows(out, &pos, &nor, &tan, modified_indices, Endian::Little);
    Ok(crate::vertex::MorphTarget {
        data_offset,
        vertex_count: modified_indices.len() as u32,
        vertex_size: 32,
        flags: MorphTargetFlags::new(0, false, true, false, 0),
    })
}

/// Appends the encoded attribute list of one buffer after checking its
/// shape, instead of demanding it up front.
pub fn try_write_vertex_buffer(out: &mut Vec<u8>, attribute_data: &Vec<AttributeData>, endian:
    Endian) -> (r: Result<VertexBufferDescriptor, Xc3Error>)
    ensures
        r matches Ok(d) ==> {
            &&& final(out)@ =~= old(out)@ + crate::vertex::buffer_bytes(attribute_data@,
                spec_attr_len(attribute_data@[0]), endian)
            &&& d.data_offset == old(out)@.len()
            &&& d.vertex_count == spec_attr_len(attribute_data@[0])
            &&& d.vertex_size == crate::vertex::canon_stride(attribute_data@)
            &&& d.attributes@.len() == attribute_data@.len()
            &&& forall|k: int| 0 <= k < attribute_data@.len() ==> (#[trigger] d.attributes@[
            k]).data_type == crate::vertex::spec_attr_data_type(attribute_data@[k])
                && d.attributes@[k].data_size == crate::vertex::spec_data_size(
                crate::vertex::spec_attr_data_type(attribute_data@[k]))
        },
        r is Err ==> final(out)@ =~= old(out)@,
        (attribute_data@.len() > 0 && attribute_data@.len() <= 0xffff
            && crate::vertex::attrs_same_len(attribute_data@, spec_attr_len(attribute_data@[0]))
            && old(out)@.len() + spec_attr_len(attribute_data@[0]) * crate::vertex::canon_stride(
            attribute_data@) <= u32::MAX) ==> r.is_ok(),
{
    if attribute_data.len() == 0 || attribute_data.len() > 0xffff {
        return Err(Xc3Error::InvariantViolation);
    }
    let count = attribute_data[0].len();
    let mut k: usize = 0;
    let mut stride: u64 = 0;
    while k < attribute_data.len()
        invariant
            k <= attribute_data@.len(),
            attribute_data@.len() <= 0xffff,
            count == spec_attr_len(attribute_data@[0]),
            stride == crate::vertex::canon_cum(attribute_data@, k as int),
            forall|m: int| 0 <= m < k ==> spec_attr_len(#[trigger] attribute_data@[m]) == count,
        decreases attribute_data@.len() - k,
    {
        if attribute_data[k].len() != count {
            return Err(Xc3Error::InvariantViolation);
        }
        proof {
            crate::vertex::lemma_canon_cum_range(attribute_data@, k as int);
        }
        stride = stride + attribute_data[k].data_type().data_size() as u64;
        k += 1;
    }
    proof {
        crate::vertex::lemma_canon_cum_range(attribute_data@, attribute_data@.len() as int);
    }
    if count as u64 > u32::MAX as u64 {
        proof {
            let cs = crate::vertex::canon_stride(attribute_data@);
            if old(out)@.len() + (count as int) * cs <= u32::MAX {
                vstd::arithmetic::mul::lemma_mul_inequality(4, cs, count as int);
                vstd::arithmetic::mul::lemma_mul_is_commutative(4, count as int);
                vstd::arithmetic::mul::lemma_mul_is_commutative(cs, count as int);
            }
        }
        return Err(Xc3Error::InvariantViolation);
    }
    proof {
        vstd::arithmetic::mul::lemma_mul_upper_bound(count as int, u32::MAX as int,
            crate::vertex::canon_stride(attribute_data@), 0x100000);
    }
    proof {
        vstd::arithmetic::mul::lemma_mul_upper_bound(count as int, u64::MAX as int,
            stride as int, u64::MAX as int);
    }
    if (out.len() as u128) + (count as u128) * (stride as u128) > u32::MAX as u128 {
        return Err(Xc3Error::InvariantViolation);
    }
    Ok(crate::vertex::write_vertex_buffer(out, attribute_data, endian))
}

/// Appends the encoded blend target and returns its descriptor.
pub fn write_morph_blend_target(out: &mut Vec<u8>, blend_target: &Vec<AttributeData>) -> (r:
    Result<crate::vertex::MorphTarget, Xc3Error>)
    ensures
        r matches Ok(t) ==> {
            &&& final(out)@ =~= old(out)@ + crate::vertex::buffer_bytes(blend_target@,
                spec_attr_len(blend_target@[0]), Endian::Little)
            &&& t.data_offset == old(out)@.len()
            &&& t.vertex_count == spec_attr_len(blend_target@[0])
            &&& t.vertex_size == crate::vertex::canon_stride(blend_target@)
            &&& t.flags == (MorphTargetFlags { unk1: 0u8, blend_target_buffer: true,
                default_buffer: false, param_buffer: false, unk: 0u16 })
        },
        r is Err ==> final(out)@ =~= old(out)@,
        (blend_target@.len() > 0 && blend_target@.len() <= 0xffff
            && crate::vertex::attrs_same_len(blend_target@, spec_attr_len(blend_target@[0]))
            && old(out)@.len() + spec_attr_len(blend_target@[0]) * crate::vertex::canon_stride(
            blend_target@) <= u32::MAX) ==> r is Ok,
{
    let descriptor = match try_write_vertex_buffer(out, blend_target, Endian::Little) {
        Ok(d) => d,
        Err(er) => {
            return Err(er);
        }
    };
    Ok(crate::vertex::MorphTarget {
        data_offset: descriptor.data_offset,
        vertex_count: descriptor.vertex_count,
        vertex_size: descriptor.vertex_size,
        flags: MorphTargetFlags::new(0, true, false, false, 0),
    })
}

/// Appends one outline buffer and returns its descriptor.
pub fn write_outline_buffer(out: &mut Vec<u8>, attribute_data: &Vec<AttributeData>) -> (r:
    Result<OutlineBufferDescriptor, Xc3Error>)
    ensures
        r matches Ok(d) ==> {
            &&& final(out)@ =~= old(out)@ + crate::vertex::buffer_bytes(attribute_data@,
                spec_attr_len(attribute_data@[0]), Endian::Little)
            &&& d.data_offset == old(out)@.len()
            &&& d.vertex_count == spec_attr_len(attribute_data@[0])
            &&& d.vertex_size == crate::vertex::canon_stride(attribute_data@)
            &&& d.unk == 0u32
        },
        r is Err ==> final(out)@ =~= old(out)@,
{
    let buffer = match try_write_vertex_buffer(out, attribute_data, Endian::Little) {
        Ok(d) => d,
        Err(er) => {
            return Err(er);
        }
    };
    Ok(OutlineBufferDescriptor {
        data_offset: buffer.data_offset,
        vertex_count: buffer.vertex_count,
        vertex_size: buffer.vertex_size,
        unk: 0,
    })
}

/// Appends one auxiliary buffer; offsets in its descriptor are relative to
/// the start of the auxiliary section.
pub fn write_unk_buffer(out: &mut Vec<u8>, buffer: &UnkBuffer, data_offset: u32, unk2: u16,
    start_index: u32) -> (r: Result<UnkBufferDescriptor, Xc3Error>)
    requires
        data_offset <= old(out)@.len(),
    ensures
        r matches Ok(d) ==> {
            &&& final(out)@ =~= old(out)@ + crate::vertex::buffer_bytes(buffer.attributes@,
                spec_attr_len(buffer.attributes@[0]), Endian::Little)
            &&& d.count == spec_attr_len(buffer.attributes@[0])
            &&& d.offset == old(out)@.len() - data_offset
        },
        r is Err ==> final(out)@ =~= old(out)@,
{
    let b = match try_write_vertex_buffer(out, &buffer.attributes, Endian::Little) {
        Ok(d) => d,
        Err(er) => {
            return Err(er);
        }
    };
    Ok(UnkBufferDescriptor {
        unk1: if b.vertex_size == 16 {
            0
        } else {
            1
        },
        unk2: if b.vertex_size == 16 {
            unk2
        } else {
            if unk2 == u16::MAX {
                unk2
            } else {
                unk2 + 1
            }
        },
        count: b.vertex_count,
        offset: b.data_offset - data_offset,
        unk5: 0,
        start_index,
    })
}

/// Appends every auxiliary buffer and returns the section record.
pub fn write_unk_buffers(out: &mut Vec<u8>, unk_buffers: &Vec<UnkBuffer>) -> (r: Result<
    crate::vertex::Unk, Xc3Error>)
    ensures
        final(out)@.len() >= old(out)@.len(),
        final(out)@.subrange(0, old(out)@.len() as int) =~= old(out)@,
        r matches Ok(u) ==> u.buffers@.len() == unk_buffers@.len() && u.data_offset == old(
        out)@.len(),
{
    let data_offset = out.len() as u32;
    if out.len() as u64 > u32::MAX as u64 {
        return Err(Xc3Error::InvariantViolation);
    }
    let mut buffers: Vec<UnkBufferDescriptor> = Vec::new();
    let mut start_index: u32 = 0;
    let mut i: usize = 0;
    while i < unk_buffers.len()
        invariant
            i <= unk_buffers@.len(),
            buffers@.len() == i,
            data_offset <= out@.len(),
            out@.len() >= old(out)@.len(),
            out@.subrange(0, old(out)@.len() as int) =~= old(out)@,
            data_offset == old(out)@.len(),
            old(out)@.len() <= u32::MAX,
        decreases unk_buffers@.len() - i,
    {
        let ghost before = out@;
        let unk_buffer = match write_unk_buffer(out, &unk_buffers[i], data_offset, i as u16,
            start_index) {
            Ok(d) => d,
            Err(er) => {
                return Err(er);
            }
        };
        proof {
            assert(out@.subrange(0, before.len() as int) =~= before);
            assert(out@.subrange(0, old(out)@.len() as int) =~= before.subrange(0, old(
            out)@.len() as int));
        }
        start_index = if (start_index as u64) + (unk_buffer.count as u64) <= u32::MAX as u64 {
            start_index + unk_buffer.count
        } else {
            start_index
        };
        buffers.push(unk_buffer);
        i += 1;
    }
    if out.len() as u64 > u32::MAX as u64 {
        return Err(Xc3Error::InvariantViolation);
    }
    let data_length = (out.len() as u64 - data_offset as u64) as u32;
    Ok(crate::vertex::Unk { buffers, data_length, data_offset, unks: [0, 0, 0, 0, 0, 0, 0, 0] })
}

/// Aligns the buffer after checking there is offset space left for the
/// padding.
fn try_align(out: &mut Vec<u8>, align: usize) -> (r: Result<(), Xc3Error>)
    requires
        0 < align <= 4096,
    ensures
        final(out)@.len() >= old(out)@.len(),
        final(out)@.subrange(0, old(out)@.len() as int) =~= old(out)@,
        r is Ok ==> final(out)@.len() as int % (align as int) == 0 && final(out)@.len() < old(
        out)@.len() + align,
        r is Err ==> final(out)@ =~= old(out)@,
        old(out)@.len() + 4096 < usize::MAX ==> r is Ok,
{
    if out.len() >= usize::MAX - 4096 {
        return Err(Xc3Error::InvariantViolation);
    }
    let ghost before = out@;
    crate::cursor::align_to(out, align);
    proof {
        assert(out@.subrange(0, before.len() as int) =~= before);
    }
    Ok(())
}

/// The role flags of a run's leading blend target.
pub open spec fn blend_flags() -> MorphTargetFlags {
    MorphTargetFlags {
        unk1: 0u8,
        blend_target_buffer: true,
        default_buffer: false,
        param_buffer: false,
        unk: 0u16,
    }
}

/// The role flags of a run's reconstructed default target.
pub open spec fn default_flags() -> MorphTargetFlags {
    MorphTargetFlags {
        unk1: 0u8,
        blend_target_buffer: false,
        default_buffer: true,
        param_buffer: false,
        unk: 0u16,
    }
}

/// The role flags of a parameter target.
pub open spec fn param_flags() -> MorphTargetFlags {
    MorphTargetFlags {
        unk1: 0u8,
        blend_target_buffer: false,
        default_buffer: false,
        param_buffer: true,
        unk: 0u16,
    }
}

/// The sequence is the strictly sorted, duplicate-free union of the
/// parameter targets' vertex indices.
pub open spec fn is_sorted_union(u: Seq<u32>, targets: Seq<MorphTarget>) -> bool {
    sorted_strict(u) && forall|x: u32| u.contains(x) <==> in_param_targets(targets, x)
}

/// The encoded default target of a run: its rows are the blend target's
/// base values at exactly the sorted union of the parameter targets'
/// vertex indices.
pub open spec fn default_slot_ok(t: crate::vertex::MorphTarget, buffer: VertexBuffer, o: Seq<
    u8>) -> bool {
    &&& t.flags == default_flags()
    &&& t.vertex_size == 32
    &&& exists|u: Seq<u32>| {
        &&& #[trigger] is_sorted_union(u, buffer.morph_targets@)
        &&& u.len() == t.vertex_count
        &&& first_position2(buffer.morph_blend_target@) matches Some(pos)
        &&& first_normal4(buffer.morph_blend_target@) matches Some(nor)
        &&& first_tangent2(buffer.morph_blend_target@) matches Some(tan)
        &&& t.data_offset + 32 * u.len() <= o.len()
        &&& o.subrange(t.data_offset as int, t.data_offset + 32 * u.len()) == morph_rows_bytes(
            gather_spec(first_position2(buffer.morph_blend_target@)->Some_0, u), gather_spec(
            first_normal4(buffer.morph_blend_target@)->Some_0, u), gather_spec(first_tangent2(
            buffer.morph_blend_target@)->Some_0, u), u, u.len() as int, Endian::Little)
    }
}

/// One encoded parameter target: its rows are the source target's columns.
pub open spec fn param_slot_ok(t: crate::vertex::MorphTarget, mt: MorphTarget, o: Seq<
    u8>) -> bool {
    &&& t.flags == param_flags()
    &&& t.vertex_size == 32
    &&& t.vertex_count == mt.position_deltas@.len()
    &&& t.data_offset + 32 * mt.position_deltas@.len() <= o.len()
    &&& o.subrange(t.data_offset as int, t.data_offset + 32 * mt.position_deltas@.len())
        == morph_rows_bytes(mt.position_deltas@, mt.normals@, mt.tangents@, mt.vertex_indices@,
        mt.position_deltas@.len() as int, Endian::Little)
}

/// The run of targets written for one buffer: the blend target first, then
/// the reconstructed default target (base values at the sorted union of
/// the parameter targets' indices), then each parameter target, every
/// target's bytes pinned in `o`.
pub open spec fn morph_run_ok(
    ts: Seq<crate::vertex::MorphTarget>,
    buffer: VertexBuffer,
    o: Seq<u8>,
) -> bool {
    &&& ts.len() == buffer.morph_targets@.len() + 2
    &&& ts[0].flags == blend_flags()
    &&& ts[0].vertex_count == spec_attr_len(buffer.morph_blend_target@[0])
    &&& ts[0].data_offset + ts[0].vertex_count * ts[0].vertex_size <= o.len()
    &&& o.subrange(ts[0].data_offset as int, ts[0].data_offset + ts[0].vertex_count
        * ts[0].vertex_size) == crate::vertex::buffer_bytes(buffer.morph_blend_target@,
        spec_attr_len(buffer.morph_blend_target@[0]), Endian::Little)
    &&& default_slot_ok(ts[1], buffer, o)
    &&& forall|p: int| 0 <= p < buffer.morph_targets@.len() ==> param_slot_ok(#[trigger] ts[p
        + 2], buffer.morph_targets@[p], o)
}

/// Growing the buffer preserves the claims on a run's first two targets
/// and on its first `q` parameter targets.
proof fn lemma_run_prefix_extend(
    ts: Seq<crate::vertex::MorphTarget>,
    buffer: VertexBuffer,
    q: int,
    o: Seq<u8>,
    o2: Seq<u8>,
)
    requires
        ts.len() >= 2,
        0 <= q <= buffer.morph_targets@.len(),
        q + 2 <= ts.len(),
        ts[0].data_offset + ts[0].vertex_count * ts[0].vertex_size <= o.len(),
        o.subrange(ts[0].data_offset as int, ts[0].data_offset + ts[0].vertex_count
            * ts[0].vertex_size) == crate::vertex::buffer_bytes(buffer.morph_blend_target@,
            spec_attr_len(buffer.morph_blend_target@[0]), Endian::Little),
        default_slot_ok(ts[1], buffer, o),
        forall|w: int| 0 <= w < q ==> param_slot_ok(#[trigger] ts[w + 2],
            buffer.morph_targets@[w], o),
        o.len() <= o2.len(),
        o2.subrange(0, o.len() as int) =~= o,
    ensures
        o2.subrange(ts[0].data_offset as int, ts[0].data_offset + ts[0].vertex_count
            * ts[0].vertex_size) == crate::vertex::buffer_bytes(buffer.morph_blend_target@,
            spec_attr_len(buffer.morph_blend_target@[0]), Endian::Little),
        default_slot_ok(ts[1], buffer, o2),
        forall|w: int| 0 <= w < q ==> param_slot_ok(#[trigger] ts[w + 2],
            buffer.morph_targets@[w], o2),
{
    assert forall|m: int| 0 <= m < o.len() implies o2[m] == o[m] by {
        assert(o2.subrange(0, o.len() as int)[m] == o2[m]);
    }
    assert(o2.subrange(ts[0].data_offset as int, ts[0].data_offset + ts[0].vertex_count
        * ts[0].vertex_size) =~= o.subrange(ts[0].data_offset as int, ts[0].data_offset
        + ts[0].vertex_count * ts[0].vertex_size));
    let u = choose|u: Seq<u32>| {
        &&& #[trigger] is_sorted_union(u, buffer.morph_targets@)
        &&& u.len() == ts[1].vertex_count
        &&& first_position2(buffer.morph_blend_target@) matches Some(pos)
        &&& first_normal4(buffer.morph_blend_target@) matches Some(nor)
        &&& first_tangent2(buffer.morph_blend_target@) matches Some(tan)
        &&& ts[1].data_offset + 32 * u.len() <= o.len()
        &&& o.subrange(ts[1].data_offset as int, ts[1].data_offset + 32 * u.len())
            == morph_rows_bytes(gather_spec(first_position2(
            buffer.morph_blend_target@)->Some_0, u), gather_spec(first_normal4(
            buffer.morph_blend_target@)->Some_0, u), gather_spec(first_tangent2(
            buffer.morph_blend_target@)->Some_0, u), u, u.len() as int, Endian::Little)
    };
    assert(o2.subrange(ts[1].data_offset as int, ts[1].data_offset + 32 * u.len())
        =~= o.subrange(ts[1].data_offset as int, ts[1].data_offset + 32 * u.len()));
    assert(default_slot_ok(ts[1], buffer, o2));
    assert forall|w: int| 0 <= w < q implies param_slot_ok(#[trigger] ts[w + 2],
        buffer.morph_targets@[w], o2) by {
        let mt = buffer.morph_targets@[w];
        assert(o2.subrange(ts[w + 2].data_offset as int, ts[w + 2].data_offset + 32
            * mt.position_deltas@.len()) =~= o.subrange(ts[w + 2].data_offset as int, ts[w
            + 2].data_offset + 32 * mt.position_deltas@.len()));
    }
}

/// Growing the buffer preserves a run's claims.
proof fn lemma_morph_run_extend(
    ts: Seq<crate::vertex::MorphTarget>,
    buffer: VertexBuffer,
    o: Seq<u8>,
    o2: Seq<u8>,
)
    requires
        morph_run_ok(ts, buffer, o),
        o.len() <= o2.len(),
        o2.subrange(0, o.len() as int) =~= o,
    ensures
        morph_run_ok(ts, buffer, o2),
{
    assert forall|m: int| 0 <= m < o.len() implies o2[m] == o[m] by {
        assert(o2.subrange(0, o.len() as int)[m] == o2[m]);
    }
    assert(o2.subrange(ts[0].data_offset as int, ts[0].data_offset + ts[0].vertex_count
        * ts[0].vertex_size) =~= o.subrange(ts[0].data_offset as int, ts[0].data_offset
        + ts[0].vertex_count * ts[0].vertex_size));
    let u = choose|u: Seq<u32>| {
        &&& #[trigger] is_sorted_union(u, buffer.morph_targets@)
        &&& u.len() == ts[1].vertex_count
        &&& first_position2(buffer.morph_blend_target@) matches Some(pos)
        &&& first_normal4(buffer.morph_blend_target@) matches Some(nor)
        &&& first_tangent2(buffer.morph_blend_target@) matches Some(tan)
        &&& ts[1].data_offset + 32 * u.len() <= o.len()
        &&& o.subrange(ts[1].data_offset as int, ts[1].data_offset + 32 * u.len())
            == morph_rows_bytes(gather_spec(first_position2(
            buffer.morph_blend_target@)->Some_0, u), gather_spec(first_normal4(
            buffer.morph_blend_target@)->Some_0, u), gather_spec(first_tangent2(
            buffer.morph_blend_target@)->Some_0, u), u, u.len() as int, Endian::Little)
    };
    assert(o2.subrange(ts[1].data_offset as int, ts[1].data_offset + 32 * u.len())
        =~= o.subrange(ts[1].data_offset as int, ts[1].data_offset + 32 * u.len()));
    assert(default_slot_ok(ts[1], buffer, o2));
    assert forall|p: int| 0 <= p < buffer.morph_targets@.len() implies param_slot_ok(
        #[trigger] ts[p + 2], buffer.morph_targets@[p], o2) by {
        let mt = buffer.morph_targets@[p];
        assert(o2.subrange(ts[p + 2].data_offset as int, ts[p + 2].data_offset + 32
            * mt.position_deltas@.len()) =~= o.subrange(ts[p + 2].data_offset as int, ts[p
            + 2].data_offset + 32 * mt.position_deltas@.len()));
    }
}

/// Appends one buffer's run of morph targets: the blend target, the
/// reconstructed default target, then each parameter target aligned to
/// 256 bytes.
#[verifier::rlimit(100)]
fn write_morph_run(out: &mut Vec<u8>, buffer: &VertexBuffer) -> (r: Result<Vec<
    crate::vertex::MorphTarget>, Xc3Error>)
    ensures
        final(out)@.len() >= old(out)@.len(),
        final(out)@.subrange(0, old(out)@.len() as int) =~= old(out)@,
        r matches Ok(ts) ==> ts@.len() == buffer.morph_targets@.len() + 2,
        r matches Ok(ts) ==> morph_run_ok(ts@, *buffer, final(out)@),
{
    let mut ts: Vec<crate::vertex::MorphTarget> = Vec::new();
    let target = match write_morph_blend_target(out, &buffer.morph_blend_target) {
        Ok(t) => t,
        Err(er) => {
            return Err(er);
        }
    };
    ts.push(target);
    proof {
        crate::vertex::lemma_buffer_bytes_len(buffer.morph_blend_target@, spec_attr_len(
            buffer.morph_blend_target@[0]), Endian::Little);
        assert(out@.subrange(ts@[0].data_offset as int, ts@[0].data_offset + ts@[0].vertex_count
            * ts@[0].vertex_size) =~= crate::vertex::buffer_bytes(buffer.morph_blend_target@,
            spec_attr_len(buffer.morph_blend_target@[0]), Endian::Little));
    }
    let modified_indices = union_indices(&buffer.morph_targets);
    proof {
        assert(is_sorted_union(modified_indices@, buffer.morph_targets@));
    }
    let ghost before_default = out@;
    let target = match write_morph_default_target(out, &modified_indices, buffer) {
        Ok(t) => t,
        Err(er) => {
            proof {
                assert(out@.subrange(0, old(out)@.len() as int) =~= before_default.subrange(0,
                    old(out)@.len() as int));
            }
            return Err(er);
        }
    };
    proof {
        assert(out@.subrange(0, before_default.len() as int) =~= before_default);
        assert(out@.subrange(0, old(out)@.len() as int) =~= before_default.subrange(0, old(
        out)@.len() as int));
        assert forall|m: int| 0 <= m < before_default.len() implies out@[m]
            == before_default[m] by {
            assert(out@.subrange(0, before_default.len() as int)[m] == out@[m]);
        }
        assert(out@.subrange(ts@[0].data_offset as int, ts@[0].data_offset + ts@[0].vertex_count
            * ts@[0].vertex_size) =~= before_default.subrange(ts@[0].data_offset as int,
            ts@[0].data_offset + ts@[0].vertex_count * ts@[0].vertex_size));
        lemma_morph_rows_len(gather_spec(first_position2(
            buffer.morph_blend_target@)->Some_0, modified_indices@), gather_spec(first_normal4(
            buffer.morph_blend_target@)->Some_0, modified_indices@), gather_spec(first_tangent2(
            buffer.morph_blend_target@)->Some_0, modified_indices@), modified_indices@,
            modified_indices@.len() as int, Endian::Little);
        assert(out@.subrange(target.data_offset as int, target.data_offset + 32
            * modified_indices@.len()) =~= morph_rows_bytes(gather_spec(first_position2(
            buffer.morph_blend_target@)->Some_0, modified_indices@), gather_spec(first_normal4(
            buffer.morph_blend_target@)->Some_0, modified_indices@), gather_spec(first_tangent2(
            buffer.morph_blend_target@)->Some_0, modified_indices@), modified_indices@,
            modified_indices@.len() as int, Endian::Little));
        assert(default_slot_ok(target, *buffer, out@));
    }
    ts.push(target);
    let mut q: usize = 0;
    while q < buffer.morph_targets.len()
        invariant
            q <= buffer.morph_targets@.len(),
            ts@.len() == q + 2,
            out@.len() >= old(out)@.len(),
            out@.subrange(0, old(out)@.len() as int) =~= old(out)@,
            ts@[0].flags == blend_flags(),
            ts@[0].vertex_count == spec_attr_len(buffer.morph_blend_target@[0]),
            ts@[0].data_offset + ts@[0].vertex_count * ts@[0].vertex_size <= out@.len(),
            out@.subrange(ts@[0].data_offset as int, ts@[0].data_offset + ts@[0].vertex_count
                * ts@[0].vertex_size) == crate::vertex::buffer_bytes(
                buffer.morph_blend_target@, spec_attr_len(buffer.morph_blend_target@[0]),
                Endian::Little),
            default_slot_ok(ts@[1], *buffer, out@),
            forall|w: int| 0 <= w < q ==> param_slot_ok(#[trigger] ts@[w + 2],
                buffer.morph_targets@[w], out@),
        decreases buffer.morph_targets@.len() - q,
    {
        let ghost before_pad = out@;
        match try_align(out, 256) {
            Ok(_) => {}
            Err(er) => {
                proof {
                    assert(out@.subrange(0, old(out)@.len() as int) =~= before_pad.subrange(0,
                        old(out)@.len() as int));
                }
                return Err(er);
            }
        }
        proof {
            assert(out@.subrange(0, before_pad.len() as int) =~= before_pad);
            assert(out@.subrange(0, old(out)@.len() as int) =~= before_pad.subrange(0, old(
            out)@.len() as int));
            lemma_run_prefix_extend(ts@, *buffer, q as int, before_pad, out@);
        }
        let ghost before_param = out@;
        let ghost ts_before = ts@;
        let target = match write_morph_param_target(out, &buffer.morph_targets[q]) {
            Ok(t) => t,
            Err(er) => {
                proof {
                    assert(out@.subrange(0, old(out)@.len() as int) =~= before_param.subrange(0,
                        old(out)@.len() as int));
                }
                return Err(er);
            }
        };
        proof {
            assert(out@.subrange(0, before_param.len() as int) =~= before_param);
            assert(out@.subrange(0, old(out)@.len() as int) =~= before_param.subrange(0, old(
            out)@.len() as int));
            lemma_run_prefix_extend(ts@, *buffer, q as int, before_param, out@);
            lemma_morph_rows_len(buffer.morph_targets@[q as int].position_deltas@,
                buffer.morph_targets@[q as int].normals@, buffer.morph_targets@[q as int].tangents@,
                buffer.morph_targets@[q as int].vertex_indices@,
                buffer.morph_targets@[q as int].position_deltas@.len() as int, Endian::Little);
            assert(out@.subrange(target.data_offset as int, target.data_offset + 32
                * buffer.morph_targets@[q as int].position_deltas@.len()) =~= morph_rows_bytes(
                buffer.morph_targets@[q as int].position_deltas@,
                buffer.morph_targets@[q as int].normals@, buffer.morph_targets@[q as int].tangents@,
                buffer.morph_targets@[q as int].vertex_indices@,
                buffer.morph_targets@[q as int].position_deltas@.len() as int, Endian::Little));
            assert(param_slot_ok(target, buffer.morph_targets@[q as int], out@));
        }
        ts.push(target);
        proof {
            assert(ts@[0] == ts_before[0]);
            assert(ts@[1] == ts_before[1]);
            assert forall|w: int| 0 <= w < q + 1 implies param_slot_ok(#[trigger] ts@[w + 2],
                buffer.morph_targets@[w], out@) by {
                if w < q {
                    assert(ts@[w + 2] == ts_before[w + 2]);
                } else {
                    assert(ts@[w + 2] == target);
                }
            }
        }
        q += 1;
    }
    proof {
        assert(morph_run_ok(ts@, *buffer, out@));
    }
    Ok(ts)
}

/// Appends every morph target run: for each buffer with morph targets, a
/// blend target, the reconstructed default target, then each parameter
/// target aligned to 256 bytes.
///
/// The default target written for a buffer holds exactly the union of its
/// parameter targets' vertex indices.
pub fn write_morph_targets(out: &mut Vec<u8>, vertex_buffers: &Vec<VertexBuffer>) -> (r: Result<
    VertexMorphs, Xc3Error>)
    ensures
        final(out)@.len() >= old(out)@.len(),
        final(out)@.subrange(0, old(out)@.len() as int) =~= old(out)@,
        r matches Ok(m) ==> forall|d: int| 0 <= d < m.descriptors@.len() ==> (
        #[trigger] m.descriptors@[d]).vertex_buffer_index < vertex_buffers@.len()
            && m.descriptors@[d].param_indices@.len()
            == vertex_buffers@[m.descriptors@[d].vertex_buffer_index as int].morph_targets@.len(),
        r matches Ok(m) ==> forall|d: int| 0 <= d < m.descriptors@.len() ==> (
        #[trigger] m.descriptors@[d]).target_start_index + 2
            + m.descriptors@[d].param_indices@.len() <= m.targets@.len() && morph_run_ok(
            m.targets@.subrange(m.descriptors@[d].target_start_index as int,
            m.descriptors@[d].target_start_index + 2 + m.descriptors@[d].param_indices@.len()),
            vertex_buffers@[m.descriptors@[d].vertex_buffer_index as int], final(out)@),
        ((forall|i: int| 0 <= i < vertex_buffers@.len() ==> (
        #[trigger] vertex_buffers@[i]).morph_targets@.len() == 0) && vertex_buffers@.len()
            <= u32::MAX) ==> r is Ok,
{
    if vertex_buffers.len() as u64 > u32::MAX as u64 {
        return Err(Xc3Error::InvariantViolation);
    }
    let mut targets: Vec<crate::vertex::MorphTarget> = Vec::new();
    let mut descriptors: Vec<MorphDescriptor> = Vec::new();
    let mut i: usize = 0;
    while i < vertex_buffers.len()
        invariant
            i <= vertex_buffers@.len(),
            vertex_buffers@.len() <= u32::MAX,
            out@.len() >= old(out)@.len(),
            out@.subrange(0, old(out)@.len() as int) =~= old(out)@,
            forall|d: int| 0 <= d < descriptors@.len() ==> (
            #[trigger] descriptors@[d]).vertex_buffer_index < i
                && descriptors@[d].param_indices@.len()
                == vertex_buffers@[descriptors@[d].vertex_buffer_index as int]
                .morph_targets@.len(),
            forall|d: int| 0 <= d < descriptors@.len() ==> (
            #[trigger] descriptors@[d]).target_start_index + 2
                + descriptors@[d].param_indices@.len() <= targets@.len() && morph_run_ok(
                targets@.subrange(descriptors@[d].target_start_index as int,
                descriptors@[d].target_start_index + 2 + descriptors@[d].param_indices@.len()),
                vertex_buffers@[descriptors@[d].vertex_buffer_index as int], out@),
        decreases vertex_buffers@.len() - i,
    {
        let buffer = &vertex_buffers[i];
        if buffer.morph_targets.len() > 0 {
            if buffer.morph_targets.len() > 0xffff || targets.len() as u64 > u32::MAX as u64 {
                return Err(Xc3Error::InvariantViolation);
            }
            let mut param_indices: Vec<u16> = Vec::new();
            let mut p: usize = 0;
            while p < buffer.morph_targets.len()
                invariant
                    p <= buffer.morph_targets@.len(),
                    buffer.morph_targets@.len() <= 0xffff,
                    param_indices@.len() == p,
                decreases buffer.morph_targets@.len() - p,
            {
                param_indices.push(p as u16);
                p += 1;
            }
            let descriptor = MorphDescriptor {
                vertex_buffer_index: i as u32,
                target_start_index: targets.len() as u32,
                param_indices,
                unk2: 3,
            };
            let ghost before_run = out@;
            let ts = match write_morph_run(out, buffer) {
                Ok(ts) => ts,
                Err(er) => {
                    proof {
                        assert(out@.subrange(0, old(out)@.len() as int) =~= before_run.subrange(
                            0, old(out)@.len() as int));
                    }
                    return Err(er);
                }
            };
            proof {
                assert(out@.subrange(0, before_run.len() as int) =~= before_run);
                assert(out@.subrange(0, old(out)@.len() as int) =~= before_run.subrange(0, old(
                out)@.len() as int));
                assert forall|d: int| 0 <= d < descriptors@.len() implies (
                #[trigger] descriptors@[d]).target_start_index + 2
                    + descriptors@[d].param_indices@.len() <= targets@.len() && morph_run_ok(
                    targets@.subrange(descriptors@[d].target_start_index as int,
                    descriptors@[d].target_start_index + 2
                    + descriptors@[d].param_indices@.len()),
                    vertex_buffers@[descriptors@[d].vertex_buffer_index as int], out@) by {
                    lemma_morph_run_extend(targets@.subrange(
                        descriptors@[d].target_start_index as int,
                        descriptors@[d].target_start_index + 2
                        + descriptors@[d].param_indices@.len()),
                        vertex_buffers@[descriptors@[d].vertex_buffer_index as int], before_run,
                        out@);
                }
            }
            let ghost targets_before = targets@;
            let mut w: usize = 0;
            while w < ts.len()
                invariant
                    w <= ts@.len(),
                    targets@ =~= targets_before + ts@.take(w as int),
                decreases ts@.len() - w,
            {
                proof {
                    assert(ts@.take(w as int + 1) =~= ts@.take(w as int) + seq![ts@[w as int]]);
                }
                targets.push(ts[w]);
                w += 1;
            }
            proof {
                assert(ts@.take(ts@.len() as int) =~= ts@);
                assert(targets@ =~= targets_before + ts@);
                assert(targets@.subrange(targets_before.len() as int, targets_before.len() as int
                    + ts@.len() as int) =~= ts@);
                assert(descriptor.target_start_index == targets_before.len());
                assert forall|d: int| 0 <= d < descriptors@.len() implies (
                #[trigger] descriptors@[d]).target_start_index + 2
                    + descriptors@[d].param_indices@.len() <= targets@.len() && morph_run_ok(
                    targets@.subrange(descriptors@[d].target_start_index as int,
                    descriptors@[d].target_start_index + 2
                    + descriptors@[d].param_indices@.len()),
                    vertex_buffers@[descriptors@[d].vertex_buffer_index as int], out@) by {
                    assert(targets@.subrange(descriptors@[d].target_start_index as int,
                        descriptors@[d].target_start_index + 2
                        + descriptors@[d].param_indices@.len()) =~= targets_before.subrange(
                        descriptors@[d].target_start_index as int,
                        descriptors@[d].target_start_index + 2
                        + descriptors@[d].param_indices@.len()));
                }
            }
            descriptors.push(descriptor);
        }
        i += 1;
    }
    Ok(VertexMorphs { descriptors, targets, unks: [0, 0, 0, 0] })
}

/// The descriptor's attribute list is decodable: few enough attributes,
/// every type supported and every per-vertex window inside the shared
/// buffer.
pub open spec fn vb_readable(d: VertexBufferDescriptor, len: int) -> bool {
    d.attributes@.len() <= 0xffff && crate::vertex::attrs_readable(d.attributes@,
        d.data_offset as int, d.vertex_size as int, d.vertex_count as int, len)
}

/// Every 32-byte row of the morph target lies inside the shared buffer.
pub open spec fn morph_target_readable(t: crate::vertex::MorphTarget, len: int) -> bool {
    windows_ok(t.data_offset as int, t.vertex_count as int, t.vertex_size as int, 0, 32, len)
}

/// The run of targets a morph descriptor names is decodable whenever it
/// lies in range: the blend target and every parameter target are
/// row-readable.
pub open spec fn morph_descriptor_readable(
    d: MorphDescriptor,
    targets: Seq<crate::vertex::MorphTarget>,
    len: int,
) -> bool {
    d.target_start_index + 2 + d.param_indices@.len() <= targets.len() ==> {
        &&& morph_target_readable(targets[d.target_start_index as int], len)
        &&& forall|p: int| 0 <= p < d.param_indices@.len() ==> morph_target_readable(
            #[trigger] targets[d.target_start_index + 2 + p], len)
    }
}

/// Finds the morph descriptor assigned to one vertex buffer.
fn find_morph_descriptor(morphs: &VertexMorphs, buffer_index: usize) -> (r: Option<usize>)
    ensures
        r matches Some(d) ==> d < morphs.descriptors@.len()
            && morphs.descriptors@[d as int].vertex_buffer_index == buffer_index,
{
    let mut d: usize = 0;
    while d < morphs.descriptors.len()
        invariant
            d <= morphs.descriptors@.len(),
        decreases morphs.descriptors@.len() - d,
    {
        if morphs.descriptors[d].vertex_buffer_index as u64 == buffer_index as u64 {
            return Some(d);
        }
        d += 1;
    }
    None
}

/// Decodes every vertex buffer of the section, assigning each its morph
/// targets and outline buffer, and decodes the skinning weights when bone
/// names are supplied.
///
/// Buffer `i` pairs with extra-information entry `i`; buffers without an
/// entry are dropped, as are trailing entries. On success every decoded
/// attribute array matches the descriptor's windows in the shared buffer.
pub fn read_vertex_buffers(vertex_data: &VertexData, bone_names: Option<&Vec<String>>) -> (r:
    Result<(Vec<VertexBuffer>, Option<Weights>), Xc3Error>)
    ensures
        r matches Ok(p) ==> {
            let n = if vertex_data.vertex_buffers@.len() <= vertex_data.vertex_buffer_info@.len()
                 {
                vertex_data.vertex_buffers@.len() as int
            } else {
                vertex_data.vertex_buffer_info@.len() as int
            };
            &&& p.0@.len() == n
            &&& forall|i: int| 0 <= i < n ==> buffer_decoded((#[trigger] p.0@[i]).attributes@,
                vertex_data.vertex_buffers@[i], vertex_data.buffer@, Endian::Little)
            &&& forall|i: int| 0 <= i < n ==> (#[trigger] p.0@[i]).outline_buffer_index == (
            if vertex_data.vertex_buffer_info@[i].flags.has_outline_buffer {
                Some(vertex_data.vertex_buffer_info@[i].outline_buffer_index as usize)
            } else {
                None
            })
        },
        ({
            let n = if vertex_data.vertex_buffers@.len() <= vertex_data.vertex_buffer_info@.len()
                 {
                vertex_data.vertex_buffers@.len() as int
            } else {
                vertex_data.vertex_buffer_info@.len() as int
            };
            let blen = vertex_data.buffer@.len() as int;
            &&& forall|i: int| 0 <= i < n ==> #[trigger] vb_readable(
                vertex_data.vertex_buffers@[i], blen)
            &&& (vertex_data.vertex_morphs matches Some(morphs) ==> forall|d: int|
                0 <= d < morphs.descriptors@.len() ==> #[trigger] morph_descriptor_readable(
                morphs.descriptors@[d], morphs.targets@, blen))
            &&& (bone_names is Some ==> (vertex_data.weights matches Some(w) ==> (
            w.vertex_buffer_index < vertex_data.vertex_buffers@.len() ==> vb_readable(
                vertex_data.vertex_buffers@[w.vertex_buffer_index as int], blen))))
        }) ==> r is Ok,
{
    let n = if vertex_data.vertex_buffers.len() <= vertex_data.vertex_buffer_info.len() {
        vertex_data.vertex_buffers.len()
    } else {
        vertex_data.vertex_buffer_info.len()
    };
    let mut buffers: Vec<VertexBuffer> = Vec::new();
    let mut i: usize = 0;
    while i < n
        invariant
            i <= n,
            n <= vertex_data.vertex_buffers@.len(),
            n <= vertex_data.vertex_buffer_info@.len(),
            n == (if vertex_data.vertex_buffers@.len() <= vertex_data.vertex_buffer_info@.len() {
                vertex_data.vertex_buffers@.len() as int
            } else {
                vertex_data.vertex_buffer_info@.len() as int
            }),
            buffers@.len() == i,
            forall|m: int| 0 <= m < i ==> buffer_decoded((#[trigger] buffers@[m]).attributes@,
                vertex_data.vertex_buffers@[m], vertex_data.buffer@, Endian::Little),
            forall|m: int| 0 <= m < i ==> (#[trigger] buffers@[m]).outline_buffer_index == (
            if vertex_data.vertex_buffer_info@[m].flags.has_outline_buffer {
                Some(vertex_data.vertex_buffer_info@[m].outline_buffer_index as usize)
            } else {
                None
            }),
        decreases n - i,
    {
        let descriptor = &vertex_data.vertex_buffers[i];
        if descriptor.attributes.len() > 0xffff {
            proof {
                assert(!vb_readable(vertex_data.vertex_buffers@[i as int],
                    vertex_data.buffer@.len() as int));
            }
            return Err(Xc3Error::InvariantViolation);
        }
        let attributes = match read_vertex_attributes(descriptor.data_offset,
            descriptor.vertex_count, descriptor.vertex_size, &descriptor.attributes,
            &vertex_data.buffer, Endian::Little) {
            Ok(v) => v,
            Err(er) => {
                proof {
                    assert(!vb_readable(vertex_data.vertex_buffers@[i as int],
                        vertex_data.buffer@.len() as int));
                }
                return Err(er);
            }
        };
        let ext = &vertex_data.vertex_buffer_info[i];

        let mut morph_blend_target: Vec<AttributeData> = Vec::new();
        let mut morph_targets: Vec<MorphTarget> = Vec::new();
        match &vertex_data.vertex_morphs {
            Some(morphs) => match find_morph_descriptor(morphs, i) {
                Some(d) => {
                    let descriptor_m = &morphs.descriptors[d];
                    match split_targets(descriptor_m, morphs) {
                        Some((blend, _default, params)) => {
                            morph_blend_target = match read_morph_blend_target(&blend,
                                &vertex_data.buffer) {
                                Ok(v) => v,
                                Err(er) => {
                                    proof {
                                        assert(!morph_descriptor_readable(
                                            morphs.descriptors@[d as int], morphs.targets@,
                                            vertex_data.buffer@.len() as int));
                                        assert(vertex_data.vertex_morphs matches Some(mp)
                                            && !morph_descriptor_readable(mp.descriptors@[
                                        d as int], mp.targets@, vertex_data.buffer@.len() as int));
                                    }
                                    return Err(er);
                                }
                            };
                            let mut q: usize = 0;
                            while q < params.len()
                                invariant
                                    q <= params@.len(),
                                    morph_targets@.len() == q,
                                    d < morphs.descriptors@.len(),
                                    vertex_data.vertex_morphs == Some(*morphs),
                                    *descriptor_m == morphs.descriptors@[d as int],
                                    params@.len() == descriptor_m.param_indices@.len(),
                                    descriptor_m.target_start_index + 2 + params@.len()
                                        <= morphs.targets@.len(),
                                    forall|p: int| 0 <= p < params@.len() ==> (
                                    #[trigger] params@[p]) == morphs.targets@[
                                    descriptor_m.target_start_index + 2 + p],
                                decreases params@.len() - q,
                            {
                                let param_index = descriptor_m.param_indices[q];
                                match read_morph_target(&params[q], &vertex_data.buffer,
                                    param_index) {
                                    Ok(t) => {
                                        morph_targets.push(t);
                                    }
                                    Err(er) => {
                                        proof {
                                            assert(!morph_target_readable(
                                                morphs.targets@[descriptor_m.target_start_index
                                                + 2 + q], vertex_data.buffer@.len() as int));
                                            assert(!morph_descriptor_readable(
                                                morphs.descriptors@[d as int], morphs.targets@,
                                                vertex_data.buffer@.len() as int));
                                            assert(vertex_data.vertex_morphs matches Some(mp)
                                                && !morph_descriptor_readable(mp.descriptors@[
                                            d as int], mp.targets@,
                                                vertex_data.buffer@.len() as int));
                                        }
                                        return Err(er);
                                    }
                                }
                                q += 1;
                            }
                        }
                        None => {}
                    }
                }
                None => {}
            },
            None => {}
        }

        buffers.push(VertexBuffer {
            attributes,
            morph_blend_target,
            morph_targets,
            outline_buffer_index: if ext.flags.has_outline_buffer {
                Some(ext.outline_buffer_index as usize)
            } else {
                None
            },
        });
        i += 1;
    }

    let mut skin_weights: Option<Weights> = None;
    match (bone_names, &vertex_data.weights) {
        (Some(names), Some(vertex_weights)) => {
            let weights_index = vertex_weights.vertex_buffer_index as usize;
            if weights_index < vertex_data.vertex_buffers.len() {
                let descriptor = &vertex_data.vertex_buffers[weights_index];
                if descriptor.attributes.len() > 0xffff {
                    proof {
                        assert(!vb_readable(vertex_data.vertex_buffers@[weights_index as int],
                            vertex_data.buffer@.len() as int));
                    }
                    return Err(Xc3Error::InvariantViolation);
                }
                let attributes = match read_vertex_attributes(descriptor.data_offset,
                    descriptor.vertex_count, descriptor.vertex_size, &descriptor.attributes,
                    &vertex_data.buffer, Endian::Little) {
                    Ok(v) => v,
                    Err(er) => {
                        proof {
                            assert(!vb_readable(
                                vertex_data.vertex_buffers@[weights_index as int],
                                vertex_data.buffer@.len() as int));
                        }
                        return Err(er);
                    }
                };
                match skin_weights_bone_indices(&attributes) {
                    Some((weights, bone_indices)) => {
                        let mut bone_name_list: Vec<String> = Vec::new();
                        let mut b: usize = 0;
                        while b < names.len()
                            invariant
                                b <= names@.len(),
                            decreases names@.len() - b,
                        {
                            bone_name_list.push(names[b].clone());
                            b += 1;
                        }
                        let mut weight_buffers: Vec<SkinWeights> = Vec::new();
                        weight_buffers.push(SkinWeights {
                            bone_indices,
                            weights,
                            bone_names: bone_name_list,
                        });
                        skin_weights = Some(Weights {
                            weight_buffers,
                            weight_groups: WeightGroups::Groups {
                                weight_groups: copy_vec(&vertex_weights.groups),
                                weight_lods: copy_vec(&vertex_weights.weight_lods),
                            },
                        });
                    }
                    None => {}
                }
            }
        }
        _ => {}
    }

    Ok((buffers, skin_weights))
}

impl ModelBuffers {
    /// Decodes every buffer of a vertex data section into its
    /// struct-of-arrays form.
    pub fn from_vertex_data(vertex_data: &VertexData, bone_names: Option<&Vec<String>>) -> (r:
        Result<ModelBuffers, Xc3Error>)
        ensures
            r matches Ok(mb) ==> {
                &&& mb.index_buffers@.len() == vertex_data.index_buffers@.len()
                &&& forall|b: int| 0 <= b < mb.index_buffers@.len() ==> (
                #[trigger] mb.index_buffers@[b].indices@) == crate::vertex::indices_at(
                    vertex_data.buffer@, vertex_data.index_buffers@[b].data_offset as int,
                    vertex_data.index_buffers@[b].index_count as int, Endian::Little)
                &&& mb.outline_buffers@.len() == vertex_data.outline_buffers@.len()
                &&& forall|i: int| 0 <= i < mb.vertex_buffers@.len() ==> buffer_decoded((
                #[trigger] mb.vertex_buffers@[i]).attributes@, vertex_data.vertex_buffers@[i],
                    vertex_data.buffer@, Endian::Little)
            },
    {
        let (vertex_buffers, weights) = match read_vertex_buffers(vertex_data, bone_names) {
            Ok(p) => p,
            Err(er) => {
                return Err(er);
            }
        };
        let index_buffers = match read_index_buffers(vertex_data, Endian::Little) {
            Ok(v) => v,
            Err(er) => {
                return Err(er);
            }
        };
        let mut outline_buffers: Vec<OutlineBuffer> = Vec::new();
        let mut ob: usize = 0;
        while ob < vertex_data.outline_buffers.len()
            invariant
                ob <= vertex_data.outline_buffers@.len(),
                outline_buffers@.len() == ob,
            decreases vertex_data.outline_buffers@.len() - ob,
        {
            match outline_buffer(&vertex_data.outline_buffers[ob], &vertex_data.buffer) {
                Ok(b) => {
                    outline_buffers.push(b);
                }
                Err(er) => {
                    return Err(er);
                }
            }
            ob += 1;
        }
        let unk_buffers = match &vertex_data.unk7 {
            Some(unk) => match read_unk_buffers(unk, vertex_data) {
                Ok(v) => v,
                Err(er) => {
                    return Err(er);
                }
            },
            None => Vec::new(),
        };
        Ok(ModelBuffers { vertex_buffers, outline_buffers, index_buffers, unk_buffers, weights })
    }
}

/// The encoded section holds, at each vertex-buffer descriptor's offset,
/// exactly the interleaved encoding of the matching source arrays.
pub open spec fn vb_section_ok(
    descs: Seq<VertexBufferDescriptor>,
    bufs: Seq<VertexBuffer>,
    o: Seq<u8>,
    n: int,
) -> bool {
    forall|i: int| 0 <= i < n ==> {
        let d = #[trigger] descs[i];
        let attrs = bufs[i].attributes@;
        &&& d.data_offset + d.vertex_count * d.vertex_size <= o.len()
        &&& o.subrange(d.data_offset as int, d.data_offset + d.vertex_count * d.vertex_size)
            == crate::vertex::buffer_bytes(attrs, spec_attr_len(attrs[0]), Endian::Little)
    }
}

/// The encoded section holds, at each index-buffer descriptor's offset,
/// exactly the encoding of the matching index list.
pub open spec fn ix_section_ok(
    descs: Seq<IndexBufferDescriptor>,
    bufs: Seq<IndexBuffer>,
    o: Seq<u8>,
    n: int,
) -> bool {
    forall|b: int| 0 <= b < n ==> {
        let d = #[trigger] descs[b];
        &&& d.data_offset + 2 * d.index_count <= o.len()
        &&& d.index_count == bufs[b].indices@.len()
        &&& o.subrange(d.data_offset as int, d.data_offset + 2 * d.index_count)
            == crate::vertex::enc_indices(bufs[b].indices@, Endian::Little)
    }
}

/// Growing the buffer preserves the vertex-buffer section claims.
proof fn lemma_vb_section_extend(
    descs: Seq<VertexBufferDescriptor>,
    bufs: Seq<VertexBuffer>,
    o: Seq<u8>,
    o2: Seq<u8>,
    n: int,
)
    requires
        vb_section_ok(descs, bufs, o, n),
        o.len() <= o2.len(),
        o2.subrange(0, o.len() as int) =~= o,
    ensures
        vb_section_ok(descs, bufs, o2, n),
{
    assert forall|i: int| 0 <= i < n implies {
        let d = #[trigger] descs[i];
        let attrs = bufs[i].attributes@;
        &&& d.data_offset + d.vertex_count * d.vertex_size <= o2.len()
        &&& o2.subrange(d.data_offset as int, d.data_offset + d.vertex_count * d.vertex_size)
            == crate::vertex::buffer_bytes(attrs, spec_attr_len(attrs[0]), Endian::Little)
    } by {
        let d = descs[i];
        assert forall|m: int| 0 <= m < o.len() implies o2[m] == o[m] by {
            assert(o2.subrange(0, o.len() as int)[m] == o2[m]);
        }
        assert(o2.subrange(d.data_offset as int, d.data_offset + d.vertex_count * d.vertex_size)
            =~= o.subrange(d.data_offset as int, d.data_offset + d.vertex_count
            * d.vertex_size));
    }
}

/// Growing the buffer preserves the index-buffer section claims.
proof fn lemma_ix_section_extend(
    descs: Seq<IndexBufferDescriptor>,
    bufs: Seq<IndexBuffer>,
    o: Seq<u8>,
    o2: Seq<u8>,
    n: int,
)
    requires
        ix_section_ok(descs, bufs, o, n),
        o.len() <= o2.len(),
        o2.subrange(0, o.len() as int) =~= o,
    ensures
        ix_section_ok(descs, bufs, o2, n),
{
    assert forall|b: int| 0 <= b < n implies {
        let d = #[trigger] descs[b];
        &&& d.data_offset + 2 * d.index_count <= o2.len()
        &&& d.index_count == bufs[b].indices@.len()
        &&& o2.subrange(d.data_offset as int, d.data_offset + 2 * d.index_count)
            == crate::vertex::enc_indices(bufs[b].indices@, Endian::Little)
    } by {
        let d = descs[b];
        assert forall|m: int| 0 <= m < o.len() implies o2[m] == o[m] by {
            assert(o2.subrange(0, o.len() as int)[m] == o2[m]);
        }
        assert(o2.subrange(d.data_offset as int, d.data_offset + 2 * d.index_count)
            =~= o.subrange(d.data_offset as int, d.data_offset + 2 * d.index_count));
    }
}

/// Every per-descriptor morph run claim survives growing the buffer.
proof fn lemma_runs_extend(
    descs: Seq<MorphDescriptor>,
    targets: Seq<crate::vertex::MorphTarget>,
    bufs: Seq<VertexBuffer>,
    o: Seq<u8>,
    o2: Seq<u8>,
)
    requires
        forall|d: int| 0 <= d < descs.len() ==> (#[trigger] descs[d]).vertex_buffer_index
            < bufs.len() && descs[d].target_start_index + 2 + descs[d].param_indices@.len()
            <= targets.len() && morph_run_ok(targets.subrange(descs[d].target_start_index as int,
            descs[d].target_start_index + 2 + descs[d].param_indices@.len()),
            bufs[descs[d].vertex_buffer_index as int], o),
        o.len() <= o2.len(),
        o2.subrange(0, o.len() as int) =~= o,
    ensures
        forall|d: int| 0 <= d < descs.len() ==> (#[trigger] descs[d]).vertex_buffer_index
            < bufs.len() && descs[d].target_start_index + 2 + descs[d].param_indices@.len()
            <= targets.len() && morph_run_ok(targets.subrange(descs[d].target_start_index as int,
            descs[d].target_start_index + 2 + descs[d].param_indices@.len()),
            bufs[descs[d].vertex_buffer_index as int], o2),
{
    assert forall|d: int| 0 <= d < descs.len() implies (
    #[trigger] descs[d]).vertex_buffer_index < bufs.len() && descs[d].target_start_index + 2
        + descs[d].param_indices@.len() <= targets.len() && morph_run_ok(targets.subrange(
        descs[d].target_start_index as int, descs[d].target_start_index + 2
        + descs[d].param_indices@.len()), bufs[descs[d].vertex_buffer_index as int], o2) by {
        lemma_morph_run_extend(targets.subrange(descs[d].target_start_index as int,
            descs[d].target_start_index + 2 + descs[d].param_indices@.len()),
            bufs[descs[d].vertex_buffer_index as int], o, o2);
    }
}

/// The struct-of-arrays model holds no buffers at all.
pub open spec fn model_empty(mb: ModelBuffers) -> bool {
    mb.vertex_buffers@.len() == 0 && mb.outline_buffers@.len() == 0 && mb.index_buffers@.len()
        == 0 && mb.unk_buffers@.len() == 0 && mb.weights is None
}

impl ModelBuffers {
    /// Encodes every buffer into a fresh vertex data section.
    ///
    /// Vertex buffers come first (the skinning buffer last among them),
    /// then outline buffers, four-byte-aligned index buffers, the morph
    /// section after 256-byte alignment, the auxiliary section after
    /// another, and finally 4096-byte alignment of the whole section. The
    /// written bytes at each vertex- and index-buffer descriptor are
    /// exactly the encodings of the source arrays.
    #[verifier::rlimit(100)]
    pub fn to_vertex_data(&self) -> (r: Result<VertexData, Xc3Error>)
        ensures
            r matches Ok(vd) ==> {
                &&& vd.vertex_buffers@.len() == self.vertex_buffers@.len() + (
                if self.weights is Some {
                    1int
                } else {
                    0int
                })
                &&& vd.index_buffers@.len() == self.index_buffers@.len()
                &&& vd.outline_buffers@.len() == self.outline_buffers@.len()
                &&& vd.vertex_buffer_info@.len() == self.vertex_buffers@.len()
                &&& vb_section_ok(vd.vertex_buffers@, self.vertex_buffers@, vd.buffer@,
                    self.vertex_buffers@.len() as int)
                &&& ix_section_ok(vd.index_buffers@, self.index_buffers@, vd.buffer@,
                    self.index_buffers@.len() as int)
                &&& vd.buffer@.len() as int % 4096 == 0
                &&& (vd.vertex_morphs matches Some(m) ==> forall|d: int|
                    0 <= d < m.descriptors@.len() ==> (
                #[trigger] m.descriptors@[d]).vertex_buffer_index < self.vertex_buffers@.len()
                    && m.descriptors@[d].target_start_index + 2
                    + m.descriptors@[d].param_indices@.len() <= m.targets@.len() && morph_run_ok(
                    m.targets@.subrange(m.descriptors@[d].target_start_index as int,
                    m.descriptors@[d].target_start_index + 2
                    + m.descriptors@[d].param_indices@.len()),
                    self.vertex_buffers@[m.descriptors@[d].vertex_buffer_index as int],
                    vd.buffer@))
                &&& (vd.weights matches Some(w) ==> (vd.vertex_buffers@.len() <= 0x10000
                    ==> w.vertex_buffer_index == vd.vertex_buffers@.len() - 1))
            },
            model_empty(*self) ==> r is Ok,
    {
        let mut out: Vec<u8> = Vec::new();
        let mut vertex_buffers: Vec<VertexBufferDescriptor> = Vec::new();
        let mut index_buffers: Vec<IndexBufferDescriptor> = Vec::new();
        let mut outline_buffers: Vec<OutlineBufferDescriptor> = Vec::new();

        let n = self.vertex_buffers.len();
        let mut i: usize = 0;
        while i < n
            invariant
                i <= n,
                n == self.vertex_buffers@.len(),
                vertex_buffers@.len() == i,
                vb_section_ok(vertex_buffers@, self.vertex_buffers@, out@, i as int),
                model_empty(*self) ==> out@.len() == 0,
            decreases n - i,
        {
            let ghost before = out@;
            let descriptor = match try_write_vertex_buffer(&mut out,
                &self.vertex_buffers[i].attributes, Endian::Little) {
                Ok(d) => d,
                Err(er) => {
                    return Err(er);
                }
            };
            proof {
                let attrs = self.vertex_buffers@[i as int].attributes@;
                let cnt = spec_attr_len(attrs[0]);
                crate::vertex::lemma_buffer_bytes_len(attrs, cnt, Endian::Little);
                assert(out@.subrange(0, before.len() as int) =~= before);
                lemma_vb_section_extend(vertex_buffers@, self.vertex_buffers@, before, out@,
                    i as int);
                assert(out@.subrange(descriptor.data_offset as int, descriptor.data_offset
                    + descriptor.vertex_count * descriptor.vertex_size)
                    =~= crate::vertex::buffer_bytes(attrs, cnt, Endian::Little));
            }
            vertex_buffers.push(descriptor);
            i += 1;
        }

        if self.weights.is_some() {
            let skin = match &self.weights {
                Some(w) => {
                    if w.weight_buffers.len() == 0 {
                        return Err(Xc3Error::InvariantViolation);
                    }
                    let wb = &w.weight_buffers[0];
                    let mut attrs: Vec<AttributeData> = Vec::new();
                    match &wb.weights {
                        WeightValues::Normalized(v) => {
                            attrs.push(AttributeData::SkinWeights(copy_vec(v)));
                        }
                        WeightValues::Triples(v) => {
                            attrs.push(AttributeData::SkinWeights2(copy_vec(v)));
                        }
                    }
                    attrs.push(AttributeData::BoneIndices(copy_vec(&wb.bone_indices)));
                    attrs
                }
                None => {
                    return Err(Xc3Error::InvariantViolation);
                }
            };
            let ghost before = out@;
            let descriptor = match try_write_vertex_buffer(&mut out, &skin, Endian::Little) {
                Ok(d) => d,
                Err(er) => {
                    return Err(er);
                }
            };
            proof {
                assert(out@.subrange(0, before.len() as int) =~= before);
                lemma_vb_section_extend(vertex_buffers@, self.vertex_buffers@, before, out@,
                    n as int);
            }
            vertex_buffers.push(descriptor);
        }

        let mut ob: usize = 0;
        while ob < self.outline_buffers.len()
            invariant
                ob <= self.outline_buffers@.len(),
                outline_buffers@.len() == ob,
                vertex_buffers@.len() == self.vertex_buffers@.len() + (
                if self.weights is Some {
                    1int
                } else {
                    0int
                }),
                vb_section_ok(vertex_buffers@, self.vertex_buffers@, out@,
                    self.vertex_buffers@.len() as int),
                model_empty(*self) ==> out@.len() == 0,
            decreases self.outline_buffers@.len() - ob,
        {
            let ghost before = out@;
            let descriptor = match write_outline_buffer(&mut out,
                &self.outline_buffers[ob].attributes) {
                Ok(d) => d,
                Err(er) => {
                    return Err(er);
                }
            };
            proof {
                assert(out@.subrange(0, before.len() as int) =~= before);
                lemma_vb_section_extend(vertex_buffers@, self.vertex_buffers@, before, out@,
                    self.vertex_buffers@.len() as int);
            }
            outline_buffers.push(descriptor);
            ob += 1;
        }

        let mut ib: usize = 0;
        while ib < self.index_buffers.len()
            invariant
                ib <= self.index_buffers@.len(),
                index_buffers@.len() == ib,
                vertex_buffers@.len() == self.vertex_buffers@.len() + (
                if self.weights is Some {
                    1int
                } else {
                    0int
                }),
                outline_buffers@.len() == self.outline_buffers@.len(),
                vb_section_ok(vertex_buffers@, self.vertex_buffers@, out@,
                    self.vertex_buffers@.len() as int),
                ix_section_ok(index_buffers@, self.index_buffers@, out@, ib as int),
                model_empty(*self) ==> out@.len() == 0,
            decreases self.index_buffers@.len() - ib,
        {
            let ghost before_pad = out@;
            match try_align(&mut out, 4) {
                Ok(_) => {}
                Err(er) => {
                    return Err(er);
                }
            }
            proof {
                lemma_vb_section_extend(vertex_buffers@, self.vertex_buffers@, before_pad, out@,
                    self.vertex_buffers@.len() as int);
                lemma_ix_section_extend(index_buffers@, self.index_buffers@, before_pad, out@,
                    ib as int);
            }
            let indices = &self.index_buffers[ib].indices;
            if (out.len() as u128) + 2 * (indices.len() as u128) > u32::MAX as u128 {
                return Err(Xc3Error::InvariantViolation);
            }
            let ghost before = out@;
            let descriptor = crate::vertex::write_index_buffer(&mut out, indices,
                Endian::Little);
            proof {
                crate::vertex::lemma_enc_indices_len(indices@, Endian::Little);
                assert(out@.subrange(0, before.len() as int) =~= before);
                lemma_vb_section_extend(vertex_buffers@, self.vertex_buffers@, before, out@,
                    self.vertex_buffers@.len() as int);
                lemma_ix_section_extend(index_buffers@, self.index_buffers@, before, out@,
                    ib as int);
                assert(out@.subrange(descriptor.data_offset as int, descriptor.data_offset + 2
                    * descriptor.index_count) =~= crate::vertex::enc_indices(indices@,
                    Endian::Little));
            }
            index_buffers.push(descriptor);
            ib += 1;
        }

        let ghost before_morph_pad = out@;
        match try_align(&mut out, 256) {
            Ok(_) => {}
            Err(er) => {
                return Err(er);
            }
        }
        proof {
            lemma_vb_section_extend(vertex_buffers@, self.vertex_buffers@, before_morph_pad,
                out@, self.vertex_buffers@.len() as int);
            lemma_ix_section_extend(index_buffers@, self.index_buffers@, before_morph_pad, out@,
                self.index_buffers@.len() as int);
        }

        let mut any_morphs = false;
        let mut mi: usize = 0;
        while mi < self.vertex_buffers.len()
            invariant
                mi <= self.vertex_buffers@.len(),
                model_empty(*self) ==> !any_morphs,
            decreases self.vertex_buffers@.len() - mi,
        {
            if self.vertex_buffers[mi].morph_targets.len() > 0 {
                any_morphs = true;
            }
            mi += 1;
        }

        let vertex_morphs = if any_morphs {
            let ghost before = out@;
            let morphs = match write_morph_targets(&mut out, &self.vertex_buffers) {
                Ok(m) => m,
                Err(er) => {
                    return Err(er);
                }
            };
            proof {
                lemma_vb_section_extend(vertex_buffers@, self.vertex_buffers@, before, out@,
                    self.vertex_buffers@.len() as int);
                lemma_ix_section_extend(index_buffers@, self.index_buffers@, before, out@,
                    self.index_buffers@.len() as int);
            }
            Some(morphs)
        } else {
            None
        };

        let ghost before_unk_pad = out@;
        match try_align(&mut out, 256) {
            Ok(_) => {}
            Err(er) => {
                return Err(er);
            }
        }
        proof {
            lemma_vb_section_extend(vertex_buffers@, self.vertex_buffers@, before_unk_pad, out@,
                self.vertex_buffers@.len() as int);
            lemma_ix_section_extend(index_buffers@, self.index_buffers@, before_unk_pad, out@,
                self.index_buffers@.len() as int);
            if vertex_morphs is Some {
                lemma_runs_extend(vertex_morphs->Some_0.descriptors@,
                    vertex_morphs->Some_0.targets@, self.vertex_buffers@, before_unk_pad, out@);
            }
        }

        let unk7 = if self.unk_buffers.len() > 0 {
            let ghost before = out@;
            let unk = match write_unk_buffers(&mut out, &self.unk_buffers) {
                Ok(u) => u,
                Err(er) => {
                    return Err(er);
                }
            };
            proof {
                lemma_vb_section_extend(vertex_buffers@, self.vertex_buffers@, before, out@,
                    self.vertex_buffers@.len() as int);
                lemma_ix_section_extend(index_buffers@, self.index_buffers@, before, out@,
                    self.index_buffers@.len() as int);
                if vertex_morphs is Some {
                    lemma_runs_extend(vertex_morphs->Some_0.descriptors@,
                        vertex_morphs->Some_0.targets@, self.vertex_buffers@, before, out@);
                }
            }
            Some(unk)
        } else {
            None
        };

        let ghost before_final_pad = out@;
        match try_align(&mut out, 4096) {
            Ok(_) => {}
            Err(er) => {
                return Err(er);
            }
        }
        proof {
            lemma_vb_section_extend(vertex_buffers@, self.vertex_buffers@, before_final_pad,
                out@, self.vertex_buffers@.len() as int);
            lemma_ix_section_extend(index_buffers@, self.index_buffers@, before_final_pad, out@,
                self.index_buffers@.len() as int);
            if vertex_morphs is Some {
                lemma_runs_extend(vertex_morphs->Some_0.descriptors@,
                    vertex_morphs->Some_0.targets@, self.vertex_buffers@, before_final_pad,
                    out@);
            }
        }

        let mut vertex_buffer_info: Vec<crate::vertex::VertexBufferExtInfo> = Vec::new();
        let mut vi: usize = 0;
        while vi < self.vertex_buffers.len()
            invariant
                vi <= self.vertex_buffers@.len(),
                vertex_buffer_info@.len() == vi,
            decreases self.vertex_buffers@.len() - vi,
        {
            let buffer = &self.vertex_buffers[vi];
            let mut start: u16 = 0;
            let mut count: u16 = 0;
            match &vertex_morphs {
                Some(morphs) => {
                    let mut d: usize = 0;
                    while d < morphs.descriptors.len()
                        invariant
                            d <= morphs.descriptors@.len(),
                            vi <= self.vertex_buffers@.len(),
                        decreases morphs.descriptors@.len() - d,
                    {
                        let descriptor = &morphs.descriptors[d];
                        if descriptor.vertex_buffer_index as usize == vi {
                            start = descriptor.target_start_index as u16;
                            count = if descriptor.param_indices.len() <= 0xffff {
                                descriptor.param_indices.len() as u16
                            } else {
                                0
                            };
                        }
                        d += 1;
                    }
                }
                None => {}
            }
            let outline_index: u16 = match buffer.outline_buffer_index {
                Some(ix) => {
                    if ix <= 0xffff {
                        ix as u16
                    } else {
                        0
                    }
                }
                None => 0,
            };
            vertex_buffer_info.push(crate::vertex::VertexBufferExtInfo {
                flags: crate::vertex::VertexBufferExtInfoFlags::new(
                    buffer.outline_buffer_index.is_some(), buffer.morph_targets.len() > 0, 0),
                outline_buffer_index: outline_index,
                morph_target_start_index: start,
                morph_target_count: count,
                unk: 0,
            });
            vi += 1;
        }

        let weights = match &self.weights {
            Some(w) => match &w.weight_groups {
                WeightGroups::Legacy { .. } => None,
                WeightGroups::Groups { weight_groups, weight_lods } => {
                    let buffer_index = vertex_buffers.len() - 1;
                    Some(crate::vertex::Weights {
                        groups: copy_vec(weight_groups),
                        vertex_buffer_index: if buffer_index <= 0xffff {
                            buffer_index as u16
                        } else {
                            0
                        },
                        weight_lods: copy_vec(weight_lods),
                        unk4: 1,
                        unks5: [0, 0, 0, 0],
                    })
                }
            },
            None => None,
        };

        Ok(VertexData {
            vertex_buffers,
            index_buffers,
            unk0: 0,
            unk1: 0,
            unk2: 0,
            vertex_buffer_info,
            outline_buffers,
            vertex_morphs,
            buffer: out,
            weights,
            unk7,
            unks: [0, 0, 0, 0, 0],
        })
    }
}

} // verus!
