//! Selection rules, morph bookkeeping, and error reporting.
use xc3_lib::buffers::{union_indices, MorphTarget};
use xc3_lib::cursor::Endian;
use xc3_lib::error::Xc3Error;
use xc3_lib::models::should_render_lod;
use xc3_lib::map::{add_prop_instances, PropInstance, PropLod, TextureIndexCache, TextureKey};
use xc3_lib::vertex::{
    read_vertex_attributes, DataType, MorphTargetFlags, VertexAttribute,
};

#[test]
fn test() {}

#[test]
fn base_lod_meshes_render() {
    // Mesh values are one-indexed against a zero-indexed table.
    assert!(should_render_lod(1, &Some(vec![0, 3])));
    assert!(!should_render_lod(2, &Some(vec![0, 3])));
    assert!(should_render_lod(4, &Some(vec![0, 3])));
    assert!(should_render_lod(0, &Some(vec![0, 3])));
    // Without a table every mesh renders.
    assert!(should_render_lod(7, &None));
}

#[test]
fn morph_default_indices_are_union_of_params() {
    // The reconstructed default target covers exactly the vertices any
    // parameter target modifies, in ascending order without duplicates.
    let target = |indices: Vec<u32>| MorphTarget {
        morph_controller_index: 0,
        position_deltas: Vec::new(),
        normals: Vec::new(),
        tangents: Vec::new(),
        vertex_indices: indices,
    };
    let targets = vec![
        target(vec![5, 1, 9]),
        target(vec![1, 7]),
        target(vec![9, 2, 2]),
    ];
    assert_eq!(union_indices(&targets), vec![1, 2, 5, 7, 9]);
    assert_eq!(union_indices(&Vec::new()), Vec::<u32>::new());
}

#[test]
fn morph_target_flags_round_trip() {
    // Unknown bit regions survive a decode and re-encode verbatim.
    for bits in [0u16, 0x10, 0x20, 0x40, 0x75, 0xffff, 0x1234] {
        let flags = MorphTargetFlags::from_bits(bits);
        assert_eq!(flags.to_bits(), bits);
    }
    let blend = MorphTargetFlags::from_bits(0x10);
    assert!(blend.blend_target_buffer);
    assert!(!blend.default_buffer);
    assert!(!blend.param_buffer);
}

#[test]
fn unsupported_attribute_code_is_rejected() {
    let data = vec![0u8; 64];
    let attrs = vec![VertexAttribute { data_type: DataType::WeightIndex2, data_size: 4 }];
    match read_vertex_attributes(0, 2, 4, &attrs, &data, Endian::Little) {
        Err(Xc3Error::AttributeUnsupported { type_code }) => assert_eq!(type_code, 4),
        other => panic!("expected an unsupported attribute, got {other:?}"),
    }
}

#[test]
fn attribute_type_codes_round_trip() {
    for dt in [
        DataType::Position,
        DataType::WeightIndex,
        DataType::TexCoord0,
        DataType::TexCoord8,
        DataType::Blend,
        DataType::VertexColor,
        DataType::Normal,
        DataType::Tangent,
        DataType::Normal2,
        DataType::Position2,
        DataType::Normal4,
        DataType::OldPosition,
        DataType::Tangent2,
        DataType::SkinWeights,
        DataType::BoneIndices,
        DataType::SkinWeights2,
        DataType::BoneIndices2,
    ] {
        assert_eq!(DataType::from_code(dt.code()).unwrap(), dt);
    }
    match DataType::from_code(100) {
        Err(Xc3Error::AttributeUnsupported { type_code }) => assert_eq!(type_code, 100),
        other => panic!("expected an unsupported attribute, got {other:?}"),
    }
}

#[test]
fn short_buffer_is_reported() {
    let data = vec![0u8; 4];
    let attrs = vec![VertexAttribute { data_type: DataType::Position, data_size: 12 }];
    match read_vertex_attributes(0, 2, 12, &attrs, &data, Endian::Little) {
        Err(Xc3Error::UnexpectedEof { .. }) => {}
        other => panic!("expected an end-of-file error, got {other:?}"),
    }
}

#[test]
fn out_of_bounds_region_is_reported() {
    // A non-empty entry table past the end of the file names the
    // offending offset and the file size.
    let mut bytes = vec![0u8; 52];
    bytes[0..4].copy_from_slice(b"DMPA");
    bytes[8..12].copy_from_slice(&1000u32.to_le_bytes());
    bytes[12..16].copy_from_slice(&4u32.to_le_bytes());
    match xc3_lib::apmd::Apmd::read(&bytes) {
        Err(Xc3Error::OffsetOutOfBounds { offset, file_size }) => {
            assert_eq!(offset, 1000);
            assert_eq!(file_size, 52);
        }
        other => panic!("expected an out-of-bounds offset, got {other:?}"),
    }
}

#[test]
fn texture_index_cache_write_once() {
    // Keys are assigned indices in insertion order; a repeated key keeps
    // its index and leaves the cache unchanged.
    let key = |a: i16, b: i16, c: i16| TextureKey {
        low_texture_index: a,
        low_textures_entry_index: b,
        texture_index: c,
    };
    let mut cache = TextureIndexCache::new();
    assert_eq!(cache.insert(key(0, 0, 1)), 0);
    assert_eq!(cache.insert(key(2, 1, -1)), 1);
    assert_eq!(cache.insert(key(0, 0, 1)), 0);
    assert_eq!(cache.insert(key(2, 1, -1)), 1);
    assert_eq!(cache.insert(key(3, 0, 0)), 2);
    assert_eq!(cache.len(), 3);
    assert_eq!(cache.get(1), Some(key(2, 1, -1)));
    assert_eq!(cache.get(3), None);
}

#[test]
fn prop_instances_route_to_base_lod_models() {
    // Two models; three instances. The second prop entry carries high
    // flag bits that the 28-bit mask strips.
    let props = vec![
        PropLod { base_lod_index: 1, lod_count: 1 },
        PropLod { base_lod_index: 0xA000_0000, lod_count: 1 },
    ];
    let t = |v: u32| -> [u32; 16] { [v; 16] };
    let instances = vec![
        PropInstance { transform: t(1), prop_index: 0 },
        PropInstance { transform: t(2), prop_index: 1 },
        PropInstance { transform: t(3), prop_index: 0 },
    ];
    let mut model_instances: Vec<Vec<[u32; 16]>> = vec![Vec::new(), Vec::new()];
    add_prop_instances(&mut model_instances, &props, &instances).unwrap();
    assert_eq!(model_instances[0], vec![t(2)]);
    assert_eq!(model_instances[1], vec![t(1), t(3)]);

    // An instance naming a missing model is rejected without routing.
    let bad = vec![PropInstance { transform: t(9), prop_index: 5 }];
    let mut untouched: Vec<Vec<[u32; 16]>> = vec![Vec::new()];
    assert!(add_prop_instances(&mut untouched, &props, &bad).is_err());
    assert!(untouched[0].is_empty());
}
