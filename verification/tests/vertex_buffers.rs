//! Byte-exact decode and re-encode of vertex, index, morph, outline and
//! auxiliary buffers.
use xc3_lib::buffers::{
    read_morph_blend_target, read_morph_buffer_target, read_outline_buffer, read_unk_buffer,
    try_write_vertex_buffer, write_morph_blend_target, write_unk_buffer,
};
use xc3_lib::cursor::Endian;
use xc3_lib::vertex::{
    read_indices, read_vertex_attributes, write_index_buffer, AttributeData, DataType,
    IndexBufferDescriptor, IndexFormat, MorphTarget, MorphTargetFlags, OutlineBufferDescriptor,
    PrimitiveType, UnkBufferDescriptor, VertexAttribute, VertexBufferDescriptor,
};

fn hex(s: &str) -> Vec<u8> {
    let digits: Vec<u32> = s.chars().filter_map(|c| c.to_digit(16)).collect();
    digits.chunks(2).map(|p| (p[0] * 16 + p[1]) as u8).collect()
}

fn attr(data_type: DataType, data_size: u16) -> VertexAttribute {
    VertexAttribute { data_type, data_size }
}

fn f3(v: &xc3_lib::vertex::F32x3) -> (f32, f32, f32) {
    (f32::from_bits(v.x), f32::from_bits(v.y), f32::from_bits(v.z))
}

fn f2(v: &xc3_lib::vertex::F32x2) -> (f32, f32) {
    (f32::from_bits(v.x), f32::from_bits(v.y))
}

fn unorm8(v: &xc3_lib::vertex::U8x4) -> (f32, f32, f32, f32) {
    (
        v.x as f32 / 255.0,
        v.y as f32 / 255.0,
        v.z as f32 / 255.0,
        v.w as f32 / 255.0,
    )
}

fn snorm8(v: &xc3_lib::vertex::U8x4) -> (f32, f32, f32, f32) {
    (
        v.x as i8 as f32 / 127.0,
        v.y as i8 as f32 / 127.0,
        v.z as i8 as f32 / 127.0,
        v.w as i8 as f32 / 127.0,
    )
}

fn rebias8(v: &xc3_lib::vertex::U8x4) -> (f32, f32, f32, f32) {
    (
        v.x as f32 / 255.0 * 2.0 - 1.0,
        v.y as f32 / 255.0 * 2.0 - 1.0,
        v.z as f32 / 255.0 * 2.0 - 1.0,
        v.w as f32 / 255.0 * 2.0 - 1.0,
    )
}

#[test]
fn vertex_buffer_indices() {
    let data = hex("00000100 02000100");

    let descriptor = IndexBufferDescriptor {
        data_offset: 0,
        index_count: 4,
        primitive_type: PrimitiveType::TriangleList,
        index_format: IndexFormat::Uint16,
        unk3: 0,
        unk4: 0,
    };

    let indices = read_indices(&descriptor, &data, Endian::Little).unwrap();
    assert_eq!(vec![0, 1, 2, 1], indices);

    let mut writer = Vec::new();
    let new_descriptor = write_index_buffer(&mut writer, &indices, Endian::Little);
    assert_eq!(new_descriptor, descriptor);
    assert_eq!(data, writer);
}

#[test]
fn vertex_buffer_vertices() {
    let data = hex(
        "459ecd3d 8660673f f2ad923d
         13010000
         fd8d423f aea11b3f
         7f00ffff
         21fb7a00
         7a00df7f
         8879143e 81d46a3f 54db4e3d
         14010000
         72904a3f 799d193f
         7f00ffff
         620c4f00
         4f009e7f",
    );

    let descriptor = VertexBufferDescriptor {
        data_offset: 0,
        vertex_count: 2,
        vertex_size: 36,
        attributes: vec![
            attr(DataType::Position, 12),
            attr(DataType::WeightIndex, 4),
            attr(DataType::TexCoord0, 8),
            attr(DataType::VertexColor, 4),
            attr(DataType::Normal, 4),
            attr(DataType::Tangent, 4),
        ],
        unk1: 0,
        unk2: 0,
        unk3: 0,
    };

    let attributes = read_vertex_attributes(
        descriptor.data_offset,
        descriptor.vertex_count,
        descriptor.vertex_size,
        &descriptor.attributes,
        &data,
        Endian::Little,
    )
    .unwrap();

    match &attributes[0] {
        AttributeData::Position(v) => {
            assert_eq!(f3(&v[0]), (0.10039953, 0.9038166, 0.07162084));
            assert_eq!(f3(&v[1]), (0.14499485, 0.91730505, 0.050502136));
        }
        other => panic!("unexpected attribute {other:?}"),
    }
    match &attributes[1] {
        AttributeData::WeightIndex(v) => {
            assert_eq!((v[0].x, v[0].y), (275, 0));
            assert_eq!((v[1].x, v[1].y), (276, 0));
        }
        other => panic!("unexpected attribute {other:?}"),
    }
    match &attributes[2] {
        AttributeData::TexCoord0(v) => {
            assert_eq!(f2(&v[0]), (0.75997907, 0.6079358));
            assert_eq!(f2(&v[1]), (0.79126656, 0.6000591));
        }
        other => panic!("unexpected attribute {other:?}"),
    }
    match &attributes[3] {
        AttributeData::VertexColor(v) => {
            assert_eq!(unorm8(&v[0]), (0.49803922, 0.0, 1.0, 1.0));
            assert_eq!(unorm8(&v[1]), (0.49803922, 0.0, 1.0, 1.0));
        }
        other => panic!("unexpected attribute {other:?}"),
    }
    match &attributes[4] {
        AttributeData::Normal(v) => {
            assert_eq!(snorm8(&v[0]), (0.25984251, -0.03937008, 0.96062994, 0.0));
            assert_eq!(snorm8(&v[1]), (0.77165353, 0.09448819, 0.62204725, 0.0));
        }
        other => panic!("unexpected attribute {other:?}"),
    }
    match &attributes[5] {
        AttributeData::Tangent(v) => {
            assert_eq!(snorm8(&v[0]), (0.96062994, 0.0, -0.25984251, 1.0));
            assert_eq!(snorm8(&v[1]), (0.62204725, 0.0, -0.77165353, 1.0));
        }
        other => panic!("unexpected attribute {other:?}"),
    }

    let mut writer = Vec::new();
    let new_descriptor = try_write_vertex_buffer(&mut writer, &attributes, Endian::Little).unwrap();
    assert_eq!(new_descriptor, descriptor);
    assert_eq!(data, writer);
}

#[test]
fn weight_buffer_vertices() {
    let data = hex(
        "aec75138 00000000 18170000
         1ec5e13a 00000000 18170000",
    );

    let descriptor = VertexBufferDescriptor {
        data_offset: 0,
        vertex_count: 2,
        vertex_size: 12,
        attributes: vec![attr(DataType::SkinWeights, 8), attr(DataType::BoneIndices, 4)],
        unk1: 0,
        unk2: 0,
        unk3: 0,
    };

    let attributes = read_vertex_attributes(
        descriptor.data_offset,
        descriptor.vertex_count,
        descriptor.vertex_size,
        &descriptor.attributes,
        &data,
        Endian::Little,
    )
    .unwrap();

    match &attributes[0] {
        AttributeData::SkinWeights(v) => {
            let w0 = (
                v[0].x as f32 / 65535.0,
                v[0].y as f32 / 65535.0,
                v[0].z as f32 / 65535.0,
                v[0].w as f32 / 65535.0,
            );
            assert_eq!(w0, (0.7800107, 0.21998931, 0.0, 0.0));
            let w1 = (
                v[1].x as f32 / 65535.0,
                v[1].y as f32 / 65535.0,
                v[1].z as f32 / 65535.0,
                v[1].w as f32 / 65535.0,
            );
            assert_eq!(w1, (0.77000076, 0.22999924, 0.0, 0.0));
        }
        other => panic!("unexpected attribute {other:?}"),
    }
    match &attributes[1] {
        AttributeData::BoneIndices(v) => {
            assert_eq!((v[0].x, v[0].y, v[0].z, v[0].w), (24, 23, 0, 0));
            assert_eq!((v[1].x, v[1].y, v[1].z, v[1].w), (24, 23, 0, 0));
        }
        other => panic!("unexpected attribute {other:?}"),
    }

    let mut writer = Vec::new();
    let new_descriptor = try_write_vertex_buffer(&mut writer, &attributes, Endian::Little).unwrap();
    assert_eq!(new_descriptor, descriptor);
    assert_eq!(data, writer);
}

#[test]
fn map_vertex_buffer_vertices() {
    let data = hex(
        "3c873845 d0a15c43 988cbcc3
         dc92fd3f c6913dc2
         588b0e40 9a103ec2
         dc92fd3f c6913dc2
         8e691940 d8cd16c0
         b4401a40 113a17c0
         8e691940 d8cd16c0
         bca0333e d801133f
         493e223f dec2e33e
         0e5cd2be e062dd3d
         7f007f00
         ffffffff
         f1782300
         7d10017f
         42823845 fe6b5c43 c159bcc3
         42a1f83f 955b3dc2
         1ecd0b40 3de23dc2
         8898f83f ef5e3dc2
         ce471940 9a9f16c0
         401b1a40 811217c0
         92471940 77a216c0
         c0674f3e 8a09163f
         1c78233f f2c31b3f
         fbaedabe 20fa093e
         0000ff00
         ffffffff
         e8752a00
         7c1a007f",
    );

    let descriptor = VertexBufferDescriptor {
        data_offset: 0,
        vertex_count: 2,
        vertex_size: 100,
        attributes: vec![
            attr(DataType::Position, 12),
            attr(DataType::TexCoord0, 8),
            attr(DataType::TexCoord1, 8),
            attr(DataType::TexCoord2, 8),
            attr(DataType::TexCoord3, 8),
            attr(DataType::TexCoord4, 8),
            attr(DataType::TexCoord5, 8),
            attr(DataType::TexCoord6, 8),
            attr(DataType::TexCoord7, 8),
            attr(DataType::TexCoord8, 8),
            attr(DataType::Blend, 4),
            attr(DataType::VertexColor, 4),
            attr(DataType::Normal, 4),
            attr(DataType::Tangent, 4),
        ],
        unk1: 0,
        unk2: 0,
        unk3: 0,
    };

    let attributes = read_vertex_attributes(
        descriptor.data_offset,
        descriptor.vertex_count,
        descriptor.vertex_size,
        &descriptor.attributes,
        &data,
        Endian::Little,
    )
    .unwrap();

    match &attributes[0] {
        AttributeData::Position(v) => {
            assert_eq!(f3(&v[0]), (2952.4521, 220.63208, -377.0984));
            assert_eq!(f3(&v[1]), (2952.141, 220.42184, -376.7012));
        }
        other => panic!("unexpected attribute {other:?}"),
    }
    match &attributes[1] {
        AttributeData::TexCoord0(v) => {
            assert_eq!(f2(&v[0]), (1.9810443, -47.392357));
            assert_eq!(f2(&v[1]), (1.9424212, -47.339436));
        }
        other => panic!("unexpected attribute {other:?}"),
    }
    match &attributes[2] {
        AttributeData::TexCoord1(v) => {
            assert_eq!(f2(&v[0]), (2.2272549, -47.516212));
            assert_eq!(f2(&v[1]), (2.1843944, -47.470936));
        }
        other => panic!("unexpected attribute {other:?}"),
    }
    match &attributes[3] {
        AttributeData::TexCoord2(v) => {
            assert_eq!(f2(&v[0]), (1.9810443, -47.392357));
            assert_eq!(f2(&v[1]), (1.9421549, -47.34271));
        }
        other => panic!("unexpected attribute {other:?}"),
    }
    match &attributes[4] {
        AttributeData::TexCoord3(v) => {
            assert_eq!(f2(&v[0]), (2.3970675, -2.3563137));
            assert_eq!(f2(&v[1]), (2.3950076, -2.3534913));
        }
        other => panic!("unexpected attribute {other:?}"),
    }
    match &attributes[5] {
        AttributeData::TexCoord4(v) => {
            assert_eq!(f2(&v[0]), (2.4101992, -2.362919));
            assert_eq!(f2(&v[1]), (2.4079132, -2.3605044));
        }
        other => panic!("unexpected attribute {other:?}"),
    }
    match &attributes[6] {
        AttributeData::TexCoord5(v) => {
            assert_eq!(f2(&v[0]), (2.3970675, -2.3563137));
            assert_eq!(f2(&v[1]), (2.3949933, -2.353666));
        }
        other => panic!("unexpected attribute {other:?}"),
    }
    match &attributes[7] {
        AttributeData::TexCoord6(v) => {
            assert_eq!(f2(&v[0]), (0.17541784, 0.5742469));
            assert_eq!(f2(&v[1]), (0.20254421, 0.58608305));
        }
        other => panic!("unexpected attribute {other:?}"),
    }
    match &attributes[8] {
        AttributeData::TexCoord7(v) => {
            assert_eq!(f2(&v[0]), (0.6337629, 0.4448461));
            assert_eq!(f2(&v[1]), (0.6385515, 0.60845864));
        }
        other => panic!("unexpected attribute {other:?}"),
    }
    match &attributes[9] {
        AttributeData::TexCoord8(v) => {
            assert_eq!(f2(&v[0]), (-0.41085857, 0.108098745));
            assert_eq!(f2(&v[1]), (-0.42711625, 0.13474321));
        }
        other => panic!("unexpected attribute {other:?}"),
    }
    match &attributes[10] {
        AttributeData::Blend(v) => {
            assert_eq!(unorm8(&v[0]), (0.49803922, 0.0, 0.49803922, 0.0));
            assert_eq!(unorm8(&v[1]), (0.0, 0.0, 1.0, 0.0));
        }
        other => panic!("unexpected attribute {other:?}"),
    }
    match &attributes[11] {
        AttributeData::VertexColor(v) => {
            assert_eq!(unorm8(&v[0]), (1.0, 1.0, 1.0, 1.0));
            assert_eq!(unorm8(&v[1]), (1.0, 1.0, 1.0, 1.0));
        }
        other => panic!("unexpected attribute {other:?}"),
    }
    match &attributes[12] {
        AttributeData::Normal(v) => {
            assert_eq!(snorm8(&v[0]), (-0.11811024, 0.9448819, 0.27559054, 0.0));
            assert_eq!(snorm8(&v[1]), (-0.18897638, 0.9212598, 0.33070865, 0.0));
        }
        other => panic!("unexpected attribute {other:?}"),
    }
    match &attributes[13] {
        AttributeData::Tangent(v) => {
            assert_eq!(snorm8(&v[0]), (0.984252, 0.12598425, 0.007874016, 1.0));
            assert_eq!(snorm8(&v[1]), (0.97637796, 0.20472442, 0.0, 1.0));
        }
        other => panic!("unexpected attribute {other:?}"),
    }

    let mut writer = Vec::new();
    let new_descriptor = try_write_vertex_buffer(&mut writer, &attributes, Endian::Little).unwrap();
    assert_eq!(new_descriptor, descriptor);
    assert_eq!(data, writer);
}

#[test]
fn morph_blend_target_vertices() {
    let data = hex(
        "2828333d 9bdcae3f e9c508bd
         e7415a01
         2828333d 9bdcae3f e9c508bd
         7dbe11ff
         52c6463d 8cddaf3f 56bf0abd
         ed4c5901
         52c6463d 8cddaf3f 56bf0abd
         7bc516ff",
    );

    let target = MorphTarget {
        data_offset: 0,
        vertex_count: 2,
        vertex_size: 32,
        flags: MorphTargetFlags {
            unk1: 0,
            blend_target_buffer: true,
            default_buffer: false,
            param_buffer: false,
            unk: 0,
        },
    };

    let attributes = read_morph_blend_target(&target, &data).unwrap();

    match &attributes[0] {
        AttributeData::Position2(v) => {
            assert_eq!(f3(&v[0]), (0.043739468, 1.3661073, -0.033391867));
            assert_eq!(f3(&v[1]), (0.048528977, 1.3739486, -0.03387388));
        }
        other => panic!("unexpected attribute {other:?}"),
    }
    match &attributes[1] {
        AttributeData::Normal4(v) => {
            assert_eq!(unorm8(&v[0]), (0.90588236, 0.25490198, 0.3529412, 0.003921569));
            assert_eq!(unorm8(&v[1]), (0.92941177, 0.29803923, 0.34901962, 0.003921569));
        }
        other => panic!("unexpected attribute {other:?}"),
    }
    match &attributes[2] {
        AttributeData::OldPosition(v) => {
            assert_eq!(f3(&v[0]), (0.043739468, 1.3661073, -0.033391867));
            assert_eq!(f3(&v[1]), (0.048528977, 1.3739486, -0.03387388));
        }
        other => panic!("unexpected attribute {other:?}"),
    }
    match &attributes[3] {
        AttributeData::Tangent2(v) => {
            assert_eq!(unorm8(&v[0]), (0.49019608, 0.74509805, 0.06666667, 1.0));
            assert_eq!(unorm8(&v[1]), (0.48235294, 0.77254903, 0.08627451, 1.0));
        }
        other => panic!("unexpected attribute {other:?}"),
    }

    let mut writer = Vec::new();
    let new_target = write_morph_blend_target(&mut writer, &attributes).unwrap();
    assert_eq!(new_target, target);
    assert_eq!(data, writer);
}

#[test]
fn read_morph_default_buffer_vertices() {
    let data = hex(
        "8c54023d bc27ac3f 72dd93bc
         00000000
         d6237601
         a0a90cff
         00000000
         04000000
         2b28153d 27e7ac3f 06d8b2bc
         00000000
         dd2c6b01
         8ead0aff
         00000000
         06000000",
    );

    let target = MorphTarget {
        data_offset: 0,
        vertex_count: 2,
        vertex_size: 32,
        flags: MorphTargetFlags {
            unk1: 0,
            blend_target_buffer: false,
            default_buffer: true,
            param_buffer: false,
            unk: 0,
        },
    };

    let rows = read_morph_buffer_target(&target, &data).unwrap();
    assert_eq!(rows.len(), 2);
    assert_eq!(f3(&rows[0].position_delta), (0.03181891, 1.3449626, -0.01804993));
    assert_eq!(rebias8(&rows[0].normal), (0.6784314, -0.7254902, -0.0745098, -0.99215686));
    assert_eq!(rebias8(&rows[0].tangent), (0.254902, 0.32549024, -0.90588236, 1.0));
    assert_eq!(rows[0].vertex_index, 4);
    assert_eq!(f3(&rows[1].position_delta), (0.03641526, 1.3508042, -0.021831524));
    assert_eq!(rebias8(&rows[1].normal), (0.73333335, -0.654902, -0.1607843, -0.99215686));
    assert_eq!(rebias8(&rows[1].tangent), (0.11372554, 0.35686278, -0.92156863, 1.0));
    assert_eq!(rows[1].vertex_index, 6);
}

#[test]
fn read_morph_param_buffer_vertices() {
    let data = hex(
        "f0462abb 00f0a4bb 80b31a39
         00000000
         f770a800
         6ad3ddff
         00000000
         d8000000
         c03fd9ba 005245bb 002027b7
         00000000
         f66fa900
         90fd83ff
         00000000
         d9000000",
    );

    let target = MorphTarget {
        data_offset: 0,
        vertex_count: 2,
        vertex_size: 32,
        flags: MorphTargetFlags {
            unk1: 0,
            blend_target_buffer: false,
            default_buffer: false,
            param_buffer: true,
            unk: 0,
        },
    };

    let rows = read_morph_buffer_target(&target, &data).unwrap();
    assert_eq!(rows.len(), 2);
    assert_eq!(
        f3(&rows[0].position_delta),
        (-0.0025982223, -0.005033493, 0.00014753453)
    );
    assert_eq!(rebias8(&rows[0].normal), (0.9372549, -0.12156862, 0.3176471, -1.0));
    assert_eq!(rebias8(&rows[0].tangent), (-0.16862744, 0.654902, 0.73333335, 1.0));
    assert_eq!(rows[0].vertex_index, 216);
    assert_eq!(
        f3(&rows[1].position_delta),
        (-0.0016574785, -0.003010869, -9.961426e-6)
    );
    assert_eq!(rebias8(&rows[1].normal), (0.92941177, -0.12941176, 0.32549024, -1.0));
    assert_eq!(rebias8(&rows[1].tangent), (0.12941182, 0.9843137, 0.027451038, 1.0));
    assert_eq!(rows[1].vertex_index, 217);
}

#[test]
fn unk_buffer_vertices_size24() {
    let data = hex(
        "7db21bbd 32f3ce3f 9d9ddbbd
         ff000000
         02000000
         c6e69300
         2c1bdbbc 3dd3ce3f a664e2bd
         ff000000
         02000000
         e1ed8700",
    );

    let descriptor = UnkBufferDescriptor {
        unk1: 1,
        unk2: 1,
        count: 2,
        offset: 0,
        unk5: 0,
        start_index: 0,
    };

    let buffer = read_unk_buffer(&descriptor, 0, &data).unwrap();
    assert_eq!(buffer.attributes.len(), 4);
    match &buffer.attributes[0] {
        AttributeData::Position(v) => {
            assert_eq!(f3(&v[0]), (-0.038012017, 1.6167967, -0.10723422));
            assert_eq!(f3(&v[1]), (-0.026746355, 1.6158215, -0.110543534));
        }
        other => panic!("unexpected attribute {other:?}"),
    }
    match &buffer.attributes[1] {
        AttributeData::VertexColor(v) => {
            assert_eq!(unorm8(&v[0]), (1.0, 0.0, 0.0, 0.0));
            assert_eq!(unorm8(&v[1]), (1.0, 0.0, 0.0, 0.0));
        }
        other => panic!("unexpected attribute {other:?}"),
    }
    match &buffer.attributes[2] {
        AttributeData::VertexColor(v) => {
            assert_eq!(unorm8(&v[0]), (0.007843138, 0.0, 0.0, 0.0));
            assert_eq!(unorm8(&v[1]), (0.007843138, 0.0, 0.0, 0.0));
        }
        other => panic!("unexpected attribute {other:?}"),
    }
    match &buffer.attributes[3] {
        AttributeData::VertexColor(v) => {
            assert_eq!(unorm8(&v[0]), (0.7764706, 0.9019608, 0.5764706, 0.0));
            assert_eq!(unorm8(&v[1]), (0.88235295, 0.92941177, 0.5294118, 0.0));
        }
        other => panic!("unexpected attribute {other:?}"),
    }

    let mut writer = Vec::new();
    let new_descriptor = write_unk_buffer(&mut writer, &buffer, 0, 0, 0).unwrap();
    assert_eq!(new_descriptor, descriptor);
    assert_eq!(data, writer);
}

#[test]
fn unk_buffer_vertices_size16() {
    let data = hex(
        "80d31dbd 4565813c 573535be
         b2fe9d00
         94d1dbbc 5c83693c de9e37be
         fa820000",
    );

    let descriptor = UnkBufferDescriptor {
        unk1: 0,
        unk2: 0,
        count: 2,
        offset: 0,
        unk5: 0,
        start_index: 0,
    };

    let buffer = read_unk_buffer(&descriptor, 0, &data).unwrap();
    assert_eq!(buffer.attributes.len(), 2);
    match &buffer.attributes[0] {
        AttributeData::Position(v) => {
            assert_eq!(f3(&v[0]), (-0.03853178, 0.01579536, -0.17696129));
            assert_eq!(f3(&v[1]), (-0.026833333, 0.01425251, -0.17931697));
        }
        other => panic!("unexpected attribute {other:?}"),
    }
    match &buffer.attributes[1] {
        AttributeData::VertexColor(v) => {
            assert_eq!(unorm8(&v[0]), (0.69803923, 0.99607843, 0.6156863, 0.0));
            assert_eq!(unorm8(&v[1]), (0.98039216, 0.50980395, 0.0, 0.0));
        }
        other => panic!("unexpected attribute {other:?}"),
    }

    let mut writer = Vec::new();
    let new_descriptor = write_unk_buffer(&mut writer, &buffer, 0, 0, 0).unwrap();
    assert_eq!(new_descriptor, descriptor);
    assert_eq!(data, writer);
}

#[test]
fn read_outline_buffer_vertices_size4() {
    let data = hex("5d2f1f00 5d2f1f0c");

    let descriptor = OutlineBufferDescriptor {
        data_offset: 0,
        vertex_count: 2,
        vertex_size: 4,
        unk: 0,
    };

    let attributes = read_outline_buffer(&descriptor, &data).unwrap();
    assert_eq!(attributes.len(), 1);
    match &attributes[0] {
        AttributeData::VertexColor(v) => {
            assert_eq!(unorm8(&v[0]), (0.3647059, 0.18431373, 0.12156863, 0.0));
            assert_eq!(unorm8(&v[1]), (0.3647059, 0.18431373, 0.12156863, 0.047058824));
        }
        other => panic!("unexpected attribute {other:?}"),
    }
}

#[test]
fn read_outline_buffer_vertices_size8() {
    let data = hex(
        "7adffc00
         4b37294c
         7adffc00
         4b37294c",
    );

    let descriptor = OutlineBufferDescriptor {
        data_offset: 0,
        vertex_count: 2,
        vertex_size: 8,
        unk: 0,
    };

    let attributes = read_outline_buffer(&descriptor, &data).unwrap();
    assert_eq!(attributes.len(), 2);
    match &attributes[0] {
        AttributeData::VertexColor(v) => {
            assert_eq!(unorm8(&v[0]), (0.47843137, 0.8745098, 0.9882353, 0.0));
            assert_eq!(unorm8(&v[1]), (0.47843137, 0.8745098, 0.9882353, 0.0));
        }
        other => panic!("unexpected attribute {other:?}"),
    }
    match &attributes[1] {
        AttributeData::VertexColor(v) => {
            assert_eq!(unorm8(&v[0]), (0.29411766, 0.21568628, 0.16078432, 0.29803923));
            assert_eq!(unorm8(&v[1]), (0.29411766, 0.21568628, 0.16078432, 0.29803923));
        }
        other => panic!("unexpected attribute {other:?}"),
    }
}

#[test]
fn vertex_buffer_vertices_legacy() {
    let data = hex(
        "bf2339ac be3e416c 3c94aa00
         002a0000
         3e11f7c1 3f255b32
         ffffffff
         e5a45300
         e457577f
         bf247df6 bdf6f646 3c6e6dc0
         002a0000
         3ec5d2b6 3f2253e6
         ffffffff
         9a004a00
         007f007f",
    );

    let descriptor = VertexBufferDescriptor {
        data_offset: 0,
        vertex_count: 2,
        vertex_size: 36,
        attributes: vec![
            attr(DataType::Position, 12),
            attr(DataType::WeightIndex, 4),
            attr(DataType::TexCoord0, 8),
            attr(DataType::VertexColor, 4),
            attr(DataType::Normal, 4),
            attr(DataType::Tangent, 4),
        ],
        unk1: 0,
        unk2: 0,
        unk3: 0,
    };

    let attributes = read_vertex_attributes(
        descriptor.data_offset,
        descriptor.vertex_count,
        descriptor.vertex_size,
        &descriptor.attributes,
        &data,
        Endian::Big,
    )
    .unwrap();

    match &attributes[0] {
        AttributeData::Position(v) => {
            assert_eq!(f3(&v[0]), (-0.63759875, -0.18579644, 0.018147469));
            assert_eq!(f3(&v[1]), (-0.642547, -0.12058692, 0.014552534));
        }
        other => panic!("unexpected attribute {other:?}"),
    }
    match &attributes[1] {
        AttributeData::WeightIndex(v) => {
            assert_eq!((v[0].x, v[0].y), (42, 0));
            assert_eq!((v[1].x, v[1].y), (42, 0));
        }
        other => panic!("unexpected attribute {other:?}"),
    }
    match &attributes[2] {
        AttributeData::TexCoord0(v) => {
            assert_eq!(f2(&v[0]), (0.14254667, 0.6459228));
            assert_eq!(f2(&v[1]), (0.38637322, 0.6340927));
        }
        other => panic!("unexpected attribute {other:?}"),
    }
    match &attributes[4] {
        AttributeData::Normal(v) => {
            assert_eq!(snorm8(&v[0]), (-0.21259843, -0.72440946, 0.6535433, 0.0));
            assert_eq!(snorm8(&v[1]), (-0.8031496, 0.0, 0.5826772, 0.0));
        }
        other => panic!("unexpected attribute {other:?}"),
    }
    match &attributes[5] {
        AttributeData::Tangent(v) => {
            assert_eq!(snorm8(&v[0]), (-0.22047244, 0.68503934, 0.68503934, 1.0));
            assert_eq!(snorm8(&v[1]), (0.0, 1.0, 0.0, 1.0));
        }
        other => panic!("unexpected attribute {other:?}"),
    }

    let mut writer = Vec::new();
    let new_descriptor = try_write_vertex_buffer(&mut writer, &attributes, Endian::Big).unwrap();
    assert_eq!(new_descriptor, descriptor);
    assert_eq!(data, writer);
}

#[test]
fn weight_buffer_vertices_legacy() {
    let data = hex(
        "3f800000 00000000 00000000
         00000000
         3f800000 00000000 00000000
         01000000",
    );

    let descriptor = VertexBufferDescriptor {
        data_offset: 0,
        vertex_count: 2,
        vertex_size: 16,
        attributes: vec![attr(DataType::SkinWeights2, 12), attr(DataType::BoneIndices2, 4)],
        unk1: 0,
        unk2: 0,
        unk3: 0,
    };

    let attributes = read_vertex_attributes(
        descriptor.data_offset,
        descriptor.vertex_count,
        descriptor.vertex_size,
        &descriptor.attributes,
        &data,
        Endian::Big,
    )
    .unwrap();

    match &attributes[0] {
        AttributeData::SkinWeights2(v) => {
            assert_eq!(f3(&v[0]), (1.0, 0.0, 0.0));
            assert_eq!(f3(&v[1]), (1.0, 0.0, 0.0));
        }
        other => panic!("unexpected attribute {other:?}"),
    }
    match &attributes[1] {
        AttributeData::BoneIndices2(v) => {
            assert_eq!((v[0].x, v[0].y, v[0].z, v[0].w), (0, 0, 0, 0));
            assert_eq!((v[1].x, v[1].y, v[1].z, v[1].w), (1, 0, 0, 0));
        }
        other => panic!("unexpected attribute {other:?}"),
    }

    let mut writer = Vec::new();
    let new_descriptor = try_write_vertex_buffer(&mut writer, &attributes, Endian::Big).unwrap();
    assert_eq!(new_descriptor, descriptor);
    assert_eq!(data, writer);
}

#[test]
fn vertex_buffer_indices_legacy() {
    let data = hex("00000001 00020002");

    let descriptor = IndexBufferDescriptor {
        data_offset: 0,
        index_count: 4,
        primitive_type: PrimitiveType::TriangleList,
        index_format: IndexFormat::Uint16,
        unk3: 0,
        unk4: 0,
    };

    let indices = read_indices(&descriptor, &data, Endian::Big).unwrap();
    assert_eq!(vec![0, 1, 2, 2], indices);

    let mut writer = Vec::new();
    let new_descriptor = write_index_buffer(&mut writer, &indices, Endian::Big);
    assert_eq!(new_descriptor, descriptor);
    assert_eq!(data, writer);
}
