//! Container decoding and re-encoding: packed model archives, compressed
//! chunks, and streaming entry extraction.
use xc3_lib::apmd::{Apmd, Entry, EntryType};
use xc3_lib::cursor::{read_opt_ptr32, push_opt_ptr32, Endian};
use xc3_lib::error::Xc3Error;
use xc3_lib::buffers::{skin_weights_bone_indices, WeightValues};
use xc3_lib::msmd::{LowTextures, StreamEntry};
use xc3_lib::vertex::{AttributeData, F32x3, U8x4};
use xc3_lib::sar1::{Csvb, Sar1};
use xc3_lib::xbc1::Xbc1;

#[test]
fn apmd_round_trip() {
    let apmd = Apmd {
        version: 10001,
        entries: vec![Entry {
            entry_type: EntryType::Dlgt,
            entry_data: vec![1, 2, 3, 4, 5],
        }],
        unk2: 0,
        unk3: 0,
        unk: vec![0; 7],
    };
    let bytes = apmd.write().unwrap();
    assert_eq!(bytes.len() % 4096, 0);
    let back = Apmd::read(&bytes).unwrap();
    assert_eq!(back, apmd);
}

#[test]
fn apmd_empty_entries_write_zero_offset() {
    // An empty count decodes to empty whatever the offset, and the
    // writer emits a zero offset.
    let apmd = Apmd {
        version: 10001,
        entries: Vec::new(),
        unk2: 0,
        unk3: 0,
        unk: vec![0; 7],
    };
    let bytes = apmd.write().unwrap();
    assert_eq!(&bytes[8..12], &[0, 0, 0, 0]);
    let back = Apmd::read(&bytes).unwrap();
    assert!(back.entries.is_empty());

    // Decoding tolerates a wild offset when the count is zero.
    let mut junk = bytes.clone();
    junk[8] = 0xff;
    junk[9] = 0xff;
    junk[10] = 0xff;
    junk[11] = 0x7f;
    let back = Apmd::read(&junk).unwrap();
    assert!(back.entries.is_empty());
}

#[test]
fn apmd_magic_mismatch() {
    let mut bytes = vec![0u8; 52];
    bytes[0] = b'X';
    match Apmd::read(&bytes) {
        Err(Xc3Error::MagicMismatch { offset, .. }) => assert_eq!(offset, 0),
        other => panic!("expected a magic mismatch, got {other:?}"),
    }
}

#[test]
fn optional_pointer_zero_is_absent() {
    let data = vec![0u8, 0, 0, 0, 0x10, 0, 0, 0];
    assert_eq!(read_opt_ptr32(&data, 0, Endian::Little).unwrap(), None);
    assert_eq!(read_opt_ptr32(&data, 4, Endian::Little).unwrap(), Some(0x10));

    // The writer re-emits zero for an absent pointer.
    let mut out = Vec::new();
    push_opt_ptr32(&mut out, &None, Endian::Little);
    push_opt_ptr32(&mut out, &Some(0x10), Endian::Little);
    assert_eq!(out, data);
}

#[test]
fn xbc1_round_trip() {
    let payload: Vec<u8> = (0u16..600).map(|v| (v % 251) as u8).collect();
    let chunk = Xbc1::from_decompressed(b"stream".to_vec(), &payload).unwrap();
    assert_eq!(chunk.decompressed_size as usize, payload.len());

    // The compressed stream decompresses back to the payload.
    let back = chunk.decompress().unwrap();
    assert_eq!(back, payload);

    // The encoded chunk decodes back to the same chunk.
    let mut bytes = Vec::new();
    chunk.write_to(&mut bytes);
    let parsed = Xbc1::from_bytes(&bytes).unwrap();
    assert_eq!(parsed.decompressed_size, chunk.decompressed_size);
    assert_eq!(parsed.compressed_stream, chunk.compressed_stream);

    // Writing the parsed chunk reproduces the input bytes.
    let mut again = Vec::new();
    parsed.write_to(&mut again);
    assert_eq!(again, bytes);
}

#[test]
fn xbc1_zero_decompressed_size() {
    // A declared decompressed size of zero yields an empty buffer and no
    // error, whatever the stream holds.
    let chunk = Xbc1 {
        unk1: 1,
        decompressed_size: 0,
        decompressed_hash: 0,
        name: Vec::new(),
        compressed_stream: vec![0xde, 0xad],
    };
    assert_eq!(chunk.decompress().unwrap(), Vec::<u8>::new());
}

#[test]
fn xbc1_decompression_failure() {
    let chunk = Xbc1 {
        unk1: 1,
        decompressed_size: 16,
        decompressed_hash: 0,
        name: Vec::new(),
        compressed_stream: vec![1, 2, 3],
    };
    match chunk.decompress() {
        Err(Xc3Error::DecompressionFailure { declared, .. }) => assert_eq!(declared, 16),
        other => panic!("expected a decompression failure, got {other:?}"),
    }
}

#[test]
fn stream_entry_extraction() {
    // A compressed companion file: the entry points at a compressed
    // chunk whose payload has the declared size.
    let payload: Vec<u8> = (0u16..300).map(|v| (v * 7 % 256) as u8).collect();
    let chunk = Xbc1::from_decompressed(b"entry".to_vec(), &payload).unwrap();
    let mut wismda = vec![0u8; 64];
    chunk.write_to(&mut wismda);

    let entry = StreamEntry { offset: 64, decompressed_size: payload.len() as u32 };
    assert_eq!(entry.decompress(&wismda, true).unwrap(), payload);

    // An uncompressed companion file: the declared byte count is read
    // directly from the offset.
    let mut raw = vec![0u8; 32];
    raw.extend_from_slice(&payload);
    let entry = StreamEntry { offset: 32, decompressed_size: payload.len() as u32 };
    assert_eq!(entry.decompress(&raw, false).unwrap(), payload);

    // A short companion file is rejected.
    let entry = StreamEntry { offset: 32, decompressed_size: 10_000 };
    match entry.decompress(&raw, false) {
        Err(Xc3Error::UnexpectedEof { .. }) => {}
        other => panic!("expected an end-of-file error, got {other:?}"),
    }
}

#[test]
fn sar1_read_entries() {
    // The 32-byte header, the 128-byte padded archive name, one 64-byte
    // entry record, then the entry's 8 bytes of data.
    let mut bytes = vec![0u8; 232];
    bytes[0] = b'1';
    bytes[1] = b'R';
    bytes[2] = b'A';
    bytes[3] = b'S';
    bytes[4..8].copy_from_slice(&232u32.to_le_bytes());
    bytes[8..12].copy_from_slice(&1u32.to_le_bytes());
    bytes[12..16].copy_from_slice(&1u32.to_le_bytes());
    bytes[16..20].copy_from_slice(&160u32.to_le_bytes());
    bytes[32] = b'a';
    bytes[33] = b'r';
    bytes[34] = b'c';
    bytes[160..164].copy_from_slice(&224u32.to_le_bytes());
    bytes[164..168].copy_from_slice(&8u32.to_le_bytes());
    bytes[168..172].copy_from_slice(&0xabcd_1234u32.to_le_bytes());
    bytes[172] = b'e';
    bytes[173] = b'n';
    bytes[224..232].copy_from_slice(&[9, 8, 7, 6, 5, 4, 3, 2]);

    let sar = Sar1::read(&bytes).unwrap();
    assert_eq!(sar.file_size, 232);
    assert_eq!(sar.version, 1);
    assert_eq!(sar.name, b"arc".to_vec());
    assert_eq!(sar.entries.len(), 1);
    assert_eq!(sar.entries[0].name_hash, 0xabcd_1234);
    assert_eq!(sar.entries[0].name, b"en".to_vec());
    assert_eq!(sar.entries[0].entry_data, vec![9, 8, 7, 6, 5, 4, 3, 2]);
}

#[test]
fn csvb_read_sections() {
    let mut bytes = Vec::new();
    bytes.extend_from_slice(b"CSVB");
    bytes.extend_from_slice(&1u16.to_le_bytes());
    bytes.extend_from_slice(&8u16.to_le_bytes());
    bytes.extend_from_slice(&4u32.to_le_bytes());
    bytes.extend_from_slice(&6u32.to_le_bytes());
    bytes.extend_from_slice(&7u16.to_le_bytes());
    // One sixteen-byte item.
    bytes.extend_from_slice(&0u16.to_le_bytes());
    bytes.extend_from_slice(&3u16.to_le_bytes());
    bytes.extend_from_slice(&11u32.to_le_bytes());
    bytes.extend_from_slice(&12u32.to_le_bytes());
    bytes.extend_from_slice(&13u32.to_le_bytes());
    bytes.extend_from_slice(&[1, 2, 3, 4]);
    bytes.extend_from_slice(b"ab\0cd\0");

    let csvb = Csvb::read(&bytes, 0).unwrap();
    assert_eq!(csvb.item_count, 1);
    assert_eq!(csvb.unks, vec![7]);
    assert_eq!(csvb.unk6.len(), 1);
    assert_eq!(csvb.unk6[0].name2_offset, 3);
    assert_eq!(csvb.unk6[0].unk5, 13);
    assert_eq!(csvb.unk_section, vec![1, 2, 3, 4]);
    assert_eq!(csvb.string_section, b"ab\0cd\0".to_vec());
}

#[test]
fn low_textures_records() {
    // Header: count 1, record offset 28, five opaque scalars; one 16-byte
    // record (unk1, byte count, byte offset, unk2), then the three bytes.
    let mut data = Vec::new();
    data.extend_from_slice(&1u32.to_le_bytes());
    data.extend_from_slice(&28u32.to_le_bytes());
    for _ in 0..5 {
        data.extend_from_slice(&0u32.to_le_bytes());
    }
    data.extend_from_slice(&7u32.to_le_bytes());
    data.extend_from_slice(&3u32.to_le_bytes());
    data.extend_from_slice(&44u32.to_le_bytes());
    data.extend_from_slice(&0xFFFF_FFFFu32.to_le_bytes());
    data.extend_from_slice(&[0xAA, 0xBB, 0xCC]);

    let table = LowTextures::read(&data).unwrap();
    assert_eq!(table.textures.len(), 1);
    assert_eq!(table.textures[0].unk1, 7);
    assert_eq!(table.textures[0].mibl_data, vec![0xAA, 0xBB, 0xCC]);
    assert_eq!(table.textures[0].unk2, -1);

    // A record whose byte range runs past the file is rejected.
    let mut bad = data.clone();
    bad[32] = 200;
    assert!(LowTextures::read(&bad).is_err());
}

#[test]
fn skin_weights_legacy_triples_are_paired() {
    let weights = vec![F32x3 {
        x: 1.0f32.to_bits(),
        y: 0.0f32.to_bits(),
        z: 0.0f32.to_bits(),
    }];
    let indices = vec![U8x4 { x: 3, y: 0, z: 0, w: 0 }];
    let attributes = vec![
        AttributeData::SkinWeights2(weights.clone()),
        AttributeData::BoneIndices2(indices.clone()),
    ];
    match skin_weights_bone_indices(&attributes) {
        Some((WeightValues::Triples(v), ix)) => {
            assert_eq!(v, weights);
            assert_eq!(ix, indices);
        }
        other => panic!("unexpected pairing {other:?}"),
    }

    // Without a bone index array nothing is paired.
    let only_weights = vec![AttributeData::SkinWeights2(weights)];
    assert!(skin_weights_bone_indices(&only_weights).is_none());
}

#[test]
fn stream_entry_zero_size_chunk() {
    // A chunk that declares zero decompressed bytes extracts to an empty
    // buffer without touching its stream.
    let empty: Vec<u8> = Vec::new();
    let chunk = Xbc1::from_decompressed(b"empty".to_vec(), &empty).unwrap();
    assert_eq!(chunk.decompressed_size, 0);
    let mut wismda = vec![0u8; 16];
    chunk.write_to(&mut wismda);
    let entry = StreamEntry { offset: 16, decompressed_size: 0 };
    assert_eq!(entry.decompress(&wismda, true).unwrap(), empty);
}
