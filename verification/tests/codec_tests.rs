use std::io::Write;

use atiff::{
    fix_endianness, host_endianness, Codec, CompressionMethod, DataType, DecoderRegistry,
    DeflateDecoder, Endianness, JPEGDecoder, LZWDecoder, MemoryFetch, PhotometricInterpretation,
    PlanarConfiguration, PredictorInfo, TiffError, TiffMetadataReader, TypedArray,
    UncompressedDecoder,
};

#[test]
fn deflate_round_trips() {
    let original: Vec<u8> = (0..500u32).map(|i| (i * 7 % 251) as u8).collect();
    let mut enc = flate2::write::ZlibEncoder::new(Vec::new(), flate2::Compression::default());
    enc.write_all(&original).unwrap();
    let compressed = enc.finish().unwrap();
    assert_ne!(compressed, original);
    let decoded = DeflateDecoder
        .decode_tile(compressed, PhotometricInterpretation::BlackIsZero, None)
        .unwrap();
    assert_eq!(decoded, original);
}

#[test]
fn lzw_round_trips() {
    let original: Vec<u8> = (0..500u32).map(|i| (i % 17) as u8).collect();
    let mut enc = weezl::encode::Encoder::with_tiff_size_switch(weezl::BitOrder::Msb, 8);
    let compressed = enc.encode(&original).unwrap();
    assert_ne!(compressed, original);
    let decoded = LZWDecoder
        .decode_tile(compressed, PhotometricInterpretation::BlackIsZero, None)
        .unwrap();
    assert_eq!(decoded, original);
}

#[test]
fn uncompressed_is_identity() {
    let original = vec![1u8, 2, 3];
    let decoded = UncompressedDecoder
        .decode_tile(original.clone(), PhotometricInterpretation::BlackIsZero, None)
        .unwrap();
    assert_eq!(decoded, original);
}

#[test]
fn corrupt_streams_are_reported() {
    let garbage = vec![0xDEu8, 0xAD, 0xBE, 0xEF];
    assert_eq!(
        DeflateDecoder.decode_tile(garbage.clone(), PhotometricInterpretation::BlackIsZero, None),
        Err(TiffError::CorruptCodec)
    );
    assert_eq!(
        JPEGDecoder.decode_tile(garbage, PhotometricInterpretation::RGB, None),
        Err(TiffError::CorruptCodec)
    );
}

#[test]
fn jpeg_rejects_undefined_interpretations() {
    assert_eq!(
        JPEGDecoder.decode_tile(vec![1, 2, 3, 4], PhotometricInterpretation::CIELab, None),
        Err(TiffError::UnsupportedInterpretation(8))
    );
}

#[test]
fn unregistered_compression_is_reported() {
    let registry = DecoderRegistry::new();
    assert_eq!(
        atiff::decode_tile(
            vec![0u8],
            PhotometricInterpretation::BlackIsZero,
            CompressionMethod::LZW,
            None,
            &registry
        ),
        Err(TiffError::UnsupportedCompression(5))
    );
    let mut registry = DecoderRegistry::default();
    registry.remove(CompressionMethod::Deflate.to_u16());
    // Removing one tag leaves the others registered.
    assert!(registry.get(CompressionMethod::LZW.to_u16()).is_some());
    assert!(registry.get(CompressionMethod::Uncompressed.to_u16()).is_some());
    assert!(registry.get(CompressionMethod::Deflate.to_u16()).is_none());
    assert_eq!(
        atiff::decode_tile(
            vec![0u8],
            PhotometricInterpretation::BlackIsZero,
            CompressionMethod::Deflate,
            None,
            &registry
        ),
        Err(TiffError::UnsupportedCompression(8))
    );
    registry.insert(CompressionMethod::Deflate.to_u16(), Codec::Deflate(DeflateDecoder));
    assert!(matches!(
        atiff::decode_tile(
            vec![0u8],
            PhotometricInterpretation::BlackIsZero,
            CompressionMethod::Deflate,
            None,
            &registry
        ),
        Err(TiffError::CorruptCodec)
    ));
}

fn gray_info(width: u32, height: u32, bits: u16) -> PredictorInfo {
    PredictorInfo {
        endianness: Endianness::LittleEndian,
        image_width: width,
        image_height: height,
        chunk_width: width,
        chunk_height: height,
        bits_per_sample: bits,
        samples_per_pixel: 1,
        planar_configuration: PlanarConfiguration::Chunky,
    }
}

#[test]
fn horizontal_differences_accumulate() {
    // Row deltas of one decode to a ramp from the start value.
    let info = gray_info(5, 1, 8);
    let decoded = vec![10u8, 1, 1, 1, 1];
    let out = atiff::unpredict_hdiff(decoded, &info, 0, host_endianness()).unwrap();
    assert_eq!(out, vec![10, 11, 12, 13, 14]);
}

#[test]
fn horizontal_accumulation_wraps_at_the_sample_width() {
    let info = gray_info(3, 1, 8);
    let out = atiff::unpredict_hdiff(vec![255u8, 1, 1], &info, 0, host_endianness()).unwrap();
    assert_eq!(out, vec![255, 0, 1]);

    let info = gray_info(3, 1, 16);
    let decoded: Vec<u8> = vec![0xFF, 0xFF, 0x01, 0x00, 0x01, 0x00];
    let out = atiff::unpredict_hdiff(decoded, &info, 0, Endianness::LittleEndian).unwrap();
    // On a little-endian host the samples read 65535, 0, 1.
    assert_eq!(out, vec![0xFF, 0xFF, 0x00, 0x00, 0x01, 0x00]);
}

#[test]
fn horizontal_strides_by_samples_per_pixel() {
    let mut info = gray_info(3, 1, 8);
    info.samples_per_pixel = 2;
    let decoded = vec![10u8, 20, 1, 2, 1, 2];
    let out = atiff::unpredict_hdiff(decoded, &info, 0, host_endianness()).unwrap();
    assert_eq!(out, vec![10, 20, 11, 22, 12, 24]);
}

#[test]
fn endianness_fixup_is_a_no_op_on_host_order() {
    let mut buf = vec![0x12u8, 0x34, 0x56, 0x78];
    let before = buf.clone();
    fix_endianness(&mut buf, Endianness::LittleEndian, Endianness::LittleEndian, 16);
    assert_eq!(buf, before);
    fix_endianness(&mut buf, Endianness::BigEndian, Endianness::BigEndian, 32);
    assert_eq!(buf, before);
}

#[test]
fn endianness_fixup_swaps_foreign_order() {
    let mut buf = vec![0x12u8, 0x34, 0x56, 0x78];
    fix_endianness(&mut buf, Endianness::BigEndian, Endianness::LittleEndian, 16);
    assert_eq!(buf, vec![0x34, 0x12, 0x78, 0x56]);
    // Swapping back restores the original bytes.
    fix_endianness(&mut buf, Endianness::BigEndian, Endianness::LittleEndian, 16);
    assert_eq!(buf, vec![0x12, 0x34, 0x56, 0x78]);
}

/// Build a BigTIFF with one tiled RGB directory whose first tile holds
/// LZW-compressed, horizontally predicted data; the other tile table
/// entries stay empty.
fn build_bigtiff_tiled(
    tiles_across: u64,
    tile_dim: u32,
    tile0: &[u8],
) -> Vec<u8> {
    let dim = tiles_across as u32 * tile_dim;
    let ntiles = tiles_across * tiles_across;
    struct E {
        tag: u16,
        typ: u16,
        count: u64,
        value: [u8; 8],
        out: Option<Vec<u8>>,
    }
    fn inline16(tag: u16, v: u16) -> E {
        let b = v.to_le_bytes();
        E { tag, typ: 3, count: 1, value: [b[0], b[1], 0, 0, 0, 0, 0, 0], out: None }
    }
    fn inline32(tag: u16, v: u32) -> E {
        let b = v.to_le_bytes();
        E { tag, typ: 4, count: 1, value: [b[0], b[1], b[2], b[3], 0, 0, 0, 0], out: None }
    }
    let mut entries = vec![
        inline32(256, dim),
        inline32(257, dim),
        E {
            tag: 258,
            typ: 3,
            count: 3,
            value: [8, 0, 8, 0, 8, 0, 0, 0],
            out: None,
        },
        inline16(259, 5),
        inline16(262, 2),
        inline16(277, 3),
        inline16(317, 2),
        inline32(322, tile_dim),
        inline32(323, tile_dim),
        E { tag: 324, typ: 16, count: ntiles, value: [0; 8], out: Some(Vec::new()) },
        E { tag: 325, typ: 16, count: ntiles, value: [0; 8], out: Some(Vec::new()) },
    ];
    entries.sort_by_key(|e| e.tag);
    let header_len = 16u64;
    let ifd_len = 8 + 20 * entries.len() as u64 + 8;
    let offsets_pos = header_len + ifd_len;
    let counts_pos = offsets_pos + 8 * ntiles;
    let data_pos = counts_pos + 8 * ntiles;
    let mut offsets_blob = Vec::new();
    let mut counts_blob = Vec::new();
    for i in 0..ntiles {
        let off: u64 = if i == 0 { data_pos } else { 0 };
        let cnt: u64 = if i == 0 { tile0.len() as u64 } else { 0 };
        offsets_blob.extend_from_slice(&off.to_le_bytes());
        counts_blob.extend_from_slice(&cnt.to_le_bytes());
    }
    for e in entries.iter_mut() {
        if e.out.is_some() {
            let pos = if e.tag == 324 { offsets_pos } else { counts_pos };
            e.value = pos.to_le_bytes();
        }
    }
    let mut file = vec![0x49, 0x49, 0x2B, 0x00, 8, 0, 0, 0];
    file.extend_from_slice(&16u64.to_le_bytes());
    file.extend_from_slice(&(entries.len() as u64).to_le_bytes());
    for e in &entries {
        file.extend_from_slice(&e.tag.to_le_bytes());
        file.extend_from_slice(&e.typ.to_le_bytes());
        file.extend_from_slice(&e.count.to_le_bytes());
        file.extend_from_slice(&e.value);
    }
    file.extend_from_slice(&0u64.to_le_bytes());
    file.extend_from_slice(&offsets_blob);
    file.extend_from_slice(&counts_blob);
    file.extend_from_slice(tile0);
    file
}

#[test]
fn bigtiff_tiled_lzw_horizontal_decodes() {
    // A 43 by 43 grid of 256 by 256 RGB tiles; only tile (0, 0) has data.
    let dim = 256usize;
    let spp = 3usize;
    let mut pixels = vec![0u8; dim * dim * spp];
    for row in 0..dim {
        for col in 0..dim {
            for band in 0..spp {
                pixels[(row * dim + col) * spp + band] =
                    ((row + col * 2 + band * 5) % 256) as u8;
            }
        }
    }
    // Apply the horizontal predictor the way a writer would: store the
    // difference from the previous pixel's sample in the same channel.
    let mut predicted = pixels.clone();
    for row in 0..dim {
        for col in (1..dim).rev() {
            for band in 0..spp {
                let i = (row * dim + col) * spp + band;
                predicted[i] = predicted[i].wrapping_sub(predicted[i - spp]);
            }
        }
    }
    let mut enc = weezl::encode::Encoder::with_tiff_size_switch(weezl::BitOrder::Msb, 8);
    let compressed = enc.encode(&predicted).unwrap();
    let file = build_bigtiff_tiled(43, dim as u32, &compressed);

    let mut fetch = MemoryFetch::new(file.clone());
    let mut reader = TiffMetadataReader::try_open(&mut fetch).unwrap();
    assert!(reader.bigtiff());
    let ifds = reader.read_all_ifds(&mut fetch).unwrap();
    assert_eq!(ifds.len(), 1);
    let ifd = &ifds[0];
    assert_eq!(ifd.tile_count(), Some((43, 43)));
    assert_eq!(ifd.tile_offsets().as_ref().unwrap().len(), 43 * 43);
    assert_eq!(ifd.compression(), CompressionMethod::LZW);

    let mut image_fetch = MemoryFetch::new(file);
    let tile = ifd
        .fetch_tile(0, 0, &mut image_fetch, Endianness::LittleEndian)
        .unwrap();
    let registry = DecoderRegistry::default();
    let arr = tile.decode(&registry, host_endianness()).unwrap();
    assert_eq!(arr.shape(), (dim, dim, spp));
    assert_eq!(arr.data_type(), Some(DataType::UInt8));
    match arr.data() {
        TypedArray::UInt8(v) => assert_eq!(v, &pixels),
        other => panic!("unexpected array {:?}", other),
    }
}

#[test]
fn cursor_reads_past_the_end_fail() {
    let mut fetch = MemoryFetch::new(vec![1u8]);
    let mut cursor = atiff::MetadataCursor::new(Endianness::LittleEndian);
    assert!(matches!(
        cursor.read_u16(&mut fetch),
        Err(TiffError::EndOfFile(_, _))
    ));
}

#[test]
fn floating_point_predictor_round_trips() {
    // Encode two rows of four 32-bit floats the way a writer would:
    // split each value into big-endian byte planes, then difference the
    // row bytes; the decoder must hand back the original values in host
    // byte order.
    let width = 4usize;
    let rows = 2usize;
    let values: Vec<f32> = (0..width * rows).map(|i| i as f32 * 1.25 - 3.0).collect();
    let size = 4usize;
    let row_bytes = width * size;
    let mut shuffled = vec![0u8; values.len() * size];
    for row in 0..rows {
        for c in 0..width {
            let be = values[row * width + c].to_be_bytes();
            for b in 0..size {
                shuffled[row * row_bytes + b * width + c] = be[b];
            }
        }
    }
    for row in 0..rows {
        for k in (1..row_bytes).rev() {
            let i = row * row_bytes + k;
            shuffled[i] = shuffled[i].wrapping_sub(shuffled[i - 1]);
        }
    }
    let info = PredictorInfo {
        endianness: Endianness::LittleEndian,
        image_width: width as u32,
        image_height: rows as u32,
        chunk_width: width as u32,
        chunk_height: rows as u32,
        bits_per_sample: 32,
        samples_per_pixel: 1,
        planar_configuration: PlanarConfiguration::Chunky,
    };
    let out = atiff::unpredict_float(shuffled, &info, 0, host_endianness()).unwrap();
    let mut expected = Vec::new();
    for v in &values {
        expected.extend_from_slice(&v.to_ne_bytes());
    }
    assert_eq!(out, expected);
}
