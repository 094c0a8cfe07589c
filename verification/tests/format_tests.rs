use atiff::{
    CompressionMethod, DataType, DecoderRegistry, MemoryFetch, PhotometricInterpretation,
    PlanarConfiguration, SampleFormat, TiffError, TiffMetadataReader, TypedArray,
};

/// One IFD entry for the classic little-endian builder: tag, type code,
/// count, and either four inline bytes or an out-of-line payload.
enum Payload {
    Inline([u8; 4]),
    Out(Vec<u8>),
}

struct Entry {
    tag: u16,
    typ: u16,
    count: u32,
    payload: Payload,
}

fn inline_short(tag: u16, v: u16) -> Entry {
    let b = v.to_le_bytes();
    Entry { tag, typ: 3, count: 1, payload: Payload::Inline([b[0], b[1], 0, 0]) }
}

fn inline_long(tag: u16, v: u32) -> Entry {
    Entry { tag, typ: 4, count: 1, payload: Payload::Inline(v.to_le_bytes()) }
}

fn out_shorts(tag: u16, vs: &[u16]) -> Entry {
    let mut data = Vec::new();
    for v in vs {
        data.extend_from_slice(&v.to_le_bytes());
    }
    if data.len() <= 4 {
        let mut inline = [0u8; 4];
        inline[..data.len()].copy_from_slice(&data);
        Entry { tag, typ: 3, count: vs.len() as u32, payload: Payload::Inline(inline) }
    } else {
        Entry { tag, typ: 3, count: vs.len() as u32, payload: Payload::Out(data) }
    }
}

fn out_longs(tag: u16, vs: &[u32]) -> Entry {
    let mut data = Vec::new();
    for v in vs {
        data.extend_from_slice(&v.to_le_bytes());
    }
    Entry { tag, typ: 4, count: vs.len() as u32, payload: Payload::Out(data) }
}

fn out_ascii(tag: u16, s: &str) -> Entry {
    let mut data = s.as_bytes().to_vec();
    data.push(0);
    Entry { tag, typ: 2, count: data.len() as u32, payload: Payload::Out(data) }
}

/// Build a classic little-endian file whose IFDs start at offset 8 and
/// follow one another; out-of-line payloads go after the last IFD.
fn build_classic_le(ifds: &[Vec<Entry>]) -> Vec<u8> {
    let mut file = vec![0x49, 0x49, 42, 0, 8, 0, 0, 0];
    let mut ifd_offsets = Vec::new();
    let mut pos = 8u32;
    for entries in ifds {
        ifd_offsets.push(pos);
        pos += 2 + 12 * entries.len() as u32 + 4;
    }
    let mut blob_pos = pos;
    for (k, entries) in ifds.iter().enumerate() {
        file.extend_from_slice(&(entries.len() as u16).to_le_bytes());
        for e in entries {
            file.extend_from_slice(&e.tag.to_le_bytes());
            file.extend_from_slice(&e.typ.to_le_bytes());
            file.extend_from_slice(&e.count.to_le_bytes());
            match &e.payload {
                Payload::Inline(b) => file.extend_from_slice(b),
                Payload::Out(data) => {
                    file.extend_from_slice(&blob_pos.to_le_bytes());
                    blob_pos += data.len() as u32;
                }
            }
        }
        let next = if k + 1 < ifds.len() { ifd_offsets[k + 1] } else { 0 };
        file.extend_from_slice(&next.to_le_bytes());
    }
    for entries in ifds {
        for e in entries {
            if let Payload::Out(data) = &e.payload {
                file.extend_from_slice(data);
            }
        }
    }
    file
}

fn base_gray_ifd(width: u32, height: u32) -> Vec<Entry> {
    vec![
        inline_long(256, width),
        inline_long(257, height),
        out_shorts(258, &[8]),
        inline_short(262, 1),
        inline_short(277, 1),
    ]
}

#[test]
fn classic_strip_file_parses_exactly() {
    // A 10 by 10 image, five 16-bit samples per pixel, one strip of a
    // thousand bytes at offset 418.
    let mut entries = vec![
        inline_long(256, 10),
        inline_long(257, 10),
        out_shorts(258, &[16, 16, 16, 16, 16]),
        inline_short(262, 1),
        inline_long(273, 418),
        inline_short(277, 5),
        inline_long(278, 10),
        inline_long(279, 1000),
    ];
    entries.sort_by_key(|e| e.tag);
    let mut file = build_classic_le(&[entries]);
    if file.len() < 1418 {
        file.resize(1418, 0);
    }
    let mut fetch = MemoryFetch::new(file);
    let mut reader = TiffMetadataReader::try_open(&mut fetch).unwrap();
    assert!(!reader.bigtiff());
    let ifds = reader.read_all_ifds(&mut fetch).unwrap();
    assert_eq!(ifds.len(), 1);
    let ifd = &ifds[0];
    assert_eq!(ifd.image_width(), 10);
    assert_eq!(ifd.image_height(), 10);
    assert_eq!(ifd.samples_per_pixel(), 5);
    assert_eq!(ifd.bits_per_sample(), &vec![16u16, 16, 16, 16, 16]);
    assert_eq!(ifd.strip_offsets(), &Some(vec![418u64]));
    assert_eq!(ifd.strip_byte_counts(), &Some(vec![1000u64]));
    assert_eq!(ifd.rows_per_strip(), Some(10));
    assert_eq!(ifd.compression(), CompressionMethod::Uncompressed);
    // SampleFormat was absent, so it defaults to unsigned for every sample.
    assert_eq!(ifd.sample_format(), &vec![SampleFormat::Uint; 5]);
}

#[test]
fn overview_chain_with_one_bit_mask() {
    // Three directories: the full image, a one-bit transparency mask, and
    // an overview.
    let full = {
        let mut e = base_gray_ifd(8, 8);
        e.push(inline_long(254, 0));
        e.push(inline_long(273, 2000));
        e.push(inline_long(279, 64));
        e.sort_by_key(|x| x.tag);
        e
    };
    // Deflate-compress the packed one-bit mask: 8 rows of 8 pixels, all on.
    let mask_bits = vec![0xffu8; 8];
    let compressed = {
        let mut enc =
            flate2::write::ZlibEncoder::new(Vec::new(), flate2::Compression::default());
        std::io::Write::write_all(&mut enc, &mask_bits).unwrap();
        enc.finish().unwrap()
    };
    let mask = {
        let mut e = vec![
            inline_long(254, 2),
            inline_long(256, 8),
            inline_long(257, 8),
            out_shorts(258, &[1]),
            inline_short(259, 8),
            inline_short(262, 4),
            inline_short(277, 1),
            inline_long(278, 8),
            inline_long(279, compressed.len() as u32),
            Entry { tag: 273, typ: 4, count: 1, payload: Payload::Out(compressed.clone()) },
        ];
        // Reuse the out-of-line machinery to place the strip body; the
        // offsets entry then points at it directly.
        e.sort_by_key(|x| x.tag);
        e
    };
    let overview = {
        let mut e = base_gray_ifd(4, 4);
        e.push(inline_long(254, 1));
        e.sort_by_key(|x| x.tag);
        e
    };
    let file = build_classic_le(&[full, mask, overview]);

    // Patch: entry 273 of the mask was written with payload bytes; its
    // value field already holds the blob offset, which is what we want.
    let mut fetch = MemoryFetch::new(file.clone());
    let mut reader = TiffMetadataReader::try_open(&mut fetch).unwrap();
    let ifds = reader.read_all_ifds(&mut fetch).unwrap();
    assert_eq!(ifds.len(), 3);
    assert_eq!(
        ifds[1].photometric_interpretation(),
        PhotometricInterpretation::TransparencyMask
    );
    assert_eq!(ifds[1].bits_per_sample(), &vec![1u16]);
    assert!(ifds[1].is_masked());
    assert!(!ifds[0].is_masked());

    // Decode the mask strip to a one-bit array of shape (8, 8, 1).
    let mut image_fetch = MemoryFetch::new(file);
    let tile = ifds[1]
        .fetch_tile(0, 0, &mut image_fetch, atiff::Endianness::LittleEndian)
        .unwrap();
    let registry = DecoderRegistry::default();
    let arr = tile.decode(&registry, atiff::host_endianness()).unwrap();
    assert_eq!(arr.shape(), (8, 8, 1));
    assert_eq!(arr.data_type(), Some(DataType::Bool));
    match arr.data() {
        TypedArray::Bool(v) => {
            assert_eq!(v.len(), 64);
            assert!(v.iter().all(|&b| b == 1));
        }
        other => panic!("unexpected array {:?}", other),
    }
}

#[test]
fn planar_tile_fetch_yields_one_chunk_per_band() {
    // A 4 by 4 planar image with three bands, one tile, uncompressed.
    let band: Vec<Vec<u8>> = (0..3).map(|b| vec![b as u8 + 10; 16]).collect();
    let mut e = vec![
        inline_long(256, 4),
        inline_long(257, 4),
        out_shorts(258, &[8, 8, 8]),
        inline_short(262, 2),
        inline_short(277, 3),
        inline_short(284, 2),
        inline_long(322, 4),
        inline_long(323, 4),
        out_longs(324, &[0, 0, 0]),
        out_longs(325, &[16, 16, 16]),
    ];
    e.sort_by_key(|x| x.tag);
    // Build once to learn where the blobs land, then rebuild with the
    // offsets table filled in.
    let probe = build_classic_le(&[e]);
    let band_base = probe.len() as u32;
    let offsets = [band_base, band_base + 16, band_base + 32];
    let mut e = vec![
        inline_long(256, 4),
        inline_long(257, 4),
        out_shorts(258, &[8, 8, 8]),
        inline_short(262, 2),
        inline_short(277, 3),
        inline_short(284, 2),
        inline_long(322, 4),
        inline_long(323, 4),
        out_longs(324, &offsets),
        out_longs(325, &[16, 16, 16]),
    ];
    e.sort_by_key(|x| x.tag);
    let mut file = build_classic_le(&[e]);
    for b in &band {
        file.extend_from_slice(b);
    }
    let mut fetch = MemoryFetch::new(file.clone());
    let mut reader = TiffMetadataReader::try_open(&mut fetch).unwrap();
    let ifds = reader.read_all_ifds(&mut fetch).unwrap();
    assert_eq!(ifds.len(), 1);
    let ifd = &ifds[0];
    assert_eq!(ifd.planar_configuration(), PlanarConfiguration::Planar);

    let mut image_fetch = MemoryFetch::new(file);
    let tile = ifd
        .fetch_tile(0, 0, &mut image_fetch, atiff::Endianness::LittleEndian)
        .unwrap();
    match tile.compressed_bytes() {
        atiff::CompressedBytes::Planar(bands) => {
            assert_eq!(bands.len(), 3);
            assert_eq!(bands[0], band[0]);
            assert_eq!(bands[1], band[1]);
            assert_eq!(bands[2], band[2]);
        }
        other => panic!("unexpected payload {:?}", other),
    }
    let registry = DecoderRegistry::default();
    let arr = tile.decode(&registry, atiff::host_endianness()).unwrap();
    assert_eq!(arr.shape(), (3, 4, 4));
}

#[test]
fn tile_grid_matches_offset_tables() {
    // A chunky tiled directory: two by two tiles whose offset and count
    // tables hold exactly one entry per tile.
    let mut e = vec![
        inline_long(256, 30),
        inline_long(257, 20),
        out_shorts(258, &[8]),
        inline_short(262, 1),
        inline_short(277, 1),
        inline_long(322, 16),
        inline_long(323, 16),
        out_longs(324, &[0, 0, 0, 0]),
        out_longs(325, &[1, 1, 1, 1]),
    ];
    e.sort_by_key(|x| x.tag);
    let file = build_classic_le(&[e]);
    let mut fetch = MemoryFetch::new(file);
    let mut reader = TiffMetadataReader::try_open(&mut fetch).unwrap();
    let ifds = reader.read_all_ifds(&mut fetch).unwrap();
    let ifd = &ifds[0];
    let (across, down) = ifd.tile_count().unwrap();
    assert_eq!((across, down), (2, 2));
    assert_eq!(ifd.tile_offsets().as_ref().unwrap().len(), across * down);
    assert_eq!(ifd.tile_byte_counts().as_ref().unwrap().len(), across * down);
    // Every grid coordinate addresses the tables; one step outside fails.
    for y in 0..down {
        for x in 0..across {
            assert!(ifd.get_tile_byte_range(x, y).is_ok());
        }
    }
    assert_eq!(ifd.get_tile_byte_range(2, 0), Err(TiffError::OutOfBounds));
    assert_eq!(ifd.get_tile_byte_range(0, 2), Err(TiffError::OutOfBounds));
}

#[test]
fn header_errors_are_reported() {
    let mut fetch = MemoryFetch::new(b"XX\x2a\x00".to_vec());
    assert!(matches!(
        TiffMetadataReader::try_open(&mut fetch),
        Err(TiffError::BadMagic)
    ));
    let mut fetch = MemoryFetch::new(vec![0x49, 0x49, 41, 0, 8, 0, 0, 0]);
    assert!(matches!(
        TiffMetadataReader::try_open(&mut fetch),
        Err(TiffError::BadMagic)
    ));
    let mut fetch = MemoryFetch::new(vec![0x49, 0x49, 43, 0, 4, 0, 0, 0]);
    assert!(matches!(
        TiffMetadataReader::try_open(&mut fetch),
        Err(TiffError::Format(_))
    ));
}

#[test]
fn untiled_directory_reports_not_tiled() {
    let mut e = base_gray_ifd(4, 4);
    e.sort_by_key(|x| x.tag);
    let file = build_classic_le(&[e]);
    let mut fetch = MemoryFetch::new(file);
    let mut reader = TiffMetadataReader::try_open(&mut fetch).unwrap();
    let ifds = reader.read_all_ifds(&mut fetch).unwrap();
    assert_eq!(ifds[0].get_tile_byte_range(0, 0), Err(TiffError::NotTiled));
    assert_eq!(ifds[0].tile_count(), None);
}

#[test]
fn geo_keys_resolve_through_full_parse() {
    let mut e = base_gray_ifd(4, 4);
    e.push(out_shorts(34735, &[1, 1, 0, 1, 1026, 34737, 7, 0]));
    e.push(out_ascii(34737, "WGS 84|"));
    e.sort_by_key(|x| x.tag);
    let file = build_classic_le(&[e]);
    let mut fetch = MemoryFetch::new(file);
    let mut reader = TiffMetadataReader::try_open(&mut fetch).unwrap();
    let ifds = reader.read_all_ifds(&mut fetch).unwrap();
    let geo = ifds[0].geo_key_directory().as_ref().unwrap();
    match geo.get(1026) {
        Some(atiff::GeoKeyValue::Ascii(s)) => assert_eq!(s, "WGS 84"),
        other => panic!("unexpected geo value {:?}", other),
    }
}

#[test]
fn full_resolution_follows_the_subfile_bit() {
    fn with_subfile_type(t: Option<u32>) -> atiff::ImageFileDirectory {
        let mut e = base_gray_ifd(4, 4);
        if let Some(v) = t {
            e.push(inline_long(254, v));
        }
        e.sort_by_key(|x| x.tag);
        let file = build_classic_le(&[e]);
        let mut fetch = MemoryFetch::new(file);
        let mut reader = TiffMetadataReader::try_open(&mut fetch).unwrap();
        reader.read_all_ifds(&mut fetch).unwrap().pop().unwrap()
    }
    assert!(with_subfile_type(None).is_full_resolution());
    assert!(with_subfile_type(Some(0)).is_full_resolution());
    assert!(!with_subfile_type(Some(1)).is_full_resolution());
    // A transparency mask is not an overview: its reduced-resolution bit
    // is clear.
    assert!(with_subfile_type(Some(2)).is_full_resolution());
    assert!(!with_subfile_type(Some(3)).is_full_resolution());
}
