use atiff::{DataType, GeoKeyDirectory, GeoKeyValue, SampleFormat, TagValue, TiffError};

#[test]
fn into_u16_widens_and_narrows() {
    assert_eq!(TagValue::Byte(5).into_u16(), Ok(5));
    assert_eq!(TagValue::Short(700).into_u16(), Ok(700));
    assert_eq!(TagValue::Unsigned(65535).into_u16(), Ok(65535));
    assert_eq!(
        TagValue::Unsigned(65536).into_u16(),
        Err(TiffError::ValueConversion)
    );
    assert_eq!(TagValue::UnsignedBig(9).into_u16(), Ok(9));
    assert_eq!(
        TagValue::Ascii("x".to_string()).into_u16(),
        Err(TiffError::ValueConversion)
    );
}

#[test]
fn singleton_list_converts_as_its_element() {
    let v = TagValue::List(vec![TagValue::Short(7)]);
    assert_eq!(v.into_u32(), Ok(7));
    let v = TagValue::List(vec![TagValue::SignedBig(-5)]);
    assert_eq!(v.into_i64(), Ok(-5));
    let v = TagValue::List(vec![TagValue::Byte(3)]);
    assert_eq!(v.into_u8(), Ok(3));
    let two = TagValue::List(vec![TagValue::Byte(3), TagValue::Byte(4)]);
    assert_eq!(two.into_u8(), Err(TiffError::ValueConversion));
}

#[test]
fn signed_narrowing_checks_range() {
    assert_eq!(TagValue::SignedBig(-32768).into_i16(), Ok(-32768));
    assert_eq!(
        TagValue::SignedBig(-32769).into_i16(),
        Err(TiffError::ValueConversion)
    );
    assert_eq!(TagValue::Signed(-1).into_i32(), Ok(-1));
    assert_eq!(TagValue::SignedByte(-2).into_i8(), Ok(-2));
}

#[test]
fn rationals_flatten_into_vectors() {
    let v = TagValue::Rational(3, 4);
    assert_eq!(v.into_u32_vec(), Ok(vec![3, 4]));
    let v = TagValue::List(vec![
        TagValue::SRational(-1, 2),
        TagValue::Signed(9),
        TagValue::SRationalBig(-7, 8),
    ]);
    assert_eq!(v.into_i32_vec(), Ok(vec![-1, 2, 9, -7, 8]));
    let v = TagValue::List(vec![TagValue::SRational(-1, 2)]);
    assert_eq!(v.into_i64_vec(), Ok(vec![-1, 2]));
}

#[test]
fn strings_convert_to_character_codes() {
    let v = TagValue::Ascii("AB".to_string());
    assert_eq!(v.into_u32_vec(), Ok(vec![65, 66]));
    let v = TagValue::Ascii("A".to_string());
    assert_eq!(v.into_u64_vec(), Ok(vec![65]));
    let v = TagValue::Ascii("hi".to_string());
    assert_eq!(v.into_string(), Ok("hi".to_string()));
}

#[test]
fn float_bits_pass_through() {
    let bits = 1.5f32.to_bits();
    assert_eq!(TagValue::Float(bits).into_f32_bits(), Ok(bits));
    let dbits = 2.25f64.to_bits();
    assert_eq!(TagValue::Double(dbits).into_f64_bits(), Ok(dbits));
    assert_eq!(
        TagValue::Short(1).into_f64_bits(),
        Err(TiffError::ValueConversion)
    );
    let v = TagValue::List(vec![TagValue::Double(dbits), TagValue::Double(bits as u64)]);
    assert_eq!(v.into_f64_bits_vec(), Ok(vec![dbits, bits as u64]));
}

#[test]
fn test_from_tags_uint_types() {
    assert_eq!(
        DataType::from_tags(&vec![SampleFormat::Uint], &vec![1]),
        Some(DataType::Bool),
        "Uint 1-bit should be Bool"
    );
    assert_eq!(
        DataType::from_tags(&vec![SampleFormat::Uint], &vec![8]),
        Some(DataType::UInt8),
        "Uint 8-bit should be UInt8"
    );
    assert_eq!(
        DataType::from_tags(&vec![SampleFormat::Uint], &vec![16]),
        Some(DataType::UInt16),
        "Uint 16-bit should be UInt16"
    );
    assert_eq!(
        DataType::from_tags(&vec![SampleFormat::Uint], &vec![32]),
        Some(DataType::UInt32),
        "Uint 32-bit should be UInt32"
    );
    assert_eq!(
        DataType::from_tags(&vec![SampleFormat::Uint], &vec![64]),
        Some(DataType::UInt64),
        "Uint 64-bit should be UInt64"
    );
}

#[test]
fn test_from_tags_int_types() {
    assert_eq!(
        DataType::from_tags(&vec![SampleFormat::Int], &vec![8]),
        Some(DataType::Int8),
        "Int 8-bit should be Int8"
    );
    assert_eq!(
        DataType::from_tags(&vec![SampleFormat::Int], &vec![16]),
        Some(DataType::Int16),
        "Int 16-bit should be Int16"
    );
    assert_eq!(
        DataType::from_tags(&vec![SampleFormat::Int], &vec![32]),
        Some(DataType::Int32),
        "Int 32-bit should be Int32"
    );
    assert_eq!(
        DataType::from_tags(&vec![SampleFormat::Int], &vec![64]),
        Some(DataType::Int64),
        "Int 64-bit should be Int64"
    );
}

#[test]
fn test_from_tags_float_types() {
    assert_eq!(
        DataType::from_tags(&vec![SampleFormat::Float], &vec![32]),
        Some(DataType::Float32),
        "Float 32-bit should be Float32"
    );
    assert_eq!(
        DataType::from_tags(&vec![SampleFormat::Float], &vec![64]),
        Some(DataType::Float64),
        "Float 64-bit should be Float64"
    );
}

#[test]
fn test_from_tags_rgb_consistent() {
    // RGB image with 3 samples, all UInt8
    assert_eq!(
        DataType::from_tags(
            &vec![SampleFormat::Uint, SampleFormat::Uint, SampleFormat::Uint],
            &vec![8, 8, 8]
        ),
        Some(DataType::UInt8),
        "RGB with consistent UInt8 should succeed"
    );

    // RGB image with 3 samples, all UInt16
    assert_eq!(
        DataType::from_tags(
            &vec![SampleFormat::Uint, SampleFormat::Uint, SampleFormat::Uint],
            &vec![16, 16, 16]
        ),
        Some(DataType::UInt16),
        "RGB with consistent UInt16 should succeed"
    );
}

#[test]
fn test_from_tags_inconsistent_format() {
    // Mixed formats should return None
    assert_eq!(
        DataType::from_tags(&vec![SampleFormat::Uint, SampleFormat::Int], &vec![8, 8]),
        None,
        "Inconsistent sample formats should return None"
    );
}

#[test]
fn test_from_tags_inconsistent_bits() {
    // Mixed bit depths should return None
    assert_eq!(
        DataType::from_tags(&vec![SampleFormat::Uint, SampleFormat::Uint], &vec![8, 16]),
        None,
        "Inconsistent bit depths should return None"
    );
}

#[test]
fn test_from_tags_empty_arrays() {
    assert_eq!(
        DataType::from_tags(&vec![], &vec![]),
        None,
        "Empty arrays should return None"
    );
}

#[test]
fn test_from_tags_unsupported_bit_depth() {
    // Unsupported bit depth
    assert_eq!(
        DataType::from_tags(&vec![SampleFormat::Uint], &vec![12]),
        None,
        "Unsupported bit depth (12) should return None"
    );
    assert_eq!(
        DataType::from_tags(&vec![SampleFormat::Uint], &vec![24]),
        None,
        "Unsupported bit depth (24) should return None"
    );
}

#[test]
fn test_from_tags_unsupported_format() {
    // Void format is not supported
    assert_eq!(
        DataType::from_tags(&vec![SampleFormat::Void], &vec![8]),
        None,
        "Void format should return None"
    );

    // Unknown format should also return None
    assert_eq!(
        DataType::from_tags(&vec![SampleFormat::Unknown(99)], &vec![8]),
        None,
        "Unknown format should return None"
    );
}

#[test]
fn geo_key_resolves_ascii_and_strips_separator() {
    // One key: citation (1026) pointing into the ASCII parameter block.
    let ascii = "WGS 84|extra|".to_string();
    let dir: Vec<u16> = vec![
        1, 1, 0, 2, // header: version, revision, minor, two keys
        1026, 34737, 7, 0, // key 1026: seven characters at offset zero
        2048, 0, 1, 4326, // key 2048: inline short
    ];
    let g = GeoKeyDirectory::from_raw(&dir, Some(&ascii), None).unwrap();
    assert_eq!(g.len(), 2);
    match g.get(1026) {
        Some(GeoKeyValue::Ascii(s)) => assert_eq!(s, "WGS 84"),
        other => panic!("unexpected value {:?}", other),
    }
    assert_eq!(g.get(2048), Some(&GeoKeyValue::Short(4326)));
}

#[test]
fn geo_key_keeps_unknown_locations_raw_and_reads_doubles() {
    let doubles: Vec<u64> = vec![1.5f64.to_bits(), 2.5f64.to_bits(), 3.5f64.to_bits()];
    let dir: Vec<u16> = vec![
        1, 1, 0, 3, // header
        2057, 34736, 1, 1, // one double at offset one
        2059, 34736, 2, 1, // two doubles at offset one
        9999, 12345, 4, 7, // unknown location code stays raw
    ];
    let g = GeoKeyDirectory::from_raw(&dir, None, Some(&doubles)).unwrap();
    assert_eq!(g.get(2057), Some(&GeoKeyValue::Double(2.5f64.to_bits())));
    assert_eq!(
        g.get(2059),
        Some(&GeoKeyValue::Doubles(vec![2.5f64.to_bits(), 3.5f64.to_bits()]))
    );
    assert_eq!(g.get(9999), Some(&GeoKeyValue::Raw(12345, 4, 7)));
}

#[test]
fn geo_key_rejects_bad_header_and_bounds() {
    assert_eq!(
        GeoKeyDirectory::from_raw(&vec![2, 1, 0, 0], None, None),
        Err(TiffError::Format(34735))
    );
    let dir: Vec<u16> = vec![1, 1, 0, 1, 1026, 34737, 4, 0];
    assert_eq!(
        GeoKeyDirectory::from_raw(&dir, None, None),
        Err(TiffError::Format(34735))
    );
    let short_ascii = "ab".to_string();
    assert_eq!(
        GeoKeyDirectory::from_raw(&dir, Some(&short_ascii), None),
        Err(TiffError::Format(34735))
    );
}

#[test]
fn test_parse_file_with_unknown_geokey() {
    // A key id nobody recognises still parses and is kept in the table.
    let dir: Vec<u16> = vec![1, 1, 0, 2, 1024, 0, 1, 1, 60000, 0, 1, 42];
    let g = GeoKeyDirectory::from_raw(&dir, None, None).unwrap();
    assert_eq!(g.len(), 2);
    assert_eq!(g.get(60000), Some(&GeoKeyValue::Short(42)));
}
